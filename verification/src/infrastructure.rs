pub mod repositorio_usuario_json;
