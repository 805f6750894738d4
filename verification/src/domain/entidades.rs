pub mod conquista;
pub mod usuario;
