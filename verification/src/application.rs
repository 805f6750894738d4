pub mod controle_batalha;
pub mod fase_posicionamento;
pub mod fase_selecao_dificuldade;
pub mod gerenciador_interface;
pub mod gerenciador_turnos;
