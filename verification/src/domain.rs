pub mod disparo;
pub mod entidades;
pub mod espaco;
pub mod estrategias_ia;
pub mod jogador_ia;
pub mod tabuleiro;
