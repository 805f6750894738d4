pub mod renderizacao_tabuleiro;
