use batalha_naval::domain::disparo::{executar_disparo, ResultadoDisparo};
use batalha_naval::domain::tabuleiro::{Celula, EstadoTabuleiro};
use batalha_naval::presentation::renderizacao_tabuleiro::{
    aparencia_agua, aparencia_celula, aparencia_resultado, celula_do_mapa, celulas_afundadas,
    Aparencia,
};

#[test]
fn agua_em_xadrez() {
    assert_eq!(aparencia_agua(0, 0), Aparencia::AguaClara);
    assert_eq!(aparencia_agua(0, 1), Aparencia::AguaEscura);
    assert_eq!(aparencia_agua(3, 5), Aparencia::AguaClara);
    assert_eq!(aparencia_agua(9, 8), Aparencia::AguaEscura);
}

#[test]
fn aparencia_de_cada_celula() {
    assert_eq!(aparencia_celula(Celula::Vazio, 1, 2), Aparencia::AguaEscura);
    assert_eq!(aparencia_celula(Celula::Ocupado(3), 1, 2), Aparencia::Navio(3));
    assert_eq!(aparencia_celula(Celula::AguaAtirada, 1, 2), Aparencia::AguaAtingida);
    assert_eq!(aparencia_celula(Celula::Atingido(0), 1, 2), Aparencia::NavioAtingido);
    assert_eq!(aparencia_celula(Celula::Afundado(0), 1, 2), Aparencia::NavioAfundado);
}

#[test]
fn aparencia_de_cada_resultado() {
    assert_eq!(aparencia_resultado(&ResultadoDisparo::Agua), Some(Aparencia::AguaAtingida));
    assert_eq!(aparencia_resultado(&ResultadoDisparo::Acerto), Some(Aparencia::NavioAtingido));
    assert_eq!(
        aparencia_resultado(&ResultadoDisparo::Afundou("Submarino".to_string())),
        Some(Aparencia::NavioAfundado)
    );
    assert_eq!(aparencia_resultado(&ResultadoDisparo::JaDisparado), None);
    assert_eq!(aparencia_resultado(&ResultadoDisparo::ForaDosLimites), None);
}

#[test]
fn celulas_de_um_navio_afundado() {
    let mut t = EstadoTabuleiro::vazio();
    t.posicionar_navio("Encouraçado", 2, 2, 3, false).unwrap();
    t.posicionar_navio("Submarino", 0, 0, 1, true).unwrap();
    assert!(celulas_afundadas(&t, 0).is_empty());
    for x in 2..5 {
        executar_disparo(&mut t, x, 2);
    }
    executar_disparo(&mut t, 0, 0);
    assert_eq!(celulas_afundadas(&t, 0), vec![(2, 2), (3, 2), (4, 2)]);
    assert_eq!(celulas_afundadas(&t, 1), vec![(0, 0)]);
    assert!(celulas_afundadas(&t, 2).is_empty());
}

#[test]
fn celula_do_mapa_troca_linha_e_coluna() {
    assert_eq!(celula_do_mapa(3, 7), Some((7, 3)));
    assert_eq!(celula_do_mapa(0, 0), Some((0, 0)));
    assert_eq!(celula_do_mapa(9, 9), Some((9, 9)));
    assert_eq!(celula_do_mapa(10, 0), None);
    assert_eq!(celula_do_mapa(0, -1), None);
}
