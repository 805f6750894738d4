use batalha_naval::texto::escrever_decimal;
use batalha_naval::domain::disparo::{executar_disparo, ResultadoDisparo};
use batalha_naval::domain::tabuleiro::{Celula, EstadoTabuleiro};

#[test]
fn disparo_na_agua() {
    let mut t = EstadoTabuleiro::vazio();
    let r = executar_disparo(&mut t, 3, 7);
    assert_eq!(r.resultado, ResultadoDisparo::Agua);
    assert_eq!(r.mensagem, "Água em [3, 7]!");
    assert_eq!(t.valor_celula(3, 7), Some(Celula::AguaAtirada));
    assert!(r.resultado.foi_valido());
}

#[test]
fn disparo_repetido() {
    let mut t = EstadoTabuleiro::vazio();
    executar_disparo(&mut t, 0, 0);
    let r = executar_disparo(&mut t, 0, 0);
    assert_eq!(r.resultado, ResultadoDisparo::JaDisparado);
    assert_eq!(r.mensagem, "Você já atirou aqui!");
    assert!(!r.resultado.foi_valido());
}

#[test]
fn acerto_e_afundamento() {
    let mut t = EstadoTabuleiro::vazio();
    t.posicionar_navio("Navio de Guerra", 4, 2, 4, false).unwrap();
    for x in 4..7 {
        let r = executar_disparo(&mut t, x, 2);
        assert_eq!(r.resultado, ResultadoDisparo::Acerto);
        assert_eq!(r.mensagem, format!("Fogo em [{}, 2]!", x));
        assert_eq!(t.valor_celula(x, 2), Some(Celula::Atingido(0)));
    }
    assert_eq!(t.navios[0].acertos, 3);
    let r = executar_disparo(&mut t, 7, 2);
    assert_eq!(r.resultado, ResultadoDisparo::Afundou("Navio de Guerra".to_string()));
    assert_eq!(r.mensagem, "KABOOM! O Navio de Guerra afundou!");
    for x in 4..8 {
        assert_eq!(t.valor_celula(x, 2), Some(Celula::Afundado(0)));
    }
    assert!(t.navios[0].esta_afundado());
    assert!(t.todos_afundados());
    // A sunk ship's cell counts as shot.
    assert_eq!(executar_disparo(&mut t, 5, 2).resultado, ResultadoDisparo::JaDisparado);
}

#[test]
fn submarino_afunda_no_primeiro_tiro() {
    let mut t = EstadoTabuleiro::vazio();
    t.posicionar_navio("Submarino", 9, 9, 1, true).unwrap();
    t.posicionar_navio("Encouraçado", 0, 0, 3, true).unwrap();
    let r = executar_disparo(&mut t, 9, 9);
    assert_eq!(r.resultado, ResultadoDisparo::Afundou("Submarino".to_string()));
    assert_eq!(t.valor_celula(9, 9), Some(Celula::Afundado(0)));
    assert!(!t.todos_afundados());
}

#[test]
fn mensagem_de_agua_na_borda() {
    let mut t = EstadoTabuleiro::vazio();
    let r = executar_disparo(&mut t, 9, 0);
    assert_eq!(r.mensagem, "Água em [9, 0]!");
}

#[test]
fn disparo_num_tabuleiro_com_contas_desfeitas() {
    let mut t = EstadoTabuleiro::vazio();
    t.posicionar_navio("Submarino", 0, 0, 1, true).unwrap();
    // An extra intact cell of ship 0 that its length does not count.
    t.definir_celula(5, 5, Celula::Ocupado(0));
    let r = executar_disparo(&mut t, 5, 5);
    assert_eq!(r.resultado, ResultadoDisparo::Afundou("Submarino".to_string()));
    assert_eq!(t.valor_celula(5, 5), Some(Celula::Afundado(0)));
    // The ship's other intact cell stays as it was.
    assert_eq!(t.valor_celula(0, 0), Some(Celula::Ocupado(0)));
}

#[test]
fn mensagens_com_numeros_de_varios_digitos() {
    assert_eq!(escrever_decimal(0), "0");
    assert_eq!(escrever_decimal(7), "7");
    assert_eq!(escrever_decimal(10), "10");
    assert_eq!(escrever_decimal(4096), "4096");
    assert_eq!(escrever_decimal(u64::MAX), u64::MAX.to_string());
}
