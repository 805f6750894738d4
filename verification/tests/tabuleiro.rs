use batalha_naval::domain::disparo::{executar_disparo, ResultadoDisparo};
use batalha_naval::domain::tabuleiro::{frota_padrao, total_navios, Celula, EstadoTabuleiro, Navio};

fn contar(t: &EstadoTabuleiro, f: impl Fn(Celula) -> bool) -> usize {
    let mut n = 0;
    for x in 0..10 {
        for y in 0..10 {
            if f(t.valor_celula(x, y).unwrap()) {
                n += 1;
            }
        }
    }
    n
}

#[test]
fn tabuleiro_vazio_so_tem_agua() {
    let t = EstadoTabuleiro::vazio();
    assert!(t.navios.is_empty());
    assert_eq!(contar(&t, |c| c == Celula::Vazio), 100);
    assert_eq!(t.valor_celula(10, 0), None);
    assert_eq!(t.valor_celula(0, 10), None);
}

#[test]
fn frota_padrao_tem_seis_navios() {
    let f = frota_padrao();
    assert_eq!(f.len(), 4);
    assert_eq!(f[0].nome, "Porta-Aviões");
    assert_eq!(f[0].tamanho, 6);
    assert_eq!(f[3].nome, "Submarino");
    assert_eq!(total_navios(&f), 6);
}

#[test]
fn navio_afunda_com_tantos_acertos_quanto_celulas() {
    let mut n = Navio::novo("Encouraçado", 3);
    assert_eq!(n.acertos, 0);
    assert!(!n.esta_afundado());
    n.acertos = 3;
    assert!(n.esta_afundado());
}

#[test]
fn posicionar_navio_ocupa_as_celulas() {
    let mut t = EstadoTabuleiro::vazio();
    assert_eq!(t.posicionar_navio("Navio de Guerra", 2, 3, 4, true), Ok(()));
    for y in 3..7 {
        assert_eq!(t.valor_celula(2, y), Some(Celula::Ocupado(0)));
    }
    assert_eq!(t.valor_celula(2, 7), Some(Celula::Vazio));
    assert_eq!(t.posicionar_navio("Submarino", 5, 5, 3, false), Ok(()));
    for x in 5..8 {
        assert_eq!(t.valor_celula(x, 5), Some(Celula::Ocupado(1)));
    }
    assert_eq!(t.navios.len(), 2);
    assert_eq!(t.navios[1].nome, "Submarino");
}

#[test]
fn posicionar_fora_do_mapa_falha() {
    let mut t = EstadoTabuleiro::vazio();
    assert_eq!(t.posicionar_navio("Porta-Aviões", 0, 5, 6, true), Err("Fora do mapa".to_string()));
    assert_eq!(t.validar_posicao_navio(9, 0, 2, false), Err("Fora do mapa".to_string()));
    assert!(t.navios.is_empty());
    assert_eq!(contar(&t, |c| c == Celula::Vazio), 100);
}

#[test]
fn posicionar_sobre_outro_navio_falha() {
    let mut t = EstadoTabuleiro::vazio();
    t.posicionar_navio("Navio de Guerra", 0, 0, 4, true).unwrap();
    assert_eq!(t.posicionar_navio("Encouraçado", 0, 2, 3, false), Err("Posição ocupada".to_string()));
    assert!(!t.pode_posicionar_navio(0, 3, 1, true));
    assert!(t.pode_posicionar_navio(1, 0, 4, true));
    assert_eq!(t.navios.len(), 1);
}

#[test]
fn primeira_falha_decide_o_erro() {
    let mut t = EstadoTabuleiro::vazio();
    t.posicionar_navio("Submarino", 0, 8, 1, true).unwrap();
    // The occupied cell comes before the edge of the board.
    assert_eq!(t.validar_posicao_navio(0, 6, 6, true), Err("Posição ocupada".to_string()));
}

#[test]
fn remover_desfaz_posicionar() {
    let mut t = EstadoTabuleiro::vazio();
    t.posicionar_navio("Navio de Guerra", 0, 0, 4, true).unwrap();
    t.posicionar_navio("Encouraçado", 5, 5, 3, false).unwrap();
    assert_eq!(t.remover_navio_na_posicao(0, 2), Some("Navio de Guerra".to_string()));
    assert_eq!(t.navios.len(), 1);
    assert_eq!(t.navios[0].nome, "Encouraçado");
    for y in 0..4 {
        assert_eq!(t.valor_celula(0, y), Some(Celula::Vazio));
    }
    // The remaining ship takes the index of the removed one.
    for x in 5..8 {
        assert_eq!(t.valor_celula(x, 5), Some(Celula::Ocupado(0)));
    }
    assert_eq!(t.remover_navio_na_posicao(9, 9), None);
}

#[test]
fn remover_navio_atingido() {
    let mut t = EstadoTabuleiro::vazio();
    t.posicionar_navio("Encouraçado", 1, 1, 3, true).unwrap();
    executar_disparo(&mut t, 1, 2);
    assert_eq!(t.remover_navio_na_posicao(1, 2), Some("Encouraçado".to_string()));
    assert!(t.navios.is_empty());
    assert_eq!(contar(&t, |c| c == Celula::Vazio), 100);
}

#[test]
fn definir_celula_fora_do_mapa_nao_muda_nada() {
    let mut t = EstadoTabuleiro::vazio();
    t.definir_celula(10, 3, Celula::AguaAtirada);
    assert_eq!(contar(&t, |c| c == Celula::Vazio), 100);
    t.definir_celula(4, 3, Celula::AguaAtirada);
    assert_eq!(t.valor_celula(4, 3), Some(Celula::AguaAtirada));
}

#[test]
fn afundar_navio_troca_so_as_celulas_atingidas_dele() {
    let mut t = EstadoTabuleiro::vazio();
    t.posicionar_navio("Encouraçado", 0, 0, 3, true).unwrap();
    t.posicionar_navio("Encouraçado", 2, 0, 3, true).unwrap();
    executar_disparo(&mut t, 0, 0);
    executar_disparo(&mut t, 2, 0);
    t.afundar_navio(0);
    assert_eq!(t.valor_celula(0, 0), Some(Celula::Afundado(0)));
    assert_eq!(t.valor_celula(0, 1), Some(Celula::Ocupado(0)));
    assert_eq!(t.valor_celula(2, 0), Some(Celula::Atingido(1)));
}

#[test]
fn posicoes_livres_de_um_tabuleiro_vazio() {
    let t = EstadoTabuleiro::vazio();
    // A ship of 1 fits at every cell, both ways.
    assert_eq!(t.posicoes_livres(1).len(), 200);
    // A ship of 10 fits once per row and once per column.
    assert_eq!(t.posicoes_livres(10).len(), 20);
    assert_eq!(t.posicoes_livres(11).len(), 0);
}

#[test]
fn posicionar_na_opcao_fora_das_opcoes_nao_muda_nada() {
    let mut t = EstadoTabuleiro::vazio();
    assert!(!t.posicionar_na_opcao("Porta-Aviões", 10, 20));
    assert!(t.navios.is_empty());
    // The options go by row, then column, each first along the row: the second one is the
    // column 0 downwards, the last one the row 9.
    assert!(t.posicionar_na_opcao("Porta-Aviões", 10, 1));
    for x in 0..10 {
        assert_eq!(t.valor_celula(x, 0), Some(Celula::Ocupado(0)));
    }
    let mut u = EstadoTabuleiro::vazio();
    assert!(u.posicionar_na_opcao("Porta-Aviões", 10, 19));
    for y in 0..10 {
        assert_eq!(u.valor_celula(9, y), Some(Celula::Ocupado(0)));
    }
}

#[test]
fn disparo_fora_do_mapa() {
    let mut t = EstadoTabuleiro::vazio();
    let r = executar_disparo(&mut t, 10, 0);
    assert_eq!(r.resultado, ResultadoDisparo::ForaDosLimites);
    assert_eq!(r.mensagem, "Alvo fora do mapa!");
    assert!(!r.resultado.foi_valido());
}

#[test]
fn preencher_aleatoriamente_posiciona_a_frota() {
    for sorteios in [[0u32; 6], [1, 2, 3, 4, 5, 6], [u32::MAX; 6], [17, 99, 1234, 7, 42, 3]] {
        let mut t = EstadoTabuleiro::vazio();
        t.preencher_aleatoriamente(sorteios);
        let nomes: Vec<(&str, usize)> = t.navios.iter().map(|n| (n.nome.as_str(), n.tamanho)).collect();
        assert_eq!(
            nomes,
            vec![
                ("Porta-Aviões", 6),
                ("Porta-Aviões", 6),
                ("Navio de Guerra", 4),
                ("Navio de Guerra", 4),
                ("Encouraçado", 3),
                ("Submarino", 1)
            ]
        );
        assert_eq!(contar(&t, |c| c == Celula::Vazio), 76);
        for (i, n) in t.navios.iter().enumerate() {
            assert_eq!(n.acertos, 0);
            let celulas: Vec<(usize, usize)> = (0..100)
                .map(|k| (k / 10, k % 10))
                .filter(|&(x, y)| t.valor_celula(x, y) == Some(Celula::Ocupado(i)))
                .collect();
            assert_eq!(celulas.len(), n.tamanho);
            let (x0, y0) = celulas[0];
            let na_linha = celulas.iter().enumerate().all(|(j, &c)| c == (x0, y0 + j));
            let na_coluna = celulas.iter().enumerate().all(|(j, &c)| c == (x0 + j, y0));
            assert!(na_linha || na_coluna);
        }
    }
}

#[test]
fn primeiro_sorteio_poe_o_porta_avioes_no_canto() {
    let mut t = EstadoTabuleiro::vazio();
    t.preencher_aleatoriamente([0; 6]);
    for y in 0..6 {
        assert_eq!(t.valor_celula(0, y), Some(Celula::Ocupado(0)));
    }
}

#[test]
fn segundo_sorteio_poe_o_porta_avioes_na_coluna() {
    let mut t = EstadoTabuleiro::vazio();
    t.preencher_aleatoriamente([1, 0, 0, 0, 0, 0]);
    for x in 0..6 {
        assert_eq!(t.valor_celula(x, 0), Some(Celula::Ocupado(0)));
    }
    assert_ne!(t.valor_celula(0, 1), Some(Celula::Ocupado(0)));
}

#[test]
fn cada_navio_vai_para_a_opcao_do_seu_sorteio() {
    let fila = [
        ("Porta-Aviões", 6usize),
        ("Porta-Aviões", 6),
        ("Navio de Guerra", 4),
        ("Navio de Guerra", 4),
        ("Encouraçado", 3),
        ("Submarino", 1),
    ];
    for sorteios in [[0u32; 6], [1, 2, 3, 4, 5, 6], [u32::MAX; 6], [17, 99, 1234, 7, 42, 3]] {
        let mut t = EstadoTabuleiro::vazio();
        t.preencher_aleatoriamente(sorteios);
        let mut passo = EstadoTabuleiro::vazio();
        for (k, (nome, tamanho)) in fila.iter().enumerate() {
            let opcoes = passo.posicoes_livres(*tamanho);
            assert!(!opcoes.is_empty());
            let indice = (sorteios[k] as usize) % opcoes.len();
            assert!(passo.posicionar_na_opcao(nome, *tamanho, indice));
        }
        for x in 0..10 {
            for y in 0..10 {
                assert_eq!(t.valor_celula(x, y), passo.valor_celula(x, y));
            }
        }
    }
    let mut a = EstadoTabuleiro::vazio();
    a.preencher_aleatoriamente([0; 6]);
    let mut b = EstadoTabuleiro::vazio();
    b.preencher_aleatoriamente([17, 99, 1234, 7, 42, 3]);
    let iguais = (0..100).all(|k| a.valor_celula(k / 10, k % 10) == b.valor_celula(k / 10, k % 10));
    assert!(!iguais);
}

#[test]
fn numero_navios_conta_os_navios_postos() {
    let mut t = EstadoTabuleiro::vazio();
    assert_eq!(t.numero_navios(), 0);
    assert!(t.posicionar_navio("Submarino", 0, 0, 1, true).is_ok());
    assert!(t.posicionar_navio("Encouraçado", 2, 2, 3, false).is_ok());
    assert_eq!(t.numero_navios(), 2);
    assert_eq!(t.remover_navio_na_posicao(3, 2), Some("Encouraçado".to_string()));
    assert_eq!(t.numero_navios(), 1);
}
