use batalha_naval::domain::disparo::{ResultadoDisparo, RetornoDisparo};
use batalha_naval::domain::estrategias_ia::dificil::EstrategiaDificil;
use batalha_naval::domain::estrategias_ia::facil::EstrategiaFacil;
use batalha_naval::domain::estrategias_ia::intermediaria::EstrategiaIntermediaria;
use batalha_naval::domain::estrategias_ia::{alvos_disponiveis, sortear_alvo};
use batalha_naval::domain::estrategias_ia::EscolhaAlvo;
use batalha_naval::domain::jogador_ia::{Dificuldade, JogadorIA};
use batalha_naval::domain::tabuleiro::{Celula, EstadoTabuleiro};

fn retorno(resultado: ResultadoDisparo) -> RetornoDisparo {
    RetornoDisparo { resultado, mensagem: String::new() }
}

fn tudo_atirado_menos(x: usize, y: usize) -> EstadoTabuleiro {
    let mut t = EstadoTabuleiro::vazio();
    for a in 0..10 {
        for b in 0..10 {
            if (a, b) != (x, y) {
                t.definir_celula(a, b, Celula::AguaAtirada);
            }
        }
    }
    t
}

#[test]
fn alvos_disponiveis_em_ordem() {
    let t = tudo_atirado_menos(3, 4);
    assert_eq!(alvos_disponiveis(&t), vec![(3, 4)]);
    let v = EstadoTabuleiro::vazio();
    let todos = alvos_disponiveis(&v);
    assert_eq!(todos.len(), 100);
    assert_eq!(todos[0], (0, 0));
    assert_eq!(todos[11], (1, 1));
}

#[test]
fn facil_sem_celulas_livres_nao_atira() {
    let mut cheio = tudo_atirado_menos(0, 0);
    cheio.definir_celula(0, 0, Celula::AguaAtirada);
    let mut f = EstrategiaFacil;
    assert_eq!(f.escolher_alvo(&cheio, 7), None);
    assert_eq!(sortear_alvo(&cheio, 7), None);
    assert!(alvos_disponiveis(&cheio).is_empty());
}

#[test]
fn intermediaria_segue_os_acertos() {
    let mut m = EstrategiaIntermediaria::nova();
    let mut t = EstadoTabuleiro::vazio();
    m.notificar_resultado(5, 5, &retorno(ResultadoDisparo::Acerto));
    t.definir_celula(5, 5, Celula::Atingido(0));
    // With one hit, the first free neighbour: north.
    assert_eq!(m.escolher_alvo(&t, 0), Some((4, 5)));
    m.notificar_resultado(5, 6, &retorno(ResultadoDisparo::Acerto));
    t.definir_celula(5, 6, Celula::Atingido(0));
    // Two hits along the row: onwards to the east.
    assert_eq!(m.escolher_alvo(&t, 0), Some((5, 7)));
    t.definir_celula(5, 7, Celula::AguaAtirada);
    m.notificar_resultado(5, 7, &retorno(ResultadoDisparo::Agua));
    // Blocked to the east: back past the first hit, to the west.
    assert_eq!(m.escolher_alvo(&t, 0), Some((5, 4)));
    t.definir_celula(5, 4, Celula::AguaAtirada);
    m.notificar_resultado(5, 4, &retorno(ResultadoDisparo::Agua));
    // Blocked both ways: the first free neighbour of a hit.
    assert_eq!(m.escolher_alvo(&t, 0), Some((4, 5)));
}

#[test]
fn dificil_pesa_as_posicoes_no_comeco() {
    let d = EstrategiaDificil::nova();
    assert_eq!(d.alvo_linear(0), None);
    assert!(d.pontas_prioritarias().is_empty());
    let p = d.pesos();
    assert_eq!(p.len(), 100);
    let canto = p[0];
    // Each of the four lengths fits once along the row and once down the column.
    assert_eq!(canto.contagem, 8);
    assert!(canto.paridade && canto.borda && canto.candidata);
    assert_eq!(canto.foco, 1);
    let centro = p[44];
    assert_eq!(centro.contagem, 26);
    assert!(centro.paridade && !centro.borda);
}

#[test]
fn dificil_cerca_um_acerto_isolado() {
    let mut d = EstrategiaDificil::nova();
    d.notificar_resultado(4, 4, &retorno(ResultadoDisparo::Acerto));
    assert_eq!(d.alvo_linear(0), None);
    let p = d.pesos();
    for k in [34usize, 54, 43, 45] {
        assert_eq!(p[k].foco, 10, "celula {}", k);
    }
    assert_eq!(p[44].foco, 1);
    assert!(!p[44].candidata);
    assert!(!p[0].paridade && !p[0].borda);
    // While it hunts, only placements over the hit count.
    assert_eq!(p[0].contagem, 0);
}

#[test]
fn dificil_ataca_as_pontas_de_uma_linha() {
    let mut d = EstrategiaDificil::nova();
    d.notificar_resultado(4, 4, &retorno(ResultadoDisparo::Acerto));
    d.notificar_resultado(4, 5, &retorno(ResultadoDisparo::Acerto));
    assert_eq!(d.pontas_prioritarias(), vec![(4, 3), (4, 6)]);
    d.notificar_resultado(4, 3, &retorno(ResultadoDisparo::Agua));
    assert_eq!(d.pontas_prioritarias(), vec![(4, 6)]);
    d.notificar_resultado(4, 6, &retorno(ResultadoDisparo::Agua));
    // Both ends shot: it weighs the board again, around the line.
    assert!(d.pontas_prioritarias().is_empty());
    assert_eq!(d.alvo_linear(0), None);
}

#[test]
fn dificil_prefere_a_linha_mais_longa() {
    let mut d = EstrategiaDificil::nova();
    d.notificar_resultado(0, 0, &retorno(ResultadoDisparo::Acerto));
    d.notificar_resultado(0, 1, &retorno(ResultadoDisparo::Acerto));
    d.notificar_resultado(6, 5, &retorno(ResultadoDisparo::Acerto));
    d.notificar_resultado(7, 5, &retorno(ResultadoDisparo::Acerto));
    d.notificar_resultado(8, 5, &retorno(ResultadoDisparo::Acerto));
    assert_eq!(d.pontas_prioritarias(), vec![(5, 5), (9, 5)]);
    let p = d.pesos();
    assert_eq!(p[55].foco, 100);
    assert_eq!(p[95].foco, 100);
    assert_eq!(p[2].foco, 1);
}

#[test]
fn dificil_afunda_a_linha_e_esquece_os_acertos_dela() {
    let mut d = EstrategiaDificil::nova();
    d.notificar_resultado(4, 4, &retorno(ResultadoDisparo::Acerto));
    d.notificar_resultado(4, 5, &retorno(ResultadoDisparo::Acerto));
    d.notificar_resultado(8, 8, &retorno(ResultadoDisparo::Acerto));
    d.notificar_resultado(4, 6, &retorno(ResultadoDisparo::Afundou("Encouraçado".to_string())));
    // The hit on another ship stays.
    let p = d.pesos();
    for k in [78usize, 98, 87, 89] {
        assert_eq!(p[k].foco, 10, "celula {}", k);
    }
    for k in [44usize, 45, 46] {
        assert!(!p[k].candidata);
    }
}

#[test]
fn dificil_conta_um_navio_a_menos_quando_afunda() {
    let mut d = EstrategiaDificil::nova();
    d.notificar_resultado(0, 4, &retorno(ResultadoDisparo::Acerto));
    d.notificar_resultado(0, 5, &retorno(ResultadoDisparo::Acerto));
    d.notificar_resultado(0, 6, &retorno(ResultadoDisparo::Afundou("Encouraçado".to_string())));
    assert_eq!(d.alvo_linear(0), None);
    let p = d.pesos();
    // The only ship of three is gone: the far corner now holds 6, 4 and 1.
    assert_eq!(p[99].contagem, 6);
    // The smallest ship afloat is still the submarine.
    assert!(p[99].paridade);
}

#[test]
fn dificil_ignora_tiros_que_nao_contam() {
    let mut d = EstrategiaDificil::nova();
    d.notificar_resultado(20, 20, &retorno(ResultadoDisparo::ForaDosLimites));
    d.notificar_resultado(1, 1, &retorno(ResultadoDisparo::JaDisparado));
    assert!(d.pesos()[11].candidata);
}

#[test]
fn jogador_ia_escolhe_e_recebe_disparos() {
    let mut ia = JogadorIA::novo(Dificuldade::Intermediario);
    assert!(ia.perdeu());
    assert!(ia.tabuleiro().navios.is_empty());
    let t = EstadoTabuleiro::vazio();
    ia.notificar_resultado(0, 0, &retorno(ResultadoDisparo::Acerto));
    match ia.escolher_alvo(&t, 0) {
        EscolhaAlvo::Celula(c) => assert_eq!(c, Some((1, 0))),
        EscolhaAlvo::Pesos(_) => panic!("o inimigo médio escolhe uma célula"),
    }
    let r = ia.receber_disparo(10, 10);
    assert_eq!(r.resultado, ResultadoDisparo::ForaDosLimites);
    let r = ia.receber_disparo(3, 3);
    assert_eq!(r.resultado, ResultadoDisparo::Agua);
    assert_eq!(ia.tabuleiro().valor_celula(3, 3), Some(Celula::AguaAtirada));
}

#[test]
fn jogador_ia_dificil_devolve_pesos_sem_linha() {
    let mut ia = JogadorIA::novo_dificil();
    let t = EstadoTabuleiro::vazio();
    match ia.escolher_alvo(&t, 0) {
        EscolhaAlvo::Pesos(p) => assert_eq!(p.len(), 100),
        EscolhaAlvo::Celula(_) => panic!("sem acertos o inimigo difícil pesa o tabuleiro"),
    }
    ia.notificar_resultado(3, 3, &retorno(ResultadoDisparo::Acerto));
    match ia.escolher_alvo(&t, 0) {
        EscolhaAlvo::Pesos(p) => assert_eq!(p[23].foco, 10),
        EscolhaAlvo::Celula(_) => panic!("um acerto isolado não forma uma linha"),
    }
}

#[test]
fn facil_nao_aprende() {
    let mut ia = JogadorIA::novo_facil();
    ia.notificar_resultado(3, 3, &retorno(ResultadoDisparo::Acerto));
    let mut cheio = tudo_atirado_menos(0, 0);
    cheio.definir_celula(0, 0, Celula::AguaAtirada);
    match ia.escolher_alvo(&cheio, 0) {
        EscolhaAlvo::Celula(c) => assert_eq!(c, None),
        EscolhaAlvo::Pesos(_) => panic!("o inimigo fácil escolhe uma célula"),
    }
}

#[test]
fn facil_sorteia_entre_as_celulas_livres() {
    let t = tudo_atirado_menos(7, 2);
    let mut f = EstrategiaFacil;
    assert_eq!(f.escolher_alvo(&t, 0), Some((7, 2)));
    assert_eq!(f.escolher_alvo(&t, 12345), Some((7, 2)));
    let mut v = EstadoTabuleiro::vazio();
    v.definir_celula(0, 0, Celula::AguaAtirada);
    // Each free cell is what the draw of its position picks, row after row.
    assert_eq!(f.escolher_alvo(&v, 0), Some((0, 1)));
    assert_eq!(f.escolher_alvo(&v, 98), Some((9, 9)));
    assert_eq!(f.escolher_alvo(&v, 99), Some((0, 1)));
    assert_eq!(sortear_alvo(&v, 10), Some((1, 1)));
}

#[test]
fn intermediaria_sem_acertos_sorteia() {
    let mut m = EstrategiaIntermediaria::nova();
    let t = tudo_atirado_menos(4, 4);
    assert_eq!(m.escolher_alvo(&t, 3), Some((4, 4)));
}

#[test]
fn dificil_sorteia_entre_as_pontas() {
    let mut d = EstrategiaDificil::nova();
    d.notificar_resultado(4, 4, &retorno(ResultadoDisparo::Acerto));
    d.notificar_resultado(4, 5, &retorno(ResultadoDisparo::Acerto));
    assert_eq!(d.alvo_linear(0), Some((4, 3)));
    assert_eq!(d.alvo_linear(1), Some((4, 6)));
    assert_eq!(d.alvo_linear(2), Some((4, 3)));
    let t = EstadoTabuleiro::vazio();
    match d.escolher_alvo(&t, 1) {
        EscolhaAlvo::Celula(c) => assert_eq!(c, Some((4, 6))),
        EscolhaAlvo::Pesos(_) => panic!("com uma linha de acertos o inimigo difícil ataca as pontas"),
    }
}

#[test]
fn dificil_cruzamento_fica_com_a_linha() {
    let mut d = EstrategiaDificil::nova();
    for (x, y) in [(2, 1), (2, 2), (2, 3), (1, 2), (3, 2)] {
        d.notificar_resultado(x, y, &retorno(ResultadoDisparo::Acerto));
    }
    d.notificar_resultado(2, 2, &retorno(ResultadoDisparo::Afundou("Encouraçado".to_string())));
    // A 3 against 3 tie at the crossing goes to the row: the column's hits stay active.
    let p = d.pesos();
    for k in [21usize, 22, 23] {
        assert!(!p[k].candidata);
    }
    // The column's hits are now single groups: it weighs around the last one.
    assert!(d.pontas_prioritarias().is_empty());
    assert_eq!(p[42].foco, 10);
    assert_eq!(p[31].foco, 10);
    assert_eq!(p[12].foco, 1);
}

#[test]
fn jogador_ia_posiciona_a_frota_com_os_sorteios() {
    let mut ia = JogadorIA::novo_facil();
    ia.posicionar_frota([0, 1, 2, 3, 4, 5]);
    assert_eq!(ia.tabuleiro().navios.len(), 6);
    assert!(!ia.perdeu());
}

#[test]
fn dificil_linha_de_acertos_e_suas_pontas() {
    let mut d = EstrategiaDificil::nova();
    d.notificar_resultado(3, 2, &retorno(ResultadoDisparo::Acerto));
    d.notificar_resultado(3, 3, &retorno(ResultadoDisparo::Acerto));
    d.notificar_resultado(3, 4, &retorno(ResultadoDisparo::Acerto));
    d.notificar_resultado(4, 3, &retorno(ResultadoDisparo::Acerto));
    // The longer line through the cell wins: three along the row against two down the column.
    assert_eq!(d.encontrar_sequencia_linear_de_acertos(3, 3), vec![(3, 3), (3, 2), (3, 4)]);
    assert_eq!(d.encontrar_sequencia_conectada(3, 3), d.encontrar_sequencia_linear_de_acertos(3, 3));
    assert_eq!(d.encontrar_sequencia_linear_de_acertos(4, 3), vec![(4, 3), (3, 3)]);
    let linha = vec![(3, 2), (3, 3), (3, 4)];
    assert_eq!(d.obter_pontas_disponiveis(&linha), vec![(3, 1), (3, 5)]);
    assert!(d.grupo_tem_pontas_disponiveis(&linha));
    d.notificar_resultado(3, 1, &retorno(ResultadoDisparo::Agua));
    d.notificar_resultado(3, 5, &retorno(ResultadoDisparo::Agua));
    assert!(d.obter_pontas_disponiveis(&linha).is_empty());
    assert!(!d.grupo_tem_pontas_disponiveis(&linha));
    // A single hit is flanked on all four sides, as far as those are unknown.
    assert_eq!(d.obter_pontas_disponiveis(&vec![(4, 3)]), vec![(5, 3), (4, 2), (4, 4)]);
}

#[test]
fn dificil_acertos_ativos_sao_as_celulas_de_acerto() {
    let mut d = EstrategiaDificil::nova();
    d.notificar_resultado(5, 5, &retorno(ResultadoDisparo::Acerto));
    d.notificar_resultado(5, 6, &retorno(ResultadoDisparo::Acerto));
    d.notificar_resultado(0, 0, &retorno(ResultadoDisparo::Acerto));
    // The same hit told twice is recorded once.
    d.notificar_resultado(0, 0, &retorno(ResultadoDisparo::Acerto));
    d.notificar_resultado(5, 7, &retorno(ResultadoDisparo::Afundou("Encouraçado".to_string())));
    let p = d.pesos();
    // The sunk line left the hits; the lone hit at the corner stays and is followed.
    for k in [55usize, 56, 57] {
        assert!(!p[k].candidata);
    }
    assert!(d.pontas_prioritarias().is_empty());
    assert_eq!(p[10].foco, 10);
    assert_eq!(p[1].foco, 10);
    assert_eq!(p[66].foco, 1);
    assert_eq!(d.encontrar_sequencia_linear_de_acertos(0, 0), vec![(0, 0)]);
    assert_eq!(d.encontrar_sequencia_linear_de_acertos(5, 6), vec![(5, 6)]);
}
