use batalha_naval::application::fase_posicionamento::{FasePosicionamento, PreviewPosicionamento};
use batalha_naval::application::fase_selecao_dificuldade::FaseSelecaoDificuldade;
use batalha_naval::domain::jogador_ia::Estrategia;
use batalha_naval::domain::tabuleiro::{Celula, EstadoTabuleiro};

#[test]
fn fase_comeca_no_primeiro_porta_avioes() {
    let f = FasePosicionamento::nova();
    assert_eq!(f.navio_atual(), Some(("Porta-Aviões", 6)));
    assert_eq!(f.orientacao_texto(), "Horizontal");
    assert!(!f.terminou());
}

#[test]
fn alternar_orientacao_duas_vezes_volta_ao_inicio() {
    let mut f = FasePosicionamento::nova();
    f.alternar_orientacao();
    assert_eq!(f.orientacao_texto(), "Vertical");
    f.alternar_orientacao();
    assert_eq!(f.orientacao_texto(), "Horizontal");
}

#[test]
fn preview_centra_o_navio_no_cursor() {
    let f = FasePosicionamento::nova();
    let t = EstadoTabuleiro::vazio();
    let p = f.preview_na_posicao(&t, 4, 5).unwrap();
    assert_eq!(
        p,
        PreviewPosicionamento {
            celulas: vec![(4, 2), (4, 3), (4, 4), (4, 5), (4, 6), (4, 7)],
            valido: true
        }
    );
}

#[test]
fn preview_corta_o_que_sai_do_mapa() {
    let f = FasePosicionamento::nova();
    let t = EstadoTabuleiro::vazio();
    let p = f.preview_na_posicao(&t, 0, 9).unwrap();
    assert_eq!(p.celulas, vec![(0, 6), (0, 7), (0, 8), (0, 9)]);
    assert!(!p.valido);
    // Near the left edge the start is held at column 0.
    let p = f.preview_na_posicao(&t, 0, 1).unwrap();
    assert_eq!(p.celulas, vec![(0, 0), (0, 1), (0, 2), (0, 3), (0, 4), (0, 5)]);
    assert!(p.valido);
}

#[test]
fn preview_sobre_navio_nao_vale() {
    let f = FasePosicionamento::nova();
    let mut t = EstadoTabuleiro::vazio();
    t.posicionar_navio("Submarino", 4, 4, 1, true).unwrap();
    let p = f.preview_na_posicao(&t, 4, 5).unwrap();
    assert_eq!(p.celulas.len(), 6);
    assert!(!p.valido);
}

#[test]
fn posicionar_a_frota_toda() {
    let mut f = FasePosicionamento::nova();
    let mut t = EstadoTabuleiro::vazio();
    let linhas = [0usize, 2, 4, 6, 8];
    for (i, x) in linhas.iter().enumerate() {
        assert_eq!(f.tentar_posicionar_navio(&mut t, *x, 5), Ok(false), "navio {}", i);
    }
    assert_eq!(f.navio_atual(), Some(("Submarino", 1)));
    assert_eq!(f.tentar_posicionar_navio(&mut t, 9, 9), Ok(true));
    assert!(f.terminou());
    assert_eq!(f.navio_atual(), None);
    assert_eq!(t.navios.len(), 6);
    assert_eq!(t.valor_celula(9, 9), Some(Celula::Ocupado(5)));
    // Nothing is left to place: the board no longer changes.
    assert_eq!(f.tentar_posicionar_navio(&mut t, 1, 1), Ok(true));
    assert_eq!(t.navios.len(), 6);
    assert_eq!(f.preview_na_posicao(&t, 1, 1), None);
}

#[test]
fn posicionar_em_lugar_ruim_nao_avanca() {
    let mut f = FasePosicionamento::nova();
    let mut t = EstadoTabuleiro::vazio();
    f.alternar_orientacao();
    assert_eq!(f.tentar_posicionar_navio(&mut t, 9, 0), Err("Fora do mapa".to_string()));
    assert_eq!(f.navio_atual(), Some(("Porta-Aviões", 6)));
    assert!(t.navios.is_empty());
    assert_eq!(f.tentar_posicionar_navio(&mut t, 5, 0), Ok(false));
    for x in 2..8 {
        assert_eq!(t.valor_celula(x, 0), Some(Celula::Ocupado(0)));
    }
    assert_eq!(f.tentar_posicionar_navio(&mut t, 5, 0), Err("Posição ocupada".to_string()));
}

#[test]
fn selecao_de_dificuldade_por_tecla() {
    let fase = FaseSelecaoDificuldade::nova();
    assert_eq!(fase.texto_tooltip(), "Selecione a dificuldade:\n1 - Fácil\n2 - Médio\n3 - Difícil");
    assert!(matches!(fase.processar_tecla(49).unwrap().estrategia_atual(), Estrategia::Facil(_)));
    assert!(matches!(fase.processar_tecla(50).unwrap().estrategia_atual(), Estrategia::Intermediaria(_)));
    assert!(matches!(fase.processar_tecla(51).unwrap().estrategia_atual(), Estrategia::Dificil(_)));
    assert!(fase.processar_tecla(52).is_none());
    assert!(fase.processar_tecla(48).is_none());
    assert!(fase.processar_tecla(0).is_none());
}

#[test]
fn preview_valido_se_e_so_se_posicionar_funciona() {
    for vertical in [false, true] {
        for x in 0..10 {
            for y in 0..10 {
                let mut f = FasePosicionamento::nova();
                if vertical {
                    f.alternar_orientacao();
                }
                let mut t = EstadoTabuleiro::vazio();
                t.posicionar_navio("Encouraçado", 5, 0, 3, true).unwrap();
                let valido = f.preview_na_posicao(&t, x, y).unwrap().valido;
                let posicionou = f.tentar_posicionar_navio(&mut t, x, y).is_ok();
                assert_eq!(valido, posicionou, "cursor ({}, {}), vertical {}", x, y, vertical);
            }
        }
    }
}
