use batalha_naval::application::controle_batalha::{
    acerto_e_afundamento, cursores_visiveis, texto_instrucao, ResultadoFinal,
};
use batalha_naval::application::fase_posicionamento::FasePosicionamento;
use batalha_naval::application::gerenciador_interface::painel;
use batalha_naval::application::gerenciador_turnos::{EstadoTurno, GerenciadorTurnos};
use batalha_naval::domain::disparo::ResultadoDisparo;

fn em_batalha(navios: u32) -> GerenciadorTurnos {
    let mut g = GerenciadorTurnos::novo(navios);
    g.confirmar_dificuldade();
    g.finalizar_posicionamento_jogador();
    g.iniciar_jogo();
    g
}

#[test]
fn fases_em_ordem() {
    let mut g = GerenciadorTurnos::novo(6);
    assert_eq!(g.estado_atual(), EstadoTurno::SelecaoDificuldade);
    assert_eq!(g.rodada_atual(), 0);
    // Out of order, nothing happens.
    g.iniciar_jogo();
    g.finalizar_posicionamento_jogador();
    assert_eq!(g.estado_atual(), EstadoTurno::SelecaoDificuldade);
    g.confirmar_dificuldade();
    assert_eq!(g.estado_atual(), EstadoTurno::PosicionamentoJogador);
    g.finalizar_posicionamento_jogador();
    assert_eq!(g.estado_atual(), EstadoTurno::PosicionamentoIA);
    g.iniciar_jogo();
    assert_eq!(g.estado_atual(), EstadoTurno::TurnoJogador);
    assert_eq!(g.rodada_atual(), 1);
    assert!(!g.jogo_terminou());
}

#[test]
fn acerto_mantem_a_vez_e_erro_passa_a_vez() {
    let mut g = em_batalha(6);
    assert!(g.processar_ataque_jogador(true, false));
    assert_eq!(g.estado_atual(), EstadoTurno::TurnoJogador);
    assert!(g.processar_ataque_jogador(false, false));
    assert_eq!(g.estado_atual(), EstadoTurno::TurnoIA);
    // Out of turn, the player's shot is refused.
    assert!(!g.processar_ataque_jogador(false, false));
    assert!(g.processar_ataque_ia(true, false));
    assert_eq!(g.estado_atual(), EstadoTurno::TurnoIA);
    assert!(g.processar_ataque_ia(false, false));
    assert_eq!(g.estado_atual(), EstadoTurno::TurnoJogador);
    assert_eq!(g.rodada_atual(), 2);
}

#[test]
fn ultimo_navio_afundado_vence() {
    let mut g = em_batalha(2);
    assert!(g.processar_ataque_jogador(true, true));
    assert_eq!(g.estado_atual(), EstadoTurno::TurnoJogador);
    assert!(g.processar_ataque_jogador(true, true));
    assert_eq!(g.estado_atual(), EstadoTurno::VitoriaJogador);
    assert!(g.jogo_terminou());
    // Once over, it stays over.
    assert!(!g.processar_ataque_jogador(true, true));
    assert!(!g.processar_ataque_ia(true, true));
    g.confirmar_dificuldade();
    assert_eq!(g.estado_atual(), EstadoTurno::VitoriaJogador);
}

#[test]
fn ia_vence_no_ultimo_navio_do_jogador() {
    let mut g = em_batalha(1);
    g.processar_ataque_jogador(false, false);
    assert!(g.processar_ataque_ia(true, true));
    assert_eq!(g.estado_atual(), EstadoTurno::VitoriaIA);
    assert_eq!(g.navios_restantes_jogador(), 0);
    assert_eq!(g.navios_restantes_ia(), 1);
}

#[test]
fn painel_de_cada_fase() {
    let p = painel(EstadoTurno::SelecaoDificuldade, 0).unwrap();
    assert_eq!((p.fase, p.turno, p.resultado, p.continuar, p.ajuda), (None, None, None, false, false));
    let p = painel(EstadoTurno::PosicionamentoJogador, 0).unwrap();
    assert_eq!(p.fase.as_deref(), Some("Fase de Posicionamento"));
    assert!(p.ajuda);
    let p = painel(EstadoTurno::TurnoJogador, 12).unwrap();
    assert_eq!(p.fase.as_deref(), Some("Rodada 12"));
    assert_eq!(p.turno.as_deref(), Some("Sua vez!"));
    assert_eq!(painel(EstadoTurno::TurnoJogador, 100).unwrap().fase.as_deref(), Some("Rodada 100"));
    let p = painel(EstadoTurno::TurnoIA, 3).unwrap();
    assert_eq!(p.fase.as_deref(), Some("Rodada 3"));
    assert_eq!(p.turno.as_deref(), Some("Turno da IA"));
    let p = painel(EstadoTurno::VitoriaJogador, 3).unwrap();
    assert_eq!(p.resultado.as_deref(), Some("Vitoria!"));
    assert!(p.continuar);
    assert_eq!(p.fase, None);
    let p = painel(EstadoTurno::VitoriaIA, 3).unwrap();
    assert_eq!(p.resultado.as_deref(), Some("Derrota!"));
    assert!(painel(EstadoTurno::PosicionamentoIA, 3).is_none());
}

#[test]
fn cursores_por_fase() {
    assert_eq!(cursores_visiveis(EstadoTurno::PosicionamentoJogador), (true, false));
    assert_eq!(cursores_visiveis(EstadoTurno::TurnoJogador), (false, true));
    assert_eq!(cursores_visiveis(EstadoTurno::TurnoIA), (false, false));
    assert_eq!(cursores_visiveis(EstadoTurno::VitoriaIA), (false, false));
}

#[test]
fn acerto_e_afundamento_de_cada_resultado() {
    assert_eq!(acerto_e_afundamento(&ResultadoDisparo::Agua), (false, false));
    assert_eq!(acerto_e_afundamento(&ResultadoDisparo::Acerto), (true, false));
    assert_eq!(acerto_e_afundamento(&ResultadoDisparo::Afundou("Submarino".to_string())), (true, true));
    assert_eq!(acerto_e_afundamento(&ResultadoDisparo::JaDisparado), (false, false));
}

#[test]
fn instrucao_de_posicionamento() {
    let mut f = FasePosicionamento::nova();
    assert_eq!(
        texto_instrucao(&f),
        "Posicione: Porta-Aviões (6)\nClique: posicionar | R: rotacionar (Horizontal)"
    );
    f.alternar_orientacao();
    assert_eq!(
        texto_instrucao(&f),
        "Posicione: Porta-Aviões (6)\nClique: posicionar | R: rotacionar (Vertical)"
    );
}

#[test]
fn resultado_final_fica_o_primeiro() {
    let mut r = ResultadoFinal::novo();
    assert_eq!(r.vitoria_registrada(), None);
    assert!(r.emitir(false));
    assert!(!r.emitir(true));
    assert_eq!(r.vitoria_registrada(), Some(false));
}
