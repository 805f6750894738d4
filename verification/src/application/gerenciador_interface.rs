use vstd::prelude::*;

use crate::application::gerenciador_turnos::EstadoTurno;
use crate::texto::{decimal, mensagem_rodada};

verus! {

/// What the battle screen shows: for each label, `None` when it is hidden and the text it shows
/// otherwise (the help label keeps its own text), and whether the "continue" button shows.
pub struct Painel {
    pub fase: Option<String>,
    pub turno: Option<String>,
    pub resultado: Option<String>,
    pub continuar: bool,
    pub ajuda: bool,
}

/// The texts of a screen, as in `Painel`, each label `None` when hidden.
pub struct VistaPainel {
    pub fase: Option<Seq<char>>,
    pub turno: Option<Seq<char>>,
    pub resultado: Option<Seq<char>>,
    pub continuar: bool,
    pub ajuda: bool,
}

/// The text of a label, when it shows.
pub open spec fn texto(o: Option<String>) -> Option<Seq<char>> {
    match o {
        Some(s) => Some(s@),
        None => None,
    }
}

impl View for Painel {
    type V = VistaPainel;

    open spec fn view(&self) -> VistaPainel {
        VistaPainel {
            fase: texto(self.fase),
            turno: texto(self.turno),
            resultado: texto(self.resultado),
            continuar: self.continuar,
            ajuda: self.ajuda,
        }
    }
}

/// The screen of each phase: while the difficulty is chosen, nothing; while the player places
/// the fleet, the phase's name and the help; during the battle, the round and whose turn it
/// is; at the end, the result and the "continue" button. While the enemy places its fleet the
/// screen stays as it was (`None`).
pub open spec fn painel_de(estado: EstadoTurno, rodada: u32) -> Option<VistaPainel> {
    match estado {
        EstadoTurno::SelecaoDificuldade => Some(
            VistaPainel { fase: None, turno: None, resultado: None, continuar: false, ajuda: false },
        ),
        EstadoTurno::PosicionamentoJogador => Some(
            VistaPainel {
                fase: Some("Fase de Posicionamento"@),
                turno: None,
                resultado: None,
                continuar: false,
                ajuda: true,
            },
        ),
        EstadoTurno::TurnoJogador => Some(
            VistaPainel {
                fase: Some("Rodada "@ + decimal(rodada as nat)),
                turno: Some("Sua vez!"@),
                resultado: None,
                continuar: false,
                ajuda: false,
            },
        ),
        EstadoTurno::TurnoIA => Some(
            VistaPainel {
                fase: Some("Rodada "@ + decimal(rodada as nat)),
                turno: Some("Turno da IA"@),
                resultado: None,
                continuar: false,
                ajuda: false,
            },
        ),
        EstadoTurno::VitoriaJogador => Some(
            VistaPainel {
                fase: None,
                turno: None,
                resultado: Some("Vitoria!"@),
                continuar: true,
                ajuda: false,
            },
        ),
        EstadoTurno::VitoriaIA => Some(
            VistaPainel {
                fase: None,
                turno: None,
                resultado: Some("Derrota!"@),
                continuar: true,
                ajuda: false,
            },
        ),
        EstadoTurno::PosicionamentoIA => None,
    }
}

/// What the screen shows in phase `estado` at round `rodada` (see `painel_de`).
pub fn painel(estado: EstadoTurno, rodada: u32) -> (r: Option<Painel>)
    ensures
        match r {
            Some(p) => painel_de(estado, rodada) == Some(p@),
            None => painel_de(estado, rodada) is None,
        },
{
    match estado {
        EstadoTurno::SelecaoDificuldade => Some(
            Painel { fase: None, turno: None, resultado: None, continuar: false, ajuda: false },
        ),
        EstadoTurno::PosicionamentoJogador => Some(
            Painel {
                fase: Some(String::from_str("Fase de Posicionamento")),
                turno: None,
                resultado: None,
                continuar: false,
                ajuda: true,
            },
        ),
        EstadoTurno::TurnoJogador => Some(
            Painel {
                fase: Some(mensagem_rodada(rodada)),
                turno: Some(String::from_str("Sua vez!")),
                resultado: None,
                continuar: false,
                ajuda: false,
            },
        ),
        EstadoTurno::TurnoIA => Some(
            Painel {
                fase: Some(mensagem_rodada(rodada)),
                turno: Some(String::from_str("Turno da IA")),
                resultado: None,
                continuar: false,
                ajuda: false,
            },
        ),
        EstadoTurno::VitoriaJogador => Some(
            Painel {
                fase: None,
                turno: None,
                resultado: Some(String::from_str("Vitoria!")),
                continuar: true,
                ajuda: false,
            },
        ),
        EstadoTurno::VitoriaIA => Some(
            Painel {
                fase: None,
                turno: None,
                resultado: Some(String::from_str("Derrota!")),
                continuar: true,
                ajuda: false,
            },
        ),
        EstadoTurno::PosicionamentoIA => None,
    }
}

} // verus!
