use vstd::prelude::*;

use crate::domain::estrategias_ia::{alvos_livres, sorteado, sortear_alvo};
use crate::domain::tabuleiro::EstadoTabuleiro;

verus! {

/// The easy enemy: it shoots at a drawn cell among those it has not shot yet.
pub struct EstrategiaFacil;

impl EstrategiaFacil {
    /// Picks the next target: the cell of the player's board not shot yet that the draw
    /// `sorteio` picks; `None` when every cell was shot.
    pub fn escolher_alvo(&mut self, tabuleiro_inimigo: &EstadoTabuleiro, sorteio: u32) -> (r: Option<(usize, usize)>)
        ensures
            r == sorteado(alvos_livres(*tabuleiro_inimigo), sorteio),
            r is None <==> alvos_livres(*tabuleiro_inimigo).len() == 0,
            r matches Some(p) ==> alvos_livres(*tabuleiro_inimigo).contains(p),
    {
        sortear_alvo(tabuleiro_inimigo, sorteio)
    }
}

} // verus!
