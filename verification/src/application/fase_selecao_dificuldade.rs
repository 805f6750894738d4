use vstd::prelude::*;

use crate::domain::jogador_ia::{Dificuldade, JogadorIA};

verus! {

/// The key code of the key "1" on the keyboard.
pub const TECLA_1: i32 = 49;

/// The key code of the key "2" on the keyboard.
pub const TECLA_2: i32 = 50;

/// The key code of the key "3" on the keyboard.
pub const TECLA_3: i32 = 51;

/// The choice of how hard the enemy plays, by a key.
pub struct FaseSelecaoDificuldade;

impl FaseSelecaoDificuldade {
    /// The phase, waiting for a key.
    pub fn nova() -> (r: Self) {
        FaseSelecaoDificuldade
    }

    /// What to tell the player during the choice.
    pub fn texto_tooltip(&self) -> (r: &'static str)
        ensures
            r@ == "Selecione a dificuldade:\n1 - Fácil\n2 - Médio\n3 - Difícil"@,
    {
        "Selecione a dificuldade:\n1 - Fácil\n2 - Médio\n3 - Difícil"
    }

    /// The enemy the key with code `tecla` chooses: "1" an easy one, "2" a medium one, "3" a
    /// hard one, each with an empty board; no enemy for any other key.
    pub fn processar_tecla(&self, tecla: i32) -> (r: Option<JogadorIA>)
        ensures
            r is Some <==> (tecla == TECLA_1 || tecla == TECLA_2 || tecla == TECLA_3),
            tecla == TECLA_1 ==> (r matches Some(ia) && ia.recem_criado(Dificuldade::Facil)),
            tecla == TECLA_2 ==> (r matches Some(ia) && ia.recem_criado(Dificuldade::Intermediario)),
            tecla == TECLA_3 ==> (r matches Some(ia) && ia.recem_criado(Dificuldade::Dificil)),
    {
        if tecla == TECLA_1 {
            Some(JogadorIA::novo_facil())
        } else if tecla == TECLA_2 {
            Some(JogadorIA::novo_intermediario())
        } else if tecla == TECLA_3 {
            Some(JogadorIA::novo_dificil())
        } else {
            None
        }
    }
}

} // verus!
