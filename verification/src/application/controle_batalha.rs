use vstd::prelude::*;

use crate::application::fase_posicionamento::FasePosicionamento;
use crate::application::gerenciador_turnos::EstadoTurno;
use crate::domain::disparo::ResultadoDisparo;
use crate::texto::{decimal, mensagem_posicione};

verus! {

/// Whether the aiming cursor shows over the player's board and over the enemy's: over the
/// player's while the fleet is placed, over the enemy's on the player's turn, nowhere else.
pub fn cursores_visiveis(estado: EstadoTurno) -> (r: (bool, bool))
    ensures
        r == (estado is PosicionamentoJogador, estado is TurnoJogador),
{
    match estado {
        EstadoTurno::PosicionamentoJogador => (true, false),
        EstadoTurno::TurnoJogador => (false, true),
        _ => (false, false),
    }
}

/// Whether a shot hit a ship, and whether it sank one.
pub fn acerto_e_afundamento(resultado: &ResultadoDisparo) -> (r: (bool, bool))
    ensures
        r == (resultado is Acerto || resultado is Afundou, resultado is Afundou),
{
    match resultado {
        ResultadoDisparo::Acerto => (true, false),
        ResultadoDisparo::Afundou(_) => (true, true),
        _ => (false, false),
    }
}

/// The instruction shown next to the cursor while the player places the fleet.
pub open spec fn instrucao(nome: Seq<char>, tamanho: usize, horizontal: bool) -> Seq<char> {
    "Posicione: "@ + nome + " ("@ + decimal(tamanho as nat) + ")\nClique: posicionar | R: rotacionar ("@ + (
    if horizontal {
        "Horizontal"@
    } else {
        "Vertical"@
    }) + ")"@
}

/// The instruction for the next ship to place, or the invitation to pick one once none is left.
pub fn texto_instrucao(fase: &FasePosicionamento) -> (r: String)
    ensures
        fase@.indice < fase@.fila.len() ==> r@ == instrucao(
            fase@.fila[fase@.indice as int].0,
            fase@.fila[fase@.indice as int].1,
            fase@.horizontal,
        ),
        fase@.indice >= fase@.fila.len() ==> r@ == "Selecione um navio da lista abaixo para posicionar"@,
{
    match fase.navio_atual() {
        Some((nome, tamanho)) => mensagem_posicione(nome, tamanho, fase.orientacao_texto()),
        None => String::from_str("Selecione um navio da lista abaixo para posicionar"),
    }
}

/// The outcome of the match as it was first settled: whether the player won, kept until the
/// player moves on.
pub struct ResultadoFinal {
    vitoria: Option<bool>,
}

impl View for ResultadoFinal {
    type V = Option<bool>;

    closed spec fn view(&self) -> Option<bool> {
        self.vitoria
    }
}

impl ResultadoFinal {
    /// Nothing settled yet.
    pub fn novo() -> (r: Self)
        ensures
            r@ is None,
    {
        ResultadoFinal { vitoria: None }
    }

    /// Settles the outcome, unless it was settled before; `true` when this call settled it.
    pub fn emitir(&mut self, vitoria: bool) -> (r: bool)
        ensures
            r == old(self)@ is None,
            final(self)@ == apos_emitir(old(self)@, vitoria),
    {
        if self.vitoria.is_some() {
            return false;
        }
        self.vitoria = Some(vitoria);
        true
    }

    /// The outcome settled, if any: whether the player won.
    pub fn vitoria_registrada(&self) -> (r: Option<bool>)
        ensures
            r == self@,
    {
        self.vitoria
    }
}

/// The outcome after settling `vitoria` over `antes`: the first one settled stays.
pub open spec fn apos_emitir(antes: Option<bool>, vitoria: bool) -> Option<bool> {
    if antes is None {
        Some(vitoria)
    } else {
        antes
    }
}

/// The first outcome settled stands: settling again, with either outcome, changes nothing.
pub proof fn lei_resultado_final_fixo(antes: Option<bool>, primeira: bool, segunda: bool)
    ensures
        apos_emitir(apos_emitir(antes, primeira), segunda) == apos_emitir(antes, primeira),
        apos_emitir(antes, primeira) is Some,
{
}

} // verus!
