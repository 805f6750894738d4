use vstd::prelude::*;

verus! {

/// An achievement a player can earn.
#[derive(Debug, Clone, Copy, PartialEq, Eq, Structural)]
pub enum Conquista {
    /// Win without losing a ship.
    Almirante,
    /// Hit seven shots in a row.
    Capitao,
    /// Hit eight shots in a row.
    CapitaoDeMarEGuerra,
    /// Win within a set time.
    Marinheiro,
}

} // verus!
