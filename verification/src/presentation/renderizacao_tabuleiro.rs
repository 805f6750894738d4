use vstd::prelude::*;

use crate::domain::disparo::ResultadoDisparo;
use crate::domain::tabuleiro::{coordenadas, lema_pos, Celula, EstadoTabuleiro};

verus! {

/// How a cell of a board is drawn.
#[derive(Debug, Clone, Copy, PartialEq, Eq, Structural)]
pub enum Aparencia {
    /// Water on the light squares of the checkerboard.
    AguaClara,
    /// Water on the dark squares of the checkerboard.
    AguaEscura,
    /// Water that was shot at.
    AguaAtingida,
    /// Part of a ship that was hit.
    NavioAtingido,
    /// Part of a ship that sank.
    NavioAfundado,
    /// Part of the ship with this index, drawn by the ship's name.
    Navio(usize),
}

/// The water at `(x, y)` follows a checkerboard: light where row and column add up to an even
/// number, dark elsewhere.
pub fn aparencia_agua(x: usize, y: usize) -> (r: Aparencia)
    requires
        x + y <= usize::MAX,
    ensures
        r == if (x + y) % 2 == 0 {
            Aparencia::AguaClara
        } else {
            Aparencia::AguaEscura
        },
{
    if (x + y) % 2 == 0 {
        Aparencia::AguaClara
    } else {
        Aparencia::AguaEscura
    }
}

/// How the player's own board draws the cell `c` at `(x, y)`.
pub open spec fn aparencia_de(c: Celula, x: usize, y: usize) -> Aparencia {
    match c {
        Celula::Vazio => if (x + y) % 2 == 0 {
            Aparencia::AguaClara
        } else {
            Aparencia::AguaEscura
        },
        Celula::Ocupado(i) => Aparencia::Navio(i),
        Celula::AguaAtirada => Aparencia::AguaAtingida,
        Celula::Atingido(_) => Aparencia::NavioAtingido,
        Celula::Afundado(_) => Aparencia::NavioAfundado,
    }
}

/// How the player's own board draws the cell `c` at `(x, y)` (see `aparencia_de`).
pub fn aparencia_celula(c: Celula, x: usize, y: usize) -> (r: Aparencia)
    requires
        x + y <= usize::MAX,
    ensures
        r == aparencia_de(c, x, y),
{
    match c {
        Celula::Vazio => aparencia_agua(x, y),
        Celula::Ocupado(i) => Aparencia::Navio(i),
        Celula::AguaAtirada => Aparencia::AguaAtingida,
        Celula::Atingido(_) => Aparencia::NavioAtingido,
        Celula::Afundado(_) => Aparencia::NavioAfundado,
    }
}

/// How the cell just shot is drawn: shot water, a hit, or a sunk ship; a shot that did not
/// count changes nothing.
pub fn aparencia_resultado(resultado: &ResultadoDisparo) -> (r: Option<Aparencia>)
    ensures
        r == match *resultado {
            ResultadoDisparo::Agua => Some(Aparencia::AguaAtingida),
            ResultadoDisparo::Acerto => Some(Aparencia::NavioAtingido),
            ResultadoDisparo::Afundou(_) => Some(Aparencia::NavioAfundado),
            _ => None,
        },
{
    match resultado {
        ResultadoDisparo::Agua => Some(Aparencia::AguaAtingida),
        ResultadoDisparo::Acerto => Some(Aparencia::NavioAtingido),
        ResultadoDisparo::Afundou(_) => Some(Aparencia::NavioAfundado),
        _ => None,
    }
}

/// Holds of the cells of `tabuleiro` that belong to the ship `navio_idx` and sank.
pub open spec fn afundada_do(tabuleiro: EstadoTabuleiro, navio_idx: usize) -> spec_fn((usize, usize)) -> bool {
    |p: (usize, usize)| tabuleiro.celula(p.0 as int, p.1 as int) == Celula::Afundado(navio_idx)
}

/// The sunk cells of the ship `navio_idx`, row after row.
pub fn celulas_afundadas(tabuleiro: &EstadoTabuleiro, navio_idx: usize) -> (r: Vec<(usize, usize)>)
    ensures
        r@ == coordenadas().filter(afundada_do(*tabuleiro, navio_idx)),
{
    let mut r: Vec<(usize, usize)> = Vec::new();
    let mut x: usize = 0;
    while x < 10
        invariant
            x <= 10,
            r@ == coordenadas().take(x * 10).filter(afundada_do(*tabuleiro, navio_idx)),
        decreases 10 - x,
    {
        let mut y: usize = 0;
        while y < 10
            invariant
                x < 10,
                y <= 10,
                r@ == coordenadas().take(x * 10 + y).filter(afundada_do(*tabuleiro, navio_idx)),
            decreases 10 - y,
        {
            proof {
                reveal(Seq::filter);
                let k = x * 10 + y;
                lema_pos(x as int, y as int);
                assert(coordenadas().take(k + 1).drop_last() =~= coordenadas().take(k as int));
                assert(coordenadas().take(k + 1).last() == (x, y));
            }
            match tabuleiro.valor_celula(x, y) {
                Some(Celula::Afundado(i)) => {
                    if i == navio_idx {
                        r.push((x, y));
                    }
                },
                _ => {},
            }
            y += 1;
        }
        x += 1;
    }
    assert(coordenadas().take(100) =~= coordenadas());
    r
}

/// The cell of the board at column `coluna` and row `linha` of a tile map, as `(row, column)`;
/// `None` off the board.
pub fn celula_do_mapa(coluna: i32, linha: i32) -> (r: Option<(usize, usize)>)
    ensures
        r == if 0 <= coluna < 10 && 0 <= linha < 10 {
            Some((linha as usize, coluna as usize))
        } else {
            None
        },
{
    if coluna < 0 || linha < 0 || coluna >= 10 || linha >= 10 {
        return None;
    }
    Some((linha as usize, coluna as usize))
}

} // verus!
