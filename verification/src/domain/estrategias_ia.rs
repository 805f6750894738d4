pub mod dificil;
pub mod facil;
pub mod intermediaria;

use vstd::prelude::*;

use crate::domain::estrategias_ia::dificil::PesoCelula;
use crate::domain::tabuleiro::{coordenadas, lema_pos, Celula, EstadoTabuleiro};

verus! {

/// What the enemy decided to shoot: a cell (none when no cell is left), or, for the hard enemy
/// with no line of hits to follow, the weight of every cell of the board, row after row, from
/// which the best cell is drawn.
pub enum EscolhaAlvo {
    Celula(Option<(usize, usize)>),
    Pesos(Vec<PesoCelula>),
}

/// A cell the enemy has not shot yet: water or an intact part of a ship.
pub open spec fn disponivel(c: Celula) -> bool {
    c is Vazio || c is Ocupado
}

/// Holds of the cells of `tabuleiro` not shot yet.
pub open spec fn livre_em(tabuleiro: EstadoTabuleiro) -> spec_fn((usize, usize)) -> bool {
    |p: (usize, usize)| disponivel(tabuleiro.celula(p.0 as int, p.1 as int))
}

/// The cells of `tabuleiro` not shot yet, row after row.
pub open spec fn alvos_livres(tabuleiro: EstadoTabuleiro) -> Seq<(usize, usize)> {
    coordenadas().filter(livre_em(tabuleiro))
}

/// Lists the cells of `tabuleiro` not shot yet, row after row.
pub fn alvos_disponiveis(tabuleiro: &EstadoTabuleiro) -> (r: Vec<(usize, usize)>)
    ensures
        r@ == alvos_livres(*tabuleiro),
{
    let mut r: Vec<(usize, usize)> = Vec::new();
    let mut x: usize = 0;
    while x < 10
        invariant
            x <= 10,
            r@ == coordenadas().take(x * 10).filter(livre_em(*tabuleiro)),
        decreases 10 - x,
    {
        let mut y: usize = 0;
        while y < 10
            invariant
                x < 10,
                y <= 10,
                r@ == coordenadas().take(x * 10 + y).filter(livre_em(*tabuleiro)),
            decreases 10 - y,
        {
            proof {
                reveal(Seq::filter);
                let k = x * 10 + y;
                lema_pos(x as int, y as int);
                assert(coordenadas().take(k + 1).drop_last() =~= coordenadas().take(k as int));
                assert(coordenadas().take(k + 1).last() == (x, y));
            }
            match tabuleiro.valor_celula(x, y) {
                Some(celula) => {
                    if matches!(celula, Celula::Vazio | Celula::Ocupado(_)) {
                        r.push((x, y));
                    }
                },
                None => {},
            }
            y += 1;
        }
        x += 1;
    }
    assert(coordenadas().take(100) =~= coordenadas());
    r
}

/// The element of `s` that the draw `sorteio` picks: the one at `sorteio` modulo the length;
/// `None` when `s` is empty. Every element is picked by some draw, and draws spread evenly over
/// the `u32` range pick each element alike, up to the last partial round.
pub open spec fn sorteado<T>(s: Seq<T>, sorteio: u32) -> Option<T> {
    if s.len() == 0 {
        None
    } else {
        Some(s[sorteio as int % s.len() as int])
    }
}

/// Every element of a non-empty sequence is what some draw picks: the draw of its position.
pub proof fn lei_todo_elemento_sorteavel<T>(s: Seq<T>, i: int)
    requires
        0 <= i < s.len(),
        s.len() <= u32::MAX,
    ensures
        sorteado(s, i as u32) == Some(s[i]),
{
    let n = s.len() as int;
    assert(i % n == i) by (nonlinear_arith)
        requires
            0 <= i < n,
    ;
}

/// The cell of `tabuleiro` not shot yet that the draw `sorteio` picks (see `sorteado`); `None`
/// when every cell was shot.
pub fn sortear_alvo(tabuleiro: &EstadoTabuleiro, sorteio: u32) -> (r: Option<(usize, usize)>)
    ensures
        r == sorteado(alvos_livres(*tabuleiro), sorteio),
        r is None <==> alvos_livres(*tabuleiro).len() == 0,
        r matches Some(p) ==> alvos_livres(*tabuleiro).contains(p),
{
    let alvos = alvos_disponiveis(tabuleiro);
    if alvos.len() == 0 {
        return None;
    }
    proof {
        coordenadas().lemma_filter_len(livre_em(*tabuleiro));
    }
    let idx = (sorteio as usize) % alvos.len();
    assert(alvos@[idx as int] == alvos_livres(*tabuleiro)[idx as int]);
    Some(alvos[idx])
}

} // verus!
