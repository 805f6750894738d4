use std::collections::HashMap;
use vstd::prelude::*;

use crate::domain::disparo::{ResultadoDisparo, RetornoDisparo};
use crate::domain::estrategias_ia::{sorteado, EscolhaAlvo};
use crate::domain::tabuleiro::{
    frota_padrao, lema_indice, lema_pos, quantidades_frota, tamanhos_frota, EstadoTabuleiro,
    BOARD_SIZE,
};

verus! {

broadcast use vstd::std_specs::hash::group_hash_axioms;

/// What the hard enemy knows of a cell of the player's board.
#[derive(Debug, Clone, Copy, PartialEq, Eq, Structural)]
pub enum EstadoCelula {
    Desconhecido,
    Agua,
    /// Part of a ship still afloat.
    Acerto,
    /// Part of a ship that sank.
    Afundado,
}

/// What weighs on the hard enemy's choice of a cell when it has no line of hits to follow.
#[derive(Debug, Clone, Copy, PartialEq, Eq, Structural)]
pub struct PesoCelula {
    /// How many placements of the ships still afloat cover the cell.
    pub contagem: u32,
    /// The cell lies on the grid of the smallest ship afloat (only while it hunts no ship).
    pub paridade: bool,
    /// The cell lies within two cells of the edge (only while it hunts no ship).
    pub borda: bool,
    /// The factor of a cell next to the hits it follows.
    pub foco: u32,
    /// The cell was not shot yet.
    pub candidata: bool,
}

/// What the hard enemy remembers: how many ships of each length are still afloat, the hits on
/// ships still afloat, what it knows of each cell (row after row), and every hit it made.
pub struct VistaDificil {
    pub restantes: Map<usize, usize>,
    pub acertos: Seq<(usize, usize)>,
    pub mapa: Seq<EstadoCelula>,
    pub todos: Seq<(usize, usize)>,
}

impl VistaDificil {
    /// What it knows of the cell `(a, b)`.
    pub open spec fn estado(self, a: int, b: int) -> EstadoCelula {
        self.mapa[a * 10 + b]
    }

    /// The cell `(a, b)` is on the board and holds a hit on a ship still afloat.
    pub open spec fn e_acerto(self, a: int, b: int) -> bool {
        0 <= a < 10 && 0 <= b < 10 && self.estado(a, b) == EstadoCelula::Acerto
    }

    /// How many ships of length `t` are still afloat (zero for a length it does not track).
    pub open spec fn quantidade(self, t: usize) -> usize {
        if self.restantes.contains_key(t) {
            self.restantes[t]
        } else {
            0
        }
    }

    /// How many hits follow one another west of `(x, y)`.
    pub open spec fn corrida_esq(self, x: int, y: int) -> nat
        decreases y,
    {
        if y > 0 && self.e_acerto(x, y - 1) {
            1 + self.corrida_esq(x, y - 1)
        } else {
            0
        }
    }

    /// How many hits follow one another east of `(x, y)`.
    pub open spec fn corrida_dir(self, x: int, y: int) -> nat
        decreases 10 - y,
    {
        if y + 1 < 10 && self.e_acerto(x, y + 1) {
            1 + self.corrida_dir(x, y + 1)
        } else {
            0
        }
    }

    /// How many hits follow one another north of `(x, y)`.
    pub open spec fn corrida_cima(self, x: int, y: int) -> nat
        decreases x,
    {
        if x > 0 && self.e_acerto(x - 1, y) {
            1 + self.corrida_cima(x - 1, y)
        } else {
            0
        }
    }

    /// How many hits follow one another south of `(x, y)`.
    pub open spec fn corrida_baixo(self, x: int, y: int) -> nat
        decreases 10 - x,
    {
        if x + 1 < 10 && self.e_acerto(x + 1, y) {
            1 + self.corrida_baixo(x + 1, y)
        } else {
            0
        }
    }

    /// The runs of hits stay on the board.
    pub proof fn lema_corridas(self, x: int, y: int)
        requires
            0 <= x < 10,
            0 <= y < 10,
        ensures
            self.corrida_esq(x, y) <= y,
            self.corrida_dir(x, y) <= 9 - y,
            self.corrida_cima(x, y) <= x,
            self.corrida_baixo(x, y) <= 9 - x,
        decreases 20 - x - y,
    {
        self.lema_esq(x, y);
        self.lema_dir(x, y);
        self.lema_cima(x, y);
        self.lema_baixo(x, y);
    }

    proof fn lema_esq(self, x: int, y: int)
        requires
            0 <= y,
        ensures
            self.corrida_esq(x, y) <= y,
        decreases y,
    {
        if y > 0 {
            self.lema_esq(x, y - 1);
        }
    }

    proof fn lema_dir(self, x: int, y: int)
        requires
            y < 10,
        ensures
            self.corrida_dir(x, y) <= 9 - y,
        decreases 10 - y,
    {
        if y + 1 < 10 {
            self.lema_dir(x, y + 1);
        }
    }

    proof fn lema_cima(self, x: int, y: int)
        requires
            0 <= x,
        ensures
            self.corrida_cima(x, y) <= x,
        decreases x,
    {
        if x > 0 {
            self.lema_cima(x - 1, y);
        }
    }

    proof fn lema_baixo(self, x: int, y: int)
        requires
            x < 10,
        ensures
            self.corrida_baixo(x, y) <= 9 - x,
        decreases 10 - x,
    {
        if x + 1 < 10 {
            self.lema_baixo(x + 1, y);
        }
    }

    /// The line of hits through `(x, y)` taken as one ship: along the row when there are hits
    /// beside it only there, or when the row's line is at least as long as the column's; else
    /// along the column. `(x, y)` first, then the hits going west (north), then east (south).
    pub open spec fn sequencia(self, x: usize, y: usize) -> Seq<(usize, usize)> {
        let e = self.corrida_esq(x as int, y as int);
        let d = self.corrida_dir(x as int, y as int);
        let c = self.corrida_cima(x as int, y as int);
        let b = self.corrida_baixo(x as int, y as int);
        let tem_horizontal = e > 0 || d > 0;
        let tem_vertical = c > 0 || b > 0;
        let horizontal = if tem_horizontal && tem_vertical {
            1 + e + d >= 1 + c + b
        } else {
            tem_horizontal
        };
        if horizontal {
            seq![(x, y)] + Seq::new(e, |k: int| (x, (y - 1 - k) as usize)) + Seq::new(
                d,
                |k: int| (x, (y + 1 + k) as usize),
            )
        } else if tem_vertical {
            seq![(x, y)] + Seq::new(c, |k: int| ((x - 1 - k) as usize, y)) + Seq::new(
                b,
                |k: int| ((x + 1 + k) as usize, y),
            )
        } else {
            seq![(x, y)]
        }
    }

    /// The line through a cell of the board lies on the board.
    pub proof fn lema_sequencia_no_tabuleiro(self, x: usize, y: usize)
        requires
            x < 10,
            y < 10,
        ensures
            self.sequencia(x, y).len() >= 1,
            no_tabuleiro(self.sequencia(x, y)),
    {
        self.lema_corridas(x as int, y as int);
        let s = self.sequencia(x, y);
        assert forall|i: int| 0 <= i < s.len() implies #[trigger] s[i].0 < 10 && s[i].1 < 10 by {}
    }

    /// The lines of hits, one per hit not already in a previous line, from the `i`-th hit on.
    pub open spec fn grupos_desde(self, i: int, processados: Seq<(usize, usize)>) -> Seq<
        Seq<(usize, usize)>,
    >
        decreases self.acertos.len() - i,
    {
        if i < 0 || i >= self.acertos.len() {
            Seq::empty()
        } else {
            let a = self.acertos[i];
            if processados.contains(a) {
                self.grupos_desde(i + 1, processados)
            } else {
                let s = self.sequencia(a.0, a.1);
                seq![s] + self.grupos_desde(i + 1, processados + s)
            }
        }
    }

    /// The hits grouped into lines, each taken as one ship, in the order of the hits.
    pub open spec fn grupos(self) -> Seq<Seq<(usize, usize)>> {
        self.grupos_desde(0, Seq::empty())
    }

    /// The cell `(a, b)` is on the board and not shot yet as far as it knows.
    pub open spec fn desconhecida(self, a: int, b: int) -> bool {
        0 <= a < 10 && 0 <= b < 10 && self.estado(a, b) is Desconhecido
    }

    /// The cells worth shooting next to a group of hits: around a single hit, its unknown
    /// neighbours (north, south, west, east); past both ends of a line along a row or a column,
    /// the unknown ones; none otherwise.
    pub open spec fn pontas(self, g: Seq<(usize, usize)>) -> Seq<(usize, usize)> {
        if g.len() < 2 {
            let (x, y) = g[0];
            let n = if x > 0 && self.desconhecida(x - 1, y as int) {
                seq![((x - 1) as usize, y)]
            } else {
                Seq::empty()
            };
            let s = if x + 1 < 10 && self.desconhecida(x + 1, y as int) {
                seq![((x + 1) as usize, y)]
            } else {
                Seq::empty()
            };
            let o = if y > 0 && self.desconhecida(x as int, y - 1) {
                seq![(x, (y - 1) as usize)]
            } else {
                Seq::empty()
            };
            let l = if y + 1 < 10 && self.desconhecida(x as int, y + 1) {
                seq![(x, (y + 1) as usize)]
            } else {
                Seq::empty()
            };
            n + s + o + l
        } else if mesma_linha(g) {
            let x = g[0].0;
            let y_min = min_coluna(g);
            let y_max = max_coluna(g);
            let a = if y_min > 0 && self.desconhecida(x as int, y_min - 1) {
                seq![(x, (y_min - 1) as usize)]
            } else {
                Seq::empty()
            };
            let b = if y_max + 1 < 10 && self.desconhecida(x as int, y_max + 1) {
                seq![(x, (y_max + 1) as usize)]
            } else {
                Seq::empty()
            };
            a + b
        } else if mesma_coluna(g) {
            let y = g[0].1;
            let x_min = min_linha(g);
            let x_max = max_linha(g);
            let a = if x_min > 0 && self.desconhecida(x_min - 1, y as int) {
                seq![((x_min - 1) as usize, y)]
            } else {
                Seq::empty()
            };
            let b = if x_max + 1 < 10 && self.desconhecida(x_max + 1, y as int) {
                seq![((x_max + 1) as usize, y)]
            } else {
                Seq::empty()
            };
            a + b
        } else {
            Seq::empty()
        }
    }

    /// The group it attacks first: among the lines of two or more hits with a cell worth
    /// shooting next to them, the last of the longest.
    pub open spec fn grupo_escolhido(self) -> Option<int> {
        if self.acertos.len() == 0 {
            None
        } else {
            maior_ate(self.grupos(), self.grupos().len() as int, |g: Seq<(usize, usize)>| g.len() >= 2 && self.pontas(g).len() > 0)
        }
    }

    /// The cells it shoots at before it weighs the board: those worth shooting next to the
    /// chosen group, if there is one.
    pub open spec fn pontas_prioritarias(self) -> Seq<(usize, usize)> {
        match self.grupo_escolhido() {
            Some(j) => self.pontas(self.grupos()[j]),
            None => Seq::empty(),
        }
    }

    /// How many of the `n` placements of a ship of `t` cells along row `a` that start at
    /// columns `b`, `b - 1`, ..., `b - n + 1` fit.
    pub open spec fn inicios_h(self, a: int, b: int, t: int, n: int) -> nat
        decreases n,
    {
        if n <= 0 {
            0
        } else {
            self.inicios_h(a, b, t, n - 1) + if b - (n - 1) >= 0 && self.cabe_horizontal(a, b - (n - 1), t) {
                1nat
            } else {
                0nat
            }
        }
    }

    /// How many of the `n` placements of a ship of `t` cells down column `b` that start at
    /// rows `a`, `a - 1`, ..., `a - n + 1` fit.
    pub open spec fn inicios_v(self, a: int, b: int, t: int, n: int) -> nat
        decreases n,
    {
        if n <= 0 {
            0
        } else {
            self.inicios_v(a, b, t, n - 1) + if a - (n - 1) >= 0 && self.cabe_vertical(a - (n - 1), b, t) {
                1nat
            } else {
                0nat
            }
        }
    }

    /// How many placements of the ships still afloat, of lengths `1` to `n`, cover `(a, b)`:
    /// one for each placement that fits, each length counted once when any ship of it is left.
    pub open spec fn soma_tamanhos(self, a: int, b: int, n: int) -> nat
        decreases n,
    {
        if n <= 0 {
            0
        } else {
            self.soma_tamanhos(a, b, n - 1) + if self.quantidade(n as usize) > 0 {
                self.inicios_h(a, b, n, n) + self.inicios_v(a, b, n, n)
            } else {
                0nat
            }
        }
    }

    /// How many placements of the ships still afloat cover `(a, b)` (the lengths it tracks run
    /// from one to ten).
    pub open spec fn contagem(self, a: int, b: int) -> nat {
        self.soma_tamanhos(a, b, 10)
    }

    /// The least length, from `t` up to ten, with a ship still afloat; one when there is none.
    pub open spec fn menor_desde(self, t: int) -> int
        decreases 11 - t,
    {
        if t > 10 || t < 1 {
            1
        } else if self.quantidade(t as usize) > 0 {
            t
        } else {
            self.menor_desde(t + 1)
        }
    }

    /// The length of the smallest ship still afloat, or one.
    pub open spec fn menor_navio(self) -> int {
        self.menor_desde(1)
    }

    /// The group it weighs around: its only hit, or the last of the longest lines of two or
    /// more hits, or else the last group (then every group is a single hit).
    pub open spec fn grupo_foco(self) -> Option<Seq<(usize, usize)>> {
        if self.acertos.len() == 0 {
            None
        } else if self.acertos.len() == 1 {
            Some(seq![self.acertos[0]])
        } else {
            let gs = self.grupos();
            match maior_ate(gs, gs.len() as int, |g: Seq<(usize, usize)>| g.len() >= 2) {
                Some(j) => Some(gs[j]),
                None => if gs.len() > 0 {
                    Some(gs.last())
                } else {
                    None
                },
            }
        }
    }

    /// By how much the weight of `(a, b)` is multiplied while it hunts a ship: ten next to a
    /// single hit, a hundred past the ends of a line of hits, one elsewhere.
    pub open spec fn foco(self, a: int, b: int) -> u32 {
        match self.grupo_foco() {
            Some(g) => if self.pontas(g).contains((a as usize, b as usize)) {
                if g.len() == 1 {
                    10
                } else {
                    100
                }
            } else {
                1
            },
            None => 1,
        }
    }

    /// What weighs on the choice of `(a, b)`: how many placements cover it; while it hunts no
    /// ship and some placement covers it, whether its row and column add up to a multiple of
    /// the smallest ship afloat, and whether it lies within two cells of the edge; the factor
    /// of `foco`; and whether it is still unknown.
    pub open spec fn peso(self, a: int, b: int) -> PesoCelula {
        let c = self.contagem(a, b);
        let caca = self.acertos.len() == 0 && c > 0;
        PesoCelula {
            contagem: c as u32,
            paridade: caca && (a + b) % self.menor_navio() == 0,
            borda: caca && (a < 2 || a >= 8 || b < 2 || b >= 8),
            foco: self.foco(a, b),
            candidata: self.estado(a, b) is Desconhecido,
        }
    }

    /// The same knowledge with the cell `(x, y)` set to `e`.
    pub open spec fn com_celula(self, x: usize, y: usize, e: EstadoCelula) -> VistaDificil {
        VistaDificil { mapa: self.mapa.update(x * 10 + y, e), ..self }
    }

    /// What it knows after its shot at `(x, y)` sank a ship (see `apos_resultado`).
    pub open spec fn apos_afundar(self, x: usize, y: usize) -> VistaDificil {
        let v = VistaDificil {
            todos: sem_repetir(self.todos, (x, y)),
            ..self.com_celula(x, y, EstadoCelula::Acerto)
        };
        let s = v.sequencia(x, y);
        VistaDificil {
            restantes: menos_um(v.restantes, s.len() as usize),
            acertos: self.acertos.filter(|p: (usize, usize)| !s.contains(p)),
            mapa: marcar_afundados(v.mapa, s),
            todos: v.todos,
        }
    }

    /// What it knows after it was told the outcome `r` of its shot at `(x, y)`. Water marks
    /// the cell. A hit marks it and records it, once, among the active hits and all the hits.
    /// A sinking records the hit among all the hits, takes the line of hits through the cell
    /// as the sunk ship: marks its cells sunk, counts one ship of its length less when one is
    /// left, and drops its cells from the active hits, keeping the others in order. Any other
    /// outcome teaches nothing.
    pub open spec fn apos_resultado(self, x: usize, y: usize, r: ResultadoDisparo) -> VistaDificil {
        match r {
            ResultadoDisparo::Agua => self.com_celula(x, y, EstadoCelula::Agua),
            ResultadoDisparo::Acerto => VistaDificil {
                acertos: sem_repetir(self.acertos, (x, y)),
                todos: sem_repetir(self.todos, (x, y)),
                ..self.com_celula(x, y, EstadoCelula::Acerto)
            },
            ResultadoDisparo::Afundou(_) => self.apos_afundar(x, y),
            _ => self,
        }
    }

    /// Its records agree: the cells it knows as hits on ships afloat are exactly its active
    /// hits, which lie on the board, and neither the active hits nor all the hits hold a cell
    /// twice.
    pub open spec fn registro_coerente(self) -> bool {
        &&& self.mapa.len() == 100
        &&& no_tabuleiro(self.acertos)
        &&& forall|a: int, b: int|
            0 <= a < 10 && 0 <= b < 10 ==> (#[trigger] self.estado(a, b) is Acerto <==> self.acertos.contains(
                (a as usize, b as usize),
            ))
        &&& self.acertos.no_duplicates()
        &&& self.todos.no_duplicates()
    }

    /// A ship of `t` cells fits along row `x` from column `y` as far as it knows: on the board,
    /// over no water and no sunk ship, and, while it hunts a ship, over one of its hits.
    pub open spec fn cabe_horizontal(self, x: int, y: int, t: int) -> bool {
        &&& y + t <= 10
        &&& forall|i: int|
            0 <= i < t ==> !(#[trigger] self.estado(x, y + i) is Agua || self.estado(x, y + i) is Afundado)
        &&& self.acertos.len() > 0 ==> exists|i: int| 0 <= i < t && #[trigger] self.estado(x, y + i) is Acerto
    }

    /// A ship of `t` cells fits down column `y` from row `x`, as for `cabe_horizontal`.
    pub open spec fn cabe_vertical(self, x: int, y: int, t: int) -> bool {
        &&& x + t <= 10
        &&& forall|i: int|
            0 <= i < t ==> !(#[trigger] self.estado(x + i, y) is Agua || self.estado(x + i, y) is Afundado)
        &&& self.acertos.len() > 0 ==> exists|i: int| 0 <= i < t && #[trigger] self.estado(x + i, y) is Acerto
    }
}

/// `s` with `p` added at the end unless it holds it already.
pub open spec fn sem_repetir(s: Seq<(usize, usize)>, p: (usize, usize)) -> Seq<(usize, usize)> {
    if s.contains(p) {
        s
    } else {
        s.push(p)
    }
}

/// One ship of length `t` less, when one is left.
pub open spec fn menos_um(m: Map<usize, usize>, t: usize) -> Map<usize, usize> {
    if m.contains_key(t) && m[t] > 0 {
        m.insert(t, (m[t] - 1) as usize)
    } else {
        m
    }
}

/// The map with the cells of `s` marked sunk.
pub open spec fn marcar_afundados(m: Seq<EstadoCelula>, s: Seq<(usize, usize)>) -> Seq<EstadoCelula> {
    Seq::new(
        m.len(),
        |k: int|
            if s.contains(((k / 10) as usize, (k % 10) as usize)) {
                EstadoCelula::Afundado
            } else {
                m[k]
            },
    )
}

/// The index of the last of the longest among the first `n` groups that satisfy `p`.
pub open spec fn maior_ate(gs: Seq<Seq<(usize, usize)>>, n: int, p: spec_fn(Seq<(usize, usize)>) -> bool) -> Option<int>
    decreases n,
{
    if n <= 0 {
        None
    } else {
        let antes = maior_ate(gs, n - 1, p);
        if !p(gs[n - 1]) {
            antes
        } else {
            match antes {
                Some(j) => if gs[j].len() <= gs[n - 1].len() {
                    Some(n - 1)
                } else {
                    antes
                },
                None => Some(n - 1),
            }
        }
    }
}

/// All the cells of the group lie in the row of its first cell.
pub open spec fn mesma_linha(g: Seq<(usize, usize)>) -> bool {
    forall|i: int| 0 <= i < g.len() ==> #[trigger] g[i].0 == g[0].0
}

/// All the cells of the group lie in the column of its first cell.
pub open spec fn mesma_coluna(g: Seq<(usize, usize)>) -> bool {
    forall|i: int| 0 <= i < g.len() ==> #[trigger] g[i].1 == g[0].1
}

/// The least column of a non-empty group.
pub open spec fn min_coluna(g: Seq<(usize, usize)>) -> usize
    decreases g.len(),
{
    if g.len() <= 1 {
        g[0].1
    } else {
        let m = min_coluna(g.drop_last());
        if g.last().1 < m {
            g.last().1
        } else {
            m
        }
    }
}

/// The greatest column of a non-empty group.
pub open spec fn max_coluna(g: Seq<(usize, usize)>) -> usize
    decreases g.len(),
{
    if g.len() <= 1 {
        g[0].1
    } else {
        let m = max_coluna(g.drop_last());
        if g.last().1 > m {
            g.last().1
        } else {
            m
        }
    }
}

/// The least row of a non-empty group.
pub open spec fn min_linha(g: Seq<(usize, usize)>) -> usize
    decreases g.len(),
{
    if g.len() <= 1 {
        g[0].0
    } else {
        let m = min_linha(g.drop_last());
        if g.last().0 < m {
            g.last().0
        } else {
            m
        }
    }
}

/// The greatest row of a non-empty group.
pub open spec fn max_linha(g: Seq<(usize, usize)>) -> usize
    decreases g.len(),
{
    if g.len() <= 1 {
        g[0].0
    } else {
        let m = max_linha(g.drop_last());
        if g.last().0 > m {
            g.last().0
        } else {
            m
        }
    }
}

/// The extremes of a group on the board lie on the board.
pub proof fn lema_extremos_no_tabuleiro(g: Seq<(usize, usize)>)
    requires
        g.len() >= 1,
        no_tabuleiro(g),
    ensures
        min_linha(g) < 10,
        max_linha(g) < 10,
        min_coluna(g) < 10,
        max_coluna(g) < 10,
    decreases g.len(),
{
    if g.len() > 1 {
        let h = g.drop_last();
        assert forall|i: int| 0 <= i < h.len() implies #[trigger] h[i].0 < 10 && h[i].1 < 10 by {
            assert(h[i] == g[i]);
        }
        lema_extremos_no_tabuleiro(h);
        assert(g.last() == g[g.len() - 1]);
    } else {
        assert(g[0].0 < 10 && g[0].1 < 10);
    }
}

/// Whether `v` holds the cell `p`.
fn contem(v: &Vec<(usize, usize)>, p: (usize, usize)) -> (r: bool)
    ensures
        r == v@.contains(p),
{
    let mut i: usize = 0;
    while i < v.len()
        invariant
            i <= v@.len(),
            forall|j: int| 0 <= j < i ==> v@[j] != p,
        decreases v@.len() - i,
    {
        let q = v[i];
        if q.0 == p.0 && q.1 == p.1 {
            return true;
        }
        i += 1;
    }
    false
}

/// The extremes of a non-empty group: least and greatest row, least and greatest column, and
/// whether all its cells share the first one's row, and its column.
fn extremos(g: &Vec<(usize, usize)>) -> (r: (usize, usize, usize, usize, bool, bool))
    requires
        g@.len() >= 1,
    ensures
        r == (min_linha(g@), max_linha(g@), min_coluna(g@), max_coluna(g@), mesma_linha(g@), mesma_coluna(
            g@,
        )),
{
    let mut x_min = g[0].0;
    let mut x_max = g[0].0;
    let mut y_min = g[0].1;
    let mut y_max = g[0].1;
    let mut linha = true;
    let mut coluna = true;
    let mut i: usize = 1;
    while i < g.len()
        invariant
            1 <= i <= g@.len(),
            x_min == min_linha(g@.take(i as int)),
            x_max == max_linha(g@.take(i as int)),
            y_min == min_coluna(g@.take(i as int)),
            y_max == max_coluna(g@.take(i as int)),
            linha == mesma_linha(g@.take(i as int)),
            coluna == mesma_coluna(g@.take(i as int)),
        decreases g@.len() - i,
    {
        let ghost t = g@.take(i + 1);
        assert(t.drop_last() =~= g@.take(i as int));
        let (a, b) = g[i];
        if a < x_min {
            x_min = a;
        }
        if a > x_max {
            x_max = a;
        }
        if b < y_min {
            y_min = b;
        }
        if b > y_max {
            y_max = b;
        }
        linha = linha && a == g[0].0;
        coluna = coluna && b == g[0].1;
        proof {
            let p = g@.take(i as int);
            assert(t[0] == g@[0] && t[i as int] == g@[i as int]);
            assert forall|j: int| 0 <= j < i implies #[trigger] t[j] == p[j] by {}
            if linha {
                assert forall|j: int| 0 <= j < t.len() implies #[trigger] t[j].0 == t[0].0 by {
                    if j < i {
                        assert(p[j].0 == p[0].0);
                    }
                }
            } else if !mesma_linha(p) {
                let j = choose|j: int| 0 <= j < p.len() && #[trigger] p[j].0 != p[0].0;
                assert(t[j].0 != t[0].0);
            } else {
                assert(t[i as int].0 != t[0].0);
            }
            if coluna {
                assert forall|j: int| 0 <= j < t.len() implies #[trigger] t[j].1 == t[0].1 by {
                    if j < i {
                        assert(p[j].1 == p[0].1);
                    }
                }
            } else if !mesma_coluna(p) {
                let j = choose|j: int| 0 <= j < p.len() && #[trigger] p[j].1 != p[0].1;
                assert(t[j].1 != t[0].1);
            } else {
                assert(t[i as int].1 != t[0].1);
            }
        }
        i += 1;
    }
    assert(g@.take(g@.len() as int) =~= g@);
    (x_min, x_max, y_min, y_max, linha, coluna)
}

/// The hard enemy: it weighs where the remaining ships can lie and works along lines of hits.
pub struct EstrategiaDificil {
    navios_restantes: HashMap<usize, usize>,
    acertos_ativos: Vec<(usize, usize)>,
    mapa_conhecimento: [EstadoCelula; 100],
    todos_acertos: Vec<(usize, usize)>,
}

impl View for EstrategiaDificil {
    type V = VistaDificil;

    closed spec fn view(&self) -> VistaDificil {
        VistaDificil {
            restantes: self.navios_restantes@,
            acertos: self.acertos_ativos@,
            mapa: self.mapa_conhecimento@,
            todos: self.todos_acertos@,
        }
    }
}

/// Every coordinate in the list lies on the board.
pub open spec fn no_tabuleiro(s: Seq<(usize, usize)>) -> bool {
    forall|i: int| 0 <= i < s.len() ==> #[trigger] s[i].0 < 10 && s[i].1 < 10
}

impl EstrategiaDificil {
    /// The hits lie on the board and only lengths of ships are tracked.
    #[verifier::type_invariant]
    closed spec fn inv(self) -> bool {
        &&& no_tabuleiro(self.acertos_ativos@)
        &&& no_tabuleiro(self.todos_acertos@)
        &&& forall|t: usize| #[trigger] self.navios_restantes@.contains_key(t) ==> 1 <= t <= 10
    }

    /// What it knows covers the hundred cells of the board, one by one.
    pub proof fn lema_mapa(&self)
        ensures
            self@.mapa.len() == 100,
    {
    }

    /// Nothing known yet; the whole standard fleet afloat.
    pub fn nova() -> (r: Self)
        ensures
            r@.acertos.len() == 0,
            r@.todos.len() == 0,
            r@.mapa.len() == 100,
            forall|k: int| 0 <= k < 100 ==> #[trigger] r@.mapa[k] == EstadoCelula::Desconhecido,
            r@.restantes == map![6usize => 2usize, 4usize => 2usize, 3usize => 1usize, 1usize => 1usize],
            r@.registro_coerente(),
    {
        let frota = frota_padrao();
        let mut navios_restantes: HashMap<usize, usize> = HashMap::new();
        let mut c: usize = 0;
        while c < frota.len()
            invariant
                frota@.len() == 4,
                forall|i: int|
                    #![trigger frota@[i]]
                    0 <= i < 4 ==> frota@[i].tamanho == tamanhos_frota()[i] && frota@[i].quantidade
                        == quantidades_frota()[i],
                c <= 4,
                navios_restantes@ == Map::new(
                    |t: usize| exists|i: int| 0 <= i < c && tamanhos_frota()[i] == t,
                    |t: usize| quantidades_frota()[if t == 6 { 0int } else if t == 4 { 1int } else if t == 3 { 2int } else { 3int }],
                ),
            decreases 4 - c,
        {
            let config = &frota[c];
            let atual = match navios_restantes.get(&config.tamanho) {
                Some(q) => *q,
                None => 0,
            };
            navios_restantes.insert(config.tamanho, atual + config.quantidade);
            proof {
                assert(navios_restantes@ =~= Map::new(
                    |t: usize| exists|i: int| 0 <= i < c + 1 && tamanhos_frota()[i] == t,
                    |t: usize| quantidades_frota()[if t == 6 { 0int } else if t == 4 { 1int } else if t == 3 { 2int } else { 3int }],
                )) by {
                    assert(tamanhos_frota()[c as int] == config.tamanho);
                };
            }
            c += 1;
        }
        proof {
            assert(navios_restantes@ =~= map![6usize => 2usize, 4usize => 2usize, 3usize => 1usize, 1usize => 1usize]) by {
                assert(tamanhos_frota()[0] == 6);
                assert(tamanhos_frota()[1] == 4);
                assert(tamanhos_frota()[2] == 3);
                assert(tamanhos_frota()[3] == 1);
            }
        }
        Self {
            navios_restantes,
            acertos_ativos: Vec::new(),
            mapa_conhecimento: [EstadoCelula::Desconhecido; 100],
            todos_acertos: Vec::new(),
        }
    }

    /// Whether a ship of `tamanho` cells fits along row `x` from column `y`, as far as it knows.
    fn pode_colocar_horizontal(&self, x: usize, y: usize, tamanho: usize) -> (r: bool)
        requires
            x < 10,
            y + tamanho <= usize::MAX,
        ensures
            r == self@.cabe_horizontal(x as int, y as int, tamanho as int),
    {
        if y + tamanho > BOARD_SIZE {
            return false;
        }
        let mut tem_acerto = false;
        let mut i: usize = 0;
        while i < tamanho
            invariant
                x < 10,
                y + tamanho <= 10,
                i <= tamanho,
                forall|j: int|
                    0 <= j < i ==> !(#[trigger] self@.estado(x as int, y + j) is Agua || self@.estado(
                        x as int,
                        y + j,
                    ) is Afundado),
                tem_acerto == exists|j: int| 0 <= j < i && #[trigger] self@.estado(x as int, y + j) is Acerto,
            decreases tamanho - i,
        {
            let estado = self.mapa_conhecimento[x * 10 + y + i];
            assert(estado == self@.estado(x as int, y + i));
            match estado {
                EstadoCelula::Desconhecido => {},
                EstadoCelula::Acerto => tem_acerto = true,
                EstadoCelula::Agua | EstadoCelula::Afundado => return false,
            }
            i += 1;
        }
        if self.acertos_ativos.len() > 0 {
            return tem_acerto;
        }
        true
    }

    /// Whether a ship of `tamanho` cells fits down column `y` from row `x`, as far as it knows.
    fn pode_colocar_vertical(&self, x: usize, y: usize, tamanho: usize) -> (r: bool)
        requires
            y < 10,
            x + tamanho <= usize::MAX,
        ensures
            r == self@.cabe_vertical(x as int, y as int, tamanho as int),
    {
        if x + tamanho > BOARD_SIZE {
            return false;
        }
        let mut tem_acerto = false;
        let mut i: usize = 0;
        while i < tamanho
            invariant
                y < 10,
                x + tamanho <= 10,
                i <= tamanho,
                forall|j: int|
                    0 <= j < i ==> !(#[trigger] self@.estado(x + j, y as int) is Agua || self@.estado(
                        x + j,
                        y as int,
                    ) is Afundado),
                tem_acerto == exists|j: int| 0 <= j < i && #[trigger] self@.estado(x + j, y as int) is Acerto,
            decreases tamanho - i,
        {
            let estado = self.mapa_conhecimento[(x + i) * 10 + y];
            assert(estado == self@.estado(x + i, y as int));
            match estado {
                EstadoCelula::Desconhecido => {},
                EstadoCelula::Acerto => tem_acerto = true,
                EstadoCelula::Agua | EstadoCelula::Afundado => return false,
            }
            i += 1;
        }
        if self.acertos_ativos.len() > 0 {
            return tem_acerto;
        }
        true
    }

    /// Whether `(a, b)` is a cell of the board that holds a hit on a ship still afloat.
    fn e_acerto(&self, a: usize, b: usize) -> (r: bool)
        ensures
            r == self@.e_acerto(a as int, b as int),
    {
        a < BOARD_SIZE && b < BOARD_SIZE && self.mapa_conhecimento[a * 10 + b] == EstadoCelula::Acerto
    }

    /// The line of hits through `(x, y)` taken as one ship (see `sequencia`).
    pub fn encontrar_sequencia_linear_de_acertos(&self, x: usize, y: usize) -> (r: Vec<(usize, usize)>)
        requires
            x < 10,
            y < 10,
        ensures
            r@ == self@.sequencia(x, y),
    {
        let mut sequencia: Vec<(usize, usize)> = Vec::new();
        sequencia.push((x, y));
        let esquerda = y > 0 && self.e_acerto(x, y - 1);
        let direita = y + 1 < BOARD_SIZE && self.e_acerto(x, y + 1);
        let cima = x > 0 && self.e_acerto(x - 1, y);
        let baixo = x + 1 < BOARD_SIZE && self.e_acerto(x + 1, y);
        let tem_horizontal = esquerda || direita;
        let tem_vertical = cima || baixo;
        let ghost e = self@.corrida_esq(x as int, y as int);
        let ghost d = self@.corrida_dir(x as int, y as int);
        let ghost c = self@.corrida_cima(x as int, y as int);
        let ghost b = self@.corrida_baixo(x as int, y as int);
        proof {
            self@.lema_corridas(x as int, y as int);
        }
        assert(esquerda == (e > 0));
        assert(direita == (d > 0));
        assert(cima == (c > 0));
        assert(baixo == (b > 0));
        let direcao_horizontal = if tem_horizontal && tem_vertical {
            let mut count_h: usize = 1;
            let mut cy = y;
            while cy > 0 && self.e_acerto(x, cy - 1)
                invariant
                    cy <= y < 10,
                    x < 10,
                    count_h == 1 + (y - cy),
                    e == (y - cy) + self@.corrida_esq(x as int, cy as int),
                decreases cy,
            {
                count_h += 1;
                cy -= 1;
            }
            cy = y;
            while cy + 1 < BOARD_SIZE && self.e_acerto(x, cy + 1)
                invariant
                    y <= cy < 10,
                    x < 10,
                    count_h == 1 + e + (cy - y),
                    e <= y,
                    d == (cy - y) + self@.corrida_dir(x as int, cy as int),
                decreases 10 - cy,
            {
                count_h += 1;
                cy += 1;
            }
            let mut count_v: usize = 1;
            let mut cx = x;
            while cx > 0 && self.e_acerto(cx - 1, y)
                invariant
                    cx <= x < 10,
                    y < 10,
                    count_v == 1 + (x - cx),
                    c == (x - cx) + self@.corrida_cima(cx as int, y as int),
                decreases cx,
            {
                count_v += 1;
                cx -= 1;
            }
            cx = x;
            while cx + 1 < BOARD_SIZE && self.e_acerto(cx + 1, y)
                invariant
                    x <= cx < 10,
                    y < 10,
                    count_v == 1 + c + (cx - x),
                    c <= x,
                    b == (cx - x) + self@.corrida_baixo(cx as int, y as int),
                decreases 10 - cx,
            {
                count_v += 1;
                cx += 1;
            }
            count_h >= count_v
        } else {
            tem_horizontal
        };
        if direcao_horizontal {
            let mut cy = y;
            while cy > 0 && self.e_acerto(x, cy - 1)
                invariant
                    cy <= y < 10,
                    x < 10,
                    e == (y - cy) + self@.corrida_esq(x as int, cy as int),
                    sequencia@ == seq![(x, y)] + Seq::new(
                        (y - cy) as nat,
                        |k: int| (x, (y - 1 - k) as usize),
                    ),
                decreases cy,
            {
                cy -= 1;
                sequencia.push((x, cy));
                assert(sequencia@ =~= seq![(x, y)] + Seq::new(
                    (y - cy) as nat,
                    |k: int| (x, (y - 1 - k) as usize),
                ));
            }
            let ghost parte = sequencia@;
            cy = y;
            while cy + 1 < BOARD_SIZE && self.e_acerto(x, cy + 1)
                invariant
                    y <= cy < 10,
                    x < 10,
                    d == (cy - y) + self@.corrida_dir(x as int, cy as int),
                    sequencia@ == parte + Seq::new((cy - y) as nat, |k: int| (x, (y + 1 + k) as usize)),
                decreases 10 - cy,
            {
                cy += 1;
                sequencia.push((x, cy));
                assert(sequencia@ =~= parte + Seq::new(
                    (cy - y) as nat,
                    |k: int| (x, (y + 1 + k) as usize),
                ));
            }
        } else if tem_vertical {
            let mut cx = x;
            while cx > 0 && self.e_acerto(cx - 1, y)
                invariant
                    cx <= x < 10,
                    y < 10,
                    c == (x - cx) + self@.corrida_cima(cx as int, y as int),
                    sequencia@ == seq![(x, y)] + Seq::new(
                        (x - cx) as nat,
                        |k: int| ((x - 1 - k) as usize, y),
                    ),
                decreases cx,
            {
                cx -= 1;
                sequencia.push((cx, y));
                assert(sequencia@ =~= seq![(x, y)] + Seq::new(
                    (x - cx) as nat,
                    |k: int| ((x - 1 - k) as usize, y),
                ));
            }
            let ghost parte = sequencia@;
            cx = x;
            while cx + 1 < BOARD_SIZE && self.e_acerto(cx + 1, y)
                invariant
                    x <= cx < 10,
                    y < 10,
                    b == (cx - x) + self@.corrida_baixo(cx as int, y as int),
                    sequencia@ == parte + Seq::new((cx - x) as nat, |k: int| ((x + 1 + k) as usize, y)),
                decreases 10 - cx,
            {
                cx += 1;
                sequencia.push((cx, y));
                assert(sequencia@ =~= parte + Seq::new(
                    (cx - x) as nat,
                    |k: int| ((x + 1 + k) as usize, y),
                ));
            }
        }
        proof {
            if !direcao_horizontal && !tem_vertical {
                assert(sequencia@ =~= seq![(x, y)]);
            }
        }
        sequencia
    }

    /// The line of hits through `(x, y)` that the last shot sank, taken as one ship; the same
    /// rule as `encontrar_sequencia_linear_de_acertos`.
    pub fn encontrar_sequencia_conectada(&self, x: usize, y: usize) -> (r: Vec<(usize, usize)>)
        requires
            x < 10,
            y < 10,
        ensures
            r@ == self@.sequencia(x, y),
    {
        self.encontrar_sequencia_linear_de_acertos(x, y)
    }

    /// Groups the hits into lines, each taken as one ship (see `grupos`).
    fn encontrar_grupos_lineares(&self) -> (r: Vec<Vec<(usize, usize)>>)
        ensures
            r@.map_values(|g: Vec<(usize, usize)>| g@) == self@.grupos(),
            forall|i: int| 0 <= i < r@.len() ==> #[trigger] r@[i]@.len() >= 1 && no_tabuleiro(r@[i]@),
    {
        proof {
            use_type_invariant(self);
        }
        let mut grupos: Vec<Vec<(usize, usize)>> = Vec::new();
        let mut processados: Vec<(usize, usize)> = Vec::new();
        let mut i: usize = 0;
        while i < self.acertos_ativos.len()
            invariant
                i <= self@.acertos.len(),
                no_tabuleiro(self@.acertos),
                grupos@.map_values(|g: Vec<(usize, usize)>| g@) + self@.grupos_desde(
                    i as int,
                    processados@,
                ) == self@.grupos(),
                forall|j: int| 0 <= j < grupos@.len() ==> #[trigger] grupos@[j]@.len() >= 1 && no_tabuleiro(grupos@[j]@),
            decreases self@.acertos.len() - i,
        {
            let acerto = self.acertos_ativos[i];
            assert(acerto.0 < 10 && acerto.1 < 10);
            if contem(&processados, acerto) {
                i += 1;
                continue;
            }
            let sequencia = self.encontrar_sequencia_linear_de_acertos(acerto.0, acerto.1);
            proof {
                self@.lema_sequencia_no_tabuleiro(acerto.0, acerto.1);
            }
            let ghost antes = processados@;
            let mut k: usize = 0;
            while k < sequencia.len()
                invariant
                    k <= sequencia@.len(),
                    processados@ == antes + sequencia@.take(k as int),
                decreases sequencia@.len() - k,
            {
                processados.push(sequencia[k]);
                assert(sequencia@.take(k + 1) =~= sequencia@.take(k as int).push(sequencia@[k as int]));
                k += 1;
            }
            assert(sequencia@.take(sequencia@.len() as int) =~= sequencia@);
            let ghost g_antes = grupos@;
            grupos.push(sequencia);
            proof {
                assert(grupos@.map_values(|g: Vec<(usize, usize)>| g@) =~= g_antes.map_values(
                    |g: Vec<(usize, usize)>| g@,
                ).push(sequencia@));
                assert(seq![sequencia@] + self@.grupos_desde(i + 1, processados@) =~= self@.grupos_desde(
                    i as int,
                    antes,
                ));
                assert(g_antes.map_values(|g: Vec<(usize, usize)>| g@).push(sequencia@) + self@.grupos_desde(
                    i + 1,
                    processados@,
                ) =~= g_antes.map_values(|g: Vec<(usize, usize)>| g@) + (seq![sequencia@] + self@.grupos_desde(
                    i + 1,
                    processados@,
                )));
            }
            i += 1;
        }
        assert(self@.grupos_desde(i as int, processados@) =~= Seq::empty());
        assert(grupos@.map_values(|g: Vec<(usize, usize)>| g@) =~= self@.grupos());
        grupos
    }

    /// The cells worth shooting next to a group of hits (see `pontas`).
    pub fn obter_pontas_disponiveis(&self, grupo: &Vec<(usize, usize)>) -> (r: Vec<(usize, usize)>)
        requires
            grupo@.len() >= 1,
            no_tabuleiro(grupo@),
        ensures
            r@ == self@.pontas(grupo@),
    {
        let mut pontas: Vec<(usize, usize)> = Vec::new();
        if grupo.len() < 2 {
            let (x, y) = grupo[0];
            assert(x < 10 && y < 10);
            if x > 0 && self.mapa_conhecimento[(x - 1) * 10 + y] == EstadoCelula::Desconhecido {
                pontas.push((x - 1, y));
            }
            if x + 1 < BOARD_SIZE && self.mapa_conhecimento[(x + 1) * 10 + y] == EstadoCelula::Desconhecido {
                pontas.push((x + 1, y));
            }
            if y > 0 && self.mapa_conhecimento[x * 10 + y - 1] == EstadoCelula::Desconhecido {
                pontas.push((x, y - 1));
            }
            if y + 1 < BOARD_SIZE && self.mapa_conhecimento[x * 10 + y + 1] == EstadoCelula::Desconhecido {
                pontas.push((x, y + 1));
            }
            assert(pontas@ =~= self@.pontas(grupo@));
            return pontas;
        }
        let (x_min, x_max, y_min, y_max, todos_mesma_linha, todos_mesma_coluna) = extremos(grupo);
        proof {
            lema_extremos_no_tabuleiro(grupo@);
        }
        if todos_mesma_linha {
            let x = grupo[0].0;
            if y_min > 0 && self.mapa_conhecimento[x * 10 + y_min - 1] == EstadoCelula::Desconhecido {
                pontas.push((x, y_min - 1));
            }
            if y_max + 1 < BOARD_SIZE && self.mapa_conhecimento[x * 10 + y_max + 1]
                == EstadoCelula::Desconhecido {
                pontas.push((x, y_max + 1));
            }
        } else if todos_mesma_coluna {
            let y = grupo[0].1;
            if x_min > 0 && self.mapa_conhecimento[(x_min - 1) * 10 + y] == EstadoCelula::Desconhecido {
                pontas.push((x_min - 1, y));
            }
            if x_max + 1 < BOARD_SIZE && self.mapa_conhecimento[(x_max + 1) * 10 + y]
                == EstadoCelula::Desconhecido {
                pontas.push((x_max + 1, y));
            }
        }
        assert(pontas@ =~= self@.pontas(grupo@));
        pontas
    }

    /// Whether a group of hits has a cell worth shooting next to it.
    pub fn grupo_tem_pontas_disponiveis(&self, grupo: &Vec<(usize, usize)>) -> (r: bool)
        requires
            grupo@.len() >= 1,
            no_tabuleiro(grupo@),
        ensures
            r == (self@.pontas(grupo@).len() > 0),
    {
        self.obter_pontas_disponiveis(grupo).len() > 0
    }

    /// The cells worth shooting next to the group it attacks first (see `pontas_prioritarias`).
    pub fn pontas_prioritarias(&self) -> (r: Vec<(usize, usize)>)
        ensures
            r@ == self@.pontas_prioritarias(),
    {
        if self.acertos_ativos.len() == 0 {
            return Vec::new();
        }
        let grupos = self.encontrar_grupos_lineares();
        let ghost gs = self@.grupos();
        let ghost p = |g: Seq<(usize, usize)>| g.len() >= 2 && self@.pontas(g).len() > 0;
        let mut escolhido: Option<usize> = None;
        let mut i: usize = 0;
        while i < grupos.len()
            invariant
                grupos@.map_values(|g: Vec<(usize, usize)>| g@) == gs,
                forall|j: int| 0 <= j < grupos@.len() ==> #[trigger] grupos@[j]@.len() >= 1 && no_tabuleiro(grupos@[j]@),
                i <= grupos@.len(),
                p == (|g: Seq<(usize, usize)>| g.len() >= 2 && self@.pontas(g).len() > 0),
                match escolhido {
                    Some(j) => maior_ate(gs, i as int, p) == Some(j as int) && j < i,
                    None => maior_ate(gs, i as int, p) is None,
                },
            decreases grupos@.len() - i,
        {
            assert(gs[i as int] == grupos@[i as int]@);
            let g = &grupos[i];
            if g.len() >= 2 && self.grupo_tem_pontas_disponiveis(g) {
                match escolhido {
                    Some(j) => {
                        assert(gs[j as int] == grupos@[j as int]@);
                        if grupos[j].len() <= g.len() {
                            escolhido = Some(i);
                        }
                    },
                    None => {
                        escolhido = Some(i);
                    },
                }
            }
            i += 1;
        }
        assert(gs.len() == grupos@.len());
        match escolhido {
            Some(j) => {
                assert(gs[j as int] == grupos@[j as int]@);
                self.obter_pontas_disponiveis(&grupos[j])
            },
            None => Vec::new(),
        }
    }

    /// The cell worth shooting next to the group it attacks first that the draw `sorteio`
    /// picks; none when there is no such cell and it has to weigh the board.
    pub fn alvo_linear(&self, sorteio: u32) -> (r: Option<(usize, usize)>)
        ensures
            r == sorteado(self@.pontas_prioritarias(), sorteio),
            r is None <==> self@.pontas_prioritarias().len() == 0,
            r matches Some(c) ==> self@.pontas_prioritarias().contains(c),
    {
        let pontas = self.pontas_prioritarias();
        if pontas.len() == 0 {
            return None;
        }
        let i = (sorteio as usize) % pontas.len();
        assert(pontas@[i as int] == self@.pontas_prioritarias()[i as int]);
        Some(pontas[i])
    }

    /// Picks what to shoot at: the cell worth shooting next to the group of hits it attacks
    /// first that the draw `sorteio` picks, when there is one; otherwise the weight of every
    /// cell of the board, from which the best cell is drawn. It does not look at the player's
    /// board: it goes by what it learnt.
    pub fn escolher_alvo(&mut self, _tabuleiro_inimigo: &EstadoTabuleiro, sorteio: u32) -> (r: EscolhaAlvo)
        ensures
            final(self)@ == old(self)@,
            old(self)@.pontas_prioritarias().len() > 0 ==> r == EscolhaAlvo::Celula(
                sorteado(old(self)@.pontas_prioritarias(), sorteio),
            ),
            old(self)@.pontas_prioritarias().len() == 0 ==> (r matches EscolhaAlvo::Pesos(w) && w@.len()
                == 100 && forall|k: int| 0 <= k < 100 ==> #[trigger] w@[k] == old(self)@.peso(k / 10, k % 10)),
    {
        match self.alvo_linear(sorteio) {
            Some(c) => EscolhaAlvo::Celula(Some(c)),
            None => EscolhaAlvo::Pesos(self.pesos()),
        }
    }

    /// How many ships of length `t` are still afloat.
    fn quantidade(&self, t: usize) -> (r: usize)
        ensures
            r == self@.quantidade(t),
    {
        match self.navios_restantes.get(&t) {
            Some(q) => *q,
            None => 0,
        }
    }

    /// How many placements of the ships still afloat cover `(a, b)` (see `contagem`).
    fn contagem_celula(&self, a: usize, b: usize) -> (r: u32)
        requires
            a < 10,
            b < 10,
        ensures
            r == self@.contagem(a as int, b as int),
    {
        let mut c: u32 = 0;
        let mut t: usize = 1;
        while t <= 10
            invariant
                1 <= t <= 11,
                a < 10,
                b < 10,
                c == self@.soma_tamanhos(a as int, b as int, t - 1),
                c <= 20 * (t - 1),
            decreases 11 - t,
        {
            if self.quantidade(t) > 0 {
                let mut h: u32 = 0;
                let mut v: u32 = 0;
                let mut s: usize = 0;
                while s < t
                    invariant
                        s <= t <= 10,
                        a < 10,
                        b < 10,
                        h == self@.inicios_h(a as int, b as int, t as int, s as int),
                        v == self@.inicios_v(a as int, b as int, t as int, s as int),
                        h <= s,
                        v <= s,
                    decreases t - s,
                {
                    if b >= s && self.pode_colocar_horizontal(a, b - s, t) {
                        h += 1;
                    }
                    if a >= s && self.pode_colocar_vertical(a - s, b, t) {
                        v += 1;
                    }
                    s += 1;
                }
                c = c + h + v;
            }
            t += 1;
        }
        c
    }

    /// The length of the smallest ship still afloat, or one (see `menor_navio`).
    fn menor_navio(&self) -> (r: usize)
        ensures
            r == self@.menor_navio(),
            1 <= r <= 10,
    {
        let mut t: usize = 1;
        while t <= 10
            invariant
                1 <= t <= 11,
                self@.menor_navio() == self@.menor_desde(t as int),
            decreases 11 - t,
        {
            if self.quantidade(t) > 0 {
                return t;
            }
            t += 1;
        }
        1
    }

    /// The group it weighs around (see `grupo_foco`).
    fn grupo_foco(&self) -> (r: Option<Vec<(usize, usize)>>)
        ensures
            match r {
                Some(g) => self@.grupo_foco() == Some(g@) && g@.len() >= 1 && no_tabuleiro(g@),
                None => self@.grupo_foco() is None,
            },
    {
        proof {
            use_type_invariant(self);
        }
        if self.acertos_ativos.len() == 0 {
            return None;
        }
        if self.acertos_ativos.len() == 1 {
            let mut g: Vec<(usize, usize)> = Vec::new();
            g.push(self.acertos_ativos[0]);
            assert(g@ =~= seq![self@.acertos[0]]);
            return Some(g);
        }
        let mut grupos = self.encontrar_grupos_lineares();
        let ghost gs = self@.grupos();
        let ghost p = |g: Seq<(usize, usize)>| g.len() >= 2;
        let mut escolhido: Option<usize> = None;
        let mut i: usize = 0;
        while i < grupos.len()
            invariant
                grupos@.map_values(|g: Vec<(usize, usize)>| g@) == gs,
                forall|j: int| 0 <= j < grupos@.len() ==> #[trigger] grupos@[j]@.len() >= 1 && no_tabuleiro(grupos@[j]@),
                i <= grupos@.len(),
                p == (|g: Seq<(usize, usize)>| g.len() >= 2),
                match escolhido {
                    Some(j) => maior_ate(gs, i as int, p) == Some(j as int) && j < i,
                    None => maior_ate(gs, i as int, p) is None,
                },
            decreases grupos@.len() - i,
        {
            assert(gs[i as int] == grupos@[i as int]@);
            if grupos[i].len() >= 2 {
                match escolhido {
                    Some(j) => {
                        assert(gs[j as int] == grupos@[j as int]@);
                        if grupos[j].len() <= grupos[i].len() {
                            escolhido = Some(i);
                        }
                    },
                    None => {
                        escolhido = Some(i);
                    },
                }
            }
            i += 1;
        }
        assert(gs.len() == grupos@.len());
        let n = grupos.len();
        match escolhido {
            Some(j) => {
                assert(gs[j as int] == grupos@[j as int]@);
                Some(grupos.remove(j))
            },
            None => {
                if n == 0 {
                    return None;
                }
                assert(gs[n - 1] == grupos@[n - 1]@);
                Some(grupos.remove(n - 1))
            },
        }
    }

    /// Sets what it knows of the `k`-th cell.
    fn marcar(&mut self, k: usize, e: EstadoCelula)
        requires
            k < 100,
        ensures
            final(self)@ == (VistaDificil { mapa: old(self)@.mapa.update(k as int, e), ..old(self)@ }),
    {
        proof {
            use_type_invariant(&*self);
        }
        let mut m = self.mapa_conhecimento;
        m[k] = e;
        self.mapa_conhecimento = m;
    }

    /// Adds `(x, y)` to `v` unless it holds it already.
    fn registrar(v: &mut Vec<(usize, usize)>, x: usize, y: usize)
        requires
            x < 10,
            y < 10,
            no_tabuleiro(old(v)@),
        ensures
            final(v)@ == sem_repetir(old(v)@, (x, y)),
            no_tabuleiro(final(v)@),
    {
        if !contem(v, (x, y)) {
            v.push((x, y));
        }
    }

    /// Learns the outcome of its shot at `(x, y)` (see `apos_resultado`).
    pub fn notificar_resultado(&mut self, x: usize, y: usize, resultado: &RetornoDisparo)
        requires
            resultado.resultado is Agua || resultado.resultado is Acerto || resultado.resultado is Afundou
                ==> x < 10 && y < 10,
        ensures
            final(self)@ == old(self)@.apos_resultado(x, y, resultado.resultado),
            old(self)@.registro_coerente() && x < 10 && y < 10 && (resultado.resultado is Agua
                || resultado.resultado is Acerto || resultado.resultado is Afundou ==> old(self)@.estado(
                x as int,
                y as int,
            ) is Desconhecido) ==> final(self)@.registro_coerente(),
    {
        proof {
            use_type_invariant(&*self);
            if old(self)@.registro_coerente() && x < 10 && y < 10 {
                if resultado.resultado is Agua || resultado.resultado is Acerto || resultado.resultado is Afundou
                    ==> old(self)@.estado(x as int, y as int) is Desconhecido {
                    lei_registro_coerente(old(self)@, x, y, resultado.resultado);
                }
            }
        }
        match &resultado.resultado {
            ResultadoDisparo::Agua => {
                self.marcar(x * 10 + y, EstadoCelula::Agua);
            },
            ResultadoDisparo::Acerto => {
                self.marcar(x * 10 + y, EstadoCelula::Acerto);
                let mut todos: Vec<(usize, usize)> = Vec::new();
                std::mem::swap(&mut todos, &mut self.todos_acertos);
                Self::registrar(&mut todos, x, y);
                self.todos_acertos = todos;
                let mut ativos: Vec<(usize, usize)> = Vec::new();
                std::mem::swap(&mut ativos, &mut self.acertos_ativos);
                Self::registrar(&mut ativos, x, y);
                self.acertos_ativos = ativos;
            },
            ResultadoDisparo::Afundou(_) => {
                self.afundou(x, y);
            },
            _ => {},
        }
    }

    /// Learns that its shot at `(x, y)` sank a ship (the sinking case of `apos_resultado`).
    fn afundou(&mut self, x: usize, y: usize)
        requires
            x < 10,
            y < 10,
        ensures
            final(self)@ == old(self)@.apos_afundar(x, y),
    {
        proof {
            use_type_invariant(&*self);
        }
        let mut todos: Vec<(usize, usize)> = Vec::new();
        std::mem::swap(&mut todos, &mut self.todos_acertos);
        Self::registrar(&mut todos, x, y);
        self.todos_acertos = todos;
        self.marcar(x * 10 + y, EstadoCelula::Acerto);
        let ghost v = self@;
        let sequencia = self.encontrar_sequencia_conectada(x, y);
        proof {
            v.lema_sequencia_no_tabuleiro(x, y);
        }
        let n = sequencia.len();
        let mut i: usize = 0;
        while i < n
            invariant
                n == sequencia@.len(),
                i <= n,
                no_tabuleiro(sequencia@),
                sequencia@ == v.sequencia(x, y),
                self@.mapa == marcar_afundados(v.mapa, sequencia@.take(i as int)),
                self@.restantes == v.restantes,
                self@.acertos == v.acertos,
                self@.todos == v.todos,
                v.mapa.len() == 100,
            decreases n - i,
        {
            let (sx, sy) = sequencia[i];
            let ghost antes = self@.mapa;
            self.marcar(sx * 10 + sy, EstadoCelula::Afundado);
            proof {
                let t0 = sequencia@.take(i as int);
                let t1 = sequencia@.take(i + 1);
                assert forall|k: int| 0 <= k < 100 implies #[trigger] self@.mapa[k] == marcar_afundados(v.mapa, t1)[k] by {
                    lema_indice(k);
                    lema_pos(sx as int, sy as int);
                    let c = ((k / 10) as usize, (k % 10) as usize);
                    if t0.contains(c) {
                        let j = choose|j: int| 0 <= j < t0.len() && t0[j] == c;
                        assert(t1[j] == c);
                    }
                    if t1.contains(c) && c != (sx, sy) {
                        let j = choose|j: int| 0 <= j < t1.len() && t1[j] == c;
                        assert(j < i);
                        assert(t0[j] == c);
                    }
                    if c == (sx, sy) {
                        assert(t1[i as int] == c);
                    }
                }
                assert(self@.mapa =~= marcar_afundados(v.mapa, t1));
            }
            i += 1;
        }
        assert(sequencia@.take(n as int) =~= sequencia@);
        let q = self.quantidade(n);
        if q > 0 {
            let mut restantes: HashMap<usize, usize> = HashMap::new();
            std::mem::swap(&mut restantes, &mut self.navios_restantes);
            restantes.insert(n, q - 1);
            self.navios_restantes = restantes;
        }
        let ghost pred = |p: (usize, usize)| !sequencia@.contains(p);
        let mut novos: Vec<(usize, usize)> = Vec::new();
        let mut j: usize = 0;
        while j < self.acertos_ativos.len()
            invariant
                j <= self@.acertos.len(),
                self@.acertos == v.acertos,
                no_tabuleiro(v.acertos),
                no_tabuleiro(novos@),
                novos@ == v.acertos.take(j as int).filter(pred),
                pred == (|p: (usize, usize)| !sequencia@.contains(p)),
            decreases self@.acertos.len() - j,
        {
            let p = self.acertos_ativos[j];
            proof {
                let t1 = v.acertos.take(j + 1);
                assert(t1.drop_last() =~= v.acertos.take(j as int));
                assert(t1.last() == p);
                reveal(Seq::filter);
            }
            if !contem(&sequencia, p) {
                novos.push(p);
            }
            j += 1;
        }
        assert(v.acertos.take(v.acertos.len() as int) =~= v.acertos);
        self.acertos_ativos = novos;
    }

    /// What weighs on the choice of each cell, row after row (see `peso`).
    pub fn pesos(&self) -> (r: Vec<PesoCelula>)
        ensures
            r@.len() == 100,
            forall|k: int| 0 <= k < 100 ==> #[trigger] r@[k] == self@.peso(k / 10, k % 10),
    {
        let menor = self.menor_navio();
        let (pontas, fator): (Vec<(usize, usize)>, u32) = match self.grupo_foco() {
            Some(g) => {
                let f: u32 = if g.len() == 1 {
                    10
                } else {
                    100
                };
                (self.obter_pontas_disponiveis(&g), f)
            },
            None => (Vec::new(), 1),
        };
        let caca = self.acertos_ativos.len() == 0;
        let mut r: Vec<PesoCelula> = Vec::new();
        let mut k: usize = 0;
        while k < 100
            invariant
                k <= 100,
                r@.len() == k,
                menor == self@.menor_navio(),
                1 <= menor <= 10,
                caca == (self@.acertos.len() == 0),
                forall|a: int, b: int|
                    0 <= a < 10 && 0 <= b < 10 ==> #[trigger] self@.foco(a, b) == (if pontas@.contains(
                        (a as usize, b as usize),
                    ) {
                        fator
                    } else {
                        1u32
                    }),
                forall|j: int| 0 <= j < k ==> #[trigger] r@[j] == self@.peso(j / 10, j % 10),
            decreases 100 - k,
        {
            let a = k / 10;
            let b = k % 10;
            let c = self.contagem_celula(a, b);
            let com_navio = caca && c > 0;
            let foco: u32 = if contem(&pontas, (a, b)) {
                fator
            } else {
                1
            };
            let peso = PesoCelula {
                contagem: c,
                paridade: com_navio && (a + b) % menor == 0,
                borda: com_navio && (a < 2 || a >= 8 || b < 2 || b >= 8),
                foco,
                candidata: self.mapa_conhecimento[k] == EstadoCelula::Desconhecido,
            };
            assert(self@.estado(a as int, b as int) == self@.mapa[k as int]);
            assert(peso == self@.peso(k as int / 10, k as int % 10));
            r.push(peso);
            k += 1;
        }
        r
    }
}

/// Told the outcome of a shot that counted, it knows the cell shot; and it forgets nothing: a
/// cell it knew stays known.
pub proof fn lei_conhecimento_so_cresce(v: VistaDificil, x: usize, y: usize, r: ResultadoDisparo)
    requires
        x < 10,
        y < 10,
        v.mapa.len() == 100,
    ensures
        v.apos_resultado(x, y, r).mapa.len() == 100,
        (r is Agua || r is Acerto || r is Afundou) ==> !(v.apos_resultado(x, y, r).estado(
            x as int,
            y as int,
        ) is Desconhecido),
        forall|k: int|
            0 <= k < 100 && !(v.mapa[k] is Desconhecido) ==> !(#[trigger] v.apos_resultado(
                x,
                y,
                r,
            ).mapa[k] is Desconhecido),
{
    if r is Afundou {
        let v1 = VistaDificil {
            todos: sem_repetir(v.todos, (x, y)),
            ..v.com_celula(x, y, EstadoCelula::Acerto)
        };
        let s = v1.sequencia(x, y);
        assert(s[0] == (x, y));
        lema_pos(x as int, y as int);
        assert(s.contains((x, y)));
    }
}

/// The count of ships of each length still afloat never grows.
pub proof fn lei_frota_so_diminui(v: VistaDificil, x: usize, y: usize, r: ResultadoDisparo, t: usize)
    ensures
        v.apos_resultado(x, y, r).quantidade(t) <= v.quantidade(t),
{
}

/// When its shot sinks a ship, the cells of the line taken as that ship leave the active hits,
/// and every other active hit stays.
pub proof fn lei_afundar_remove_so_o_navio(v: VistaDificil, x: usize, y: usize, p: (usize, usize))
    ensures
        ({
            let s = (VistaDificil {
                todos: sem_repetir(v.todos, (x, y)),
                ..v.com_celula(x, y, EstadoCelula::Acerto)
            }).sequencia(x, y);
            let w = v.apos_afundar(x, y);
            &&& s.contains(p) ==> !w.acertos.contains(p)
            &&& v.acertos.contains(p) && !s.contains(p) ==> w.acertos.contains(p)
        }),
{
    broadcast use vstd::seq_lib::group_filter_ensures;

    let s = (VistaDificil {
        todos: sem_repetir(v.todos, (x, y)),
        ..v.com_celula(x, y, EstadoCelula::Acerto)
    }).sequencia(x, y);
    let f = |q: (usize, usize)| !s.contains(q);
    let w = v.acertos.filter(f);
    if w.contains(p) {
        let i = choose|i: int| 0 <= i < w.len() && w[i] == p;
        assert(f(w[i]));
    }
    if v.acertos.contains(p) && !s.contains(p) {
        let i = choose|i: int| 0 <= i < v.acertos.len() && v.acertos[i] == p;
        assert(w.contains(v.acertos[i]));
    }
}

/// The cells the hard enemy attacks first are cells of the board it has not shot yet.
pub proof fn lei_pontas_desconhecidas(v: VistaDificil, i: int)
    requires
        0 <= i < v.pontas_prioritarias().len(),
    ensures
        v.desconhecida(v.pontas_prioritarias()[i].0 as int, v.pontas_prioritarias()[i].1 as int),
{
    let p = v.pontas_prioritarias();
    match v.grupo_escolhido() {
        Some(j) => {
            let g = v.grupos()[j];
            assert(p == v.pontas(g));
        },
        None => {},
    }
}

/// A report to the hard enemy: where it shot and what came of it.
pub struct Relato {
    pub x: usize,
    pub y: usize,
    pub resultado: ResultadoDisparo,
}

/// What it knows after the reports, told in order.
pub open spec fn apos_relatos(v: VistaDificil, rs: Seq<Relato>) -> VistaDificil
    decreases rs.len(),
{
    if rs.len() == 0 {
        v
    } else {
        apos_relatos(v.apos_resultado(rs[0].x, rs[0].y, rs[0].resultado), rs.drop_first())
    }
}

/// The report shot a cell of the board and counted.
pub open spec fn relato_valido(r: Relato) -> bool {
    &&& r.x < 10
    &&& r.y < 10
    &&& (r.resultado is Agua || r.resultado is Acerto || r.resultado is Afundou)
}

/// Over any reports on the board, what it knows keeps its hundred cells, a cell it knew stays
/// known, and the count of ships afloat of each length never grows.
proof fn lema_relatos(v: VistaDificil, rs: Seq<Relato>, t: usize)
    requires
        v.mapa.len() == 100,
        forall|i: int| 0 <= i < rs.len() ==> #[trigger] rs[i].x < 10 && rs[i].y < 10,
    ensures
        apos_relatos(v, rs).mapa.len() == 100,
        forall|k: int|
            0 <= k < 100 && !(v.mapa[k] is Desconhecido) ==> !(#[trigger] apos_relatos(v, rs).mapa[k] is Desconhecido),
        apos_relatos(v, rs).quantidade(t) <= v.quantidade(t),
    decreases rs.len(),
{
    if rs.len() > 0 {
        let r = rs[0];
        assert(r.x < 10 && r.y < 10);
        lei_conhecimento_so_cresce(v, r.x, r.y, r.resultado);
        lei_frota_so_diminui(v, r.x, r.y, r.resultado, t);
        let w = v.apos_resultado(r.x, r.y, r.resultado);
        let cauda = rs.drop_first();
        assert forall|i: int| 0 <= i < cauda.len() implies #[trigger] cauda[i].x < 10 && cauda[i].y < 10 by {
            assert(cauda[i] == rs[i + 1]);
        }
        lema_relatos(w, cauda, t);
    }
}

/// Law: whatever reports the hard enemy is told, in whatever order, it knows every cell whose
/// shot counted, keeps knowing every cell it knew, and never counts more ships of a length
/// afloat than before.
pub proof fn lei_relatos(v: VistaDificil, rs: Seq<Relato>, t: usize)
    requires
        v.mapa.len() == 100,
        forall|i: int| 0 <= i < rs.len() ==> #[trigger] rs[i].x < 10 && rs[i].y < 10,
    ensures
        apos_relatos(v, rs).mapa.len() == 100,
        forall|k: int|
            0 <= k < 100 && !(v.mapa[k] is Desconhecido) ==> !(#[trigger] apos_relatos(v, rs).mapa[k] is Desconhecido),
        apos_relatos(v, rs).quantidade(t) <= v.quantidade(t),
        forall|i: int|
            0 <= i < rs.len() && relato_valido(rs[i]) ==> !(#[trigger] apos_relatos(v, rs).estado(
                rs[i].x as int,
                rs[i].y as int,
            ) is Desconhecido),
    decreases rs.len(),
{
    lema_relatos(v, rs, t);
    if rs.len() > 0 {
        let r = rs[0];
        assert(r.x < 10 && r.y < 10);
        lei_conhecimento_so_cresce(v, r.x, r.y, r.resultado);
        let w = v.apos_resultado(r.x, r.y, r.resultado);
        let cauda = rs.drop_first();
        assert forall|i: int| 0 <= i < cauda.len() implies #[trigger] cauda[i].x < 10 && cauda[i].y < 10 by {
            assert(cauda[i] == rs[i + 1]);
        }
        lei_relatos(w, cauda, t);
        lema_relatos(w, cauda, t);
        assert forall|i: int|
            0 <= i < rs.len() && relato_valido(rs[i]) implies !(#[trigger] apos_relatos(v, rs).estado(
                rs[i].x as int,
                rs[i].y as int,
            ) is Desconhecido) by {
            if i == 0 {
                lema_pos(r.x as int, r.y as int);
                let k = r.x * 10 + r.y;
                assert(!(w.mapa[k] is Desconhecido));
            } else {
                assert(cauda[i - 1] == rs[i]);
            }
        }
    }
}

/// Keeping some of a list keeps only cells of it, and none twice where the list held none twice.
proof fn lema_filtro_sem_repeticao(s: Seq<(usize, usize)>, f: spec_fn((usize, usize)) -> bool)
    requires
        s.no_duplicates(),
    ensures
        s.filter(f).no_duplicates(),
        forall|p: (usize, usize)| s.filter(f).contains(p) ==> s.contains(p),
    decreases s.len(),
{
    reveal(Seq::filter);
    if s.len() > 0 {
        let d = s.drop_last();
        assert forall|i: int, j: int| 0 <= i < d.len() && 0 <= j < d.len() && i != j implies d[i] != d[j] by {
            assert(d[i] == s[i] && d[j] == s[j]);
        }
        lema_filtro_sem_repeticao(d, f);
        assert forall|p: (usize, usize)| d.contains(p) implies s.contains(p) by {
            let i = choose|i: int| 0 <= i < d.len() && d[i] == p;
            assert(s[i] == p);
        }
        if f(s.last()) {
            let w = d.filter(f);
            if w.contains(s.last()) {
                assert(d.contains(s.last()));
                let i = choose|i: int| 0 <= i < d.len() && d[i] == s.last();
                assert(d[i] == s[i]);
                assert(s[i] != s[s.len() - 1]);
            }
            assert(s.filter(f) == w.push(s.last()));
            assert forall|i: int, j: int|
                0 <= i < w.len() + 1 && 0 <= j < w.len() + 1 && i != j implies w.push(s.last())[i] != w.push(
                s.last(),
            )[j] by {
                if i == w.len() {
                    assert(w.contains(w[j]));
                } else if j == w.len() {
                    assert(w.contains(w[i]));
                }
            }
            assert forall|p: (usize, usize)| w.push(s.last()).contains(p) implies s.contains(p) by {
                let i = choose|i: int| 0 <= i < w.len() + 1 && w.push(s.last())[i] == p;
                if i < w.len() {
                    assert(w.contains(w[i]));
                }
            }
        }
    }
}

/// `sem_repetir` never adds a cell twice.
proof fn lema_sem_repetir(s: Seq<(usize, usize)>, p: (usize, usize))
    requires
        s.no_duplicates(),
    ensures
        sem_repetir(s, p).no_duplicates(),
        forall|q: (usize, usize)| sem_repetir(s, p).contains(q) <==> (s.contains(q) || q == p),
{
    if !s.contains(p) {
        let t = s.push(p);
        assert forall|q: (usize, usize)| t.contains(q) <==> (s.contains(q) || q == p) by {
            if t.contains(q) && q != p {
                let i = choose|i: int| 0 <= i < t.len() && t[i] == q;
                assert(s[i] == q);
            }
            if s.contains(q) {
                let i = choose|i: int| 0 <= i < s.len() && s[i] == q;
                assert(t[i] == q);
            }
            if q == p {
                assert(t[s.len() as int] == p);
            }
        }
    }
}

/// Water at a cell not shot before keeps the records in agreement.
proof fn lema_coerente_agua(v: VistaDificil, x: usize, y: usize)
    requires
        v.registro_coerente(),
        x < 10,
        y < 10,
        v.estado(x as int, y as int) is Desconhecido,
    ensures
        v.apos_resultado(x, y, ResultadoDisparo::Agua).registro_coerente(),
{
    lema_pos(x as int, y as int);
    let w = v.apos_resultado(x, y, ResultadoDisparo::Agua);
    assert forall|a: int, b: int| 0 <= a < 10 && 0 <= b < 10 implies (#[trigger] w.estado(a, b) is Acerto
        <==> w.acertos.contains((a as usize, b as usize))) by {
        lema_pos(a, b);
        if a != x || b != y {
            assert(w.estado(a, b) == v.estado(a, b));
        } else {
            assert(!(v.estado(a, b) is Acerto));
        }
    }
}

/// A hit at a cell not shot before keeps the records in agreement.
proof fn lema_coerente_acerto(v: VistaDificil, x: usize, y: usize)
    requires
        v.registro_coerente(),
        x < 10,
        y < 10,
        v.estado(x as int, y as int) is Desconhecido,
    ensures
        v.apos_resultado(x, y, ResultadoDisparo::Acerto).registro_coerente(),
{
    lema_pos(x as int, y as int);
    let w = v.apos_resultado(x, y, ResultadoDisparo::Acerto);
    lema_sem_repetir(v.acertos, (x, y));
    lema_sem_repetir(v.todos, (x, y));
    assert forall|i: int| 0 <= i < w.acertos.len() implies #[trigger] w.acertos[i].0 < 10 && w.acertos[i].1 < 10 by {
        if i < v.acertos.len() {
            assert(w.acertos[i] == v.acertos[i]);
        }
    }
    assert forall|a: int, b: int| 0 <= a < 10 && 0 <= b < 10 implies (#[trigger] w.estado(a, b) is Acerto
        <==> w.acertos.contains((a as usize, b as usize))) by {
        lema_pos(a, b);
        if a != x || b != y {
            assert(w.estado(a, b) == v.estado(a, b));
            assert((a as usize, b as usize) != (x, y));
        }
    }
}

/// A sinking at a cell not shot before keeps the records in agreement.
proof fn lema_coerente_afundou(v: VistaDificil, x: usize, y: usize, nome: String)
    requires
        v.registro_coerente(),
        x < 10,
        y < 10,
        v.estado(x as int, y as int) is Desconhecido,
    ensures
        v.apos_resultado(x, y, ResultadoDisparo::Afundou(nome)).registro_coerente(),
{
    lema_pos(x as int, y as int);
    let w = v.apos_resultado(x, y, ResultadoDisparo::Afundou(nome));
    let v1 = VistaDificil { todos: sem_repetir(v.todos, (x, y)), ..v.com_celula(x, y, EstadoCelula::Acerto) };
    let s = v1.sequencia(x, y);
    let f = |p: (usize, usize)| !s.contains(p);
    assert(s[0] == (x, y));
    assert(s.contains((x, y)));
    lema_sem_repetir(v.todos, (x, y));
    lema_filtro_sem_repeticao(v.acertos, f);
    assert(w.acertos == v.acertos.filter(f));
    assert forall|i: int| 0 <= i < w.acertos.len() implies #[trigger] w.acertos[i].0 < 10 && w.acertos[i].1 < 10 by {
        assert(w.acertos.contains(w.acertos[i]));
        assert(v.acertos.contains(w.acertos[i]));
        let j = choose|j: int| 0 <= j < v.acertos.len() && v.acertos[j] == w.acertos[i];
        assert(v.acertos[j].0 < 10 && v.acertos[j].1 < 10);
    }
    assert forall|a: int, b: int| 0 <= a < 10 && 0 <= b < 10 implies (#[trigger] w.estado(a, b) is Acerto
        <==> w.acertos.contains((a as usize, b as usize))) by {
        broadcast use vstd::seq_lib::group_filter_ensures;

        lema_pos(a, b);
        let p = (a as usize, b as usize);
        let k = a * 10 + b;
        assert(((k / 10) as usize, (k % 10) as usize) == p);
        if s.contains(p) {
            assert(w.estado(a, b) == EstadoCelula::Afundado);
            if w.acertos.contains(p) {
                let i = choose|i: int| 0 <= i < w.acertos.len() && w.acertos[i] == p;
                assert(f(w.acertos[i]));
            }
        } else {
            assert(a != x || b != y);
            assert(w.estado(a, b) == v.estado(a, b));
            if v.acertos.contains(p) {
                let i = choose|i: int| 0 <= i < v.acertos.len() && v.acertos[i] == p;
                assert(w.acertos.contains(v.acertos[i]));
            }
        }
    }
}

/// Law: told the outcome of a shot at a cell of the board that it had not shot yet (or an outcome
/// that did not count), the hard enemy keeps its records in agreement (see `registro_coerente`).
pub proof fn lei_registro_coerente(v: VistaDificil, x: usize, y: usize, r: ResultadoDisparo)
    requires
        v.registro_coerente(),
        x < 10,
        y < 10,
        (r is Agua || r is Acerto || r is Afundou) ==> v.estado(x as int, y as int) is Desconhecido,
    ensures
        v.apos_resultado(x, y, r).registro_coerente(),
{
    match r {
        ResultadoDisparo::Agua => lema_coerente_agua(v, x, y),
        ResultadoDisparo::Acerto => lema_coerente_acerto(v, x, y),
        ResultadoDisparo::Afundou(nome) => lema_coerente_afundou(v, x, y, nome),
        _ => {},
    }
}

/// Every report shot a cell of the board, and each that counted shot a cell not shot before
/// it, as far as the hard enemy knew by then.
pub open spec fn relatos_ineditos(v: VistaDificil, rs: Seq<Relato>) -> bool
    decreases rs.len(),
{
    if rs.len() == 0 {
        true
    } else {
        let r = rs[0];
        &&& r.x < 10
        &&& r.y < 10
        &&& (r.resultado is Agua || r.resultado is Acerto || r.resultado is Afundou) ==> v.estado(
            r.x as int,
            r.y as int,
        ) is Desconhecido
        &&& relatos_ineditos(v.apos_resultado(r.x, r.y, r.resultado), rs.drop_first())
    }
}

/// Law: from records in agreement (as a new hard enemy has them), told of shots at cells of
/// the board, each new where it counted, the hard enemy keeps its records in agreement.
pub proof fn lei_relatos_coerentes(v: VistaDificil, rs: Seq<Relato>)
    requires
        v.registro_coerente(),
        relatos_ineditos(v, rs),
    ensures
        apos_relatos(v, rs).registro_coerente(),
    decreases rs.len(),
{
    if rs.len() > 0 {
        let r = rs[0];
        lei_registro_coerente(v, r.x, r.y, r.resultado);
        lei_relatos_coerentes(v.apos_resultado(r.x, r.y, r.resultado), rs.drop_first());
    }
}


/// Among the first `n` groups, the one `maior_ate` picks satisfies `p` and is as long as any
/// that does; it picks one whenever one does.
proof fn lema_maior_ate(gs: Seq<Seq<(usize, usize)>>, n: int, p: spec_fn(Seq<(usize, usize)>) -> bool)
    requires
        0 <= n <= gs.len(),
    ensures
        (exists|i: int| 0 <= i < n && #[trigger] p(gs[i])) ==> maior_ate(gs, n, p) is Some,
        maior_ate(gs, n, p) matches Some(j) ==> {
            &&& 0 <= j < n
            &&& p(gs[j])
            &&& forall|i: int| 0 <= i < n && #[trigger] p(gs[i]) ==> gs[i].len() <= gs[j].len()
            &&& forall|i: int| j < i < n && #[trigger] p(gs[i]) ==> gs[i].len() < gs[j].len()
        },
    decreases n,
{
    if n > 0 {
        lema_maior_ate(gs, n - 1, p);
        if exists|i: int| 0 <= i < n && #[trigger] p(gs[i]) {
            let i = choose|i: int| 0 <= i < n && #[trigger] p(gs[i]);
            if i < n - 1 {
                assert(maior_ate(gs, n - 1, p) is Some);
            }
        }
    }
}

/// Law: while some line of two or more active hits has a cell worth shooting next to it, the
/// hard enemy has cells to attack first, and they are the cells next to such a line, the
/// longest of them (the last of the longest, in the order of the hits); when no such line has
/// one, it has none.
pub proof fn lei_ataca_linha_aberta(v: VistaDificil)
    ensures
        (exists|i: int|
            0 <= i < v.grupos().len() && #[trigger] v.grupos()[i].len() >= 2 && v.pontas(v.grupos()[i]).len()
                > 0) ==> {
            &&& v.pontas_prioritarias().len() > 0
            &&& exists|j: int|
                0 <= j < v.grupos().len() && #[trigger] v.grupos()[j].len() >= 2 && v.pontas_prioritarias()
                    == v.pontas(v.grupos()[j]) && forall|i: int|
                    0 <= i < v.grupos().len() && #[trigger] v.grupos()[i].len() >= 2 && v.pontas(
                        v.grupos()[i],
                    ).len() > 0 ==> v.grupos()[i].len() <= v.grupos()[j].len() && (i > j ==> v.grupos()[i].len()
                        < v.grupos()[j].len())
        },
        (forall|i: int|
            0 <= i < v.grupos().len() && #[trigger] v.grupos()[i].len() >= 2 ==> v.pontas(v.grupos()[i]).len()
                == 0) ==> v.pontas_prioritarias().len() == 0,
{
    let gs = v.grupos();
    let p = |g: Seq<(usize, usize)>| g.len() >= 2 && v.pontas(g).len() > 0;
    lema_maior_ate(gs, gs.len() as int, p);
    if v.acertos.len() == 0 {
        assert(gs.len() == 0);
    }
    if exists|i: int| 0 <= i < gs.len() && #[trigger] gs[i].len() >= 2 && v.pontas(gs[i]).len() > 0 {
        let i = choose|i: int| 0 <= i < gs.len() && #[trigger] gs[i].len() >= 2 && v.pontas(gs[i]).len() > 0;
        assert(p(gs[i]));
        let j = maior_ate(gs, gs.len() as int, p)->0;
        assert(p(gs[j]));
        assert forall|k: int|
            0 <= k < gs.len() && #[trigger] gs[k].len() >= 2 && v.pontas(gs[k]).len() > 0 implies gs[k].len()
                <= gs[j].len() && (k > j ==> gs[k].len() < gs[j].len()) by {
            assert(p(gs[k]));
        }
    }
    if forall|i: int| 0 <= i < gs.len() && #[trigger] gs[i].len() >= 2 ==> v.pontas(gs[i]).len() == 0 {
        if let Some(j) = v.grupo_escolhido() {
            assert(p(gs[j]));
        }
    }
}

/// Law: a sinking counts exactly one ship less of the length of the line taken as the sunk
/// ship, when one of that length was afloat, and leaves the count of every other length.
pub proof fn lei_afundar_conta_um_a_menos(v: VistaDificil, x: usize, y: usize, nome: String, t: usize)
    requires
        x < 10,
        y < 10,
    ensures
        ({
            let s = (VistaDificil {
                todos: sem_repetir(v.todos, (x, y)),
                ..v.com_celula(x, y, EstadoCelula::Acerto)
            }).sequencia(x, y);
            let w = v.apos_resultado(x, y, ResultadoDisparo::Afundou(nome));
            &&& t == s.len() && v.quantidade(t) > 0 ==> w.quantidade(t) == v.quantidade(t) - 1
            &&& t == s.len() && v.quantidade(t) == 0 ==> w.quantidade(t) == 0
            &&& t != s.len() ==> w.quantidade(t) == v.quantidade(t)
        }),
{
    let v1 = VistaDificil { todos: sem_repetir(v.todos, (x, y)), ..v.com_celula(x, y, EstadoCelula::Acerto) };
    v1.lema_corridas(x as int, y as int);
    let s = v1.sequencia(x, y);
    assert(s.len() <= 19);
    assert((s.len() as usize) as int == s.len());
}

} // verus!
