use vstd::prelude::*;

use crate::domain::disparo::{ResultadoDisparo, RetornoDisparo};
use crate::domain::estrategias_ia::{alvos_livres, disponivel, sorteado, sortear_alvo};
use crate::domain::tabuleiro::{EstadoTabuleiro, BOARD_SIZE};

verus! {

/// A direction on the board: north and south along the columns (rows up and down), west and
/// east along the rows.
#[derive(Debug, Clone, Copy, PartialEq, Eq, Structural)]
pub enum DirecaoBusca {
    Norte,
    Sul,
    Leste,
    Oeste,
}

/// The direction the other way.
pub open spec fn oposta(d: DirecaoBusca) -> DirecaoBusca {
    match d {
        DirecaoBusca::Norte => DirecaoBusca::Sul,
        DirecaoBusca::Sul => DirecaoBusca::Norte,
        DirecaoBusca::Leste => DirecaoBusca::Oeste,
        DirecaoBusca::Oeste => DirecaoBusca::Leste,
    }
}

/// The neighbours of `(x, y)` on the board, in the order north, south, west, east.
pub open spec fn vizinhos(x: usize, y: usize) -> Seq<(usize, usize)> {
    let a = if x > 0 {
        seq![((x - 1) as usize, y)]
    } else {
        Seq::empty()
    };
    let b = if x < 9 {
        seq![((x + 1) as usize, y)]
    } else {
        Seq::empty()
    };
    let c = if y > 0 {
        seq![(x, (y - 1) as usize)]
    } else {
        Seq::empty()
    };
    let d = if y < 9 {
        seq![(x, (y + 1) as usize)]
    } else {
        Seq::empty()
    };
    a + b + c + d
}

/// The next cell from `(x, y)` going in direction `d`, if it is on the board's side of the edge.
pub open spec fn proxima(x: usize, y: usize, d: DirecaoBusca) -> Option<(usize, usize)> {
    match d {
        DirecaoBusca::Norte => if x > 0 {
            Some(((x - 1) as usize, y))
        } else {
            None
        },
        DirecaoBusca::Sul => if x < 9 {
            Some(((x + 1) as usize, y))
        } else {
            None
        },
        DirecaoBusca::Oeste => if y > 0 {
            Some((x, (y - 1) as usize))
        } else {
            None
        },
        DirecaoBusca::Leste => if y < 9 {
            Some((x, (y + 1) as usize))
        } else {
            None
        },
    }
}

/// The direction from `p1` to `p2` when they share a row or a column.
pub open spec fn direcao_entre(p1: (usize, usize), p2: (usize, usize)) -> Option<DirecaoBusca> {
    if p1.0 == p2.0 {
        if p2.1 > p1.1 {
            Some(DirecaoBusca::Leste)
        } else {
            Some(DirecaoBusca::Oeste)
        }
    } else if p1.1 == p2.1 {
        if p2.0 > p1.0 {
            Some(DirecaoBusca::Sul)
        } else {
            Some(DirecaoBusca::Norte)
        }
    } else {
        None
    }
}

/// The cell `(x, y)` lies on the board and was not shot yet.
pub open spec fn livre(tabuleiro: EstadoTabuleiro, x: usize, y: usize) -> bool {
    x < 10 && y < 10 && disponivel(tabuleiro.celula(x as int, y as int))
}

/// The first of `cands`, from the `j`-th on, that is free on `tabuleiro`.
pub open spec fn primeiro_livre(tabuleiro: EstadoTabuleiro, cands: Seq<(usize, usize)>, j: int) -> Option<
    (usize, usize),
>
    decreases cands.len() - j,
{
    if j < 0 || j >= cands.len() {
        None
    } else if livre(tabuleiro, cands[j].0, cands[j].1) {
        Some(cands[j])
    } else {
        primeiro_livre(tabuleiro, cands, j + 1)
    }
}

/// The first free neighbour of the hits, from the `i`-th hit on, hits in order and each hit's
/// neighbours in the order of `vizinhos`.
pub open spec fn primeiro_adjacente_livre(
    tabuleiro: EstadoTabuleiro,
    acertos: Seq<(usize, usize)>,
    i: int,
) -> Option<(usize, usize)>
    decreases acertos.len() - i,
{
    if i < 0 || i >= acertos.len() {
        None
    } else {
        match primeiro_livre(tabuleiro, vizinhos(acertos[i].0, acertos[i].1), 0) {
            Some(p) => Some(p),
            None => primeiro_adjacente_livre(tabuleiro, acertos, i + 1),
        }
    }
}

/// The next cell in direction `d` from `p`, when it is free.
pub open spec fn seguinte_livre(tabuleiro: EstadoTabuleiro, p: (usize, usize), d: DirecaoBusca) -> Option<
    (usize, usize),
> {
    match proxima(p.0, p.1, d) {
        Some(q) => if livre(tabuleiro, q.0, q.1) {
            Some(q)
        } else {
            None
        },
        None => None,
    }
}

/// What the medium enemy remembers: the hits on a ship still afloat, the direction it follows,
/// and the names of the ships it sank.
pub struct VistaIntermediaria {
    pub acertos: Seq<(usize, usize)>,
    pub direcao: Option<DirecaoBusca>,
    pub afundados: Seq<Seq<char>>,
}

impl VistaIntermediaria {
    /// The direction after choosing a target: with two hits and none yet, the one from the
    /// first hit to the second.
    pub open spec fn direcao_apos_escolha(self) -> Option<DirecaoBusca> {
        if self.acertos.len() >= 2 && self.direcao is None {
            match direcao_entre(self.acertos[0], self.acertos[1]) {
                Some(d) => Some(d),
                None => self.direcao,
            }
        } else {
            self.direcao
        }
    }

    /// What it remembers after the outcome `r` of its shot at `(x, y)`: a hit is added to the
    /// hits; a sunk ship clears the hits and the direction and is recorded by name; anything
    /// else changes nothing.
    pub open spec fn apos_resultado(self, x: usize, y: usize, r: ResultadoDisparo) -> VistaIntermediaria {
        match r {
            ResultadoDisparo::Acerto => VistaIntermediaria { acertos: self.acertos.push((x, y)), ..self },
            ResultadoDisparo::Afundou(nome) => VistaIntermediaria {
                acertos: Seq::empty(),
                direcao: None,
                afundados: self.afundados.push(nome@),
            },
            _ => self,
        }
    }

    /// The target chosen by rule: following the direction past the last hit, else back past the
    /// first; else the first free neighbour of a hit. `None` when no rule applies and the target
    /// is drawn.
    pub open spec fn alvo_dirigido(self, tabuleiro: EstadoTabuleiro) -> Option<(usize, usize)> {
        if self.acertos.len() == 0 {
            None
        } else {
            let pela_direcao = match self.direcao_apos_escolha() {
                Some(d) => match seguinte_livre(tabuleiro, self.acertos.last(), d) {
                    Some(p) => Some(p),
                    None => seguinte_livre(tabuleiro, self.acertos[0], oposta(d)),
                },
                None => None,
            };
            match pela_direcao {
                Some(p) => Some(p),
                None => primeiro_adjacente_livre(tabuleiro, self.acertos, 0),
            }
        }
    }
}

/// The medium enemy: it shoots at drawn cells until it hits, then works around and along the hits.
pub struct EstrategiaIntermediaria {
    acertos_ativos: Vec<(usize, usize)>,
    direcao_atual: Option<DirecaoBusca>,
    navios_afundados: Vec<String>,
}

impl View for EstrategiaIntermediaria {
    type V = VistaIntermediaria;

    closed spec fn view(&self) -> VistaIntermediaria {
        VistaIntermediaria {
            acertos: self.acertos_ativos@,
            direcao: self.direcao_atual,
            afundados: self.navios_afundados@.map_values(|s: String| s@),
        }
    }
}

impl EstrategiaIntermediaria {
    /// No hit remembered, no direction, no ship sunk.
    pub fn nova() -> (r: Self)
        ensures
            r@.acertos.len() == 0,
            r@.direcao is None,
            r@.afundados.len() == 0,
    {
        Self { acertos_ativos: Vec::new(), direcao_atual: None, navios_afundados: Vec::new() }
    }

    fn obter_adjacentes(&self, x: usize, y: usize) -> (r: Vec<(usize, usize)>)
        ensures
            r@ == vizinhos(x, y),
    {
        let mut adjacentes: Vec<(usize, usize)> = Vec::new();
        if x > 0 {
            adjacentes.push((x - 1, y));
        }
        if x < BOARD_SIZE - 1 {
            adjacentes.push((x + 1, y));
        }
        if y > 0 {
            adjacentes.push((x, y - 1));
        }
        if y < BOARD_SIZE - 1 {
            adjacentes.push((x, y + 1));
        }
        assert(adjacentes@ =~= vizinhos(x, y));
        adjacentes
    }

    fn obter_proxima_na_direcao(&self, x: usize, y: usize, direcao: DirecaoBusca) -> (r: Option<
        (usize, usize),
    >)
        ensures
            r == proxima(x, y, direcao),
    {
        match direcao {
            DirecaoBusca::Norte if x > 0 => Some((x - 1, y)),
            DirecaoBusca::Sul if x < BOARD_SIZE - 1 => Some((x + 1, y)),
            DirecaoBusca::Oeste if y > 0 => Some((x, y - 1)),
            DirecaoBusca::Leste if y < BOARD_SIZE - 1 => Some((x, y + 1)),
            _ => None,
        }
    }

    fn determinar_direcao(&self, p1: (usize, usize), p2: (usize, usize)) -> (r: Option<DirecaoBusca>)
        ensures
            r == direcao_entre(p1, p2),
    {
        let (x1, y1) = p1;
        let (x2, y2) = p2;
        if x1 == x2 {
            if y2 > y1 {
                Some(DirecaoBusca::Leste)
            } else {
                Some(DirecaoBusca::Oeste)
            }
        } else if y1 == y2 {
            if x2 > x1 {
                Some(DirecaoBusca::Sul)
            } else {
                Some(DirecaoBusca::Norte)
            }
        } else {
            None
        }
    }

    fn celula_disponivel(&self, tabuleiro: &EstadoTabuleiro, x: usize, y: usize) -> (r: bool)
        ensures
            r == livre(*tabuleiro, x, y),
    {
        match tabuleiro.valor_celula(x, y) {
            Some(celula) => matches!(
                celula,
                crate::domain::tabuleiro::Celula::Vazio | crate::domain::tabuleiro::Celula::Ocupado(_)
            ),
            None => false,
        }
    }

    fn escolher_aleatorio(&self, tabuleiro: &EstadoTabuleiro, sorteio: u32) -> (r: Option<(usize, usize)>)
        ensures
            r == sorteado(alvos_livres(*tabuleiro), sorteio),
            r is None <==> alvos_livres(*tabuleiro).len() == 0,
            r matches Some(p) ==> alvos_livres(*tabuleiro).contains(p),
    {
        sortear_alvo(tabuleiro, sorteio)
    }

    /// Picks the next target on the player's board. With hits remembered it follows the rules of
    /// `alvo_dirigido`, first fixing a direction from the first two hits; otherwise, or when no
    /// rule gives a free cell, it takes the cell not shot yet that the draw `sorteio` picks.
    pub fn escolher_alvo(&mut self, tabuleiro_inimigo: &EstadoTabuleiro, sorteio: u32) -> (r: Option<(usize, usize)>)
        ensures
            final(self)@.acertos == old(self)@.acertos,
            final(self)@.afundados == old(self)@.afundados,
            final(self)@.direcao == old(self)@.direcao_apos_escolha(),
            old(self)@.alvo_dirigido(*tabuleiro_inimigo) matches Some(p) ==> r == Some(p),
            old(self)@.alvo_dirigido(*tabuleiro_inimigo) is None ==> {
                &&& r == sorteado(alvos_livres(*tabuleiro_inimigo), sorteio)
                &&& r is None <==> alvos_livres(*tabuleiro_inimigo).len() == 0
                &&& r matches Some(p) ==> alvos_livres(*tabuleiro_inimigo).contains(p)
            },
    {
        if self.acertos_ativos.len() == 0 {
            return self.escolher_aleatorio(tabuleiro_inimigo, sorteio);
        }
        if self.acertos_ativos.len() >= 2 && self.direcao_atual.is_none() {
            let primeiro = self.acertos_ativos[0];
            let segundo = self.acertos_ativos[1];
            if let Some(direcao) = self.determinar_direcao(primeiro, segundo) {
                self.direcao_atual = Some(direcao);
            }
        }
        if let Some(direcao) = self.direcao_atual {
            let ultimo = self.acertos_ativos[self.acertos_ativos.len() - 1];
            if let Some(proximo) = self.obter_proxima_na_direcao(ultimo.0, ultimo.1, direcao) {
                if self.celula_disponivel(tabuleiro_inimigo, proximo.0, proximo.1) {
                    return Some(proximo);
                }
            }
            let primeiro = self.acertos_ativos[0];
            let direcao_oposta = match direcao {
                DirecaoBusca::Norte => DirecaoBusca::Sul,
                DirecaoBusca::Sul => DirecaoBusca::Norte,
                DirecaoBusca::Leste => DirecaoBusca::Oeste,
                DirecaoBusca::Oeste => DirecaoBusca::Leste,
            };
            if let Some(proximo) = self.obter_proxima_na_direcao(
                primeiro.0,
                primeiro.1,
                direcao_oposta,
            ) {
                if self.celula_disponivel(tabuleiro_inimigo, proximo.0, proximo.1) {
                    return Some(proximo);
                }
            }
        }
        let ghost acertos = self.acertos_ativos@;
        let mut i: usize = 0;
        while i < self.acertos_ativos.len()
            invariant
                i <= acertos.len(),
                self.acertos_ativos@ == acertos,
                self@ == (VistaIntermediaria {
                    direcao: old(self)@.direcao_apos_escolha(),
                    ..old(self)@
                }),
                old(self)@.alvo_dirigido(*tabuleiro_inimigo) == primeiro_adjacente_livre(
                    *tabuleiro_inimigo,
                    acertos,
                    i as int,
                ),
            decreases acertos.len() - i,
        {
            let (x, y) = self.acertos_ativos[i];
            let adjacentes = self.obter_adjacentes(x, y);
            let mut j: usize = 0;
            while j < adjacentes.len()
                invariant
                    j <= adjacentes@.len(),
                    i < acertos.len(),
                    self.acertos_ativos@ == acertos,
                    self@ == (VistaIntermediaria {
                        direcao: old(self)@.direcao_apos_escolha(),
                        ..old(self)@
                    }),
                    old(self)@.alvo_dirigido(*tabuleiro_inimigo) == primeiro_adjacente_livre(
                        *tabuleiro_inimigo,
                        acertos,
                        i as int,
                    ),
                    acertos[i as int] == (x, y),
                    adjacentes@ == vizinhos(x, y),
                    primeiro_livre(*tabuleiro_inimigo, adjacentes@, 0) == primeiro_livre(
                        *tabuleiro_inimigo,
                        adjacentes@,
                        j as int,
                    ),
                decreases adjacentes@.len() - j,
            {
                let (ax, ay) = adjacentes[j];
                if self.celula_disponivel(tabuleiro_inimigo, ax, ay) {
                    return Some((ax, ay));
                }
                j += 1;
            }
            i += 1;
        }
        self.escolher_aleatorio(tabuleiro_inimigo, sorteio)
    }

    /// Learns the outcome of its shot at `(x, y)`: a hit is remembered; a sunk ship clears the
    /// hits and the direction and is recorded by name; anything else is forgotten.
    pub fn notificar_resultado(&mut self, x: usize, y: usize, resultado: &RetornoDisparo)
        ensures
            final(self)@ == old(self)@.apos_resultado(x, y, resultado.resultado),
    {
        match &resultado.resultado {
            ResultadoDisparo::Acerto => {
                self.acertos_ativos.push((x, y));
            },
            ResultadoDisparo::Afundou(nome_navio) => {
                self.acertos_ativos.clear();
                self.direcao_atual = None;
                let ghost antes = self.navios_afundados@;
                self.navios_afundados.push(nome_navio.clone());
                assert(self.navios_afundados@.map_values(|s: String| s@) =~= antes.map_values(
                    |s: String| s@,
                ).push(nome_navio@));
            },
            _ => {},
        }
        proof {
            assert(self@.acertos =~= self.acertos_ativos@);
        }
    }
}

/// `primeiro_livre` only gives free cells.
proof fn lema_primeiro_livre(tabuleiro: EstadoTabuleiro, cands: Seq<(usize, usize)>, j: int)
    ensures
        primeiro_livre(tabuleiro, cands, j) matches Some(p) ==> livre(tabuleiro, p.0, p.1),
    decreases cands.len() - j,
{
    if 0 <= j < cands.len() && !livre(tabuleiro, cands[j].0, cands[j].1) {
        lema_primeiro_livre(tabuleiro, cands, j + 1);
    }
}

/// `primeiro_adjacente_livre` only gives free cells.
proof fn lema_primeiro_adjacente_livre(tabuleiro: EstadoTabuleiro, acertos: Seq<(usize, usize)>, i: int)
    ensures
        primeiro_adjacente_livre(tabuleiro, acertos, i) matches Some(p) ==> livre(tabuleiro, p.0, p.1),
    decreases acertos.len() - i,
{
    if 0 <= i < acertos.len() {
        lema_primeiro_livre(tabuleiro, vizinhos(acertos[i].0, acertos[i].1), 0);
        lema_primeiro_adjacente_livre(tabuleiro, acertos, i + 1);
    }
}

/// The medium enemy never aims at a cell it already shot: the target its rules choose lies on
/// the board and was not shot yet.
pub proof fn lei_alvo_dirigido_livre(v: VistaIntermediaria, tabuleiro: EstadoTabuleiro)
    ensures
        v.alvo_dirigido(tabuleiro) matches Some(p) ==> livre(tabuleiro, p.0, p.1),
{
    lema_primeiro_adjacente_livre(tabuleiro, v.acertos, 0);
}


/// How many steps along rows and columns lie between two cells.
pub open spec fn passos(p: (usize, usize), q: (usize, usize)) -> int {
    (if p.0 >= q.0 { p.0 - q.0 } else { q.0 - p.0 }) + (if p.1 >= q.1 { p.1 - q.1 } else { q.1 - p.1 })
}

/// Law: the direction from one cell to another of its row or column points at it: one step
/// that way from the first cell comes one step closer to the second, and one step that way
/// from the second goes one step further from the first.
pub proof fn lei_direcao_aponta(p1: (usize, usize), p2: (usize, usize))
    requires
        p1 != p2,
        p1.0 == p2.0 || p1.1 == p2.1,
        p1.0 < 10 && p1.1 < 10,
        p2.0 < 10 && p2.1 < 10,
    ensures
        direcao_entre(p1, p2) matches Some(d) && {
            &&& proxima(p1.0, p1.1, d) matches Some(q) && passos(q, p2) == passos(p1, p2) - 1
            &&& proxima(p2.0, p2.1, d) matches Some(q) ==> passos(p1, q) == passos(p1, p2) + 1
        },
{
}

} // verus!
