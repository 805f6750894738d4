use vstd::prelude::*;

use crate::domain::tabuleiro::{
    fila_padrao, frota_padrao, lema_fila_padrao, nomes_frota, tamanhos_frota, EstadoTabuleiro,
    BOARD_SIZE,
};

verus! {

/// The cells a ship would take where the cursor is, and whether it may go there.
#[derive(Clone, Debug, PartialEq, Eq)]
pub struct PreviewPosicionamento {
    pub celulas: Vec<(usize, usize)>,
    pub valido: bool,
}

/// What the placing phase knows: the queue of ships, how many were placed, and the direction
/// the next one goes.
pub struct VistaFase {
    pub fila: Seq<(Seq<char>, usize)>,
    pub indice: nat,
    pub horizontal: bool,
}

/// Where a ship of `tamanho` cells starts when the cursor is at `(x, y)`: the cursor sits on its
/// middle cell, the start clamped at the board's edge.
pub open spec fn inicio_centrado(x: usize, y: usize, tamanho: usize, horizontal: bool) -> (
    usize,
    usize,
) {
    let offset = tamanho / 2;
    if horizontal {
        (x, if y >= offset { (y - offset) as usize } else { 0 })
    } else {
        (if x >= offset { (x - offset) as usize } else { 0 }, y)
    }
}

/// How many cells of a ship of `tamanho` cells starting at `(sx, sy)` lie on the board: the
/// ones before it runs off the edge.
pub open spec fn celulas_no_mapa(sx: usize, sy: usize, tamanho: usize, horizontal: bool) -> nat {
    if sx >= 10 || sy >= 10 {
        0
    } else {
        let resto: nat = if horizontal {
            (10 - sy) as nat
        } else {
            (10 - sx) as nat
        };
        if tamanho <= resto {
            tamanho as nat
        } else {
            resto
        }
    }
}

/// The cells of a ship starting at `(sx, sy)` that lie on the board, from its start on.
pub open spec fn celulas_preview(sx: usize, sy: usize, tamanho: usize, horizontal: bool) -> Seq<
    (usize, usize),
> {
    Seq::new(
        celulas_no_mapa(sx, sy, tamanho, horizontal),
        |i: int|
            if horizontal {
                (sx, (sy + i) as usize)
            } else {
                ((sx + i) as usize, sy)
            },
    )
}

/// The placing phase: the player places the standard fleet one ship after the other.
pub struct FasePosicionamento {
    fila_navios: Vec<(String, usize)>,
    indice_atual: usize,
    orientacao_horizontal: bool,
}

impl View for FasePosicionamento {
    type V = VistaFase;

    closed spec fn view(&self) -> VistaFase {
        VistaFase {
            fila: self.fila_navios@.map_values(|p: (String, usize)| (p.0@, p.1)),
            indice: self.indice_atual as nat,
            horizontal: self.orientacao_horizontal,
        }
    }
}

impl FasePosicionamento {
    /// The queue is the standard one and no more ships were placed than it holds.
    #[verifier::type_invariant]
    closed spec fn inv(self) -> bool {
        &&& self@.fila == fila_padrao()
        &&& self.indice_atual <= self.fila_navios@.len()
    }

    /// A fresh phase: nothing placed yet, ships going along the rows.
    pub fn nova() -> (r: Self)
        ensures
            r@ == (VistaFase { fila: fila_padrao(), indice: 0, horizontal: true }),
    {
        let frota = frota_padrao();
        let mut fila_navios: Vec<(String, usize)> = Vec::new();
        let mut c: usize = 0;
        while c < frota.len()
            invariant
                frota@.len() == 4,
                forall|i: int|
                    #![trigger frota@[i]]
                    0 <= i < 4 ==> frota@[i].tamanho == tamanhos_frota()[i]
                        && frota@[i].quantidade == crate::domain::tabuleiro::quantidades_frota()[i]
                        && frota@[i].nome@ == nomes_frota()[i],
                c <= 4,
                fila_navios@.map_values(|p: (String, usize)| (p.0@, p.1)) == fila_padrao().take(
                    crate::domain::tabuleiro::navios_antes(c as int),
                ),
            decreases 4 - c,
        {
            let config = &frota[c];
            let mut q: usize = 0;
            while q < config.quantidade
                invariant
                    c < 4,
                    config == frota@[c as int],
                    config.tamanho == tamanhos_frota()[c as int],
                    config.quantidade == crate::domain::tabuleiro::quantidades_frota()[c as int],
                    config.nome@ == nomes_frota()[c as int],
                    q <= config.quantidade,
                    fila_navios@.map_values(|p: (String, usize)| (p.0@, p.1)) == fila_padrao().take(
                        crate::domain::tabuleiro::navios_antes(c as int) + q,
                    ),
                decreases config.quantidade - q,
            {
                let ghost antes = fila_navios@;
                let nome = config.nome.to_owned();
                fila_navios.push((nome, config.tamanho));
                proof {
                    lema_fila_padrao(c as int, q as int);
                    let n = crate::domain::tabuleiro::navios_antes(c as int) + q;
                    assert(fila_padrao().take(n + 1) =~= fila_padrao().take(n).push(fila_padrao()[n]));
                    assert(fila_navios@ == antes.push((nome, config.tamanho)));
                    assert(fila_navios@.map_values(|p: (String, usize)| (p.0@, p.1)) =~= fila_padrao().take(
                        crate::domain::tabuleiro::navios_antes(c as int) + q + 1,
                    ));
                }
                q += 1;
            }
            c += 1;
        }
        assert(fila_padrao().take(6) =~= fila_padrao());
        Self { fila_navios, indice_atual: 0, orientacao_horizontal: true }
    }

    /// Turns the direction the next ship goes.
    pub fn alternar_orientacao(&mut self)
        ensures
            final(self)@ == (VistaFase { horizontal: !old(self)@.horizontal, ..old(self)@ }),
    {
        proof {
            use_type_invariant(&*self);
        }
        self.orientacao_horizontal = !self.orientacao_horizontal;
    }

    /// The direction the next ship goes, as shown to the player.
    pub fn orientacao_texto(&self) -> (r: &'static str)
        ensures
            r@ == if self@.horizontal {
                "Horizontal"@
            } else {
                "Vertical"@
            },
    {
        if self.orientacao_horizontal {
            "Horizontal"
        } else {
            "Vertical"
        }
    }

    /// The name and length of the next ship to place; `None` once all are placed.
    pub fn navio_atual(&self) -> (r: Option<(&str, usize)>)
        ensures
            self@.fila == fila_padrao(),
            match r {
                Some((nome, tamanho)) => self@.indice < self@.fila.len() && nome@ == self@.fila[
                    self@.indice as int
                ].0 && tamanho == self@.fila[self@.indice as int].1,
                None => self@.indice >= self@.fila.len(),
            },
    {
        proof {
            use_type_invariant(self);
        }
        if self.indice_atual < self.fila_navios.len() {
            let par = &self.fila_navios[self.indice_atual];
            Some((par.0.as_str(), par.1))
        } else {
            None
        }
    }

    /// Where the ship starts when the cursor is at `(x, y)`.
    fn ajustar_coordenada_para_centro(&self, x: usize, y: usize, tamanho: usize) -> (r: (
        usize,
        usize,
    ))
        ensures
            r == inicio_centrado(x, y, tamanho, self@.horizontal),
    {
        let offset = tamanho / 2;
        if self.orientacao_horizontal {
            (x, y.saturating_sub(offset))
        } else {
            (x.saturating_sub(offset), y)
        }
    }

    /// The cells the next ship would take with the cursor at `(x, y)`, those on the board, and
    /// whether it may go there: all its cells on the board, over untouched water of
    /// `tabuleiro`. `None` once all ships are placed.
    pub fn preview_na_posicao(&self, tabuleiro: &EstadoTabuleiro, x: usize, y: usize) -> (r: Option<
        PreviewPosicionamento,
    >)
        requires
            x < 0x7fff_fff0,
            y < 0x7fff_fff0,
        ensures
            self@.indice >= self@.fila.len() ==> r is None,
            self@.indice < self@.fila.len() ==> (r matches Some(p) && {
                let tamanho = self@.fila[self@.indice as int].1;
                let h = self@.horizontal;
                let (sx, sy) = inicio_centrado(x, y, tamanho, h);
                &&& p.celulas@ == celulas_preview(sx, sy, tamanho, h)
                &&& p.valido == (celulas_no_mapa(sx, sy, tamanho, h) == tamanho
                    && tabuleiro.posicao_livre(sx as int, sy as int, tamanho as int, h))
            }),
    {
        proof {
            use_type_invariant(self);
        }
        let tamanho = match self.navio_atual() {
            Some((_, t)) => t,
            None => {
                return None;
            },
        };
        proof {
            assert(tamanho <= 6) by {
                let i = self@.indice as int;
                assert(0 <= i < 6);
                assert(fila_padrao()[i].1 <= 6);
            }
        }
        let (start_x, start_y) = self.ajustar_coordenada_para_centro(x, y, tamanho);
        let mut celulas: Vec<(usize, usize)> = Vec::with_capacity(tamanho);
        let ghost total = celulas_no_mapa(start_x, start_y, tamanho, self.orientacao_horizontal);
        let mut i: usize = 0;
        while i < tamanho
            invariant
                i <= tamanho,
                tamanho <= 6,
                start_x < 0x7fff_fff0,
                start_y < 0x7fff_fff0,
                total == celulas_no_mapa(start_x, start_y, tamanho, self.orientacao_horizontal),
                celulas@ == celulas_preview(start_x, start_y, tamanho, self.orientacao_horizontal).take(
                    if i <= total {
                        i as int
                    } else {
                        total as int
                    },
                ),
            decreases tamanho - i,
        {
            let cx: usize;
            let cy: usize;
            if self.orientacao_horizontal {
                cx = start_x;
                cy = start_y + i;
            } else {
                cx = start_x + i;
                cy = start_y;
            }
            if cx < BOARD_SIZE && cy < BOARD_SIZE {
                celulas.push((cx, cy));
                proof {
                    let s = celulas_preview(start_x, start_y, tamanho, self.orientacao_horizontal);
                    assert(s.take(i + 1) =~= s.take(i as int).push(s[i as int]));
                }
            }
            i += 1;
        }
        proof {
            let s = celulas_preview(start_x, start_y, tamanho, self.orientacao_horizontal);
            assert(s.take(total as int) =~= s);
        }
        let valido = celulas.len() == tamanho && tabuleiro.pode_posicionar_navio(
            start_x,
            start_y,
            tamanho,
            self.orientacao_horizontal,
        );
        Some(PreviewPosicionamento { celulas, valido })
    }

    /// Places the next ship on `tabuleiro` with the cursor at `(x, y)`, and says whether it was
    /// the last. Refused, with the reason, where it does not fit; `Ok(true)` with nothing left to
    /// place.
    pub fn tentar_posicionar_navio(&mut self, tabuleiro: &mut EstadoTabuleiro, x: usize, y: usize) -> (r:
        Result<bool, String>)
        ensures
            old(self)@.indice >= old(self)@.fila.len() ==> {
                &&& r == Ok::<bool, String>(true)
                &&& final(self)@ == old(self)@
                &&& final(tabuleiro).celulas() == old(tabuleiro).celulas()
                &&& final(tabuleiro).frota() == old(tabuleiro).frota()
            },
            old(self)@.indice < old(self)@.fila.len() ==> {
                let (nome, tamanho) = old(self)@.fila[old(self)@.indice as int];
                let h = old(self)@.horizontal;
                let (sx, sy) = inicio_centrado(x, y, tamanho, h);
                let livre = old(tabuleiro).posicao_livre(sx as int, sy as int, tamanho as int, h);
                &&& r is Ok <==> livre
                &&& r matches Err(e) ==> {
                    &&& old(tabuleiro).erro_validacao(sx as int, sy as int, tamanho as int, h)
                        == Some(e@)
                    &&& final(self)@ == old(self)@
                    &&& final(tabuleiro).celulas() == old(tabuleiro).celulas()
                    &&& final(tabuleiro).frota() == old(tabuleiro).frota()
                }
                &&& r matches Ok(fim) ==> {
                    &&& final(self)@ == (VistaFase { indice: old(self)@.indice + 1, ..old(self)@ })
                    &&& fim == (old(self)@.indice + 1 >= old(self)@.fila.len())
                    &&& final(tabuleiro).celulas() == crate::domain::tabuleiro::celulas_apos_posicionar(
                        old(tabuleiro).celulas(),
                        sx as int,
                        sy as int,
                        tamanho as int,
                        h,
                        old(tabuleiro).frota().len() as usize,
                    )
                    &&& final(tabuleiro).frota().len() == old(tabuleiro).frota().len() + 1
                    &&& forall|i: int|
                        0 <= i < old(tabuleiro).frota().len() ==> #[trigger] final(tabuleiro).frota()[i]
                            == old(tabuleiro).frota()[i]
                    &&& final(tabuleiro).frota().last().nome@ == nome
                    &&& final(tabuleiro).frota().last().tamanho == tamanho
                    &&& final(tabuleiro).frota().last().acertos == 0
                }
            },
            old(tabuleiro).bem_formado() ==> final(tabuleiro).bem_formado(),
    {
        proof {
            use_type_invariant(&*self);
        }
        if self.indice_atual >= self.fila_navios.len() {
            return Ok(true);
        }
        let nome = self.fila_navios[self.indice_atual].0.clone();
        let tamanho = self.fila_navios[self.indice_atual].1;
        let (start_x, start_y) = self.ajustar_coordenada_para_centro(x, y, tamanho);
        tabuleiro.posicionar_navio(nome.as_str(), start_x, start_y, tamanho, self.orientacao_horizontal)?;
        self.indice_atual += 1;
        Ok(self.terminou())
    }

    /// All ships are placed.
    pub fn terminou(&self) -> (r: bool)
        ensures
            r == (self@.indice >= self@.fila.len()),
    {
        self.indice_atual >= self.fila_navios.len()
    }
}

/// The preview of a ship is valid exactly when placing it with the cursor at the same cell
/// succeeds: `preview_na_posicao` calls it valid when all its cells lie on the board over free
/// water, and `tentar_posicionar_navio` succeeds when they are free water of the board.
pub proof fn lei_preview_prediz_posicionamento(
    t: EstadoTabuleiro,
    x: usize,
    y: usize,
    tamanho: usize,
    horizontal: bool,
)
    ensures
        ({
            let (sx, sy) = inicio_centrado(x, y, tamanho, horizontal);
            (celulas_no_mapa(sx, sy, tamanho, horizontal) == tamanho && t.posicao_livre(
                sx as int,
                sy as int,
                tamanho as int,
                horizontal,
            )) == t.posicao_livre(sx as int, sy as int, tamanho as int, horizontal)
        }),
{
    let (sx, sy) = inicio_centrado(x, y, tamanho, horizontal);
    if tamanho > 0 && t.posicao_livre(sx as int, sy as int, tamanho as int, horizontal) {
        assert(t.celula_livre(sx as int, sy as int, 0, horizontal));
        assert(t.celula_livre(sx as int, sy as int, tamanho - 1, horizontal));
    }
}


/// Law: a ship centred on the cursor starts at most half its length before the cursor, along
/// its own direction only, and exactly half its length before it unless held at the board's
/// edge; so the cursor always lies on the ship.
pub proof fn lei_inicio_centrado(x: usize, y: usize, tamanho: usize, horizontal: bool)
    ensures
        ({
            let (sx, sy) = inicio_centrado(x, y, tamanho, horizontal);
            let (c, s) = if horizontal { (y, sy) } else { (x, sx) };
            &&& horizontal ==> sx == x
            &&& !horizontal ==> sy == y
            &&& s <= c
            &&& c - s <= tamanho / 2
            &&& s == 0 || c - s == tamanho / 2
            &&& tamanho > 0 ==> c < s + tamanho
        }),
{
}

} // verus!
