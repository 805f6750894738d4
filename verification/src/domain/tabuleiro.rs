use vstd::prelude::*;

use crate::domain::espaco::{lema_ha_espaco, lema_ocupadas_apos_posicionar, ocupada};
use crate::contagem::{conta, lema_conta_ext, lema_conta_update, lema_conta_zero, lema_conta_soma, lema_conta_limite, lema_conta_nenhum};

verus! {

/// Side of the square board.
pub const BOARD_SIZE: usize = 10;

/// Index of the cell `(x, y)` in the row-major list of the board's cells.
pub open spec fn pos(x: int, y: int) -> int {
    x * 10 + y
}

/// One of the cells a ship of `tamanho` cells starting at `(x, y)` covers, as `(row, column)`.
pub open spec fn na_posicao(x: int, y: int, tamanho: int, horizontal: bool, a: int, b: int) -> bool {
    if horizontal {
        a == x && y <= b < y + tamanho
    } else {
        b == y && x <= a < x + tamanho
    }
}

/// The `i`-th cell of a ship starting at `(x, y)`.
pub open spec fn celula_i(x: int, y: int, i: int, horizontal: bool) -> (int, int) {
    if horizontal {
        (x, y + i)
    } else {
        (x + i, y)
    }
}


/// The cells after a ship with index `n` was placed at `(x, y)` over `cells`.
pub open spec fn celulas_apos_posicionar(
    cells: Seq<Celula>,
    x: int,
    y: int,
    tamanho: int,
    horizontal: bool,
    n: usize,
) -> Seq<Celula> {
    Seq::new(
        100,
        |k: int|
            if na_posicao(x, y, tamanho, horizontal, k / 10, k % 10) {
                Celula::Ocupado(n)
            } else {
                cells[k]
            },
    )
}

/// A cell after ship `i` left the board: the ship's own cells become water and the ships
/// after it move down by one index.
pub open spec fn renumera(c: Celula, i: usize) -> Celula {
    match c {
        Celula::Ocupado(j) => if j == i {
            Celula::Vazio
        } else if j > i {
            Celula::Ocupado((j - 1) as usize)
        } else {
            c
        },
        Celula::Atingido(j) => if j == i {
            Celula::Vazio
        } else if j > i {
            Celula::Atingido((j - 1) as usize)
        } else {
            c
        },
        Celula::Afundado(j) => if j == i {
            Celula::Vazio
        } else if j > i {
            Celula::Afundado((j - 1) as usize)
        } else {
            c
        },
        _ => c,
    }
}

/// The cells after ship `i` left the board.
pub open spec fn celulas_apos_remover(cells: Seq<Celula>, i: usize) -> Seq<Celula> {
    cells.map_values(|c: Celula| renumera(c, i))
}

/// The `k`-th of the 200 ways to start a ship: rows in order, then columns, each first along
/// the row and then down the column.
pub open spec fn candidato(k: int) -> (usize, usize, bool) {
    ((k / 20) as usize, ((k / 2) % 10) as usize, k % 2 == 0)
}

/// The hundred cells of the board, row after row, as `(row, column)`.
pub open spec fn coordenadas() -> Seq<(usize, usize)> {
    Seq::new(100, |k: int| ((k / 10) as usize, (k % 10) as usize))
}

/// The 200 ways to start a ship, in order.
pub open spec fn candidatos() -> Seq<(usize, usize, bool)> {
    Seq::new(200, |k: int| candidato(k))
}

/// `pos` puts each cell of the board at its own index among the hundred.
pub proof fn lema_pos(a: int, b: int)
    requires
        0 <= a < 10,
        0 <= b < 10,
    ensures
        0 <= pos(a, b) < 100,
        pos(a, b) / 10 == a,
        pos(a, b) % 10 == b,
{
}

/// Every index among the hundred is the `pos` of its row and column.
pub proof fn lema_indice(k: int)
    requires
        0 <= k < 100,
    ensures
        0 <= k / 10 < 10,
        0 <= k % 10 < 10,
        pos(k / 10, k % 10) == k,
{
}

/// A kind of ship in the fleet: its name, its length and how many of it a player gets.
pub struct ConfigNavio {
    pub nome: &'static str,
    pub tamanho: usize,
    pub quantidade: usize,
}

/// The lengths of the kinds of ship of the standard fleet.
pub open spec fn tamanhos_frota() -> Seq<usize> {
    seq![6, 4, 3, 1]
}

/// How many ships of each kind the standard fleet has.
pub open spec fn quantidades_frota() -> Seq<usize> {
    seq![2, 2, 1, 1]
}

/// The names of the kinds of ship of the standard fleet.
pub open spec fn nomes_frota() -> Seq<Seq<char>> {
    seq!["Porta-Aviões"@, "Navio de Guerra"@, "Encouraçado"@, "Submarino"@]
}

/// How many ships the kinds of the standard fleet before the `c`-th hold together.
pub open spec fn navios_antes(c: int) -> int {
    if c <= 0 {
        0int
    } else if c == 1 {
        2int
    } else if c == 2 {
        4int
    } else if c == 3 {
        5int
    } else {
        6int
    }
}

/// The standard fleet: two carriers of 6, two warships of 4, one battleship of 3 and one
/// submarine of 1.
pub fn frota_padrao() -> (r: Vec<ConfigNavio>)
    ensures
        r@.len() == 4,
        forall|i: int|
            #![trigger r@[i]]
            0 <= i < 4 ==> r@[i].tamanho == tamanhos_frota()[i] && r@[i].quantidade
                == quantidades_frota()[i] && r@[i].nome@ == nomes_frota()[i],
{
    vec![
        ConfigNavio { nome: "Porta-Aviões", tamanho: 6, quantidade: 2 },
        ConfigNavio { nome: "Navio de Guerra", tamanho: 4, quantidade: 2 },
        ConfigNavio { nome: "Encouraçado", tamanho: 3, quantidade: 1 },
        ConfigNavio { nome: "Submarino", tamanho: 1, quantidade: 1 },
    ]
}

/// The ships of the standard fleet one by one, in order: each kind as many times as the fleet
/// has it, as `(name, length)`.
pub open spec fn fila_padrao() -> Seq<(Seq<char>, usize)> {
    seq![
        (nomes_frota()[0], tamanhos_frota()[0]),
        (nomes_frota()[0], tamanhos_frota()[0]),
        (nomes_frota()[1], tamanhos_frota()[1]),
        (nomes_frota()[1], tamanhos_frota()[1]),
        (nomes_frota()[2], tamanhos_frota()[2]),
        (nomes_frota()[3], tamanhos_frota()[3]),
    ]
}

/// The `q`-th ship of the `c`-th kind sits in the queue after the ships of the kinds before.
pub proof fn lema_fila_padrao(c: int, q: int)
    requires
        0 <= c < 4,
        0 <= q < quantidades_frota()[c],
    ensures
        navios_antes(c) + q < 6,
        fila_padrao()[navios_antes(c) + q] == (
            nomes_frota()[c],
            tamanhos_frota()[c],
        ),
{
    let f = fila_padrao();
    if c == 0 {
        assert(f[0] == (nomes_frota()[0], tamanhos_frota()[0]));
        assert(f[1] == (nomes_frota()[0], tamanhos_frota()[0]));
    } else if c == 1 {
        assert(f[2] == (nomes_frota()[1], tamanhos_frota()[1]));
        assert(f[3] == (nomes_frota()[1], tamanhos_frota()[1]));
    } else if c == 2 {
        assert(f[4] == (nomes_frota()[2], tamanhos_frota()[2]));
    } else {
        assert(f[5] == (nomes_frota()[3], tamanhos_frota()[3]));
    }
}

/// How many ships a fleet holds: the sum of how many of each kind it has.
pub open spec fn total_de_navios(f: Seq<ConfigNavio>) -> int
    decreases f.len(),
{
    if f.len() == 0 {
        0
    } else {
        total_de_navios(f.drop_last()) + f.last().quantidade
    }
}

/// A part of a fleet never holds more ships than the whole.
proof fn lema_total_prefixo(f: Seq<ConfigNavio>, i: int)
    requires
        0 <= i <= f.len(),
    ensures
        total_de_navios(f.take(i)) <= total_de_navios(f),
    decreases f.len(),
{
    if i == f.len() {
        assert(f.take(i) =~= f);
    } else {
        lema_total_prefixo(f.drop_last(), i);
        assert(f.drop_last().take(i) =~= f.take(i));
    }
}

/// How many ships of the fleet `frota` a player gets in all, when the total fits in a `u32`.
pub fn total_navios(frota: &Vec<ConfigNavio>) -> (r: u32)
    requires
        total_de_navios(frota@) <= u32::MAX,
    ensures
        r == total_de_navios(frota@),
{
    proof {
        assert forall|j: int| 0 <= j <= frota@.len() implies #[trigger] total_de_navios(frota@.take(j))
            <= total_de_navios(frota@) by {
            lema_total_prefixo(frota@, j);
        }
    }
    let mut total: u32 = 0;
    let mut i: usize = 0;
    while i < frota.len()
        invariant
            i <= frota@.len(),
            total == total_de_navios(frota@.take(i as int)),
            total_de_navios(frota@) <= u32::MAX,
            forall|j: int| 0 <= j <= frota@.len() ==> #[trigger] total_de_navios(frota@.take(j)) <= total_de_navios(frota@),
        decreases frota@.len() - i,
    {
        assert(frota@.take(i + 1).drop_last() =~= frota@.take(i as int));
        assert(frota@.take(i + 1).last() == frota@[i as int]);
        assert(total_de_navios(frota@.take(i + 1)) <= total_de_navios(frota@));
        total = total + frota[i].quantidade as u32;
        i += 1;
    }
    assert(frota@.take(frota@.len() as int) =~= frota@);
    total
}

/// What a cell of the board holds.
#[derive(Copy, Clone, Debug, PartialEq, Eq, Structural)]
pub enum Celula {
    /// Water that was never shot.
    Vazio,
    /// Water that was shot.
    AguaAtirada,
    /// Intact part of the ship with the given index.
    Ocupado(usize),
    /// Hit part of a ship that is still afloat.
    Atingido(usize),
    /// Part of a ship that sank.
    Afundado(usize),
}

/// The index of the ship a cell belongs to, if any.
pub open spec fn navio_da_celula(c: Celula) -> Option<usize> {
    match c {
        Celula::Ocupado(i) => Some(i),
        Celula::Atingido(i) => Some(i),
        Celula::Afundado(i) => Some(i),
        _ => None,
    }
}

/// Holds of the cells that belong to ship `i`.
pub open spec fn do_navio(i: usize) -> spec_fn(Celula) -> bool {
    |c: Celula| navio_da_celula(c) == Some(i)
}

/// Holds of the cells of ship `i` that were hit (still afloat or sunk).
pub open spec fn atingida(i: usize) -> spec_fn(Celula) -> bool {
    |c: Celula| c == Celula::Atingido(i) || c == Celula::Afundado(i)
}

/// Holds of the intact cells of ship `i`.
pub open spec fn intacta(i: usize) -> spec_fn(Celula) -> bool {
    |c: Celula| c == Celula::Ocupado(i)
}

/// A ship: its name, its length and how many of its cells were hit.
#[derive(Clone, Debug)]
pub struct Navio {
    pub nome: String,
    pub tamanho: usize,
    pub acertos: usize,
}

impl Navio {
    /// A ship with no hit yet.
    pub fn novo(nome: &str, tamanho: usize) -> (r: Self)
        ensures
            r.nome@ == nome@,
            r.tamanho == tamanho,
            r.acertos == 0,
    {
        Self { nome: nome.to_owned(), tamanho, acertos: 0 }
    }

    /// A ship sinks once it took as many hits as it has cells.
    pub fn esta_afundado(&self) -> (r: bool)
        ensures
            r == (self.acertos >= self.tamanho),
    {
        self.acertos >= self.tamanho
    }
}

/// The state of one player's board: its cells and the ships placed on it.
pub struct EstadoTabuleiro {
    cells: [Celula; 100],
    pub navios: Vec<Navio>,
}

impl EstadoTabuleiro {
    /// The cells, row after row.
    pub closed spec fn celulas(&self) -> Seq<Celula> {
        self.cells@
    }

    /// The ships placed on the board, in the order they were placed.
    pub closed spec fn frota(&self) -> Seq<Navio> {
        self.navios@
    }

    /// The cell at row `x`, column `y`.
    pub open spec fn celula(&self, x: int, y: int) -> Celula {
        self.celulas()[pos(x, y)]
    }

    /// How many ships were placed.
    pub fn numero_navios(&self) -> (r: usize)
        ensures
            r == self.frota().len(),
    {
        self.navios.len()
    }

    /// The board has its hundred cells.
    pub proof fn lema_tamanho(&self)
        ensures
            self.celulas().len() == 100,
    {
    }

    /// Every ship index on the board names a ship of the list, each ship counted as many
    /// hits as it has hit cells, and has as many cells as its length.
    pub open spec fn bem_formado(&self) -> bool {
        &&& self.indices_validos()
        &&& self.contagens_corretas()
    }

    /// Every ship index on the board names a ship of the list.
    pub open spec fn indices_validos(&self) -> bool {
        forall|k: int|
            0 <= k < 100 ==> match navio_da_celula(#[trigger] self.celulas()[k]) {
                Some(i) => i < self.frota().len(),
                None => true,
            }
    }

    /// Each ship counted as many hits as it has hit cells, and has as many cells as its length.
    pub open spec fn contagens_corretas(&self) -> bool {
        forall|i: int|
            #![trigger self.frota()[i]]
            0 <= i < self.frota().len() ==> self.frota()[i].acertos == conta(
                self.celulas(),
                atingida(i as usize),
            ) && self.frota()[i].tamanho == conta(self.celulas(), do_navio(i as usize))
    }

    /// An empty board: water everywhere, no ship.
    pub fn vazio() -> (r: Self)
        ensures
            r.bem_formado(),
            r.frota().len() == 0,
            forall|k: int| 0 <= k < 100 ==> #[trigger] r.celulas()[k] == Celula::Vazio,
    {
        let r = Self { cells: [Celula::Vazio; 100], navios: Vec::new() };
        assert(r.celulas().len() == 100);
        r
    }

    /// On a well-formed board no ship counts more hits, or more cells, than the board has.
    pub proof fn lema_acertos_limitados(&self, i: int)
        requires
            self.bem_formado(),
            0 <= i < self.frota().len(),
        ensures
            self.frota()[i].acertos <= 100,
            self.frota()[i].tamanho <= 100,
    {
        self.lema_tamanho();
        lema_conta_limite(self.celulas(), atingida(i as usize));
        lema_conta_limite(self.celulas(), do_navio(i as usize));
    }

    /// Every ship placed sank.
    pub fn todos_afundados(&self) -> (r: bool)
        ensures
            r == forall|i: int|
                0 <= i < self.frota().len() ==> #[trigger] self.frota()[i].acertos >= self.frota()[i].tamanho,
    {
        let mut i: usize = 0;
        while i < self.navios.len()
            invariant
                i <= self.frota().len(),
                forall|j: int| 0 <= j < i ==> #[trigger] self.frota()[j].acertos >= self.frota()[j].tamanho,
            decreases self.frota().len() - i,
        {
            if !self.navios[i].esta_afundado() {
                return false;
            }
            i += 1;
        }
        true
    }

    /// The cell at `(x, y)`, or `None` off the board.
    pub fn valor_celula(&self, x: usize, y: usize) -> (r: Option<Celula>)
        ensures
            x < BOARD_SIZE && y < BOARD_SIZE ==> r == Some(self.celula(x as int, y as int)),
            !(x < BOARD_SIZE && y < BOARD_SIZE) ==> r is None,
    {
        if x >= BOARD_SIZE || y >= BOARD_SIZE {
            return None;
        }
        Some(self.cells[x * 10 + y])
    }

    /// Writes `valor` at `(x, y)`; off the board nothing changes.
    pub fn definir_celula(&mut self, x: usize, y: usize, valor: Celula)
        ensures
            x < BOARD_SIZE && y < BOARD_SIZE ==> final(self).celulas() == old(self).celulas().update(
                pos(x as int, y as int),
                valor,
            ),
            !(x < BOARD_SIZE && y < BOARD_SIZE) ==> final(self).celulas() == old(self).celulas(),
            final(self).frota() == old(self).frota(),
            old(self).bem_formado() && navio_da_celula(valor) is None && (x < BOARD_SIZE && y
                < BOARD_SIZE ==> navio_da_celula(old(self).celula(x as int, y as int)) is None)
                ==> final(self).bem_formado(),
    {
        if x < BOARD_SIZE && y < BOARD_SIZE {
            let ghost antes = self.cells@;
            self.cells[x * 10 + y] = valor;
            proof {
                if old(self).bem_formado() && navio_da_celula(valor) is None && navio_da_celula(
                    old(self).celula(x as int, y as int),
                ) is None {
                    lema_pos(x as int, y as int);
                    let k = pos(x as int, y as int);
                    assert(self.cells@ == antes.update(k, valor));
                    assert forall|j: int| #![trigger self.frota()[j]] 0 <= j < self.frota().len() implies self.frota()[j].acertos
                        == conta(self.celulas(), atingida(j as usize)) && self.frota()[j].tamanho == conta(
                        self.celulas(),
                        do_navio(j as usize),
                    ) by {
                        assert(old(self).frota()[j].acertos == conta(old(self).celulas(), atingida(j as usize)));
                        lema_conta_update(antes, k, valor, atingida(j as usize));
                        lema_conta_update(antes, k, valor, do_navio(j as usize));
                    }
                    assert forall|m: int| 0 <= m < 100 implies match navio_da_celula(
                        #[trigger] self.celulas()[m],
                    ) {
                        Some(j) => j < self.frota().len(),
                        None => true,
                    } by {
                        assert(antes[m] == old(self).celulas()[m]);
                    }
                    assert(self.indices_validos());
                    assert(self.contagens_corretas());
                }
            }
        }
    }

    /// The `i`-th cell of a ship at `(x, y)` lies on the board and is water that was never shot.
    pub open spec fn celula_livre(&self, x: int, y: int, i: int, horizontal: bool) -> bool {
        let (a, b) = celula_i(x, y, i, horizontal);
        &&& 0 <= a < 10
        &&& 0 <= b < 10
        &&& self.celula(a, b) == Celula::Vazio
    }

    /// Every cell of a ship of `tamanho` cells at `(x, y)` lies on the board and is untouched water.
    pub open spec fn posicao_livre(&self, x: int, y: int, tamanho: int, horizontal: bool) -> bool {
        forall|i: int| 0 <= i < tamanho ==> #[trigger] self.celula_livre(x, y, i, horizontal)
    }

    /// The first cell, from the `i`-th on, of a ship at `(x, y)` that is not untouched water
    /// on the board.
    pub open spec fn falha_a_partir(
        &self,
        x: int,
        y: int,
        tamanho: int,
        horizontal: bool,
        i: int,
    ) -> Option<int>
        decreases tamanho - i,
    {
        if i >= tamanho {
            None
        } else if !self.celula_livre(x, y, i, horizontal) {
            Some(i)
        } else {
            self.falha_a_partir(x, y, tamanho, horizontal, i + 1)
        }
    }

    /// Why a ship cannot go at `(x, y)`: its first bad cell is off the board or not untouched
    /// water. `None` when it can go there.
    pub open spec fn erro_validacao(&self, x: int, y: int, tamanho: int, horizontal: bool) -> Option<
        Seq<char>,
    > {
        match self.falha_a_partir(x, y, tamanho, horizontal, 0) {
            None => None,
            Some(j) => {
                let (a, b) = celula_i(x, y, j, horizontal);
                if 0 <= a < 10 && 0 <= b < 10 {
                    Some("Posição ocupada"@)
                } else {
                    Some("Fora do mapa"@)
                }
            },
        }
    }

    /// No bad cell from the `i`-th on is the same as all those cells being fine; a bad cell
    /// found is bad and every cell before it is fine.
    pub proof fn lema_falha(&self, x: int, y: int, tamanho: int, horizontal: bool, i: int)
        requires
            0 <= i,
        ensures
            self.falha_a_partir(x, y, tamanho, horizontal, i) is None <==> (forall|k: int|
                i <= k < tamanho ==> #[trigger] self.celula_livre(x, y, k, horizontal)),
            self.falha_a_partir(x, y, tamanho, horizontal, i) matches Some(j) ==> {
                &&& i <= j < tamanho
                &&& !self.celula_livre(x, y, j, horizontal)
                &&& forall|k: int| i <= k < j ==> #[trigger] self.celula_livre(x, y, k, horizontal)
            },
        decreases tamanho - i,
    {
        if i < tamanho {
            self.lema_falha(x, y, tamanho, horizontal, i + 1);
        }
    }

    /// Checks that a ship of `tamanho` cells fits at `(x, y)`, along the row when `horizontal`,
    /// else down the column: on the board and over untouched water only.
    pub fn validar_posicao_navio(&self, x: usize, y: usize, tamanho: usize, horizontal: bool) -> (r:
        Result<(), String>)
        ensures
            r is Ok <==> self.posicao_livre(x as int, y as int, tamanho as int, horizontal),
            r is Ok <==> self.erro_validacao(x as int, y as int, tamanho as int, horizontal) is None,
            r matches Err(e) ==> self.erro_validacao(x as int, y as int, tamanho as int, horizontal)
                == Some(e@),
    {
        proof {
            self.lema_falha(x as int, y as int, tamanho as int, horizontal, 0);
        }
        let mut i: usize = 0;
        while i < tamanho
            invariant
                i <= tamanho,
                forall|k: int| 0 <= k < i ==> #[trigger] self.celula_livre(x as int, y as int, k, horizontal),
                self.falha_a_partir(x as int, y as int, tamanho as int, horizontal, 0)
                    == self.falha_a_partir(x as int, y as int, tamanho as int, horizontal, i as int),
                i > 0 && horizontal ==> y + i <= 10,
                i > 0 && !horizontal ==> x + i <= 10,
            decreases tamanho - i,
        {
            let nx: usize;
            let ny: usize;
            if horizontal {
                nx = x;
                ny = y + i;
            } else {
                nx = x + i;
                ny = y;
            }
            if nx >= BOARD_SIZE || ny >= BOARD_SIZE {
                return Err(String::from_str("Fora do mapa"));
            }
            if self.cells[nx * 10 + ny] != Celula::Vazio {
                return Err(String::from_str("Posição ocupada"));
            }
            assert(self.celula_livre(x as int, y as int, i as int, horizontal));
            i += 1;
        }
        proof {
            self.lema_falha(x as int, y as int, tamanho as int, horizontal, tamanho as int);
        }
        Ok(())
    }

    /// Whether a ship of `tamanho` cells fits at `(x, y)`.
    pub fn pode_posicionar_navio(&self, x: usize, y: usize, tamanho: usize, horizontal: bool) -> (r:
        bool)
        ensures
            r == self.posicao_livre(x as int, y as int, tamanho as int, horizontal),
    {
        self.validar_posicao_navio(x, y, tamanho, horizontal).is_ok()
    }

    /// Turns every hit cell of ship `navio_idx` into a sunk cell.
    pub fn afundar_navio(&mut self, navio_idx: usize)
        ensures
            forall|k: int|
                0 <= k < 100 ==> #[trigger] final(self).celulas()[k] == if old(self).celulas()[k]
                    == Celula::Atingido(navio_idx) {
                    Celula::Afundado(navio_idx)
                } else {
                    old(self).celulas()[k]
                },
            final(self).frota() == old(self).frota(),
            old(self).bem_formado() ==> final(self).bem_formado(),
    {
        let ghost antes = self.cells@;
        let mut k: usize = 0;
        while k < 100
            invariant
                k <= 100,
                self.navios@ == old(self).navios@,
                antes == old(self).cells@,
                forall|m: int|
                    0 <= m < 100 ==> #[trigger] self.cells@[m] == if m < k && antes[m]
                        == Celula::Atingido(navio_idx) {
                        Celula::Afundado(navio_idx)
                    } else {
                        antes[m]
                    },
            decreases 100 - k,
        {
            if let Celula::Atingido(idx) = self.cells[k] {
                if idx == navio_idx {
                    self.cells[k] = Celula::Afundado(navio_idx);
                }
            }
            k += 1;
        }
        proof {
            if old(self).bem_formado() {
                assert forall|i: int| #![trigger self.frota()[i]] 0 <= i < self.frota().len() implies self.frota()[i].acertos
                    == conta(self.celulas(), atingida(i as usize)) && self.frota()[i].tamanho == conta(
                    self.celulas(),
                    do_navio(i as usize),
                ) by {
                    assert(old(self).frota()[i].acertos == conta(old(self).celulas(), atingida(i as usize)));
                    lema_conta_ext(self.celulas(), atingida(i as usize), antes, atingida(i as usize));
                    lema_conta_ext(self.celulas(), do_navio(i as usize), antes, do_navio(i as usize));
                    assert(old(self).frota()[i] == self.frota()[i]);
                }
                assert forall|k: int| 0 <= k < 100 implies match navio_da_celula(
                    #[trigger] self.celulas()[k],
                ) {
                    Some(i) => i < self.frota().len(),
                    None => true,
                } by {
                    assert(antes[k] == old(self).celulas()[k]);
                }
                assert(self.indices_validos());
                assert(self.contagens_corretas());
            }
        }
    }

    /// Places a ship named `nome` of `tamanho` cells at `(x, y)`, along the row when
    /// `horizontal`, else down the column. The ship gets the next index; its cells become
    /// `Ocupado` with that index. Refused, with the reason, where the ship does not fit.
    pub fn posicionar_navio(
        &mut self,
        nome: &str,
        x: usize,
        y: usize,
        tamanho: usize,
        horizontal: bool,
    ) -> (r: Result<(), String>)
        ensures
            r is Ok <==> old(self).posicao_livre(x as int, y as int, tamanho as int, horizontal),
            r matches Err(e) ==> {
                &&& old(self).erro_validacao(x as int, y as int, tamanho as int, horizontal) == Some(
                    e@,
                )
                &&& final(self).celulas() == old(self).celulas()
                &&& final(self).frota() == old(self).frota()
            },
            r is Ok ==> {
                &&& final(self).celulas() == celulas_apos_posicionar(
                    old(self).celulas(),
                    x as int,
                    y as int,
                    tamanho as int,
                    horizontal,
                    old(self).frota().len() as usize,
                )
                &&& final(self).frota().len() == old(self).frota().len() + 1
                &&& forall|i: int|
                    0 <= i < old(self).frota().len() ==> #[trigger] final(self).frota()[i] == old(
                        self,
                    ).frota()[i]
                &&& final(self).frota().last().nome@ == nome@
                &&& final(self).frota().last().tamanho == tamanho
                &&& final(self).frota().last().acertos == 0
                &&& forall|a: int, b: int|
                    0 <= a < 10 && 0 <= b < 10 ==> #[trigger] final(self).celula(a, b) == if na_posicao(
                        x as int,
                        y as int,
                        tamanho as int,
                        horizontal,
                        a,
                        b,
                    ) {
                        Celula::Ocupado(old(self).frota().len() as usize)
                    } else {
                        old(self).celula(a, b)
                    }
            },
            old(self).bem_formado() ==> final(self).bem_formado(),
    {
        self.validar_posicao_navio(x, y, tamanho, horizontal)?;
        let navio_idx = self.navios.len();
        self.navios.push(Navio::novo(nome, tamanho));
        let ghost antes = self.cells@;
        proof {
            if old(self).bem_formado() {
                assert forall|m: int| 0 <= m < antes.len() implies !do_navio(navio_idx)(
                    #[trigger] antes[m],
                ) by {
                    assert(antes[m] == old(self).celulas()[m]);
                }
                lema_conta_nenhum(antes, do_navio(navio_idx));
                assert forall|m: int| 0 <= m < antes.len() implies !atingida(navio_idx)(
                    #[trigger] antes[m],
                ) by {
                    assert(antes[m] == old(self).celulas()[m]);
                }
                lema_conta_nenhum(antes, atingida(navio_idx));
            }
        }
        let mut i: usize = 0;
        while i < tamanho
            invariant
                i <= tamanho,
                antes == old(self).cells@,
                navio_idx == old(self).navios@.len(),
                self.navios@ == old(self).navios@.push(self.navios@.last()),
                self.navios@.last().nome@ == nome@,
                self.navios@.last().tamanho == tamanho,
                self.navios@.last().acertos == 0,
                old(self).posicao_livre(x as int, y as int, tamanho as int, horizontal),
                forall|m: int|
                    0 <= m < 100 ==> #[trigger] self.cells@[m] == if na_posicao(
                        x as int,
                        y as int,
                        i as int,
                        horizontal,
                        m / 10,
                        m % 10,
                    ) {
                        Celula::Ocupado(navio_idx)
                    } else {
                        antes[m]
                    },
                old(self).bem_formado() ==> {
                    &&& conta(self.cells@, do_navio(navio_idx)) == i
                    &&& conta(self.cells@, atingida(navio_idx)) == 0
                    &&& forall|j: int|
                        #![trigger do_navio(j as usize)]
                        0 <= j < navio_idx ==> conta(self.cells@, do_navio(j as usize)) == conta(
                            antes,
                            do_navio(j as usize),
                        ) && conta(self.cells@, atingida(j as usize)) == conta(
                            antes,
                            atingida(j as usize),
                        )
                },
            decreases tamanho - i,
        {
            proof {
                assert(old(self).celula_livre(x as int, y as int, i as int, horizontal));
            }
            let nx: usize;
            let ny: usize;
            if horizontal {
                nx = x;
                ny = y + i;
            } else {
                nx = x + i;
                ny = y;
            }
            let ghost pre = self.cells@;
            let ghost k = pos(nx as int, ny as int);
            proof {
                lema_pos(nx as int, ny as int);
                assert(pre[k] == Celula::Vazio);
            }
            self.cells[nx * 10 + ny] = Celula::Ocupado(navio_idx);
            proof {
                assert(self.cells@ == pre.update(k, Celula::Ocupado(navio_idx)));
                assert forall|m: int| 0 <= m < 100 implies #[trigger] self.cells@[m] == if na_posicao(
                    x as int,
                    y as int,
                    i + 1,
                    horizontal,
                    m / 10,
                    m % 10,
                ) {
                    Celula::Ocupado(navio_idx)
                } else {
                    antes[m]
                } by {
                    lema_indice(m);
                    if m != k {
                        assert(pre[m] == self.cells@[m]);
                    }
                }
                if old(self).bem_formado() {
                    lema_conta_update(pre, k, Celula::Ocupado(navio_idx), do_navio(navio_idx));
                    lema_conta_update(pre, k, Celula::Ocupado(navio_idx), atingida(navio_idx));
                    assert forall|j: int|
                        #![trigger do_navio(j as usize)]
                        0 <= j < navio_idx implies conta(self.cells@, do_navio(j as usize)) == conta(
                            antes,
                            do_navio(j as usize),
                        ) && conta(self.cells@, atingida(j as usize)) == conta(
                            antes,
                            atingida(j as usize),
                        ) by {
                        lema_conta_update(pre, k, Celula::Ocupado(navio_idx), do_navio(j as usize));
                        lema_conta_update(pre, k, Celula::Ocupado(navio_idx), atingida(j as usize));
                    }
                }
            }
            i += 1;
        }
        proof {
            assert(self.celulas() =~= celulas_apos_posicionar(
                old(self).celulas(),
                x as int,
                y as int,
                tamanho as int,
                horizontal,
                old(self).frota().len() as usize,
            ));
            assert forall|a: int, b: int| 0 <= a < 10 && 0 <= b < 10 implies #[trigger] self.celula(a, b)
                == if na_posicao(x as int, y as int, tamanho as int, horizontal, a, b) {
                Celula::Ocupado(old(self).frota().len() as usize)
            } else {
                old(self).celula(a, b)
            } by {
                lema_pos(a, b);
            }
            assert forall|ii: int| 0 <= ii < old(self).frota().len() implies #[trigger] self.frota()[ii]
                == old(self).frota()[ii] by {
                assert(self.navios@[ii] == old(self).navios@[ii]);
            }
            if old(self).bem_formado() {
                assert forall|m: int| 0 <= m < 100 implies match navio_da_celula(
                    #[trigger] self.celulas()[m],
                ) {
                    Some(j) => j < self.frota().len(),
                    None => true,
                } by {
                    assert(antes[m] == old(self).celulas()[m]);
                }
                assert forall|j: int| #![trigger self.frota()[j]] 0 <= j < self.frota().len() implies self.frota()[j].acertos
                    == conta(self.celulas(), atingida(j as usize)) && self.frota()[j].tamanho == conta(
                    self.celulas(),
                    do_navio(j as usize),
                ) by {
                    if j < navio_idx {
                        assert(self.frota()[j] == old(self).frota()[j]);
                        assert(old(self).frota()[j].acertos == conta(
                            old(self).celulas(),
                            atingida(j as usize),
                        ));
                        assert(do_navio(j as usize) == do_navio(j as usize));
                    }
                }
                assert(self.indices_validos());
                assert(self.contagens_corretas());
            }
        }
        Ok(())
    }

    /// The index of the ship at `(x, y)`; `0` where there is none.
    pub open spec fn indice_em(&self, x: int, y: int) -> usize {
        match navio_da_celula(self.celula(x, y)) {
            Some(i) => i,
            None => 0,
        }
    }

    /// A shot hits the intact cell `(x, y)`: the cell becomes `Atingido`, its ship counts one
    /// more hit, and when that sinks the ship every hit cell of it becomes `Afundado` and the
    /// ship's name comes back.
    pub(crate) fn receber_acerto(&mut self, x: usize, y: usize) -> (r: Option<String>)
        requires
            x < 10,
            y < 10,
            old(self).celula(x as int, y as int) is Ocupado,
            (old(self).indice_em(x as int, y as int) as int) < old(self).frota().len(),
            old(self).frota()[old(self).indice_em(x as int, y as int) as int].acertos < usize::MAX,
        ensures
            ({
                let i = old(self).indice_em(x as int, y as int);
                let n = old(self).frota()[i as int];
                let afundou = n.acertos + 1 >= n.tamanho;
                &&& (i as int) < old(self).frota().len()
                &&& final(self).frota() == old(self).frota().update(
                    i as int,
                    Navio { nome: n.nome, tamanho: n.tamanho, acertos: (n.acertos + 1) as usize },
                )
                &&& afundou ==> r == Some(n.nome)
                &&& afundou ==> forall|k: int|
                    0 <= k < 100 ==> #[trigger] final(self).celulas()[k] == if k == pos(x as int, y as int)
                        || old(self).celulas()[k] == Celula::Atingido(i) {
                        Celula::Afundado(i)
                    } else {
                        old(self).celulas()[k]
                    }
                &&& afundou && old(self).bem_formado() ==> forall|k: int|
                    0 <= k < 100 && do_navio(i)(#[trigger] final(self).celulas()[k])
                        ==> final(self).celulas()[k] == Celula::Afundado(i)
                &&& !afundou ==> r is None
                &&& !afundou ==> final(self).celulas() == old(self).celulas().update(
                    pos(x as int, y as int),
                    Celula::Atingido(i),
                )
            }),
            old(self).indices_validos() ==> final(self).indices_validos(),
            old(self).bem_formado() ==> final(self).bem_formado(),
    {
        proof {
            lema_pos(x as int, y as int);
        }
        let k = x * 10 + y;
        let idx = match self.cells[k] {
            Celula::Ocupado(i) => i,
            _ => 0,
        };
        let ghost antes = self.cells@;
        assert(antes[k as int] == old(self).celulas()[k as int]);
        assert(idx < self.navios@.len());
        self.cells[k] = Celula::Atingido(idx);
        let acertos = self.navios[idx].acertos + 1;
        let nome = self.navios[idx].nome.clone();
        let tamanho = self.navios[idx].tamanho;
        self.navios.set(idx, Navio { nome, tamanho, acertos });
        let total = self.navios.len();
        proof {
            assert(self.cells@ == antes.update(k as int, Celula::Atingido(idx)));
            if old(self).indices_validos() {
                assert forall|m: int| 0 <= m < 100 implies match navio_da_celula(
                    #[trigger] self.celulas()[m],
                ) {
                    Some(j) => j < self.frota().len(),
                    None => true,
                } by {
                    assert(antes[m] == old(self).celulas()[m]);
                }
                assert(self.indices_validos());
            }
        }
        proof {
          if old(self).bem_formado() {
            assert forall|j: int| #![trigger self.frota()[j]] 0 <= j < self.frota().len() implies self.frota()[j].acertos
                == conta(self.celulas(), atingida(j as usize)) && self.frota()[j].tamanho == conta(
                self.celulas(),
                do_navio(j as usize),
            ) by {
                assert(antes == old(self).celulas());
                assert(old(self).frota()[j].acertos == conta(old(self).celulas(), atingida(j as usize)));
                assert(old(self).frota()[j].tamanho == conta(old(self).celulas(), do_navio(j as usize)));
                lema_conta_update(antes, k as int, Celula::Atingido(idx), atingida(j as usize));
                lema_conta_update(antes, k as int, Celula::Atingido(idx), do_navio(j as usize));
                assert(antes[k as int] == Celula::Ocupado(idx));
                if j == idx {
                    assert(self.frota()[j].acertos == old(self).frota()[j].acertos + 1);
                    assert(self.frota()[j].acertos == conta(self.celulas(), atingida(j as usize)));
                    assert(self.frota()[j].tamanho == conta(self.celulas(), do_navio(j as usize)));
                } else {
                    assert(self.frota()[j] == old(self).frota()[j]);
                    assert((j as usize) != idx);
                    assert(!atingida(j as usize)(Celula::Atingido(idx)));
                    assert(self.frota()[j].acertos == conta(self.celulas(), atingida(j as usize)));
                    assert(self.frota()[j].tamanho == conta(self.celulas(), do_navio(j as usize)));
                }
            }
            assert forall|m: int| 0 <= m < 100 implies match navio_da_celula(
                #[trigger] self.celulas()[m],
            ) {
                Some(j) => j < self.frota().len(),
                None => true,
            } by {
                assert(antes[m] == old(self).celulas()[m]);
            }
            assert(self.indices_validos());
            assert(self.contagens_corretas());
          }
        }
        if self.navios[idx].esta_afundado() {
            let ghost meio = self.cells@;
            let ghost wf = self.bem_formado();
            let ghost validos = self.indices_validos();
            proof {
                if wf {
                    // every cell of the ship was hit: none is left intact
                    assert(self.frota()[idx as int].acertos == conta(meio, atingida(idx)));
                    assert(self.frota()[idx as int].tamanho == conta(meio, do_navio(idx)));
                    lema_conta_soma(meio, do_navio(idx), intacta(idx), atingida(idx));
                    lema_conta_zero(meio, intacta(idx));
                }
            }
            let nome_afundado = self.navios[idx].nome.clone();
            let ghost antes_afundar = *self;
            self.afundar_navio(idx);
            proof {
                if wf {
                    assert forall|m: int|
                        0 <= m < 100 && do_navio(idx)(#[trigger] self.celulas()[m]) implies self.celulas()[m]
                        == Celula::Afundado(idx) by {
                        assert(!intacta(idx)(meio[m]));
                    }
                }
                if validos {
                    assert forall|m: int| 0 <= m < 100 implies match navio_da_celula(
                        #[trigger] self.celulas()[m],
                    ) {
                        Some(j) => j < self.frota().len(),
                        None => true,
                    } by {
                        assert(antes_afundar.celulas()[m] == meio[m]);
                        assert(match navio_da_celula(antes_afundar.celulas()[m]) {
                            Some(j) => j < antes_afundar.frota().len(),
                            None => true,
                        });
                    }
                }
            }
            Some(nome_afundado)
        } else {
            None
        }
    }

    /// Takes away the ship at `(x, y)`, if any: its cells become water, the ships after it move
    /// down by one index, and its name comes back.
    pub fn remover_navio_na_posicao(&mut self, x: usize, y: usize) -> (r: Option<String>)
        requires
            x < BOARD_SIZE,
            y < BOARD_SIZE,
        ensures
            match navio_da_celula(old(self).celula(x as int, y as int)) {
                Some(i) if (i as int) < old(self).frota().len() => {
                    &&& r == Some(old(self).frota()[i as int].nome)
                    &&& final(self).frota() == old(self).frota().remove(i as int)
                    &&& final(self).celulas() == celulas_apos_remover(old(self).celulas(), i)
                },
                _ => {
                    &&& r is None
                    &&& final(self).frota() == old(self).frota()
                    &&& final(self).celulas() == old(self).celulas()
                },
            },
            old(self).bem_formado() ==> final(self).bem_formado(),
    {
        let navio_idx = match self.cells[x * 10 + y] {
            Celula::Ocupado(idx) => idx,
            Celula::Atingido(idx) => idx,
            Celula::Afundado(idx) => idx,
            _ => {
                return None;
            },
        };
        if navio_idx >= self.navios.len() {
            return None;
        }
        let nome_navio = self.navios[navio_idx].nome.clone();
        let ghost antes = self.cells@;
        let mut k: usize = 0;
        while k < 100
            invariant
                k <= 100,
                self.navios@ == old(self).navios@,
                antes == old(self).cells@,
                forall|m: int|
                    0 <= m < 100 ==> #[trigger] self.cells@[m] == if m < k && navio_da_celula(antes[m])
                        == Some(navio_idx) {
                        Celula::Vazio
                    } else {
                        antes[m]
                    },
            decreases 100 - k,
        {
            match self.cells[k] {
                Celula::Ocupado(id) | Celula::Atingido(id) | Celula::Afundado(id) => {
                    if id == navio_idx {
                        self.cells[k] = Celula::Vazio;
                    }
                },
                _ => {},
            }
            k += 1;
        }
        self.navios.remove(navio_idx);
        let ghost meio = self.cells@;
        let mut k: usize = 0;
        while k < 100
            invariant
                k <= 100,
                antes == old(self).cells@,
                navio_idx < old(self).navios@.len(),
                self.navios@ == old(self).navios@.remove(navio_idx as int),
                forall|m: int|
                    0 <= m < 100 && navio_da_celula(antes[m]) == Some(navio_idx) ==> meio[m]
                        == Celula::Vazio,
                forall|m: int|
                    0 <= m < 100 && navio_da_celula(antes[m]) != Some(navio_idx) ==> meio[m]
                        == antes[m],
                forall|m: int|
                    0 <= m < 100 ==> #[trigger] self.cells@[m] == if m < k {
                        renumera(antes[m], navio_idx)
                    } else {
                        meio[m]
                    },
            decreases 100 - k,
        {
            match self.cells[k] {
                Celula::Ocupado(id) => {
                    if id > navio_idx {
                        self.cells[k] = Celula::Ocupado(id - 1);
                    }
                },
                Celula::Atingido(id) => {
                    if id > navio_idx {
                        self.cells[k] = Celula::Atingido(id - 1);
                    }
                },
                Celula::Afundado(id) => {
                    if id > navio_idx {
                        self.cells[k] = Celula::Afundado(id - 1);
                    }
                },
                _ => {},
            }
            k += 1;
        }
        proof {
            assert(self.celulas() =~= celulas_apos_remover(old(self).celulas(), navio_idx));
            if old(self).bem_formado() {
                let c = self.celulas();
                let o = old(self).celulas();
                assert forall|m: int| 0 <= m < 100 implies match navio_da_celula(
                    #[trigger] self.celulas()[m],
                ) {
                    Some(j) => j < self.frota().len(),
                    None => true,
                } by {
                    assert(o[m] == antes[m]);
                    assert(c[m] == renumera(o[m], navio_idx));
                }
                assert forall|j: int| #![trigger self.frota()[j]] 0 <= j < self.frota().len() implies self.frota()[j].acertos
                    == conta(self.celulas(), atingida(j as usize)) && self.frota()[j].tamanho == conta(
                    self.celulas(),
                    do_navio(j as usize),
                ) by {
                    let jj: int = if j < navio_idx {
                        j
                    } else {
                        j + 1
                    };
                    assert(self.frota()[j] == old(self).frota()[jj]);
                    assert(old(self).frota()[jj].acertos == conta(o, atingida(jj as usize)));
                    assert(old(self).frota()[jj].tamanho == conta(o, do_navio(jj as usize)));
                    assert forall|m: int| 0 <= m < c.len() implies atingida(j as usize)(c[m])
                        == atingida(jj as usize)(o[m]) && do_navio(j as usize)(c[m]) == do_navio(
                        jj as usize,
                    )(o[m]) by {
                        assert(c[m] == renumera(o[m], navio_idx));
                    }
                    lema_conta_ext(c, atingida(j as usize), o, atingida(jj as usize));
                    lema_conta_ext(c, do_navio(j as usize), o, do_navio(jj as usize));
                }
                assert(self.indices_validos());
                assert(self.contagens_corretas());
            }
        }
        Some(nome_navio)
    }

    /// Holds of the starts where a ship of `tamanho` cells fits.
    pub open spec fn cabe(&self, tamanho: int) -> spec_fn((usize, usize, bool)) -> bool {
        |c: (usize, usize, bool)| self.posicao_livre(c.0 as int, c.1 as int, tamanho, c.2)
    }

    /// The starts where a ship of `tamanho` cells fits, in the order of `candidatos`.
    pub open spec fn posicoes_validas(&self, tamanho: int) -> Seq<(usize, usize, bool)> {
        candidatos().filter(self.cabe(tamanho))
    }

    /// Lists the starts where a ship of `tamanho` cells fits.
    pub fn posicoes_livres(&self, tamanho: usize) -> (r: Vec<(usize, usize, bool)>)
        ensures
            r@ == self.posicoes_validas(tamanho as int),
    {
        let mut r: Vec<(usize, usize, bool)> = Vec::new();
        let mut k: usize = 0;
        while k < 200
            invariant
                k <= 200,
                r@ == candidatos().take(k as int).filter(self.cabe(tamanho as int)),
            decreases 200 - k,
        {
            let x = k / 20;
            let y = (k / 2) % 10;
            let horizontal = k % 2 == 0;
            proof {
                reveal(Seq::filter);
                assert(candidatos().take(k + 1).drop_last() =~= candidatos().take(k as int));
                assert(candidatos().take(k + 1).last() == (x, y, horizontal));
            }
            if self.pode_posicionar_navio(x, y, tamanho, horizontal) {
                r.push((x, y, horizontal));
            }
            k += 1;
        }
        assert(candidatos().take(200) =~= candidatos());
        r
    }

    /// Places a ship named `nome` of `tamanho` cells at the `indice`-th start where it fits;
    /// `false`, and nothing changes, when there are not that many.
    pub fn posicionar_na_opcao(&mut self, nome: &str, tamanho: usize, indice: usize) -> (r: bool)
        ensures
            ({
                let c = old(self).posicoes_validas(tamanho as int);
                &&& r == (indice < c.len())
                &&& r ==> {
                    let (x, y, horizontal) = c[indice as int];
                    &&& final(self).celulas() == celulas_apos_posicionar(
                        old(self).celulas(),
                        x as int,
                        y as int,
                        tamanho as int,
                        horizontal,
                        old(self).frota().len() as usize,
                    )
                    &&& final(self).frota().len() == old(self).frota().len() + 1
                    &&& forall|i: int|
                        0 <= i < old(self).frota().len() ==> #[trigger] final(self).frota()[i]
                            == old(self).frota()[i]
                    &&& final(self).frota().last().nome@ == nome@
                    &&& final(self).frota().last().tamanho == tamanho
                    &&& final(self).frota().last().acertos == 0
                }
                &&& !r ==> final(self).celulas() == old(self).celulas() && final(self).frota()
                    == old(self).frota()
            }),
            old(self).bem_formado() ==> final(self).bem_formado(),
    {
        let opcoes = self.posicoes_livres(tamanho);
        if indice >= opcoes.len() {
            return false;
        }
        let (x, y, horizontal) = opcoes[indice];
        proof {
            candidatos().lemma_filter_pred(self.cabe(tamanho as int), indice as int);
        }
        let resultado = self.posicionar_navio(nome, x, y, tamanho, horizontal);
        resultado.is_ok()
    }

    /// Places the standard fleet: ship after ship, in the order of the fleet, each at the start
    /// among those where it fits that its draw picks (the `k`-th ship takes `sorteios[k]`, see
    /// `posicionar_na_opcao` with that draw modulo the number of starts). A ship that fits
    /// nowhere is left out; on an empty board every ship fits, so the whole fleet is placed, in
    /// order, each ship on one straight run of its length, and every other cell stays water.
    pub fn preencher_aleatoriamente(&mut self, sorteios: [u32; 6])
        requires
            old(self).bem_formado(),
        ensures
            final(self).bem_formado(),
            old(self).frota().len() <= final(self).frota().len() <= old(self).frota().len() + 6,
            forall|i: int|
                0 <= i < old(self).frota().len() ==> #[trigger] final(self).frota()[i] == old(
                    self,
                ).frota()[i],
            forall|i: int|
                old(self).frota().len() <= i < final(self).frota().len() ==> {
                    &&& #[trigger] final(self).frota()[i].acertos == 0
                    &&& tamanhos_frota().contains(final(self).frota()[i].tamanho)
                },
            old(self).vazio_de_tudo() ==> {
                &&& final(self).frota().len() == 6
                &&& forall|i: int|
                    0 <= i < 6 ==> #[trigger] final(self).frota()[i].tamanho == fila_padrao()[i].1
                        && final(self).frota()[i].nome@ == fila_padrao()[i].0
                &&& forall|i: int| 0 <= i < 6 ==> #[trigger] final(self).em_linha(i)
                &&& final(self).so_agua_e_navios()
            },
            ({
                let (c, novos) = preenchimento(old(self).celulas(), old(self).frota().len(), sorteios@, 0);
                &&& final(self).celulas() == c
                &&& final(self).frota().len() == old(self).frota().len() + novos.len()
                &&& forall|i: int|
                    0 <= i < novos.len() ==> #[trigger] novos[i] == (
                        final(self).frota()[old(self).frota().len() + i].nome@,
                        final(self).frota()[old(self).frota().len() + i].tamanho,
                    )
            }),
    {
        let frota = frota_padrao();
        let ghost n0 = self.navios@.len();
        let ghost vazio0 = self.vazio_de_tudo();
        proof {
            if vazio0 {
                self.lema_tamanho();
                lema_conta_nenhum(self.celulas(), ocupada());
            }
        }
        let mut c: usize = 0;
        let mut k: usize = 0;
        let mut colocados: usize = 0;
        while c < frota.len()
            invariant
                frota@.len() == 4,
                forall|i: int|
                    #![trigger frota@[i]]
                    0 <= i < 4 ==> frota@[i].tamanho == tamanhos_frota()[i] && frota@[i].quantidade
                        == quantidades_frota()[i] && frota@[i].nome@ == nomes_frota()[i],
                c <= 4,
                k == navios_antes(c as int),
                self.bem_formado(),
                n0 == old(self).frota().len(),
                self.frota().len() == n0 + colocados,
                colocados <= navios_antes(c as int),
                forall|i: int|
                    0 <= i < n0 ==> #[trigger] self.frota()[i] == old(self).frota()[i],
                forall|i: int|
                    n0 <= i < self.frota().len() ==> {
                        &&& #[trigger] self.frota()[i].acertos == 0
                        &&& tamanhos_frota().contains(self.frota()[i].tamanho)
                    },
                vazio0 == old(self).vazio_de_tudo(),
                a_caminho(old(self).celulas(), n0, sorteios@, *self, k as int, colocados as int),
                vazio0 ==> {
                    &&& n0 == 0
                    &&& colocados == navios_antes(c as int)
                    &&& conta(self.celulas(), ocupada()) == ocupacao_fila(colocados as int)
                    &&& forall|i: int|
                        0 <= i < self.frota().len() ==> #[trigger] self.frota()[i].tamanho
                            == fila_padrao()[i].1 && self.frota()[i].nome@ == fila_padrao()[i].0
                    &&& forall|i: int| 0 <= i < self.frota().len() ==> #[trigger] self.em_linha(i)
                    &&& self.so_agua_e_navios()
                },
            decreases 4 - c,
        {
            let config = &frota[c];
            let mut q: usize = 0;
            while q < config.quantidade
                invariant
                    frota@.len() == 4,
                    c < 4,
                    config == frota@[c as int],
                    config.tamanho == tamanhos_frota()[c as int],
                    config.quantidade == quantidades_frota()[c as int],
                    config.nome@ == nomes_frota()[c as int],
                    q <= config.quantidade,
                    k == navios_antes(c as int) + q,
                    self.bem_formado(),
                    n0 == old(self).frota().len(),
                    self.frota().len() == n0 + colocados,
                    colocados <= q + navios_antes(c as int),
                    forall|i: int|
                        0 <= i < n0 ==> #[trigger] self.frota()[i] == old(self).frota()[i],
                    forall|i: int|
                        n0 <= i < self.frota().len() ==> {
                            &&& #[trigger] self.frota()[i].acertos == 0
                            &&& tamanhos_frota().contains(self.frota()[i].tamanho)
                        },
                    vazio0 == old(self).vazio_de_tudo(),
                    a_caminho(old(self).celulas(), n0, sorteios@, *self, k as int, colocados as int),
                    vazio0 ==> {
                        &&& n0 == 0
                        &&& colocados == navios_antes(c as int) + q
                        &&& conta(self.celulas(), ocupada()) == ocupacao_fila(colocados as int)
                        &&& forall|i: int|
                            0 <= i < self.frota().len() ==> #[trigger] self.frota()[i].tamanho
                                == fila_padrao()[i].1 && self.frota()[i].nome@ == fila_padrao()[i].0
                        &&& forall|i: int| 0 <= i < self.frota().len() ==> #[trigger] self.em_linha(i)
                        &&& self.so_agua_e_navios()
                    },
                decreases config.quantidade - q,
            {
                proof {
                    lema_fila_padrao(c as int, q as int);
                    if vazio0 {
                        lema_cabe_na_fila(*self, colocados as int);
                    }
                }
                let opcoes = self.posicoes_livres(config.tamanho);
                proof {
                    lema_opcoes_nas(*self, config.tamanho as int);
                    if opcoes.len() == 0 {
                        lema_caminho_pula(old(self).celulas(), n0, sorteios@, *self, k as int, colocados as int);
                    }
                }
                if opcoes.len() > 0 {
                    proof {
                        candidatos().lemma_filter_len(self.cabe(config.tamanho as int));
                    }
                    let indice = (sorteios[k] as usize) % opcoes.len();
                    let ghost antes = *self;
                    let posicionado = self.posicionar_na_opcao(config.nome, config.tamanho, indice);
                    proof {
                        lema_caminho_coloca(
                            old(self).celulas(),
                            n0,
                            sorteios@,
                            antes,
                            *self,
                            k as int,
                            colocados as int,
                            indice as int,
                        );
                        assert(tamanhos_frota()[c as int] == config.tamanho);
                        assert forall|i: int|
                            n0 <= i < self.frota().len() implies {
                                &&& #[trigger] self.frota()[i].acertos == 0
                                &&& tamanhos_frota().contains(self.frota()[i].tamanho)
                            } by {
                            if i < antes.frota().len() {
                                assert(self.frota()[i] == antes.frota()[i]);
                            }
                        }
                        if vazio0 {
                            let (x, y, h) = antes.posicoes_validas(config.tamanho as int)[indice as int];
                            candidatos().lemma_filter_pred(antes.cabe(config.tamanho as int), indice as int);
                            lema_ocupadas_apos_posicionar(antes, *self, x as int, y as int, config.tamanho as int, h);
                            lema_ocupacao_fila(colocados as int);
                            lema_formato_apos_posicionar(antes, *self, x as int, y as int, config.tamanho as int, h);
                            assert forall|i: int|
                                0 <= i < self.frota().len() implies #[trigger] self.frota()[i].tamanho
                                    == fila_padrao()[i].1 && self.frota()[i].nome@ == fila_padrao()[i].0 by {
                                if i < antes.frota().len() {
                                    assert(self.frota()[i] == antes.frota()[i]);
                                }
                            }
                        }
                    }
                    if posicionado {
                        colocados = colocados + 1;
                    }
                }
                q += 1;
                k += 1;
            }
            c += 1;
        }
    }

    /// Ship `i` takes exactly the cells that a ship of its length at `(x, y)`, along the row
    /// (`h`) or down the column, covers.
    pub open spec fn ocupa(&self, i: int, x: int, y: int, h: bool) -> bool {
        forall|a: int, b: int|
            0 <= a < 10 && 0 <= b < 10 ==> (#[trigger] self.celula(a, b) == Celula::Ocupado(i as usize)
                <==> na_posicao(x, y, self.frota()[i].tamanho as int, h, a, b))
    }

    /// Ship `i` lies, untouched, on one straight run of its length.
    pub open spec fn em_linha(&self, i: int) -> bool {
        exists|x: int, y: int, h: bool| #[trigger] self.ocupa(i, x, y, h)
    }

    /// Every cell is untouched water or an untouched part of a ship.
    pub open spec fn so_agua_e_navios(&self) -> bool {
        forall|k: int| 0 <= k < 100 ==> #[trigger] self.celulas()[k] is Vazio || self.celulas()[k] is Ocupado
    }

    /// No ship, and untouched water everywhere.
    pub open spec fn vazio_de_tudo(&self) -> bool {
        &&& self.frota().len() == 0
        &&& forall|k: int| 0 <= k < 100 ==> #[trigger] self.celulas()[k] == Celula::Vazio
    }
}

/// The standard fleet counts as many ships as a player places one by one: six, the number
/// each side starts a match with.
pub proof fn lei_total_da_frota(f: Seq<ConfigNavio>)
    requires
        f.len() == 4,
        forall|i: int| 0 <= i < 4 ==> #[trigger] f[i].quantidade == quantidades_frota()[i],
    ensures
        total_de_navios(f) == fila_padrao().len(),
        fila_padrao().len() == 6,
{
    reveal_with_fuel(total_de_navios, 5);
    assert(f.drop_last().drop_last().drop_last().drop_last() =~= Seq::<ConfigNavio>::empty());
    assert(f[0].quantidade == 2 && f[1].quantidade == 2 && f[2].quantidade == 1 && f[3].quantidade == 1);
    assert(f.drop_last().last() == f[2]);
    assert(f.drop_last().drop_last().last() == f[1]);
    assert(f.drop_last().drop_last().drop_last().last() == f[0]);
}

/// Placing ship `n` on free water of a board of water and untouched ships keeps each earlier
/// ship where it was and puts the new one exactly on the cells of its start.
proof fn lema_formato_apos_posicionar(
    antes: EstadoTabuleiro,
    depois: EstadoTabuleiro,
    x: int,
    y: int,
    tamanho: int,
    horizontal: bool,
)
    requires
        antes.bem_formado(),
        antes.frota().len() < 100,
        antes.so_agua_e_navios(),
        forall|i: int| 0 <= i < antes.frota().len() ==> #[trigger] antes.em_linha(i),
        antes.posicao_livre(x, y, tamanho, horizontal),
        depois.celulas() == celulas_apos_posicionar(
            antes.celulas(),
            x,
            y,
            tamanho,
            horizontal,
            antes.frota().len() as usize,
        ),
        depois.frota().len() == antes.frota().len() + 1,
        forall|i: int| 0 <= i < antes.frota().len() ==> #[trigger] depois.frota()[i] == antes.frota()[i],
        depois.frota().last().tamanho == tamanho,
    ensures
        depois.so_agua_e_navios(),
        forall|i: int| 0 <= i < depois.frota().len() ==> #[trigger] depois.em_linha(i),
{
    antes.lema_tamanho();
    depois.lema_tamanho();
    let n = antes.frota().len();
    let c1 = antes.celulas();
    let c2 = depois.celulas();
    assert forall|a: int, b: int| 0 <= a < 10 && 0 <= b < 10 implies #[trigger] depois.celula(a, b) == if na_posicao(
        x,
        y,
        tamanho,
        horizontal,
        a,
        b,
    ) {
        Celula::Ocupado(n as usize)
    } else {
        antes.celula(a, b)
    } by {
        lema_pos(a, b);
    }
    assert forall|a: int, b: int|
        0 <= a < 10 && 0 <= b < 10 && na_posicao(x, y, tamanho, horizontal, a, b) implies #[trigger] antes.celula(a, b)
        == Celula::Vazio by {
        let i = if horizontal {
            b - y
        } else {
            a - x
        };
        assert(antes.celula_livre(x, y, i, horizontal));
    }
    assert forall|k: int| 0 <= k < 100 implies #[trigger] c2[k] is Vazio || c2[k] is Ocupado by {
        assert(c1[k] is Vazio || c1[k] is Ocupado);
    }
    assert forall|i: int| 0 <= i < depois.frota().len() implies #[trigger] depois.em_linha(i) by {
        if i < n {
            assert(antes.em_linha(i));
            let (x0, y0, h0) = choose|x0: int, y0: int, h0: bool| #[trigger] antes.ocupa(i, x0, y0, h0);
            assert forall|a: int, b: int| 0 <= a < 10 && 0 <= b < 10 implies (#[trigger] depois.celula(a, b)
                == Celula::Ocupado(i as usize) <==> na_posicao(x0, y0, depois.frota()[i].tamanho as int, h0, a, b)) by {
                assert(antes.celula(a, b) == Celula::Ocupado(i as usize) <==> na_posicao(
                    x0,
                    y0,
                    antes.frota()[i].tamanho as int,
                    h0,
                    a,
                    b,
                ));
            }
            assert(depois.ocupa(i, x0, y0, h0));
        } else {
            assert forall|a: int, b: int| 0 <= a < 10 && 0 <= b < 10 implies (#[trigger] depois.celula(a, b)
                == Celula::Ocupado(i as usize) <==> na_posicao(x, y, depois.frota()[i].tamanho as int, horizontal, a, b)) by {
                lema_pos(a, b);
                assert(match navio_da_celula(c1[pos(a, b)]) {
                    Some(j) => j < n,
                    None => true,
                });
            }
            assert(depois.ocupa(i, x, y, horizontal));
        }
    }
}

/// The `i`-th cell of a ship at `(x, y)` lies on the board and is untouched water of `cells`.
pub open spec fn celula_livre_nas(cells: Seq<Celula>, x: int, y: int, i: int, horizontal: bool) -> bool {
    let (a, b) = celula_i(x, y, i, horizontal);
    &&& 0 <= a < 10
    &&& 0 <= b < 10
    &&& cells[pos(a, b)] == Celula::Vazio
}

/// The starts where a ship of `tamanho` cells fits over `cells`, in the order of `candidatos`.
pub open spec fn opcoes_nas(cells: Seq<Celula>, tamanho: int) -> Seq<(usize, usize, bool)> {
    candidatos().filter(
        |c: (usize, usize, bool)|
            forall|i: int| 0 <= i < tamanho ==> #[trigger] celula_livre_nas(cells, c.0 as int, c.1 as int, i, c.2),
    )
}

/// The starts where a ship fits on a board depend on its cells alone.
pub proof fn lema_opcoes_nas(t: EstadoTabuleiro, tamanho: int)
    ensures
        t.posicoes_validas(tamanho) == opcoes_nas(t.celulas(), tamanho),
{
    let f = |c: (usize, usize, bool)|
        forall|i: int| 0 <= i < tamanho ==> #[trigger] celula_livre_nas(t.celulas(), c.0 as int, c.1 as int, i, c.2);
    assert forall|c: (usize, usize, bool)| #[trigger] t.cabe(tamanho)(c) == f(c) by {
        if t.cabe(tamanho)(c) {
            assert forall|i: int| 0 <= i < tamanho implies #[trigger] celula_livre_nas(
                t.celulas(),
                c.0 as int,
                c.1 as int,
                i,
                c.2,
            ) by {
                assert(t.celula_livre(c.0 as int, c.1 as int, i, c.2));
            }
        }
        if f(c) {
            assert forall|i: int| 0 <= i < tamanho implies #[trigger] t.celula_livre(
                c.0 as int,
                c.1 as int,
                i,
                c.2,
            ) by {
                assert(celula_livre_nas(t.celulas(), c.0 as int, c.1 as int, i, c.2));
            }
        }
    }
    assert(t.cabe(tamanho) =~= f);
}

/// The cells, and the ships added, after the ships of the standard fleet from the `k`-th on are
/// placed over `cells` (where `n` ships were placed before): each goes to the start, among those
/// where it fits, that its draw `sorteios[k]` picks, modulo their number; a ship that fits
/// nowhere is left out. The ships added come as `(name, length)`, in order.
pub open spec fn preenchimento(cells: Seq<Celula>, n: nat, sorteios: Seq<u32>, k: int) -> (
    Seq<Celula>,
    Seq<(Seq<char>, usize)>,
)
    decreases 6 - k,
{
    if k < 0 || k >= 6 {
        (cells, Seq::empty())
    } else {
        let (nome, tamanho) = fila_padrao()[k];
        let ops = opcoes_nas(cells, tamanho as int);
        if ops.len() == 0 {
            preenchimento(cells, n, sorteios, k + 1)
        } else {
            let (x, y, h) = ops[sorteios[k] as int % ops.len() as int];
            let (fim, resto) = preenchimento(
                celulas_apos_posicionar(cells, x as int, y as int, tamanho as int, h, n as usize),
                n + 1,
                sorteios,
                k + 1,
            );
            (fim, seq![(nome, tamanho)] + resto)
        }
    }
}

/// With `colocados` new ships placed and the `k`-th draw next, `t` is on its way to
/// `preenchimento(cells0, n0, sorteios, 0)`.
pub open spec fn a_caminho(
    cells0: Seq<Celula>,
    n0: nat,
    sorteios: Seq<u32>,
    t: EstadoTabuleiro,
    k: int,
    colocados: int,
) -> bool {
    let (c_fim, novos) = preenchimento(cells0, n0, sorteios, 0);
    let (c_k, resto) = preenchimento(t.celulas(), t.frota().len(), sorteios, k);
    &&& c_fim == c_k
    &&& t.frota().len() == n0 + colocados
    &&& novos.len() == colocados + resto.len()
    &&& forall|i: int|
        0 <= i < colocados ==> #[trigger] novos[i] == (t.frota()[n0 + i].nome@, t.frota()[n0 + i].tamanho)
    &&& forall|i: int| 0 <= i < resto.len() ==> #[trigger] resto[i] == novos[colocados + i]
}

/// A ship that fits nowhere is left out: the way on is the same.
proof fn lema_caminho_pula(cells0: Seq<Celula>, n0: nat, s: Seq<u32>, t: EstadoTabuleiro, k: int, colocados: int)
    requires
        0 <= k < 6,
        a_caminho(cells0, n0, s, t, k, colocados),
        opcoes_nas(t.celulas(), fila_padrao()[k].1 as int).len() == 0,
    ensures
        a_caminho(cells0, n0, s, t, k + 1, colocados),
{
}

/// A ship placed at the start its draw picks moves the way on by one ship.
proof fn lema_caminho_coloca(
    cells0: Seq<Celula>,
    n0: nat,
    s: Seq<u32>,
    antes: EstadoTabuleiro,
    depois: EstadoTabuleiro,
    k: int,
    colocados: int,
    indice: int,
)
    requires
        0 <= k < 6,
        0 <= colocados,
        a_caminho(cells0, n0, s, antes, k, colocados),
        opcoes_nas(antes.celulas(), fila_padrao()[k].1 as int).len() > 0,
        indice == s[k] as int % opcoes_nas(antes.celulas(), fila_padrao()[k].1 as int).len() as int,
        ({
            let (x, y, h) = opcoes_nas(antes.celulas(), fila_padrao()[k].1 as int)[indice];
            depois.celulas() == celulas_apos_posicionar(
                antes.celulas(),
                x as int,
                y as int,
                fila_padrao()[k].1 as int,
                h,
                antes.frota().len() as usize,
            )
        }),
        depois.frota().len() == antes.frota().len() + 1,
        forall|i: int| 0 <= i < antes.frota().len() ==> #[trigger] depois.frota()[i] == antes.frota()[i],
        depois.frota().last().nome@ == fila_padrao()[k].0,
        depois.frota().last().tamanho == fila_padrao()[k].1,
    ensures
        a_caminho(cells0, n0, s, depois, k + 1, colocados + 1),
{
    let (c_fim, novos) = preenchimento(cells0, n0, s, 0);
    let (c_k, resto) = preenchimento(antes.celulas(), antes.frota().len(), s, k);
    let (c_k1, resto1) = preenchimento(depois.celulas(), depois.frota().len(), s, k + 1);
    assert(resto == seq![fila_padrao()[k]] + resto1);
    assert(resto[0] == fila_padrao()[k]);
    assert forall|i: int| 0 <= i < colocados + 1 implies #[trigger] novos[i] == (
        depois.frota()[n0 + i].nome@,
        depois.frota()[n0 + i].tamanho,
    ) by {
        if i < colocados {
            assert(depois.frota()[n0 + i] == antes.frota()[n0 + i]);
        } else {
            assert(resto[0] == novos[colocados + 0]);
            assert(depois.frota()[n0 + i] == depois.frota().last());
        }
    }
    assert forall|i: int| 0 <= i < resto1.len() implies #[trigger] resto1[i] == novos[colocados + 1 + i] by {
        assert(resto1[i] == resto[i + 1]);
        assert(resto[i + 1] == novos[colocados + (i + 1)]);
    }
}

/// How many cells the first `n` ships of the standard fleet take together.
pub open spec fn ocupacao_fila(n: int) -> int
    decreases n,
{
    if n <= 0 {
        0
    } else {
        ocupacao_fila(n - 1) + fila_padrao()[n - 1].1
    }
}

/// One more ship of the standard fleet takes its length more cells.
proof fn lema_ocupacao_fila(n: int)
    requires
        0 <= n,
    ensures
        ocupacao_fila(n + 1) == ocupacao_fila(n) + fila_padrao()[n].1,
{
}

/// Where the first `n` ships of the standard fleet took their cells, the next one still fits.
proof fn lema_cabe_na_fila(t: EstadoTabuleiro, n: int)
    requires
        0 <= n < 6,
        conta(t.celulas(), ocupada()) == ocupacao_fila(n),
    ensures
        t.posicoes_validas(fila_padrao()[n].1 as int).len() > 0,
{
    let f = fila_padrao();
    assert(f[0].1 == 6 && f[1].1 == 6 && f[2].1 == 4 && f[3].1 == 4 && f[4].1 == 3 && f[5].1 == 1);
    assert(ocupacao_fila(0) == 0);
    assert(ocupacao_fila(1) == 6);
    assert(ocupacao_fila(2) == 12);
    assert(ocupacao_fila(3) == 16);
    assert(ocupacao_fila(4) == 20);
    assert(ocupacao_fila(5) == 23);
    assert(10 * (10int / 6) == 10 && 10 * (10int / 4) == 20 && 10 * (10int / 3) == 30 && 10 * (10int / 1)
        == 100);
    lema_ha_espaco(t, f[n].1 as int);
}

} // verus!

verus! {

/// Law: taking away the ship just placed gives the board back as it was, cells and ships.
pub proof fn lei_remover_desfaz_posicionar(
    t: EstadoTabuleiro,
    x: int,
    y: int,
    tamanho: int,
    horizontal: bool,
    n: usize,
    novo: Navio,
)
    requires
        t.indices_validos(),
        t.posicao_livre(x, y, tamanho, horizontal),
        n == t.frota().len(),
    ensures
        celulas_apos_remover(celulas_apos_posicionar(t.celulas(), x, y, tamanho, horizontal, n), n)
            == t.celulas(),
        t.frota().push(novo).remove(n as int) == t.frota(),
{
    let c = t.celulas();
    let p = celulas_apos_posicionar(c, x, y, tamanho, horizontal, n);
    assert forall|k: int| 0 <= k < 100 implies #[trigger] celulas_apos_remover(p, n)[k] == c[k] by {
        lema_indice(k);
        let a = k / 10;
        let b = k % 10;
        if na_posicao(x, y, tamanho, horizontal, a, b) {
            let i = if horizontal {
                b - y
            } else {
                a - x
            };
            assert(t.celula_livre(x, y, i, horizontal));
        } else {
            assert(match navio_da_celula(c[k]) {
                Some(j) => j < t.frota().len(),
                None => true,
            });
        }
    }
    assert(celulas_apos_remover(p, n) =~= c);
    assert(t.frota().push(novo).remove(n as int) =~= t.frota());
}

/// Law: a ship never counts more hits than it has cells, and it is sunk exactly when none of its
/// cells is left intact.
pub proof fn lei_afundado_sem_celula_intacta(t: EstadoTabuleiro, i: int)
    requires
        t.bem_formado(),
        0 <= i < t.frota().len(),
    ensures
        t.frota()[i].acertos <= t.frota()[i].tamanho,
        t.frota()[i].acertos >= t.frota()[i].tamanho <==> forall|k: int|
            0 <= k < 100 ==> #[trigger] t.celulas()[k] != Celula::Ocupado(i as usize),
{
    let c = t.celulas();
    let ii = i as usize;
    assert(t.frota()[i].acertos == conta(c, atingida(ii)));
    assert(t.frota()[i].tamanho == conta(c, do_navio(ii)));
    lema_conta_soma(c, do_navio(ii), intacta(ii), atingida(ii));
    if t.frota()[i].acertos >= t.frota()[i].tamanho {
        lema_conta_zero(c, intacta(ii));
        assert forall|k: int| 0 <= k < 100 implies #[trigger] c[k] != Celula::Ocupado(ii) by {
            assert(!intacta(ii)(c[k]));
        }
    }
    if forall|k: int| 0 <= k < 100 ==> #[trigger] c[k] != Celula::Ocupado(ii) {
        assert forall|k: int| 0 <= k < c.len() implies !intacta(ii)(#[trigger] c[k]) by {}
        lema_conta_nenhum(c, intacta(ii));
    }
}

} // verus!
