use vstd::prelude::*;

use crate::contagem::{conta, lema_conta_ext, lema_conta_soma, lema_conta_zero};
use crate::domain::tabuleiro::{
    candidato, candidatos, celula_i, celulas_apos_posicionar, do_navio, lema_indice, lema_pos,
    na_posicao, navio_da_celula, pos, Celula, EstadoTabuleiro,
};

verus! {

/// Holds of a cell that is not untouched water.
pub open spec fn ocupada() -> spec_fn(Celula) -> bool {
    |c: Celula| c != Celula::Vazio
}

/// The cells of row `a`.
pub open spec fn linha(cells: Seq<Celula>, a: int) -> Seq<Celula> {
    cells.subrange(10 * a, 10 * a + 10)
}

/// How many cells of the first `n` rows satisfy `p`, row by row.
pub open spec fn soma_linhas(cells: Seq<Celula>, p: spec_fn(Celula) -> bool, n: int) -> nat
    decreases n,
{
    if n <= 0 {
        0
    } else {
        soma_linhas(cells, p, n - 1) + conta(linha(cells, n - 1), p)
    }
}

/// The count of a concatenation is the sum of the counts.
pub proof fn lema_conta_concat<T>(s1: Seq<T>, s2: Seq<T>, p: spec_fn(T) -> bool)
    ensures
        conta(s1 + s2, p) == conta(s1, p) + conta(s2, p),
    decreases s2.len(),
{
    if s2.len() == 0 {
        assert(s1 + s2 =~= s1);
    } else {
        lema_conta_concat(s1, s2.drop_last(), p);
        assert((s1 + s2).drop_last() =~= s1 + s2.drop_last());
        assert((s1 + s2).last() == s2.last());
    }
}

/// Some element satisfies `p`: the count is at least one.
pub proof fn lema_conta_positiva<T>(s: Seq<T>, p: spec_fn(T) -> bool, i: int)
    requires
        0 <= i < s.len(),
        p(s[i]),
    ensures
        conta(s, p) >= 1,
{
    if conta(s, p) == 0 {
        lema_conta_zero(s, p);
    }
}

/// The cells of the first `n` rows, counted row by row.
pub proof fn lema_soma_linhas(cells: Seq<Celula>, p: spec_fn(Celula) -> bool, n: int)
    requires
        cells.len() == 100,
        0 <= n <= 10,
    ensures
        conta(cells.take(10 * n), p) == soma_linhas(cells, p, n),
    decreases n,
{
    if n == 0 {
        assert(cells.take(0) =~= Seq::<Celula>::empty());
    } else {
        lema_soma_linhas(cells, p, n - 1);
        assert(cells.take(10 * n) =~= cells.take(10 * (n - 1)) + linha(cells, n - 1));
        lema_conta_concat(cells.take(10 * (n - 1)), linha(cells, n - 1), p);
    }
}

/// Rows with more than `m` cells each add up to more than `m` cells a row.
proof fn lema_soma_cheia(cells: Seq<Celula>, p: spec_fn(Celula) -> bool, m: int, n: int)
    requires
        0 <= m,
        0 <= n <= 10,
        forall|a: int| 0 <= a < n ==> conta(#[trigger] linha(cells, a), p) > m,
    ensures
        soma_linhas(cells, p, n) >= n * (m + 1),
    decreases n,
{
    if n > 0 {
        lema_soma_cheia(cells, p, m, n - 1);
        assert(conta(linha(cells, n - 1), p) >= m + 1);
        assert(soma_linhas(cells, p, n) == soma_linhas(cells, p, n - 1) + conta(linha(cells, n - 1), p));
        assert(n * (m + 1) == (n - 1) * (m + 1) + (m + 1)) by (nonlinear_arith);
    } else {
        assert(n * (m + 1) == 0) by (nonlinear_arith)
            requires
                n == 0,
        ;
    }
}

/// With fewer than `10 * (m + 1)` cells satisfying `p`, some row has at most `m` of them.
pub proof fn lema_linha_pouco_ocupada(cells: Seq<Celula>, p: spec_fn(Celula) -> bool, m: int) -> (a: int)
    requires
        cells.len() == 100,
        0 <= m,
        conta(cells, p) < 10 * (m + 1),
    ensures
        0 <= a < 10,
        conta(linha(cells, a), p) <= m,
{
    lema_soma_linhas(cells, p, 10);
    assert(cells.take(100) =~= cells);
    if forall|a: int| 0 <= a < 10 ==> conta(#[trigger] linha(cells, a), p) > m {
        lema_soma_cheia(cells, p, m, 10);
        assert(false);
    }
    choose|a: int| 0 <= a < 10 && conta(#[trigger] linha(cells, a), p) <= m
}

/// The `w`-th window of `l` cells of `r` holds a cell that satisfies `p`.
pub open spec fn janela_tem(r: Seq<Celula>, p: spec_fn(Celula) -> bool, l: int, w: int) -> bool {
    exists|i: int| 0 <= i < l && #[trigger] p(r[w * l + i])
}

/// Windows of `l` cells each holding a cell that satisfies `p`: the first `j` of them hold at
/// least `j` such cells.
proof fn lema_janelas_cheias(r: Seq<Celula>, p: spec_fn(Celula) -> bool, l: int, j: int)
    requires
        1 <= l,
        0 <= j,
        j * l <= r.len(),
        forall|w: int| 0 <= w < j ==> #[trigger] janela_tem(r, p, l, w),
    ensures
        conta(r.take(j * l), p) >= j,
    decreases j,
{
    if j == 0 {
        assert(r.take(0) =~= Seq::<Celula>::empty());
    } else {
        assert((j - 1) * l + l == j * l) by (nonlinear_arith);
        assert(0 <= (j - 1) * l) by (nonlinear_arith)
            requires
                j >= 1,
                l >= 1,
        ;
        lema_janelas_cheias(r, p, l, j - 1);
        let a = r.take((j - 1) * l);
        let b = r.subrange((j - 1) * l, j * l);
        assert(r.take(j * l) =~= a + b);
        lema_conta_concat(a, b, p);
        assert(janela_tem(r, p, l, j - 1));
        let i = choose|i: int| 0 <= i < l && #[trigger] p(r[(j - 1) * l + i]);
        assert(b[i] == r[(j - 1) * l + i]);
        lema_conta_positiva(b, p, i);
    }
}

/// A row with fewer than `k` cells satisfying `p` has, among its first `k` windows of `l`
/// cells, one with none of them.
pub proof fn lema_janela_livre(r: Seq<Celula>, p: spec_fn(Celula) -> bool, k: int, l: int) -> (j: int)
    requires
        1 <= l,
        1 <= k,
        k * l <= r.len(),
        conta(r, p) < k,
    ensures
        0 <= j < k,
        forall|i: int| 0 <= i < l ==> !p(#[trigger] r[j * l + i]),
{
    if forall|w: int| 0 <= w < k ==> #[trigger] janela_tem(r, p, l, w) {
        lema_janelas_cheias(r, p, l, k);
        assert(r =~= r.take(k * l) + r.skip(k * l));
        lema_conta_concat(r.take(k * l), r.skip(k * l), p);
        assert(false);
    }
    let j = choose|j: int| 0 <= j < k && !#[trigger] janela_tem(r, p, l, j);
    assert forall|i: int| 0 <= i < l implies !p(#[trigger] r[j * l + i]) by {
        if p(r[j * l + i]) {
            assert(janela_tem(r, p, l, j));
        }
    }
    j
}

/// With fewer than ten times `10 / tamanho` cells taken, a ship of `tamanho` cells still fits
/// somewhere along a row.
pub proof fn lema_ha_espaco(t: EstadoTabuleiro, tamanho: int)
    requires
        1 <= tamanho <= 10,
        conta(t.celulas(), ocupada()) < 10 * (10int / tamanho),
    ensures
        t.posicoes_validas(tamanho).len() > 0,
{
    broadcast use vstd::seq_lib::group_filter_ensures;

    t.lema_tamanho();
    let cells = t.celulas();
    let k = 10int / tamanho;
    assert(1 <= k && k * tamanho <= 10) by (nonlinear_arith)
        requires
            1 <= tamanho <= 10,
            k == 10int / tamanho,
    ;
    let a = lema_linha_pouco_ocupada(cells, ocupada(), k - 1);
    let r = linha(cells, a);
    let j = lema_janela_livre(r, ocupada(), k, tamanho);
    let y0 = j * tamanho;
    assert(0 <= y0 && y0 + tamanho <= 10) by (nonlinear_arith)
        requires
            0 <= j < k,
            k * tamanho <= 10,
            1 <= tamanho,
            y0 == j * tamanho,
    ;
    assert forall|i: int| 0 <= i < tamanho implies #[trigger] t.celula_livre(a, y0, i, true) by {
        assert(r[y0 + i] == cells[10 * a + y0 + i]);
        assert(!ocupada()(r[j * tamanho + i]));
        lema_pos(a, y0 + i);
    }
    assert(t.posicao_livre(a, y0, tamanho, true));
    let n = 20 * a + 2 * y0;
    assert(0 <= n < 200 && n / 20 == a && (n / 2) % 10 == y0 && n % 2 == 0) by (nonlinear_arith)
        requires
            0 <= a < 10,
            0 <= y0 < 10,
            n == 20 * a + 2 * y0,
    ;
    assert(candidatos()[n] == candidato(n));
    assert(candidato(n) == (a as usize, y0 as usize, true));
    assert(t.cabe(tamanho)(candidatos()[n]));
    assert(t.posicoes_validas(tamanho).contains(candidatos()[n]));
}

/// Placing a ship of `tamanho` cells on free water takes exactly `tamanho` more cells.
pub proof fn lema_ocupadas_apos_posicionar(
    antes: EstadoTabuleiro,
    depois: EstadoTabuleiro,
    x: int,
    y: int,
    tamanho: int,
    horizontal: bool,
)
    requires
        antes.bem_formado(),
        depois.bem_formado(),
        antes.frota().len() < 100,
        antes.posicao_livre(x, y, tamanho, horizontal),
        depois.celulas() == celulas_apos_posicionar(
            antes.celulas(),
            x,
            y,
            tamanho,
            horizontal,
            antes.frota().len() as usize,
        ),
        depois.frota().len() == antes.frota().len() + 1,
        depois.frota().last().tamanho == tamanho,
    ensures
        conta(depois.celulas(), ocupada()) == conta(antes.celulas(), ocupada()) + tamanho,
{
    antes.lema_tamanho();
    depois.lema_tamanho();
    let n = antes.frota().len() as usize;
    let c1 = antes.celulas();
    let c2 = depois.celulas();
    let resto = |c: Celula| c != Celula::Vazio && navio_da_celula(c) != Some(n);
    assert(depois.frota()[n as int].tamanho == conta(c2, do_navio(n)));
    lema_conta_soma(c2, ocupada(), resto, do_navio(n));
    assert forall|k: int| 0 <= k < c2.len() implies resto(c2[k]) == ocupada()(c1[k]) by {
        lema_indice(k);
        if na_posicao(x, y, tamanho, horizontal, k / 10, k % 10) {
            let i = if horizontal {
                k % 10 - y
            } else {
                k / 10 - x
            };
            assert(antes.celula_livre(x, y, i, horizontal));
            assert(celula_i(x, y, i, horizontal) == (k / 10, k % 10));
            assert(c1[pos(k / 10, k % 10)] == Celula::Vazio);
            assert(c2[k] == Celula::Ocupado(n));
        } else {
            assert(c2[k] == c1[k]);
            assert(match navio_da_celula(c1[k]) {
                Some(i) => i < n,
                None => true,
            });
        }
    }
    lema_conta_ext(c2, resto, c1, ocupada());
}

} // verus!
