//! Laws of the library, stated over the model and proved once and for
//! all: the involution of the transpose, and the agreement of the
//! tolerance comparison with true rational arithmetic on the exact
//! scalar domain.

use crate::model;
use crate::rational::{lemma_wmul_exact, lemma_wsub_exact, wmul, Rational};
use crate::scalar::MatrixCompatible;
use vstd::prelude::*;

verus! {

/// Transposing a grid twice gives back the grid: for every
/// rectangular `rows` by `cols` grid `g`, the transpose of the
/// transpose of `g` equals `g`.
pub proof fn lemma_transpose_involution<T: MatrixCompatible>(g: Seq<Seq<T>>, rows: int, cols: int)
    requires
        rows >= 0,
        cols >= 0,
        model::is_grid(g, rows, cols),
    ensures
        model::transpose_grid(model::transpose_grid(g, rows, cols), cols, rows) == g,
{
    let t = model::transpose_grid(g, rows, cols);
    let tt = model::transpose_grid(t, cols, rows);
    assert forall|i: int| 0 <= i < rows implies (#[trigger] tt[i]).len() == cols by {}
    assert forall|i: int, j: int| 0 <= i < rows && 0 <= j < cols implies #[trigger] tt[i][j]
        == g[i][j] by {
        assert(tt[i][j] == t[j][i]);
    }
    model::lemma_grid_ext(tt, g, rows, cols);
}

/// The component bound under which every product and sum formed by
/// the tolerance test of two [`Rational`] cells stays within `i64`,
/// so that the wrapping component arithmetic agrees with true
/// rational arithmetic.
pub open spec fn within_exact_bounds(q: Rational) -> bool {
    &&& -1000 <= q.num <= 1000
    &&& q.den != 0
    &&& -1000 <= q.den <= 1000
}

/// The absolute value of an integer.
pub open spec fn abs_int(a: int) -> int {
    if a >= 0 {
        a
    } else {
        -a
    }
}

/// The true-value statement "the absolute difference of `x` and `y`
/// does not exceed `delta`", written over unbounded integers: with
/// `n / d` the exact difference `x - y`, it demands
/// `|n| * delta.den^2 <= delta.num * delta.den * |d|`.
pub open spec fn difference_within(x: Rational, y: Rational, delta: Rational) -> bool {
    let n = x.num * y.den - y.num * x.den;
    let d = x.den * y.den;
    abs_int(n) * delta.den * delta.den <= delta.num * delta.den * abs_int(d)
}

/// On cells within the exact component bounds, the executable
/// tolerance test of the library means exactly the true-value
/// statement "the absolute difference of the two cells does not
/// exceed the tolerance".
pub proof fn lemma_close_cell_exact(x: Rational, y: Rational, delta: Rational)
    requires
        within_exact_bounds(x),
        within_exact_bounds(y),
        within_exact_bounds(delta),
    ensures
        model::close_cell(x, y, delta) <==> difference_within(x, y, delta),
{
    let nx = x.num as int;
    let dx = x.den as int;
    let ny = y.num as int;
    let dy = y.den as int;
    let dn = delta.num as int;
    let dd = delta.den as int;
    let n = nx * dy - ny * dx;
    let d = dx * dy;

    assert(-1000000 <= nx * dy <= 1000000 && -1000000 <= ny * dx <= 1000000 && -1000000 <= dx * dy
        <= 1000000 && dx * dy != 0) by (nonlinear_arith)
        requires
            -1000 <= nx <= 1000,
            -1000 <= ny <= 1000,
            -1000 <= dx <= 1000,
            -1000 <= dy <= 1000,
            dx != 0,
            dy != 0,
    ;
    lemma_wmul_exact(x.num, y.den);
    lemma_wmul_exact(y.num, x.den);
    lemma_wmul_exact(x.den, y.den);
    lemma_wsub_exact(wmul(x.num, y.den), wmul(y.num, x.den));
    let diff = x.s_sub(y);
    assert(diff.num == n && diff.den == d);

    assert(-2000000000000 <= n * d <= 2000000000000) by (nonlinear_arith)
        requires
            -2000000 <= n <= 2000000,
            -1000000 <= d <= 1000000,
    ;
    lemma_wmul_exact(diff.num, diff.den);
    let positive_diff = diff.s_is_positive();
    assert(positive_diff == (n * d > 0));

    let a: int = if n * d > 0 {
        n
    } else {
        -n
    };
    if !positive_diff {
        lemma_wsub_exact(0, diff.num);
    }
    let abs_pair = x.s_abs_diff(y);
    assert(abs_pair.num == a && abs_pair.den == d);

    assert(-2000000000 <= a * dd <= 2000000000 && -1000000000 <= dn * d <= 1000000000
        && -1000000000 <= d * dd <= 1000000000) by (nonlinear_arith)
        requires
            -2000000 <= a <= 2000000,
            -1000000 <= d <= 1000000,
            -1000 <= dn <= 1000,
            -1000 <= dd <= 1000,
    ;
    lemma_wmul_exact(abs_pair.num, delta.den);
    lemma_wmul_exact(delta.num, abs_pair.den);
    lemma_wmul_exact(abs_pair.den, delta.den);
    lemma_wsub_exact(wmul(abs_pair.num, delta.den), wmul(delta.num, abs_pair.den));
    let excess = abs_pair.s_sub(delta);
    let en = a * dd - dn * d;
    let ed = d * dd;
    assert(excess.num == en && excess.den == ed);

    assert(-4000000000000000000 <= en * ed <= 4000000000000000000) by (nonlinear_arith)
        requires
            -3000000000 <= en <= 3000000000,
            -1000000000 <= ed <= 1000000000,
    ;
    lemma_wmul_exact(excess.num, excess.den);
    lemma_wmul_exact(excess.num, 1i64);
    assert(wmul(0i64, excess.den) == 0) by {
        lemma_wmul_exact(0i64, excess.den);
    }
    assert(model::close_cell(x, y, delta) <==> !(en * ed > 0 && en != 0));
    assert(en * ed > 0 ==> en != 0) by (nonlinear_arith);
    assert(model::close_cell(x, y, delta) <==> en * ed <= 0);

    let big_n = abs_int(n);
    let big_d = abs_int(d);
    assert(a * d == big_n * big_d && d * d == big_d * big_d && big_d > 0) by (nonlinear_arith)
        requires
            a == (if n * d > 0 {
                n
            } else {
                -n
            }),
            big_n == abs_int(n),
            big_d == abs_int(d),
            d != 0,
    ;
    assert(en * ed == (a * d) * (dd * dd) - dn * dd * (d * d)) by (nonlinear_arith)
        requires
            en == a * dd - dn * d,
            ed == d * dd,
    ;
    assert((a * d) * (dd * dd) == (big_n * big_d) * (dd * dd)) by (nonlinear_arith)
        requires
            a * d == big_n * big_d,
    ;
    assert((big_n * big_d) * (dd * dd) - dn * dd * (big_d * big_d) == big_d * (big_n * dd * dd - dn
        * dd * big_d)) by (nonlinear_arith);
    assert(en * ed == big_d * (big_n * dd * dd - dn * dd * big_d));
    assert(en * ed <= 0 <==> big_n * dd * dd - dn * dd * big_d <= 0) by (nonlinear_arith)
        requires
            en * ed == big_d * (big_n * dd * dd - dn * dd * big_d),
            big_d > 0,
    ;
}

/// On cells within the exact component bounds, the scalar's equality
/// test means true rational equality: cross-multiplication over
/// unbounded integers.
pub proof fn lemma_scalar_eq_exact(x: Rational, y: Rational)
    requires
        within_exact_bounds(x),
        within_exact_bounds(y),
    ensures
        x.s_eq(y) <==> x.num * y.den == y.num * x.den,
{
    assert(-1000000 <= x.num * y.den <= 1000000 && -1000000 <= y.num * x.den <= 1000000)
        by (nonlinear_arith)
        requires
            -1000 <= x.num <= 1000,
            -1000 <= y.num <= 1000,
            -1000 <= x.den <= 1000,
            -1000 <= y.den <= 1000,
    ;
    lemma_wmul_exact(x.num, y.den);
    lemma_wmul_exact(y.num, x.den);
}

/// Comparison with tolerance zero means exact equality: on grids of
/// [`Rational`] cells within the exact component bounds, the
/// cell-wise tolerance comparison with the zero tolerance holds
/// exactly when every pair of corresponding cells is equal under the
/// scalar's own equality test.
pub proof fn lemma_equals_zero_is_exact_equality(
    a: Seq<Seq<Rational>>,
    b: Seq<Seq<Rational>>,
    rows: int,
    cols: int,
)
    requires
        model::is_grid(a, rows, cols),
        model::is_grid(b, rows, cols),
        forall|i: int, j: int|
            0 <= i < rows && 0 <= j < cols ==> within_exact_bounds(#[trigger] a[i][j]),
        forall|i: int, j: int|
            0 <= i < rows && 0 <= j < cols ==> within_exact_bounds(#[trigger] b[i][j]),
    ensures
        model::cells_within(a, b, rows, cols, <Rational as MatrixCompatible>::s_zero()) <==> (forall|
            i: int,
            j: int,
        |
            0 <= i < rows && 0 <= j < cols ==> (#[trigger] a[i][j]).s_eq(b[i][j])),
{
    let zero_delta = <Rational as MatrixCompatible>::s_zero();
    assert forall|i: int, j: int| 0 <= i < rows && 0 <= j < cols implies (model::close_cell(
        #[trigger] a[i][j],
        #[trigger] b[i][j],
        zero_delta,
    ) <==> a[i][j].s_eq(b[i][j])) by {
        let x = a[i][j];
        let y = b[i][j];
        lemma_close_cell_exact(x, y, zero_delta);
        lemma_scalar_eq_exact(x, y);
        let nn = x.num * y.den - y.num * x.den;
        let bd = abs_int(x.den * y.den);
        assert(zero_delta.num == 0 && zero_delta.den == 1);
        assert(abs_int(nn) * zero_delta.den * zero_delta.den == abs_int(nn))
            by (nonlinear_arith)
            requires
                zero_delta.den == 1,
        ;
        assert(zero_delta.num * zero_delta.den * bd == 0) by (nonlinear_arith)
            requires
                zero_delta.num == 0,
        ;
        assert(abs_int(nn) <= 0 <==> nn == 0);
        assert(difference_within(x, y, zero_delta) <==> nn == 0);
    }
}

/// A tolerance at least the largest cell-wise difference makes the
/// comparison succeed: on grids of [`Rational`] cells within the
/// exact component bounds, the cell-wise tolerance comparison holds
/// exactly when, for every pair of corresponding cells, the true
/// absolute difference does not exceed the tolerance.
pub proof fn lemma_tolerance_dominates(
    a: Seq<Seq<Rational>>,
    b: Seq<Seq<Rational>>,
    rows: int,
    cols: int,
    delta: Rational,
)
    requires
        model::is_grid(a, rows, cols),
        model::is_grid(b, rows, cols),
        within_exact_bounds(delta),
        forall|i: int, j: int|
            0 <= i < rows && 0 <= j < cols ==> within_exact_bounds(#[trigger] a[i][j]),
        forall|i: int, j: int|
            0 <= i < rows && 0 <= j < cols ==> within_exact_bounds(#[trigger] b[i][j]),
    ensures
        model::cells_within(a, b, rows, cols, delta) <==> (forall|i: int, j: int|
            0 <= i < rows && 0 <= j < cols ==> difference_within(
                #[trigger] a[i][j],
                #[trigger] b[i][j],
                delta,
            )),
{
    assert forall|i: int, j: int| 0 <= i < rows && 0 <= j < cols implies (model::close_cell(
        #[trigger] a[i][j],
        #[trigger] b[i][j],
        delta,
    ) <==> difference_within(a[i][j], b[i][j], delta)) by {
        lemma_close_cell_exact(a[i][j], b[i][j], delta);
    }
}

} // verus!
