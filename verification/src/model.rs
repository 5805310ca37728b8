//! The mathematical model: grids of scalars as sequences of sequences,
//! and specification-level definitions of every matrix operation,
//! including the Gauss-Jordan elimination that the executable engine is
//! proved to implement.

use crate::scalar::MatrixCompatible;
use vstd::prelude::*;

verus! {

/// A rectangular grid: `rows` rows, each of exactly `cols` cells.
pub open spec fn is_grid<T: MatrixCompatible>(g: Seq<Seq<T>>, rows: int, cols: int) -> bool {
    &&& g.len() == rows
    &&& forall|i: int| 0 <= i < rows ==> (#[trigger] g[i]).len() == cols
}

/// The `n` by `n` grid with ones on the main diagonal and zeroes elsewhere.
pub open spec fn identity_grid<T: MatrixCompatible>(n: int) -> Seq<Seq<T>> {
    Seq::new(
        n as nat,
        |i: int|
            Seq::new(
                n as nat,
                |j: int|
                    if i == j {
                        T::s_one()
                    } else {
                        T::s_zero()
                    },
            ),
    )
}

/// The transpose of a `rows` by `cols` grid.
pub open spec fn transpose_grid<T: MatrixCompatible>(
    g: Seq<Seq<T>>,
    rows: int,
    cols: int,
) -> Seq<Seq<T>> {
    Seq::new(cols as nat, |i: int| Seq::new(rows as nat, |j: int| g[j][i]))
}

/// Column `j` of a grid with `rows` rows, as a sequence.
pub open spec fn column_of<T: MatrixCompatible>(g: Seq<Seq<T>>, j: int, rows: int) -> Seq<T> {
    Seq::new(rows as nat, |i: int| g[i][j])
}

/// The inner product accumulated left to right from `acc`, starting at
/// position `i`: `acc + a[i] * b[i] + a[i+1] * b[i+1] + ...`.
pub open spec fn dot_from<T: MatrixCompatible>(a: Seq<T>, b: Seq<T>, i: int, acc: T) -> T
    decreases a.len() - i,
{
    if 0 <= i < a.len() {
        dot_from(a, b, i + 1, acc.s_add(a[i].s_mul(b[i])))
    } else {
        acc
    }
}

/// The inner product of two sequences, accumulated from zero.
pub open spec fn dot<T: MatrixCompatible>(a: Seq<T>, b: Seq<T>) -> T {
    dot_from(a, b, 0, T::s_zero())
}

/// The matrix product of an `n` by `m` grid and an `m` by `p` grid:
/// cell `(i, j)` is the inner product of row `i` of `a` and column `j`
/// of `b`.
pub open spec fn product_grid<T: MatrixCompatible>(
    a: Seq<Seq<T>>,
    b: Seq<Seq<T>>,
    n: int,
    m: int,
    p: int,
) -> Seq<Seq<T>> {
    Seq::new(n as nat, |i: int| Seq::new(p as nat, |j: int| dot(a[i], column_of(b, j, m))))
}

/// Two grids side by side: the rows of `a` (each of `ca` cells)
/// extended on the right by the rows of `b` (each of `cb` cells).
pub open spec fn augment_grid<T: MatrixCompatible>(
    a: Seq<Seq<T>>,
    b: Seq<Seq<T>>,
    rows: int,
    ca: int,
    cb: int,
) -> Seq<Seq<T>> {
    Seq::new(
        rows as nat,
        |i: int|
            Seq::new(
                (ca + cb) as nat,
                |j: int|
                    if j < ca {
                        a[i][j]
                    } else {
                        b[i][j - ca]
                    },
            ),
    )
}

/// A vector as a single-column grid.
pub open spec fn column_grid<T: MatrixCompatible>(b: Seq<T>) -> Seq<Seq<T>> {
    Seq::new(b.len(), |i: int| seq![b[i]])
}

/// The sub-rectangle of a grid with rows `r0 .. r1` and columns
/// `c0 .. c1`, re-indexed from zero.
pub open spec fn sub_grid<T: MatrixCompatible>(
    g: Seq<Seq<T>>,
    r0: int,
    r1: int,
    c0: int,
    c1: int,
) -> Seq<Seq<T>> {
    Seq::new((r1 - r0) as nat, |i: int| Seq::new((c1 - c0) as nat, |j: int| g[r0 + i][c0 + j]))
}

/// The cell-level tolerance test: the absolute difference of `x` and
/// `y` must not exceed `delta`, read strictly as "`difference - delta`
/// is not positive-and-nonzero".
pub open spec fn close_cell<T: MatrixCompatible>(x: T, y: T, delta: T) -> bool {
    let e = x.s_abs_diff(y).s_sub(delta);
    !(e.s_is_positive() && !e.s_eq(T::s_zero()))
}

/// Cell-wise tolerance comparison of two `rows` by `cols` grids.
pub open spec fn cells_within<T: MatrixCompatible>(
    a: Seq<Seq<T>>,
    b: Seq<Seq<T>>,
    rows: int,
    cols: int,
    delta: T,
) -> bool {
    forall|i: int, j: int|
        0 <= i < rows && 0 <= j < cols ==> close_cell(#[trigger] a[i][j], #[trigger] b[i][j], delta)
}

/// The first row at or below `row` (and strictly below `rows`) whose
/// cell in column `col` is nonzero under the scalar's equality.
pub open spec fn find_in_column<T: MatrixCompatible>(
    g: Seq<Seq<T>>,
    row: int,
    rows: int,
    col: int,
) -> Option<int>
    decreases rows - row,
{
    if 0 <= row < rows {
        if !g[row][col].s_eq(T::s_zero()) {
            Some(row)
        } else {
            find_in_column(g, row + 1, rows, col)
        }
    } else {
        None
    }
}

/// The pivot scan: columns are searched from `col` upward, and within
/// each column the rows from `pr` downward; the first nonzero cell in
/// that order is the pivot.
pub open spec fn find_pivot<T: MatrixCompatible>(
    g: Seq<Seq<T>>,
    pr: int,
    rows: int,
    col: int,
    cols: int,
) -> Option<(int, int)>
    decreases cols - col,
{
    if 0 <= col < cols {
        match find_in_column(g, pr, rows, col) {
            Some(r) => Some((r, col)),
            None => find_pivot(g, pr, rows, col + 1, cols),
        }
    } else {
        None
    }
}

/// Row `row` with every cell from column `pc` onward divided by
/// `factor`.
pub open spec fn normalize_row<T: MatrixCompatible>(row: Seq<T>, pc: int, factor: T) -> Seq<T> {
    Seq::new(
        row.len(),
        |j: int|
            if j >= pc {
                row[j].s_div(factor)
            } else {
                row[j]
            },
    )
}

/// `target` with `factor` times `pivot_row` subtracted from every cell
/// from column `pc` onward.
pub open spec fn subtract_scaled<T: MatrixCompatible>(
    target: Seq<T>,
    pivot_row: Seq<T>,
    pc: int,
    factor: T,
) -> Seq<T> {
    Seq::new(
        target.len(),
        |j: int|
            if j >= pc {
                target[j].s_sub(pivot_row[j].s_mul(factor))
            } else {
                target[j]
            },
    )
}

/// One elimination sweep: every row other than the pivot row `pr` whose
/// cell in the pivot column `pc` is nonzero has that multiple of the
/// pivot row subtracted from it.
pub open spec fn eliminate_column<T: MatrixCompatible>(
    g: Seq<Seq<T>>,
    pr: int,
    pc: int,
) -> Seq<Seq<T>> {
    Seq::new(
        g.len(),
        |i: int|
            if i != pr && !g[i][pc].s_eq(T::s_zero()) {
                subtract_scaled(g[i], g[pr], pc, g[i][pc])
            } else {
                g[i]
            },
    )
}

/// Gauss-Jordan elimination with first-nonzero pivoting, from pivot
/// position `(pr, pc)` onward, together with the running determinant
/// factor: the factor is negated by a row swap and multiplied by each
/// pivot value before normalisation.  The recursion stops when the
/// pivot positions are exhausted or no nonzero cell remains in the
/// unreduced sub-grid.
pub open spec fn gauss_jordan<T: MatrixCompatible>(
    g: Seq<Seq<T>>,
    pr: int,
    pc: int,
    det: T,
    rows: int,
    cols: int,
) -> (Seq<Seq<T>>, T)
    decreases rows - pr,
{
    if 0 <= pr < rows && pc < cols {
        match find_pivot(g, pr, rows, pc, cols) {
            Some(rc) => {
                let g1 = if rc.0 != pr {
                    g.update(pr, g[rc.0]).update(rc.0, g[pr])
                } else {
                    g
                };
                let det1 = if rc.0 != pr {
                    det.s_mul(T::s_one().s_neg())
                } else {
                    det
                };
                let factor = g1[pr][rc.1];
                let g2 = g1.update(pr, normalize_row(g1[pr], rc.1, factor));
                let det2 = det1.s_mul(factor);
                let g3 = eliminate_column(g2, pr, rc.1);
                gauss_jordan(g3, pr + 1, rc.1 + 1, det2, rows, cols)
            },
            None => (g, det),
        }
    } else {
        (g, det)
    }
}

/// The reduced echelon form of a `rows` by `cols` grid: the grid part
/// of the elimination, started at the top-left pivot position.
pub open spec fn rref_grid<T: MatrixCompatible>(g: Seq<Seq<T>>, rows: int, cols: int) -> Seq<
    Seq<T>,
> {
    gauss_jordan(g, 0, 0, T::s_one(), rows, cols).0
}

/// Whether any of the first `n` diagonal cells of a grid is zero under
/// the scalar's equality.
pub open spec fn has_zero_diagonal<T: MatrixCompatible>(g: Seq<Seq<T>>, n: int) -> bool {
    exists|i: int| 0 <= i < n && (#[trigger] g[i][i]).s_eq(T::s_zero())
}

/// The determinant of an `n` by `n` grid: zero when the reduced grid
/// does not carry a full diagonal of nonzero cells, and otherwise the
/// accumulated product of pivot values and swap signs.
pub open spec fn det_of<T: MatrixCompatible>(g: Seq<Seq<T>>, n: int) -> T {
    let reduced = gauss_jordan(g, 0, 0, T::s_one(), n, n);
    if has_zero_diagonal(reduced.0, n) {
        T::s_zero()
    } else {
        reduced.1
    }
}

/// Whether row `i` of a reduced augmented grid states `0 = c` with `c`
/// nonzero: the last cell (in column `cols_main`) is nonzero while all
/// cells of the coefficient part are zero.
pub open spec fn inconsistent_row<T: MatrixCompatible>(
    g: Seq<Seq<T>>,
    i: int,
    cols_main: int,
) -> bool {
    &&& !g[i][cols_main].s_eq(T::s_zero())
    &&& forall|j: int| 0 <= j < cols_main ==> (#[trigger] g[i][j]).s_eq(T::s_zero())
}

/// Whether a reduced augmented grid contains an inconsistent row.
pub open spec fn has_inconsistent_row<T: MatrixCompatible>(
    g: Seq<Seq<T>>,
    rows: int,
    cols_main: int,
) -> bool {
    exists|i: int| 0 <= i < rows && inconsistent_row(g, i, cols_main)
}

/// The solution read off a reduced augmented grid, from column `col`
/// onward with the row cursor at `cur`: a column whose cell at the
/// cursor equals one contributes the cell of the augmented column
/// (which stands at index `cols_main`) and advances the cursor; any
/// other column is free and contributes zero.
pub open spec fn extract_from<T: MatrixCompatible>(
    g: Seq<Seq<T>>,
    rows: int,
    cols_main: int,
    col: int,
    cur: int,
) -> Seq<T>
    decreases cols_main - col,
{
    if 0 <= col < cols_main {
        if 0 <= cur < rows && g[cur][col].s_eq(T::s_one()) {
            seq![g[cur][cols_main]] + extract_from(g, rows, cols_main, col + 1, cur + 1)
        } else {
            seq![T::s_zero()] + extract_from(g, rows, cols_main, col + 1, cur)
        }
    } else {
        Seq::empty()
    }
}

/// The solution read off a whole reduced augmented grid.
pub open spec fn extract_solution<T: MatrixCompatible>(
    g: Seq<Seq<T>>,
    rows: int,
    cols_main: int,
) -> Seq<T> {
    extract_from(g, rows, cols_main, 0, 0)
}

/// Two grids of the same shape whose cells agree are equal.
pub proof fn lemma_grid_ext<T: MatrixCompatible>(a: Seq<Seq<T>>, b: Seq<Seq<T>>, rows: int, cols: int)
    requires
        is_grid(a, rows, cols),
        is_grid(b, rows, cols),
        forall|i: int, j: int| 0 <= i < rows && 0 <= j < cols ==> #[trigger] a[i][j] == b[i][j],
    ensures
        a == b,
{
    assert forall|i: int| 0 <= i < rows implies a[i] == b[i] by {
        assert forall|j: int| 0 <= j < cols implies a[i][j] == b[i][j] by {}
        assert(a[i] =~= b[i]);
    }
    assert(a =~= b);
}

} // verus!
