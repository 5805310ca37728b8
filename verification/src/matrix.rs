//! The matrix entity: a rectangular grid of scalars with value
//! semantics, its constructors, element access, block operations,
//! arithmetic, tolerance comparison, and the Gauss-Jordan elimination
//! engine.

use crate::model;
use crate::scalar::MatrixCompatible;
use vstd::prelude::*;

verus! {

/// A mathematical matrix, zero-indexed: an ordered grid of scalar
/// values with `rows()` rows and `cols()` columns.  Every row holds
/// exactly `cols()` cells, and both counts are at least one.
pub struct Matrix<T: MatrixCompatible> {
    grid: Vec<Vec<T>>,
    rows: usize,
    columns: usize,
}

impl<T: MatrixCompatible> View for Matrix<T> {
    type V = Seq<Seq<T>>;

    closed spec fn view(&self) -> Seq<Seq<T>> {
        Seq::new(self.grid@.len(), |i: int| self.grid@[i]@)
    }
}

impl<T: MatrixCompatible> Matrix<T> {
    /// The number of rows.
    pub closed spec fn rows(&self) -> usize {
        self.rows
    }

    /// The number of columns.
    pub closed spec fn cols(&self) -> usize {
        self.columns
    }

    /// Well-formedness: the view is a rectangular `rows()` by `cols()`
    /// grid and both counts are at least one.  Every constructor
    /// establishes this and every operation preserves it.
    pub open spec fn wf(&self) -> bool {
        &&& model::is_grid(self@, self.rows() as int, self.cols() as int)
        &&& self.rows() >= 1
        &&& self.cols() >= 1
    }

    /// The number of rows.
    pub fn num_rows(&self) -> (r: usize)
        ensures
            r == self.rows(),
    {
        self.rows
    }

    /// The number of columns.
    pub fn num_columns(&self) -> (r: usize)
        ensures
            r == self.cols(),
    {
        self.columns
    }

    /// Creates a zero matrix with the given size parameters.
    pub fn new(rows: usize, columns: usize) -> (r: Self)
        requires
            rows >= 1,
            columns >= 1,
        ensures
            r.wf(),
            r.rows() == rows,
            r.cols() == columns,
            forall|i: int, j: int|
                0 <= i < rows && 0 <= j < columns ==> r@[i][j] == T::s_zero(),
    {
        let mut grid: Vec<Vec<T>> = Vec::new();
        let mut i: usize = 0;
        while i < rows
            invariant
                i <= rows,
                grid@.len() == i,
                forall|k: int| 0 <= k < i ==> (#[trigger] grid@[k])@.len() == columns,
                forall|k: int, j: int|
                    0 <= k < i && 0 <= j < columns ==> grid@[k]@[j] == T::s_zero(),
            decreases rows - i,
        {
            let mut row: Vec<T> = Vec::new();
            let mut j: usize = 0;
            while j < columns
                invariant
                    j <= columns,
                    row@.len() == j,
                    forall|k: int| 0 <= k < j ==> row@[k] == T::s_zero(),
                decreases columns - j,
            {
                row.push(T::zero());
                j = j + 1;
            }
            grid.push(row);
            i = i + 1;
        }
        Matrix { grid, rows, columns }
    }

    /// Creates a square zero matrix with the given size.
    pub fn square_matrix(size: usize) -> (r: Self)
        requires
            size >= 1,
        ensures
            r.wf(),
            r.rows() == size,
            r.cols() == size,
            forall|i: int, j: int| 0 <= i < size && 0 <= j < size ==> r@[i][j] == T::s_zero(),
    {
        Self::new(size, size)
    }

    /// Gets the value of the matrix at the given indices (zero-indexed).
    pub fn get_value(&self, row: usize, column: usize) -> (r: T)
        requires
            self.wf(),
            row < self.rows(),
            column < self.cols(),
        ensures
            r == self@[row as int][column as int],
    {
        proof {
            assert(self.grid@.len() == self@.len());
            assert(self@[row as int] == self.grid@[row as int]@);
        }
        self.grid[row][column]
    }

    /// Sets the value of the matrix at the given indices (zero-indexed).
    pub fn set_value(&mut self, row: usize, column: usize, value: T)
        requires
            old(self).wf(),
            row < old(self).rows(),
            column < old(self).cols(),
        ensures
            final(self).wf(),
            final(self).rows() == old(self).rows(),
            final(self).cols() == old(self).cols(),
            final(self)@ == old(self)@.update(
                row as int,
                old(self)@[row as int].update(column as int, value),
            ),
    {
        proof {
            assert(self.grid@.len() == self@.len());
            assert(self@[row as int] == self.grid@[row as int]@);
        }
        self.grid[row][column] = value;
        proof {
            assert(self@ =~= old(self)@.update(
                row as int,
                old(self)@[row as int].update(column as int, value),
            ));
        }
    }

    /// Creates an identity matrix with the given size.
    pub fn identity_matrix(size: usize) -> (r: Self)
        requires
            size >= 1,
        ensures
            r.wf(),
            r.rows() == size,
            r.cols() == size,
            r@ == model::identity_grid::<T>(size as int),
    {
        let mut m: Self = Self::square_matrix(size);
        let mut i: usize = 0;
        while i < size
            invariant
                i <= size,
                m.wf(),
                m.rows() == size,
                m.cols() == size,
                forall|k: int, j: int|
                    0 <= k < size && 0 <= j < size && k != j ==> m@[k][j] == T::s_zero(),
                forall|k: int| 0 <= k < i ==> m@[k][k] == T::s_one(),
            decreases size - i,
        {
            m.set_value(i, i, T::one());
            i = i + 1;
        }
        proof {
            model::lemma_grid_ext(
                m@,
                model::identity_grid::<T>(size as int),
                size as int,
                size as int,
            );
        }
        m
    }

    /// Creates a matrix from the given two-dimensional vector, which
    /// must be rectangular and nonempty in both directions.
    pub fn from_vector(vector: &Vec<Vec<T>>) -> (r: Self)
        requires
            vector@.len() >= 1,
            vector@[0]@.len() >= 1,
            forall|i: int|
                0 <= i < vector@.len() ==> (#[trigger] vector@[i])@.len() == vector@[0]@.len(),
        ensures
            r.wf(),
            r.rows() == vector@.len(),
            r.cols() == vector@[0]@.len(),
            forall|i: int, j: int|
                0 <= i < vector@.len() && 0 <= j < vector@[0]@.len() ==> r@[i][j] == vector@[i]@[j],
    {
        let rows: usize = vector.len();
        let columns: usize = vector[0].len();
        let mut m: Self = Self::new(rows, columns);
        let mut i: usize = 0;
        while i < rows
            invariant
                i <= rows,
                m.wf(),
                m.rows() == rows,
                m.cols() == columns,
                rows == vector@.len(),
                columns == vector@[0]@.len(),
                forall|k: int|
                    0 <= k < vector@.len() ==> (#[trigger] vector@[k])@.len() == vector@[0]@.len(),
                forall|k: int, j: int|
                    0 <= k < i && 0 <= j < columns ==> m@[k][j] == vector@[k]@[j],
            decreases rows - i,
        {
            let mut j: usize = 0;
            while j < columns
                invariant
                    i < rows,
                    j <= columns,
                    m.wf(),
                    m.rows() == rows,
                    m.cols() == columns,
                    rows == vector@.len(),
                    columns == vector@[0]@.len(),
                    forall|k: int|
                        0 <= k < vector@.len() ==> (#[trigger] vector@[k])@.len()
                            == vector@[0]@.len(),
                    forall|k: int, l: int|
                        0 <= k < i && 0 <= l < columns ==> m@[k][l] == vector@[k]@[l],
                    forall|l: int| 0 <= l < j ==> m@[i as int][l] == vector@[i as int]@[l],
                decreases columns - j,
            {
                m.set_value(i, j, vector[i][j]);
                j = j + 1;
            }
            i = i + 1;
        }
        m
    }

    /// Creates a matrix of the given dimensions from a flat list of
    /// cells, listed row-major (left to right, then top to bottom).
    /// The list's length must match the dimensions.
    pub fn matrix_from_list(list_of_numbers: &Vec<T>, rows: usize, columns: usize) -> (r: Self)
        requires
            rows >= 1,
            columns >= 1,
            list_of_numbers@.len() == rows * columns,
        ensures
            r.wf(),
            r.rows() == rows,
            r.cols() == columns,
            forall|i: int, j: int|
                0 <= i < rows && 0 <= j < columns ==> r@[i][j] == list_of_numbers@[i * columns + j],
    {
        let total: usize = list_of_numbers.len();
        let mut m: Self = Self::new(rows, columns);
        let mut i: usize = 0;
        let mut list_index: usize = 0;
        while i < rows
            invariant
                i <= rows,
                m.wf(),
                m.rows() == rows,
                m.cols() == columns,
                columns >= 1,
                list_of_numbers@.len() == rows * columns,
                total == rows * columns,
                list_index == i * columns,
                forall|k: int, j: int|
                    0 <= k < i && 0 <= j < columns ==> m@[k][j] == list_of_numbers@[k * columns
                        + j],
            decreases rows - i,
        {
            proof {
                vstd::arithmetic::mul::lemma_mul_inequality(
                    i as int + 1,
                    rows as int,
                    columns as int,
                );
            }
            let mut j: usize = 0;
            while j < columns
                invariant
                    i < rows,
                    j <= columns,
                    m.wf(),
                    m.rows() == rows,
                    m.cols() == columns,
                    list_of_numbers@.len() == rows * columns,
                    total == rows * columns,
                    (i + 1) * columns <= rows * columns,
                    list_index == i * columns + j,
                    forall|k: int, l: int|
                        0 <= k < i && 0 <= l < columns ==> m@[k][l] == list_of_numbers@[k * columns
                            + l],
                    forall|l: int|
                        0 <= l < j ==> m@[i as int][l] == list_of_numbers@[i as int * columns + l],
                decreases columns - j,
            {
                proof {
                    assert((i + 1) * columns == i * columns + columns) by (nonlinear_arith);
                }
                m.set_value(i, j, list_of_numbers[list_index]);
                list_index = list_index + 1;
                j = j + 1;
            }
            proof {
                assert((i + 1) * columns == i * columns + columns) by (nonlinear_arith);
            }
            i = i + 1;
        }
        m
    }

    /// Creates a matrix of the given dimensions from a flat list of
    /// cells, or reports a shape failure when the list's length does
    /// not match the dimensions or a dimension is zero.
    pub fn try_matrix_from_list(list_of_numbers: &Vec<T>, rows: usize, columns: usize) -> (r:
        Result<Self, &'static str>)
        ensures
            r is Ok <==> rows >= 1 && columns >= 1 && list_of_numbers@.len() == rows * columns,
            r matches Ok(m) ==> {
                &&& m.wf()
                &&& m.rows() == rows
                &&& m.cols() == columns
                &&& forall|i: int, j: int|
                    0 <= i < rows && 0 <= j < columns ==> m@[i][j] == list_of_numbers@[i * columns
                        + j]
            },
    {
        let total: usize = list_of_numbers.len();
        if rows == 0 || columns == 0 {
            return Err("This list size does not match the dimensions!");
        }
        let product = rows.checked_mul(columns);
        match product {
            Some(p) => {
                if total != p {
                    Err("This list size does not match the dimensions!")
                } else {
                    Ok(Self::matrix_from_list(list_of_numbers, rows, columns))
                }
            },
            None => Err("This list size does not match the dimensions!"),
        }
    }

    /// Creates a square matrix from a flat list of cells, listed
    /// row-major.  The list's length must be a positive perfect square.
    pub fn square_matrix_from_list(list_of_numbers: &Vec<T>) -> (r: Self)
        requires
            list_of_numbers@.len() >= 1,
            exists|s: int| 0 <= s && #[trigger] (s * s) == list_of_numbers@.len(),
        ensures
            r.wf(),
            r.rows() == r.cols(),
            r.rows() * r.cols() == list_of_numbers@.len(),
            forall|i: int, j: int|
                0 <= i < r.rows() && 0 <= j < r.cols() ==> r@[i][j] == list_of_numbers@[i * r.cols()
                    + j],
    {
        let len = list_of_numbers.len();
        let ghost root: int = choose|s: int| 0 <= s && #[trigger] (s * s) == len;
        let mut size: usize = 0;
        proof {
            assert(0 * 0 <= len);
            assert(root >= 1 ==> root <= root * root) by (nonlinear_arith);
        }
        while size * size < len
            invariant
                0 <= size <= root,
                size * size <= len,
                root <= len,
                root * root == len,
                len == list_of_numbers@.len(),
            decreases root - size,
        {
            proof {
                assert(0 <= size && size <= root && size * size < root * root ==> size < root)
                    by (nonlinear_arith);
                assert(0 <= size + 1 && size + 1 <= root ==> (size + 1) * (size + 1) <= root
                    * root) by (nonlinear_arith);
            }
            size = size + 1;
        }
        proof {
            assert(0 <= size && size < root ==> size * size < root * root) by (nonlinear_arith);
            assert(size == root);
        }
        Self::matrix_from_list(list_of_numbers, size, size)
    }

    /// Returns the transpose of this matrix.
    pub fn transpose(&self) -> (r: Self)
        requires
            self.wf(),
        ensures
            r.wf(),
            r.rows() == self.cols(),
            r.cols() == self.rows(),
            r@ == model::transpose_grid(self@, self.rows() as int, self.cols() as int),
    {
        let rows = self.num_rows();
        let columns = self.num_columns();
        let mut m: Self = Self::new(columns, rows);
        let mut i: usize = 0;
        while i < rows
            invariant
                i <= rows,
                self.wf(),
                rows == self.rows(),
                columns == self.cols(),
                m.wf(),
                m.rows() == columns,
                m.cols() == rows,
                forall|k: int, j: int|
                    0 <= k < i && 0 <= j < columns ==> m@[j][k] == self@[k][j],
            decreases rows - i,
        {
            let mut j: usize = 0;
            while j < columns
                invariant
                    i < rows,
                    j <= columns,
                    self.wf(),
                    rows == self.rows(),
                    columns == self.cols(),
                    m.wf(),
                    m.rows() == columns,
                    m.cols() == rows,
                    forall|k: int, l: int|
                        0 <= k < i && 0 <= l < columns ==> m@[l][k] == self@[k][l],
                    forall|l: int| 0 <= l < j ==> m@[l][i as int] == self@[i as int][l],
                decreases columns - j,
            {
                m.set_value(j, i, self.get_value(i, j));
                j = j + 1;
            }
            i = i + 1;
        }
        proof {
            model::lemma_grid_ext(
                m@,
                model::transpose_grid(self@, rows as int, columns as int),
                columns as int,
                rows as int,
            );
        }
        m
    }

    /// Adds two matrices cell by cell.
    pub fn add(&self, rhs: &Self) -> (r: Self)
        requires
            self.wf(),
            rhs.wf(),
            self.rows() == rhs.rows(),
            self.cols() == rhs.cols(),
        ensures
            r.wf(),
            r.rows() == self.rows(),
            r.cols() == self.cols(),
            forall|i: int, j: int|
                0 <= i < self.rows() && 0 <= j < self.cols() ==> r@[i][j] == self@[i][j].s_add(
                    rhs@[i][j],
                ),
    {
        let rows = self.num_rows();
        let columns = self.num_columns();
        let mut m: Self = Self::new(rows, columns);
        let mut i: usize = 0;
        while i < rows
            invariant
                i <= rows,
                self.wf(),
                rhs.wf(),
                rows == self.rows() == rhs.rows(),
                columns == self.cols() == rhs.cols(),
                m.wf(),
                m.rows() == rows,
                m.cols() == columns,
                forall|k: int, j: int|
                    0 <= k < i && 0 <= j < columns ==> m@[k][j] == self@[k][j].s_add(rhs@[k][j]),
            decreases rows - i,
        {
            let mut j: usize = 0;
            while j < columns
                invariant
                    i < rows,
                    j <= columns,
                    self.wf(),
                    rhs.wf(),
                    rows == self.rows() == rhs.rows(),
                    columns == self.cols() == rhs.cols(),
                    m.wf(),
                    m.rows() == rows,
                    m.cols() == columns,
                    forall|k: int, l: int|
                        0 <= k < i && 0 <= l < columns ==> m@[k][l] == self@[k][l].s_add(
                            rhs@[k][l],
                        ),
                    forall|l: int|
                        0 <= l < j ==> m@[i as int][l] == self@[i as int][l].s_add(
                            rhs@[i as int][l],
                        ),
                decreases columns - j,
            {
                let value = self.get_value(i, j).add(rhs.get_value(i, j));
                m.set_value(i, j, value);
                j = j + 1;
            }
            i = i + 1;
        }
        m
    }

    /// Scales every cell of this matrix by `rhs`.
    pub fn scale(&self, rhs: T) -> (r: Self)
        requires
            self.wf(),
        ensures
            r.wf(),
            r.rows() == self.rows(),
            r.cols() == self.cols(),
            forall|i: int, j: int|
                0 <= i < self.rows() && 0 <= j < self.cols() ==> r@[i][j] == self@[i][j].s_mul(
                    rhs,
                ),
    {
        let rows = self.num_rows();
        let columns = self.num_columns();
        let mut m: Self = Self::new(rows, columns);
        let mut i: usize = 0;
        while i < rows
            invariant
                i <= rows,
                self.wf(),
                rows == self.rows(),
                columns == self.cols(),
                m.wf(),
                m.rows() == rows,
                m.cols() == columns,
                forall|k: int, j: int|
                    0 <= k < i && 0 <= j < columns ==> m@[k][j] == self@[k][j].s_mul(rhs),
            decreases rows - i,
        {
            let mut j: usize = 0;
            while j < columns
                invariant
                    i < rows,
                    j <= columns,
                    self.wf(),
                    rows == self.rows(),
                    columns == self.cols(),
                    m.wf(),
                    m.rows() == rows,
                    m.cols() == columns,
                    forall|k: int, l: int|
                        0 <= k < i && 0 <= l < columns ==> m@[k][l] == self@[k][l].s_mul(rhs),
                    forall|l: int| 0 <= l < j ==> m@[i as int][l] == self@[i as int][l].s_mul(rhs),
                decreases columns - j,
            {
                let value = self.get_value(i, j).mul(rhs);
                m.set_value(i, j, value);
                j = j + 1;
            }
            i = i + 1;
        }
        m
    }

    /// Subtracts `rhs` from this matrix: each cell of `rhs` is scaled
    /// by negative one and added to the corresponding cell of `self`.
    pub fn subtract(&self, rhs: &Self) -> (r: Self)
        requires
            self.wf(),
            rhs.wf(),
            self.rows() == rhs.rows(),
            self.cols() == rhs.cols(),
        ensures
            r.wf(),
            r.rows() == self.rows(),
            r.cols() == self.cols(),
            forall|i: int, j: int|
                0 <= i < self.rows() && 0 <= j < self.cols() ==> r@[i][j] == self@[i][j].s_add(
                    rhs@[i][j].s_mul(T::s_one().s_neg()),
                ),
    {
        let negative_rhs = rhs.scale(T::one().neg());
        self.add(&negative_rhs)
    }

    /// Calculates the inner product of two equally long vectors,
    /// accumulated left to right from zero.
    pub fn inner_product(a: &Vec<T>, b: &Vec<T>) -> (r: T)
        requires
            a@.len() == b@.len(),
        ensures
            r == model::dot(a@, b@),
    {
        let n = a.len();
        let mut output: T = T::zero();
        let mut i: usize = 0;
        while i < n
            invariant
                i <= n,
                n == a@.len() == b@.len(),
                model::dot_from(a@, b@, i as int, output) == model::dot(a@, b@),
            decreases n - i,
        {
            output = output.add(a[i].mul(b[i]));
            i = i + 1;
        }
        output
    }

    /// Multiplies two matrices under the standard matrix product:
    /// cell `(i, j)` of the result is the inner product of row `i` of
    /// `self` and column `j` of `rhs`.
    pub fn multiply(&self, rhs: &Self) -> (r: Self)
        requires
            self.wf(),
            rhs.wf(),
            self.cols() == rhs.rows(),
        ensures
            r.wf(),
            r.rows() == self.rows(),
            r.cols() == rhs.cols(),
            r@ == model::product_grid(
                self@,
                rhs@,
                self.rows() as int,
                self.cols() as int,
                rhs.cols() as int,
            ),
    {
        let rows = self.num_rows();
        let common = self.num_columns();
        let out_cols = rhs.num_columns();
        let mut m: Self = Self::new(rows, out_cols);
        let mut i: usize = 0;
        while i < rows
            invariant
                i <= rows,
                self.wf(),
                rhs.wf(),
                rows == self.rows(),
                common == self.cols() == rhs.rows(),
                out_cols == rhs.cols(),
                m.wf(),
                m.rows() == rows,
                m.cols() == out_cols,
                forall|k: int, j: int|
                    0 <= k < i && 0 <= j < out_cols ==> m@[k][j] == model::dot(
                        self@[k],
                        model::column_of(rhs@, j, common as int),
                    ),
            decreases rows - i,
        {
            let mut j: usize = 0;
            while j < out_cols
                invariant
                    i < rows,
                    j <= out_cols,
                    self.wf(),
                    rhs.wf(),
                    rows == self.rows(),
                    common == self.cols() == rhs.rows(),
                    out_cols == rhs.cols(),
                    m.wf(),
                    m.rows() == rows,
                    m.cols() == out_cols,
                    forall|k: int, l: int|
                        0 <= k < i && 0 <= l < out_cols ==> m@[k][l] == model::dot(
                            self@[k],
                            model::column_of(rhs@, l, common as int),
                        ),
                    forall|l: int|
                        0 <= l < j ==> m@[i as int][l] == model::dot(
                            self@[i as int],
                            model::column_of(rhs@, l, common as int),
                        ),
                decreases out_cols - j,
            {
                let mut a: Vec<T> = Vec::new();
                let mut k: usize = 0;
                while k < common
                    invariant
                        k <= common,
                        i < rows,
                        self.wf(),
                        rows == self.rows(),
                        common == self.cols(),
                        a@.len() == k,
                        forall|l: int| 0 <= l < k ==> a@[l] == self@[i as int][l],
                    decreases common - k,
                {
                    a.push(self.get_value(i, k));
                    k = k + 1;
                }
                let mut b: Vec<T> = Vec::new();
                let mut k2: usize = 0;
                while k2 < common
                    invariant
                        k2 <= common,
                        j < out_cols,
                        rhs.wf(),
                        common == rhs.rows(),
                        out_cols == rhs.cols(),
                        b@.len() == k2,
                        forall|l: int| 0 <= l < k2 ==> b@[l] == rhs@[l][j as int],
                    decreases common - k2,
                {
                    b.push(rhs.get_value(k2, j));
                    k2 = k2 + 1;
                }
                proof {
                    assert(a@ =~= self@[i as int]);
                    assert(b@ =~= model::column_of(rhs@, j as int, common as int));
                }
                let value = Self::inner_product(&a, &b);
                m.set_value(i, j, value);
                j = j + 1;
            }
            i = i + 1;
        }
        proof {
            model::lemma_grid_ext(
                m@,
                model::product_grid(
                    self@,
                    rhs@,
                    rows as int,
                    common as int,
                    out_cols as int,
                ),
                rows as int,
                out_cols as int,
            );
        }
        m
    }

    /// Extracts the sub-rectangle with rows `starting_row .. ending_row`
    /// and columns `starting_column .. ending_column`, re-indexed from
    /// zero (the ending bounds are exclusive).
    pub fn partition(
        &self,
        starting_row: usize,
        ending_row: usize,
        starting_column: usize,
        ending_column: usize,
    ) -> (r: Self)
        requires
            self.wf(),
            starting_row < ending_row <= self.rows(),
            starting_column < ending_column <= self.cols(),
        ensures
            r.wf(),
            r.rows() == ending_row - starting_row,
            r.cols() == ending_column - starting_column,
            r@ == model::sub_grid(
                self@,
                starting_row as int,
                ending_row as int,
                starting_column as int,
                ending_column as int,
            ),
    {
        let out_rows = ending_row - starting_row;
        let out_cols = ending_column - starting_column;
        let mut m: Self = Self::new(out_rows, out_cols);
        let mut i: usize = 0;
        while i < out_rows
            invariant
                i <= out_rows,
                self.wf(),
                starting_row + out_rows <= self.rows(),
                starting_column + out_cols <= self.cols(),
                m.wf(),
                m.rows() == out_rows,
                m.cols() == out_cols,
                forall|k: int, j: int|
                    0 <= k < i && 0 <= j < out_cols ==> m@[k][j] == self@[starting_row + k][
                        starting_column + j],
            decreases out_rows - i,
        {
            let mut j: usize = 0;
            while j < out_cols
                invariant
                    i < out_rows,
                    j <= out_cols,
                    self.wf(),
                    starting_row + out_rows <= self.rows(),
                    starting_column + out_cols <= self.cols(),
                    m.wf(),
                    m.rows() == out_rows,
                    m.cols() == out_cols,
                    forall|k: int, l: int|
                        0 <= k < i && 0 <= l < out_cols ==> m@[k][l] == self@[starting_row + k][
                            starting_column + l],
                    forall|l: int|
                        0 <= l < j ==> m@[i as int][l] == self@[starting_row + i][starting_column
                            + l],
                decreases out_cols - j,
            {
                m.set_value(i, j, self.get_value(starting_row + i, starting_column + j));
                j = j + 1;
            }
            i = i + 1;
        }
        proof {
            model::lemma_grid_ext(
                m@,
                model::sub_grid(
                    self@,
                    starting_row as int,
                    ending_row as int,
                    starting_column as int,
                    ending_column as int,
                ),
                out_rows as int,
                out_cols as int,
            );
        }
        m
    }

    /// Places this matrix and `rhs` side by side, `rhs` on the right.
    /// Both must have the same number of rows.
    pub fn combine(&self, rhs: &Self) -> (r: Self)
        requires
            self.wf(),
            rhs.wf(),
            self.rows() == rhs.rows(),
            self.cols() + rhs.cols() <= usize::MAX,
        ensures
            r.wf(),
            r.rows() == self.rows(),
            r.cols() == self.cols() + rhs.cols(),
            r@ == model::augment_grid(
                self@,
                rhs@,
                self.rows() as int,
                self.cols() as int,
                rhs.cols() as int,
            ),
    {
        let rows = self.num_rows();
        let left_cols = self.num_columns();
        let right_cols = rhs.num_columns();
        let out_cols = left_cols + right_cols;
        let mut m: Self = Self::new(rows, out_cols);
        let mut i: usize = 0;
        while i < rows
            invariant
                i <= rows,
                self.wf(),
                rhs.wf(),
                rows == self.rows() == rhs.rows(),
                left_cols == self.cols(),
                right_cols == rhs.cols(),
                out_cols == left_cols + right_cols,
                m.wf(),
                m.rows() == rows,
                m.cols() == out_cols,
                forall|k: int, j: int|
                    0 <= k < i && 0 <= j < left_cols ==> m@[k][j] == self@[k][j],
                forall|k: int, j: int|
                    0 <= k < i && 0 <= j < right_cols ==> m@[k][left_cols + j] == rhs@[k][j],
            decreases rows - i,
        {
            let mut j: usize = 0;
            while j < left_cols
                invariant
                    i < rows,
                    j <= left_cols,
                    self.wf(),
                    rhs.wf(),
                    rows == self.rows() == rhs.rows(),
                    left_cols == self.cols(),
                    right_cols == rhs.cols(),
                    out_cols == left_cols + right_cols,
                    m.wf(),
                    m.rows() == rows,
                    m.cols() == out_cols,
                    forall|k: int, l: int|
                        0 <= k < i && 0 <= l < left_cols ==> m@[k][l] == self@[k][l],
                    forall|k: int, l: int|
                        0 <= k < i && 0 <= l < right_cols ==> m@[k][left_cols + l] == rhs@[k][l],
                    forall|l: int| 0 <= l < j ==> m@[i as int][l] == self@[i as int][l],
                decreases left_cols - j,
            {
                m.set_value(i, j, self.get_value(i, j));
                j = j + 1;
            }
            let mut j2: usize = 0;
            while j2 < right_cols
                invariant
                    i < rows,
                    j2 <= right_cols,
                    self.wf(),
                    rhs.wf(),
                    rows == self.rows() == rhs.rows(),
                    left_cols == self.cols(),
                    right_cols == rhs.cols(),
                    out_cols == left_cols + right_cols,
                    m.wf(),
                    m.rows() == rows,
                    m.cols() == out_cols,
                    forall|k: int, l: int|
                        0 <= k < i && 0 <= l < left_cols ==> m@[k][l] == self@[k][l],
                    forall|k: int, l: int|
                        0 <= k < i && 0 <= l < right_cols ==> m@[k][left_cols + l] == rhs@[k][l],
                    forall|l: int| 0 <= l < left_cols ==> m@[i as int][l] == self@[i as int][l],
                    forall|l: int|
                        0 <= l < j2 ==> m@[i as int][left_cols + l] == rhs@[i as int][l],
                decreases right_cols - j2,
            {
                m.set_value(i, left_cols + j2, rhs.get_value(i, j2));
                j2 = j2 + 1;
            }
            i = i + 1;
        }
        proof {
            model::lemma_grid_ext(
                m@,
                model::augment_grid(
                    self@,
                    rhs@,
                    rows as int,
                    left_cols as int,
                    right_cols as int,
                ),
                rows as int,
                out_cols as int,
            );
        }
        m
    }

    /// Compares two matrices within the given tolerance: true exactly
    /// when the shapes agree and, for every cell, the absolute
    /// difference does not exceed `delta` (strictly: `difference -
    /// delta` is not positive-and-nonzero).
    pub fn equals(&self, other: &Self, delta: T) -> (r: bool)
        requires
            self.wf(),
            other.wf(),
        ensures
            r == (self.rows() == other.rows() && self.cols() == other.cols()
                && model::cells_within(
                self@,
                other@,
                self.rows() as int,
                self.cols() as int,
                delta,
            )),
    {
        let rows = self.num_rows();
        let columns = self.num_columns();
        if rows != other.num_rows() || columns != other.num_columns() {
            return false;
        }
        let mut i: usize = 0;
        while i < rows
            invariant
                i <= rows,
                self.wf(),
                other.wf(),
                rows == self.rows() == other.rows(),
                columns == self.cols() == other.cols(),
                forall|k: int, j: int|
                    0 <= k < i && 0 <= j < columns ==> model::close_cell(
                        #[trigger] self@[k][j],
                        #[trigger] other@[k][j],
                        delta,
                    ),
            decreases rows - i,
        {
            let mut j: usize = 0;
            while j < columns
                invariant
                    i < rows,
                    j <= columns,
                    self.wf(),
                    other.wf(),
                    rows == self.rows() == other.rows(),
                    columns == self.cols() == other.cols(),
                    forall|k: int, l: int|
                        0 <= k < i && 0 <= l < columns ==> model::close_cell(
                            #[trigger] self@[k][l],
                            #[trigger] other@[k][l],
                            delta,
                        ),
                    forall|l: int|
                        0 <= l < j ==> model::close_cell(
                            #[trigger] self@[i as int][l],
                            #[trigger] other@[i as int][l],
                            delta,
                        ),
                decreases columns - j,
            {
                let difference = self.get_value(i, j).abs_diff(other.get_value(i, j));
                let excess = difference.sub(delta);
                if excess.is_positive() && !excess.eq_scalar(T::zero()) {
                    return false;
                }
                j = j + 1;
            }
            i = i + 1;
        }
        true
    }

    /// Swaps two distinct rows in place.
    fn swap_rows(&mut self, a: usize, b: usize)
        requires
            old(self).wf(),
            a < old(self).rows(),
            b < old(self).rows(),
            a != b,
        ensures
            final(self).wf(),
            final(self).rows() == old(self).rows(),
            final(self).cols() == old(self).cols(),
            final(self)@ == old(self)@.update(a as int, old(self)@[b as int]).update(
                b as int,
                old(self)@[a as int],
            ),
    {
        let columns = self.num_columns();
        let mut j: usize = 0;
        while j < columns
            invariant
                j <= columns,
                self.wf(),
                self.rows() == old(self).rows(),
                self.cols() == old(self).cols(),
                columns == self.cols(),
                a < self.rows(),
                b < self.rows(),
                a != b,
                forall|i: int| 0 <= i < self.rows() && i != a && i != b ==> self@[i] == old(
                    self,
                )@[i],
                forall|l: int| 0 <= l < j ==> self@[a as int][l] == old(self)@[b as int][l],
                forall|l: int| 0 <= l < j ==> self@[b as int][l] == old(self)@[a as int][l],
                forall|l: int|
                    j <= l < columns ==> self@[a as int][l] == old(self)@[a as int][l],
                forall|l: int|
                    j <= l < columns ==> self@[b as int][l] == old(self)@[b as int][l],
            decreases columns - j,
        {
            let value_a = self.get_value(a, j);
            let value_b = self.get_value(b, j);
            self.set_value(a, j, value_b);
            self.set_value(b, j, value_a);
            j = j + 1;
        }
        proof {
            let target = old(self)@.update(a as int, old(self)@[b as int]).update(
                b as int,
                old(self)@[a as int],
            );
            assert forall|i: int| 0 <= i < self.rows() implies self@[i] == target[i] by {
                if i == a {
                    assert(self@[i] =~= old(self)@[b as int]);
                } else if i == b {
                    assert(self@[i] =~= old(self)@[a as int]);
                }
            }
            assert(self@ =~= target);
        }
    }

    /// Scans for the next pivot: columns from `pc` upward, and within
    /// each column the rows from `pr` downward; the first nonzero cell
    /// in that order is returned.
    fn scan_pivot(&self, pr: usize, pc: usize) -> (res: Option<(usize, usize)>)
        requires
            self.wf(),
            pr < self.rows(),
            pc < self.cols(),
        ensures
            res is None ==> model::find_pivot(
                self@,
                pr as int,
                self.rows() as int,
                pc as int,
                self.cols() as int,
            ) is None,
            res matches Some(rc) ==> {
                &&& model::find_pivot(
                    self@,
                    pr as int,
                    self.rows() as int,
                    pc as int,
                    self.cols() as int,
                ) == Some((rc.0 as int, rc.1 as int))
                &&& pr <= rc.0 < self.rows()
                &&& pc <= rc.1 < self.cols()
            },
    {
        let rows = self.num_rows();
        let columns = self.num_columns();
        let mut col = pc;
        while col < columns
            invariant
                pc <= col <= columns,
                self.wf(),
                rows == self.rows(),
                columns == self.cols(),
                pr < rows,
                model::find_pivot(self@, pr as int, rows as int, pc as int, columns as int)
                    == model::find_pivot(self@, pr as int, rows as int, col as int, columns as int),
            decreases columns - col,
        {
            let mut row = pr;
            while row < rows
                invariant
                    pr <= row <= rows,
                    self.wf(),
                    rows == self.rows(),
                    columns == self.cols(),
                    pc <= col < columns,
                    model::find_pivot(self@, pr as int, rows as int, pc as int, columns as int)
                        == model::find_pivot(
                        self@,
                        pr as int,
                        rows as int,
                        col as int,
                        columns as int,
                    ),
                    model::find_in_column(self@, pr as int, rows as int, col as int)
                        == model::find_in_column(self@, row as int, rows as int, col as int),
                decreases rows - row,
            {
                if !self.get_value(row, col).eq_scalar(T::zero()) {
                    proof {
                        assert(model::find_in_column(self@, row as int, rows as int, col as int)
                            == Some(row as int));
                        assert(model::find_in_column(self@, pr as int, rows as int, col as int)
                            == Some(row as int));
                        assert(model::find_pivot(
                            self@,
                            pr as int,
                            rows as int,
                            col as int,
                            columns as int,
                        ) == Some((row as int, col as int)));
                    }
                    return Some((row, col));
                }
                row = row + 1;
            }
            proof {
                assert(model::find_in_column(self@, row as int, rows as int, col as int)
                    is None);
            }
            col = col + 1;
        }
        None
    }

    /// Calculates the reduced echelon form of this matrix together
    /// with its determinant; the determinant is a failure when the
    /// matrix is not square.
    pub fn reduced_echelon_and_det(&self) -> (r: (Self, Result<T, &'static str>))
        requires
            self.wf(),
        ensures
            r.0.wf(),
            r.0.rows() == self.rows(),
            r.0.cols() == self.cols(),
            r.0@ == model::rref_grid(self@, self.rows() as int, self.cols() as int),
            r.1 is Err <==> self.rows() != self.cols(),
            self.rows() == self.cols() ==> r.1 == Ok::<T, &'static str>(
                model::det_of(self@, self.rows() as int),
            ),
    {
        let rows = self.num_rows();
        let columns = self.num_columns();
        let mut op = self.partition(0, rows, 0, columns);
        proof {
            model::lemma_grid_ext(op@, self@, rows as int, columns as int);
        }
        let mut pr: usize = 0;
        let mut pc: usize = 0;
        let mut det: T = T::one();
        while pr < rows && pc < columns
            invariant_except_break
                self.wf(),
                op.wf(),
                rows == self.rows(),
                columns == self.cols(),
                op.rows() == rows,
                op.cols() == columns,
                pr <= rows,
                pc <= columns,
                model::gauss_jordan(op@, pr as int, pc as int, det, rows as int, columns as int)
                    == model::gauss_jordan(
                    self@,
                    0,
                    0,
                    T::s_one(),
                    rows as int,
                    columns as int,
                ),
            ensures
                op.wf(),
                op.rows() == rows,
                op.cols() == columns,
                (op@, det) == model::gauss_jordan(
                    self@,
                    0,
                    0,
                    T::s_one(),
                    rows as int,
                    columns as int,
                ),
            decreases rows - pr,
        {
            let found = op.scan_pivot(pr, pc);
            match found {
                None => {
                    proof {
                        assert(model::gauss_jordan(
                            op@,
                            pr as int,
                            pc as int,
                            det,
                            rows as int,
                            columns as int,
                        ) == (op@, det));
                    }
                    break;
                },
                Some(rc) => {
                    let (prow, pcol) = rc;
                    let ghost g0 = op@;
                    let ghost det0 = det;
                    let ghost pc0 = pc as int;
                    if prow != pr {
                        op.swap_rows(pr, prow);
                        det = det.mul(T::one().neg());
                    }
                    let ghost g1 = op@;
                    let ghost det1 = det;
                    let factor = op.get_value(pr, pcol);
                    let mut j: usize = pcol;
                    while j < columns
                        invariant
                            op.wf(),
                            op.rows() == rows,
                            op.cols() == columns,
                            pr < rows,
                            pcol <= j <= columns,
                            pcol < columns,
                            factor == g1[pr as int][pcol as int],
                            forall|l: int|
                                0 <= l < pcol ==> op@[pr as int][l] == g1[pr as int][l],
                            forall|l: int|
                                pcol <= l < j ==> op@[pr as int][l] == g1[pr as int][l].s_div(
                                    factor,
                                ),
                            forall|l: int|
                                j <= l < columns ==> op@[pr as int][l] == g1[pr as int][l],
                            forall|i: int| 0 <= i < rows && i != pr ==> op@[i] == g1[i],
                        decreases columns - j,
                    {
                        let value = op.get_value(pr, j).div(factor);
                        op.set_value(pr, j, value);
                        j = j + 1;
                    }
                    det = det.mul(factor);
                    let ghost det2 = det;
                    proof {
                        assert(op@[pr as int] =~= model::normalize_row(
                            g1[pr as int],
                            pcol as int,
                            factor,
                        ));
                        assert(op@ =~= g1.update(
                            pr as int,
                            model::normalize_row(g1[pr as int], pcol as int, factor),
                        ));
                    }
                    let ghost g2 = op@;
                    let mut row: usize = 0;
                    while row < rows
                        invariant
                            op.wf(),
                            op.rows() == rows,
                            op.cols() == columns,
                            pr < rows,
                            pcol < columns,
                            row <= rows,
                            op@[pr as int] == g2[pr as int],
                            forall|i: int| row <= i < rows ==> op@[i] == g2[i],
                            forall|i: int|
                                0 <= i < row ==> op@[i] == (if i != pr && !(#[trigger] g2[i][
                                    pcol as int]).s_eq(T::s_zero()) {
                                    model::subtract_scaled(
                                        g2[i],
                                        g2[pr as int],
                                        pcol as int,
                                        g2[i][pcol as int],
                                    )
                                } else {
                                    g2[i]
                                }),
                        decreases rows - row,
                    {
                        if row != pr {
                            let elim_factor = op.get_value(row, pcol);
                            if !elim_factor.eq_scalar(T::zero()) {
                                let ghost g_outer = op@;
                                let mut j2: usize = pcol;
                                while j2 < columns
                                    invariant
                                        op.wf(),
                                        op.rows() == rows,
                                        op.cols() == columns,
                                        pr < rows,
                                        row < rows,
                                        row != pr,
                                        pcol <= j2 <= columns,
                                        pcol < columns,
                                        elim_factor == g2[row as int][pcol as int],
                                        g_outer[row as int] == g2[row as int],
                                        g_outer[pr as int] == g2[pr as int],
                                        forall|i: int|
                                            0 <= i < rows && i != row ==> op@[i] == g_outer[i],
                                        forall|l: int|
                                            0 <= l < pcol ==> op@[row as int][l] == g2[row as int][
                                                l],
                                        forall|l: int|
                                            pcol <= l < j2 ==> op@[row as int][l] == g2[row as int][
                                                l].s_sub(
                                                g2[pr as int][l].s_mul(elim_factor),
                                            ),
                                        forall|l: int|
                                            j2 <= l < columns ==> op@[row as int][l] == g2[
                                                row as int][l],
                                    decreases columns - j2,
                                {
                                    let subtraction_factor = op.get_value(pr, j2).mul(elim_factor);
                                    let value = op.get_value(row, j2).sub(subtraction_factor);
                                    op.set_value(row, j2, value);
                                    j2 = j2 + 1;
                                }
                                proof {
                                    assert(op@[row as int] =~= model::subtract_scaled(
                                        g2[row as int],
                                        g2[pr as int],
                                        pcol as int,
                                        elim_factor,
                                    ));
                                }
                            }
                        }
                        row = row + 1;
                    }
                    proof {
                        assert(op@ =~= model::eliminate_column(g2, pr as int, pcol as int));
                        assert(model::gauss_jordan(
                            g0,
                            pr as int,
                            pc0,
                            det0,
                            rows as int,
                            columns as int,
                        ) == model::gauss_jordan(
                            op@,
                            pr as int + 1,
                            pcol as int + 1,
                            det2,
                            rows as int,
                            columns as int,
                        ));
                    }
                    pc = pcol;
                    pr = pr + 1;
                    pc = pc + 1;
                },
            }
        }
        let det_output: Result<T, &'static str>;
        if rows != columns {
            det_output = Err("The matrix was not square");
        } else {
            let mut has_zero = false;
            let mut i: usize = 0;
            while i < rows
                invariant
                    i <= rows,
                    op.wf(),
                    op.rows() == rows,
                    op.cols() == columns,
                    rows == columns,
                    has_zero <==> exists|k: int|
                        0 <= k < i && (#[trigger] op@[k][k]).s_eq(T::s_zero()),
                decreases rows - i,
            {
                if op.get_value(i, i).eq_scalar(T::zero()) {
                    has_zero = true;
                    proof {
                        assert((op@[i as int][i as int]).s_eq(T::s_zero()));
                    }
                }
                i = i + 1;
            }
            if has_zero {
                det = T::zero();
            }
            det_output = Ok(det);
        }
        (op, det_output)
    }

    /// Calculates and returns the reduced echelon form of this matrix.
    pub fn reduced_echelon_form(&self) -> (r: Self)
        requires
            self.wf(),
        ensures
            r.wf(),
            r.rows() == self.rows(),
            r.cols() == self.cols(),
            r@ == model::rref_grid(self@, self.rows() as int, self.cols() as int),
    {
        let reduced = self.reduced_echelon_and_det();
        reduced.0
    }

    /// Returns the indicated row of the matrix as an owned vector of
    /// its cells, in column order.
    pub fn row_values(&self, row: usize) -> (r: Vec<T>)
        requires
            self.wf(),
            row < self.rows(),
        ensures
            r@ == self@[row as int],
    {
        let columns = self.num_columns();
        let mut values: Vec<T> = Vec::new();
        let mut j: usize = 0;
        while j < columns
            invariant
                j <= columns,
                self.wf(),
                row < self.rows(),
                columns == self.cols(),
                values@.len() == j,
                forall|l: int| 0 <= l < j ==> values@[l] == self@[row as int][l],
            decreases columns - j,
        {
            values.push(self.get_value(row, j));
            j = j + 1;
        }
        proof {
            assert(values@ =~= self@[row as int]);
        }
        values
    }
}

impl<T: MatrixCompatible> Clone for Matrix<T> {
    /// Clones this matrix: the copy holds the same grid and shares no
    /// storage with the original, so mutating one never affects the
    /// other.
    fn clone(&self) -> (r: Self)
        ensures
            r@ == self@,
            r.rows() == self.rows(),
            r.cols() == self.cols(),
    {
        let row_count = self.grid.len();
        let mut grid: Vec<Vec<T>> = Vec::new();
        let mut i: usize = 0;
        while i < row_count
            invariant
                i <= row_count,
                row_count == self.grid@.len(),
                grid@.len() == i,
                forall|k: int| 0 <= k < i ==> (#[trigger] grid@[k])@ == self.grid@[k]@,
            decreases row_count - i,
        {
            let source_row = &self.grid[i];
            let cell_count = source_row.len();
            let mut row: Vec<T> = Vec::new();
            let mut j: usize = 0;
            while j < cell_count
                invariant
                    j <= cell_count,
                    cell_count == source_row@.len(),
                    row@.len() == j,
                    forall|l: int| 0 <= l < j ==> row@[l] == source_row@[l],
                decreases cell_count - j,
            {
                row.push(source_row[j]);
                j = j + 1;
            }
            proof {
                assert(row@ =~= source_row@);
            }
            grid.push(row);
            i = i + 1;
        }
        let r = Matrix { grid, rows: self.rows, columns: self.columns };
        proof {
            assert(r@ =~= self@);
        }
        r
    }
}

} // verus!
