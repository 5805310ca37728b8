//! The derived solvers: determinant, inverse, linear-system solving,
//! and the least-squares solver built on the normal equations.  Each
//! one assembles an augmented matrix, reduces it with the elimination
//! engine, and interprets the reduced result.

use crate::matrix::Matrix;
use crate::model;
use crate::scalar::MatrixCompatible;
use vstd::prelude::*;

verus! {

impl<T: MatrixCompatible> Matrix<T> {
    /// Calculates and returns the determinant of this square matrix.
    pub fn determinant(&self) -> (r: T)
        requires
            self.wf(),
            self.rows() == self.cols(),
        ensures
            r == model::det_of(self@, self.rows() as int),
    {
        let reduced = self.reduced_echelon_and_det();
        match reduced.1 {
            Ok(d) => d,
            Err(_) => {
                proof {
                    assert(false);
                }
                T::zero()
            },
        }
    }

    /// Calculates and returns the inverse of this square matrix: the
    /// matrix is augmented with the identity, reduced, and the left
    /// block of the result is compared with the identity; when they
    /// agree exactly, the right block is the inverse, and otherwise
    /// the matrix is not invertible.
    pub fn inverse(&self) -> (r: Result<Self, &'static str>)
        requires
            self.wf(),
            self.rows() == self.cols(),
            self.cols() + self.cols() <= usize::MAX,
        ensures
            ({
                let n = self.rows() as int;
                let reduced = model::rref_grid(
                    model::augment_grid(self@, model::identity_grid::<T>(n), n, n, n),
                    n,
                    2 * n,
                );
                &&& (r is Ok <==> model::cells_within(
                    model::sub_grid(reduced, 0, n, 0, n),
                    model::identity_grid::<T>(n),
                    n,
                    n,
                    T::s_zero(),
                ))
                &&& (r matches Ok(inv) ==> {
                    &&& inv.wf()
                    &&& inv.rows() == self.rows()
                    &&& inv.cols() == self.cols()
                    &&& inv@ == model::sub_grid(reduced, 0, n, n, 2 * n)
                })
            }),
    {
        let n = self.num_rows();
        let identity = Self::identity_matrix(n);
        let combined = self.combine(&identity);
        let reduced_matrix = combined.reduced_echelon_form();
        let left_block = reduced_matrix.partition(0, n, 0, n);
        if !left_block.equals(&identity, T::zero()) {
            return Err("Matrix is not invertible");
        }
        let inverse_matrix = reduced_matrix.partition(0, n, n, n + n);
        Ok(inverse_matrix)
    }

    /// Whether the reduced augmented grid held by this matrix states
    /// `0 = c` with `c` nonzero in some row: the last column's cell is
    /// nonzero while every cell of the coefficient part is zero.
    fn has_inconsistency(&self) -> (r: bool)
        requires
            self.wf(),
        ensures
            r == model::has_inconsistent_row(
                self@,
                self.rows() as int,
                self.cols() as int - 1,
            ),
    {
        let rows = self.num_rows();
        let last_column_index = self.num_columns() - 1;
        let mut row_index: usize = 0;
        while row_index < rows
            invariant
                row_index <= rows,
                self.wf(),
                rows == self.rows(),
                last_column_index == self.cols() - 1,
                forall|k: int|
                    0 <= k < row_index ==> !model::inconsistent_row(
                        self@,
                        k,
                        last_column_index as int,
                    ),
            decreases rows - row_index,
        {
            if !self.get_value(row_index, last_column_index).eq_scalar(T::zero()) {
                let mut check_passed = false;
                let mut column_index: usize = 0;
                while column_index < last_column_index
                    invariant
                        column_index <= last_column_index,
                        self.wf(),
                        rows == self.rows(),
                        last_column_index == self.cols() - 1,
                        row_index < rows,
                        !check_passed ==> forall|l: int|
                            0 <= l < column_index ==> (#[trigger] self@[row_index as int][l]).s_eq(
                                T::s_zero(),
                            ),
                        check_passed ==> !model::inconsistent_row(
                            self@,
                            row_index as int,
                            last_column_index as int,
                        ),
                    decreases last_column_index - column_index,
                {
                    if !self.get_value(row_index, column_index).eq_scalar(T::zero()) {
                        check_passed = true;
                    }
                    column_index = column_index + 1;
                }
                if !check_passed {
                    proof {
                        assert(model::inconsistent_row(
                            self@,
                            row_index as int,
                            last_column_index as int,
                        ));
                    }
                    return true;
                }
            }
            row_index = row_index + 1;
        }
        false
    }

    /// Reads the solution vector off a reduced augmented matrix: the
    /// columns of the coefficient part are walked left to right with a
    /// separate row cursor; a column whose cell at the cursor equals
    /// one contributes that row's augmented-column value and advances
    /// the cursor, and any other column is free and contributes zero.
    /// A cursor past the last row reads no cell, so the remaining
    /// columns are all free.
    fn get_x_vector(solved_matrix: Matrix<T>) -> (r: Vec<T>)
        requires
            solved_matrix.wf(),
        ensures
            r@ == model::extract_solution(
                solved_matrix@,
                solved_matrix.rows() as int,
                solved_matrix.cols() as int - 1,
            ),
    {
        let rows = solved_matrix.num_rows();
        let last_column_index = solved_matrix.num_columns() - 1;
        let mut x_vector: Vec<T> = Vec::new();
        let mut current_row_index: usize = 0;
        let mut column_index: usize = 0;
        while column_index < last_column_index
            invariant
                column_index <= last_column_index,
                current_row_index <= rows,
                solved_matrix.wf(),
                rows == solved_matrix.rows(),
                last_column_index == solved_matrix.cols() - 1,
                model::extract_solution(
                    solved_matrix@,
                    rows as int,
                    last_column_index as int,
                ) == x_vector@ + model::extract_from(
                    solved_matrix@,
                    rows as int,
                    last_column_index as int,
                    column_index as int,
                    current_row_index as int,
                ),
            decreases last_column_index - column_index,
        {
            let ghost g = solved_matrix@;
            let ghost ri = rows as int;
            let ghost li = last_column_index as int;
            let ghost ci = column_index as int;
            let ghost cu = current_row_index as int;
            let ghost prev = x_vector@;
            let ghost rest = model::extract_from(g, ri, li, ci, cu);
            if current_row_index < rows && solved_matrix.get_value(
                current_row_index,
                column_index,
            ).eq_scalar(T::one()) {
                let value = solved_matrix.get_value(current_row_index, last_column_index);
                x_vector.push(value);
                current_row_index = current_row_index + 1;
                proof {
                    let tail = model::extract_from(g, ri, li, ci + 1, cu + 1);
                    assert(rest == seq![value] + tail);
                    assert(x_vector@ =~= prev + seq![value]);
                    assert((prev + seq![value]) + tail =~= prev + (seq![value] + tail));
                }
            } else {
                x_vector.push(T::zero());
                proof {
                    let tail = model::extract_from(g, ri, li, ci + 1, cu);
                    assert(rest == seq![T::s_zero()] + tail);
                    assert(x_vector@ =~= prev + seq![T::s_zero()]);
                    assert((prev + seq![T::s_zero()]) + tail =~= prev + (seq![T::s_zero()]
                        + tail));
                }
            }
            column_index = column_index + 1;
        }
        x_vector
    }

    /// Returns a solution to `self * x = b`, or a failure when the
    /// system is inconsistent: the matrix is augmented with `b` as a
    /// column, reduced, checked for a row of the form `0 = c` with `c`
    /// nonzero, and the solution is read off the reduced grid.
    pub fn solve(&self, b: Vec<T>) -> (r: Result<Vec<T>, &'static str>)
        requires
            self.wf(),
            b@.len() == self.rows(),
            self.cols() + 1 <= usize::MAX,
        ensures
            ({
                let rows = self.rows() as int;
                let cm = self.cols() as int;
                let reduced = model::rref_grid(
                    model::augment_grid(self@, model::column_grid(b@), rows, cm, 1),
                    rows,
                    cm + 1,
                );
                &&& (r is Err <==> model::has_inconsistent_row(reduced, rows, cm))
                &&& (r matches Ok(x) ==> x@ == model::extract_solution(reduced, rows, cm))
            }),
    {
        let b_matrix = Self::matrix_from_list(&b, b.len(), 1);
        proof {
            model::lemma_grid_ext(
                b_matrix@,
                model::column_grid(b@),
                self.rows() as int,
                1,
            );
        }
        let solved_matrix = self.combine(&b_matrix).reduced_echelon_form();
        if solved_matrix.has_inconsistency() {
            return Err("The system was inconsistent and there is no solution for b.");
        }
        Ok(Self::get_x_vector(solved_matrix))
    }

    /// Returns a least-squares solution of `self * x = b` by the
    /// normal equations: the system `(A^T A) x = A^T b` is assembled
    /// with the transpose and the matrix product and handed to the
    /// same augment / reduce / consistency-check / extract pipeline as
    /// [`Matrix::solve`].  An inconsistency there signals an
    /// arithmetic anomaly of the scalar domain rather than a missing
    /// minimiser.
    pub fn least_squares_solution(&self, b: Vec<T>) -> (r: Result<Vec<T>, &'static str>)
        requires
            self.wf(),
            b@.len() == self.rows(),
            self.cols() + 1 <= usize::MAX,
        ensures
            ({
                let rows = self.rows() as int;
                let cm = self.cols() as int;
                let a_t = model::transpose_grid(self@, rows, cm);
                let ata = model::product_grid(a_t, self@, cm, rows, cm);
                let atb = model::product_grid(a_t, model::column_grid(b@), cm, rows, 1);
                let reduced = model::rref_grid(
                    model::augment_grid(ata, atb, cm, cm, 1),
                    cm,
                    cm + 1,
                );
                &&& (r is Err <==> model::has_inconsistent_row(reduced, cm, cm))
                &&& (r matches Ok(x) ==> x@ == model::extract_solution(reduced, cm, cm))
            }),
    {
        let b_matrix = Self::matrix_from_list(&b, b.len(), 1);
        proof {
            model::lemma_grid_ext(
                b_matrix@,
                model::column_grid(b@),
                self.rows() as int,
                1,
            );
        }
        let a_transpose = self.transpose();
        let a_transpose_a_matrix = a_transpose.multiply(self);
        let a_transpose_b_matrix = a_transpose.multiply(&b_matrix);
        let solved_matrix = a_transpose_a_matrix.combine(
            &a_transpose_b_matrix,
        ).reduced_echelon_form();
        if solved_matrix.has_inconsistency() {
            return Err(
                "The system was inconsistent and there is no solution for b. (In this case, these means an arithmetic problem, probably due to floating point inaccuracy).",
            );
        }
        Ok(Self::get_x_vector(solved_matrix))
    }
}

} // verus!
