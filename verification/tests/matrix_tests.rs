use rust_matrix::matrix::Matrix;
use rust_matrix::rational::Rational;
use rust_matrix::scalar::MatrixCompatible;

fn q(num: i64, den: i64) -> Rational {
    Rational::new(num, den)
}

fn qi(value: i64) -> Rational {
    Rational::from_int(value)
}

fn mat(values: &[i64], rows: usize, columns: usize) -> Matrix<Rational> {
    let list: Vec<Rational> = values.iter().map(|&v| Rational::from_int(v)).collect();
    Matrix::matrix_from_list(&list, rows, columns)
}

fn assert_same(a: &Matrix<Rational>, b: &Matrix<Rational>) {
    assert!(a.equals(b, qi(0)));
}

fn assert_vec_is(actual: &Vec<Rational>, expected: &[i64]) {
    assert_eq!(actual.len(), expected.len());
    for (value, &want) in actual.iter().zip(expected.iter()) {
        assert!(value.eq_scalar(qi(want)));
    }
}

#[test]
fn zero_matrix_has_zero_cells() {
    let m: Matrix<Rational> = Matrix::new(2, 3);
    for i in 0..2 {
        for j in 0..3 {
            assert!(m.get_value(i, j).eq_scalar(qi(0)));
        }
    }
}

#[test]
fn square_matrix_is_square_and_zero() {
    let m: Matrix<Rational> = Matrix::square_matrix(2);
    assert_same(&m, &mat(&[0, 0, 0, 0], 2, 2));
}

#[test]
fn identity_matrix_cells() {
    let m: Matrix<Rational> = Matrix::identity_matrix(3);
    for i in 0..3 {
        for j in 0..3 {
            let want = if i == j { 1 } else { 0 };
            assert!(m.get_value(i, j).eq_scalar(qi(want)));
        }
    }
}

#[test]
fn from_vector_copies_rows() {
    let rows = vec![vec![qi(1), qi(2)], vec![qi(3), qi(4)]];
    let m = Matrix::from_vector(&rows);
    assert_same(&m, &mat(&[1, 2, 3, 4], 2, 2));
}

#[test]
fn matrix_from_list_is_row_major() {
    let m = mat(&[1, 2, 3, 4, 5, 6], 2, 3);
    assert!(m.get_value(0, 0).eq_scalar(qi(1)));
    assert!(m.get_value(0, 2).eq_scalar(qi(3)));
    assert!(m.get_value(1, 0).eq_scalar(qi(4)));
    assert!(m.get_value(1, 2).eq_scalar(qi(6)));
}

#[test]
fn square_matrix_from_list_uses_square_root() {
    let list = vec![qi(1), qi(2), qi(3), qi(4)];
    let m = Matrix::square_matrix_from_list(&list);
    assert_same(&m, &mat(&[1, 2, 3, 4], 2, 2));
}

#[test]
fn flat_list_of_wrong_length_is_a_shape_failure() {
    let list = vec![qi(1), qi(2), qi(3), qi(4), qi(5)];
    let built = Matrix::try_matrix_from_list(&list, 2, 3);
    assert!(built.is_err());
}

#[test]
fn flat_list_of_matching_length_builds() {
    let list = vec![qi(1), qi(2), qi(3), qi(4), qi(5), qi(6)];
    let built = Matrix::try_matrix_from_list(&list, 2, 3);
    assert!(built.is_ok());
    assert_same(&built.unwrap(), &mat(&[1, 2, 3, 4, 5, 6], 2, 3));
}

#[test]
fn set_value_and_get_value_round_trip() {
    let mut m: Matrix<Rational> = Matrix::new(2, 2);
    m.set_value(0, 1, q(7, 2));
    assert!(m.get_value(0, 1).eq_scalar(q(7, 2)));
    assert!(m.get_value(1, 1).eq_scalar(qi(0)));
}

#[test]
fn row_values_returns_the_row() {
    let m = mat(&[1, 2, 3, 4, 5, 6], 2, 3);
    let row = m.row_values(1);
    assert_vec_is(&row, &[4, 5, 6]);
}

#[test]
fn clone_is_an_independent_deep_copy() {
    let original = mat(&[1, 2, 3, 4], 2, 2);
    let mut copy = original.clone();
    assert_same(&original, &copy);
    copy.set_value(0, 0, qi(9));
    assert!(original.get_value(0, 0).eq_scalar(qi(1)));
    assert!(copy.get_value(0, 0).eq_scalar(qi(9)));
}

#[test]
fn partition_extracts_the_sub_rectangle() {
    let m = mat(&[1, 2, 3, 4, 5, 6, 7, 8, 9], 3, 3);
    let block = m.partition(1, 3, 0, 2);
    assert_same(&block, &mat(&[4, 5, 7, 8], 2, 2));
}

#[test]
fn partition_of_the_whole_matrix_is_the_matrix() {
    let m = mat(&[1, 2, 3, 4, 5, 6], 2, 3);
    assert_same(&m.partition(0, 2, 0, 3), &m);
}

#[test]
fn combine_places_the_right_matrix_on_the_right() {
    let left = mat(&[1, 2, 3, 4], 2, 2);
    let right = mat(&[5, 6], 2, 1);
    assert_same(&left.combine(&right), &mat(&[1, 2, 5, 3, 4, 6], 2, 3));
}

#[test]
fn add_is_cellwise() {
    let a = mat(&[1, 2, 3, 4], 2, 2);
    let b = mat(&[10, 20, 30, 40], 2, 2);
    assert_same(&a.add(&b), &mat(&[11, 22, 33, 44], 2, 2));
}

#[test]
fn subtract_is_cellwise() {
    let a = mat(&[11, 22, 33, 44], 2, 2);
    let b = mat(&[1, 2, 3, 4], 2, 2);
    assert_same(&a.subtract(&b), &mat(&[10, 20, 30, 40], 2, 2));
}

#[test]
fn scale_multiplies_every_cell() {
    let a = mat(&[1, 2, 3, 4], 2, 2);
    assert_same(&a.scale(qi(3)), &mat(&[3, 6, 9, 12], 2, 2));
}

#[test]
fn multiply_exact_product() {
    let a = mat(&[1, 2, 3, 4], 2, 2);
    let b = mat(&[5, 6, 7, 8], 2, 2);
    assert_same(&a.multiply(&b), &mat(&[19, 22, 43, 50], 2, 2));
}

#[test]
fn multiply_rectangular_shapes() {
    let a = mat(&[1, 2, 3, 4, 5, 6], 2, 3);
    let b = mat(&[7, 8, 9, 10, 11, 12], 3, 2);
    assert_same(&a.multiply(&b), &mat(&[58, 64, 139, 154], 2, 2));
}

#[test]
fn identity_times_identity_is_identity() {
    let identity: Matrix<Rational> = Matrix::identity_matrix(3);
    let product = identity.multiply(&identity);
    assert_same(&product, &Matrix::identity_matrix(3));
}

#[test]
fn transpose_swaps_rows_and_columns() {
    let a = mat(&[1, 2, 3, 4, 5, 6], 2, 3);
    let t = a.transpose();
    assert_same(&t, &mat(&[1, 4, 2, 5, 3, 6], 3, 2));
}

#[test]
fn transpose_twice_is_the_original() {
    let a = mat(&[1, 2, 3, 4, 5, 6, 7, 8], 2, 4);
    assert_same(&a.transpose().transpose(), &a);
}

#[test]
fn reduced_echelon_form_of_invertible_matrix_is_identity() {
    let a = mat(&[1, 2, 3, 4], 2, 2);
    assert_same(&a.reduced_echelon_form(), &Matrix::identity_matrix(2));
}

#[test]
fn reduced_echelon_form_exact_values() {
    let a = mat(&[1, 2, 3, 2, 4, 6], 2, 3);
    let reduced = a.reduced_echelon_form();
    assert_same(&reduced, &mat(&[1, 2, 3, 0, 0, 0], 2, 3));
}

#[test]
fn reduced_echelon_form_is_idempotent() {
    let a = mat(&[1, 2, 3, 4, 5, 6, 7, 8, 9], 3, 3);
    let once = a.reduced_echelon_form();
    let twice = once.reduced_echelon_form();
    assert_same(&once, &twice);
}

#[test]
fn reduced_echelon_form_is_idempotent_on_wide_matrix() {
    let a = mat(&[0, 1, 2, 0, 2, 4], 2, 3);
    let once = a.reduced_echelon_form();
    let twice = once.reduced_echelon_form();
    assert_same(&once, &twice);
}

#[test]
fn zero_matrix_reduces_to_itself_with_zero_determinant() {
    let a = mat(&[0, 0, 0, 0], 2, 2);
    let reduced = a.reduced_echelon_and_det();
    assert_same(&reduced.0, &mat(&[0, 0, 0, 0], 2, 2));
    assert!(reduced.1.unwrap().eq_scalar(qi(0)));
}

#[test]
fn determinant_of_non_square_matrix_is_a_failure() {
    let a = mat(&[1, 2, 3, 4, 5, 6], 2, 3);
    let reduced = a.reduced_echelon_and_det();
    assert!(reduced.1.is_err());
}

#[test]
fn determinant_of_doubled_identity() {
    let a = mat(&[2, 0, 0, 2], 2, 2);
    assert!(a.determinant().eq_scalar(qi(4)));
}

#[test]
fn determinant_exact_three_by_three() {
    let a = mat(&[1, 2, 3, 4, 5, 6, 7, 8, 10], 3, 3);
    assert!(a.determinant().eq_scalar(qi(-3)));
}

#[test]
fn determinant_flips_sign_under_a_row_swap() {
    let a = mat(&[1, 2, 3, 4], 2, 2);
    let swapped = mat(&[3, 4, 1, 2], 2, 2);
    let d = a.determinant();
    let d_swapped = swapped.determinant();
    assert!(d.eq_scalar(qi(-2)));
    assert!(d_swapped.eq_scalar(qi(2)));
    assert!(d_swapped.eq_scalar(d.neg()));
}

#[test]
fn determinant_scales_linearly_with_a_row_scaling() {
    let a = mat(&[1, 2, 3, 4], 2, 2);
    let scaled_row = mat(&[5, 10, 3, 4], 2, 2);
    assert!(a.determinant().eq_scalar(qi(-2)));
    assert!(scaled_row.determinant().eq_scalar(qi(-10)));
    assert!(scaled_row.determinant().eq_scalar(qi(5).mul(a.determinant())));
}

#[test]
fn determinant_negated_by_the_swap_inside_elimination() {
    let a = mat(&[0, 1, 1, 0], 2, 2);
    assert!(a.determinant().eq_scalar(qi(-1)));
}

#[test]
fn elimination_skips_zero_columns() {
    let a = mat(&[0, 0, 2, 0, 0, 4], 2, 3);
    let reduced = a.reduced_echelon_form();
    assert_same(&reduced, &mat(&[0, 0, 1, 0, 0, 0], 2, 3));
}

#[test]
fn inverse_with_fractional_cells() {
    let a = mat(&[1, 2, 3, 4], 2, 2);
    let inverse = a.inverse().unwrap();
    assert!(inverse.get_value(0, 0).eq_scalar(qi(-2)));
    assert!(inverse.get_value(0, 1).eq_scalar(qi(1)));
    assert!(inverse.get_value(1, 0).eq_scalar(q(3, 2)));
    assert!(inverse.get_value(1, 1).eq_scalar(q(-1, 2)));
}

#[test]
fn inverse_of_doubled_identity_is_halved_identity() {
    let a = mat(&[2, 0, 0, 2], 2, 2);
    let inverse = a.inverse().unwrap();
    assert!(inverse.get_value(0, 0).eq_scalar(q(1, 2)));
    assert!(inverse.get_value(0, 1).eq_scalar(qi(0)));
    assert!(inverse.get_value(1, 0).eq_scalar(qi(0)));
    assert!(inverse.get_value(1, 1).eq_scalar(q(1, 2)));
}

#[test]
fn inverse_times_original_is_identity() {
    let a = mat(&[2, 1, 1, 1], 2, 2);
    let inverse = a.inverse().unwrap();
    let identity: Matrix<Rational> = Matrix::identity_matrix(2);
    assert!(a.multiply(&inverse).equals(&identity, qi(0)));
    assert!(inverse.multiply(&a).equals(&identity, qi(0)));
}

#[test]
fn inverse_three_by_three_round_trip() {
    let a = mat(&[1, 2, 3, 4, 5, 6, 7, 8, 10], 3, 3);
    let inverse = a.inverse().unwrap();
    let identity: Matrix<Rational> = Matrix::identity_matrix(3);
    assert!(a.multiply(&inverse).equals(&identity, qi(0)));
    assert!(inverse.multiply(&a).equals(&identity, qi(0)));
}

#[test]
fn singular_matrix_has_no_inverse() {
    let a = mat(&[1, 2, 2, 4], 2, 2);
    assert!(a.determinant().eq_scalar(qi(0)));
    assert!(a.inverse().is_err());
}

#[test]
fn solve_exact_two_by_two() {
    let a = mat(&[1, 1, 0, 1], 2, 2);
    let b = vec![qi(3), qi(1)];
    let x = a.solve(b).unwrap();
    assert_vec_is(&x, &[2, 1]);
}

#[test]
fn solve_solution_satisfies_the_system() {
    let a = mat(&[2, 1, 1, 3], 2, 2);
    let b = vec![qi(5), qi(10)];
    let x = a.solve(b).unwrap();
    let x_column = Matrix::matrix_from_list(&x, 2, 1);
    let product = a.multiply(&x_column);
    assert!(product.get_value(0, 0).eq_scalar(qi(5)));
    assert!(product.get_value(1, 0).eq_scalar(qi(10)));
}

#[test]
fn solve_gives_free_variables_the_value_zero() {
    let a = mat(&[1, 1], 1, 2);
    let b = vec![qi(5)];
    let x = a.solve(b).unwrap();
    assert_vec_is(&x, &[5, 0]);
}

#[test]
fn inconsistent_system_is_a_failure() {
    let a = mat(&[1, 1, 1, 1], 2, 2);
    let b = vec![qi(1), qi(2)];
    assert!(a.solve(b).is_err());
}

#[test]
fn least_squares_of_overdetermined_system() {
    let a = mat(&[1, 1], 2, 1);
    let b = vec![qi(1), qi(3)];
    let x = a.least_squares_solution(b).unwrap();
    assert_vec_is(&x, &[2]);
}

#[test]
fn least_squares_matches_solve_on_a_consistent_square_system() {
    let a = mat(&[1, 1, 0, 1], 2, 2);
    let x = a.least_squares_solution(vec![qi(3), qi(1)]).unwrap();
    assert_vec_is(&x, &[2, 1]);
}

#[test]
fn equals_rejects_shape_mismatch() {
    let a = mat(&[1, 2], 1, 2);
    let b = mat(&[1, 2], 2, 1);
    assert!(!a.equals(&b, qi(0)));
}

#[test]
fn equals_with_zero_delta_is_exact_equality() {
    let a = mat(&[1, 2, 3, 4], 2, 2);
    let b = mat(&[1, 2, 3, 4], 2, 2);
    let c = mat(&[1, 2, 3, 5], 2, 2);
    assert!(a.equals(&b, qi(0)));
    assert!(!a.equals(&c, qi(0)));
}

#[test]
fn equals_with_zero_delta_sees_equal_values_not_pairs() {
    let mut a: Matrix<Rational> = Matrix::new(1, 1);
    a.set_value(0, 0, q(1, 2));
    let mut b: Matrix<Rational> = Matrix::new(1, 1);
    b.set_value(0, 0, q(2, 4));
    assert!(a.equals(&b, qi(0)));
}

#[test]
fn equals_within_a_dominating_delta() {
    let a = mat(&[1, 5], 1, 2);
    let b = mat(&[2, 3], 1, 2);
    assert!(a.equals(&b, qi(2)));
    assert!(!a.equals(&b, qi(1)));
    assert!(a.equals(&b, q(5, 2)));
}

#[test]
fn equals_boundary_delta_is_accepted() {
    let a = mat(&[1], 1, 1);
    let b = mat(&[2], 1, 1);
    assert!(a.equals(&b, qi(1)));
    assert!(!a.equals(&b, q(1, 2)));
}

#[test]
fn rational_arithmetic_exact_values() {
    let half = q(1, 2);
    let third = q(1, 3);
    assert!(half.add(third).eq_scalar(q(5, 6)));
    assert!(half.sub(third).eq_scalar(q(1, 6)));
    assert!(half.mul(third).eq_scalar(q(1, 6)));
    assert!(half.div(third).eq_scalar(q(3, 2)));
    assert!(half.neg().eq_scalar(q(-1, 2)));
    assert!(half.abs_diff(third).eq_scalar(q(1, 6)));
    assert!(third.abs_diff(half).eq_scalar(q(1, 6)));
    assert!(half.is_positive());
    assert!(!half.neg().is_positive());
    assert!(!Rational::zero().is_positive());
    assert!(Rational::one().eq_scalar(qi(1)));
}
