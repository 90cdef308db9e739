use lpsolve::model::{ModelError, Problem, DEFAULT_INFINITE};
use lpsolve::{BoundsMode, ConstraintType, VarType, Verbosity};

fn two_by_two() -> Problem {
    // maximise 3 x + 2 y  subject to  x + y <= 4,  x + 3 y >= 6
    let mut p = Problem::new(0, 2).unwrap();
    p.set_objective_function(&[0, 3, 2]).unwrap();
    p.add_constraint(&[0, 1, 1], 4, ConstraintType::Le).unwrap();
    p.add_constraint(&[0, 1, 3], 6, ConstraintType::Ge).unwrap();
    p.set_maxim();
    p
}

#[test]
fn new_model_has_requested_shape() {
    let p = Problem::new(3, 2).unwrap();
    assert_eq!(p.num_rows(), 3);
    assert_eq!(p.num_cols(), 2);
    assert_eq!(p.get_row(1), Some(vec![0, 0, 0]));
    assert_eq!(p.get_column(2), Some(vec![0, 0, 0, 0]));
    assert_eq!(p.get_constraint_type(1), Some(ConstraintType::Le));
    assert_eq!(p.get_constraint_type(0), None);
    assert_eq!(p.get_lowbo(1), 0);
    assert_eq!(p.get_upbo(1), DEFAULT_INFINITE);
    assert!(!p.is_maxim());
}

#[test]
fn new_model_refuses_unholdable_sizes() {
    assert!(Problem::new(usize::MAX - 1, 0).is_none());
    assert!(Problem::new(0, usize::MAX - 2).is_none());
}

#[test]
fn add_column_grows_by_one_and_keeps_earlier_columns() {
    let mut p = two_by_two();
    let before: Vec<Vec<i64>> = (0..=2).map(|c| p.get_column(c).unwrap()).collect();
    assert_eq!(p.add_column(&[5, 7, 9]), Ok(()));
    assert_eq!(p.num_cols(), 3);
    for c in 0..=2 {
        assert_eq!(p.get_column(c).unwrap(), before[c]);
    }
    assert_eq!(p.get_column(3), Some(vec![5, 7, 9]));
    assert_eq!(p.get_row(1), Some(vec![4, 1, 1, 7]));
}

#[test]
fn add_column_with_wrong_length_is_a_dimension_error() {
    let mut p = two_by_two();
    assert_eq!(p.add_column(&[1, 2]), Err(ModelError::DimensionError));
    assert_eq!(p.add_column(&[1, 2, 3, 4]), Err(ModelError::DimensionError));
    assert_eq!(p.num_cols(), 2);
}

#[test]
fn add_column_scatter_places_values_by_row() {
    let mut p = two_by_two();
    assert_eq!(p.add_column_scatter(&[8, 5], &[2, 0]), Ok(()));
    assert_eq!(p.get_column(3), Some(vec![5, 0, 8]));
    assert_eq!(p.add_column_scatter(&[1], &[3]), Err(ModelError::IndexOutOfRange));
    assert_eq!(p.add_column_scatter(&[1, 2], &[1]), Err(ModelError::DimensionError));
    assert_eq!(p.num_cols(), 3);
}

#[test]
fn add_constraint_puts_target_in_column_zero() {
    let p = two_by_two();
    assert_eq!(p.num_rows(), 2);
    assert_eq!(p.get_row(0), Some(vec![0, 3, 2]));
    assert_eq!(p.get_row(2), Some(vec![6, 1, 3]));
    assert_eq!(p.get_constraint_type(2), Some(ConstraintType::Ge));
    assert_eq!(p.get_mat(2, 2), 3);
}

#[test]
fn add_constraint_with_wrong_length_is_a_dimension_error() {
    let mut p = two_by_two();
    assert_eq!(p.add_constraint(&[0, 1], 1, ConstraintType::Eq), Err(ModelError::DimensionError));
    assert_eq!(p.num_rows(), 2);
}

#[test]
fn deleting_column_zero_or_row_zero_is_refused_and_changes_nothing() {
    let mut p = two_by_two();
    let text = p.write_freemps();
    assert_eq!(p.del_column(0), Err(ModelError::ReservedIndexError));
    assert_eq!(p.del_constraint(0), Err(ModelError::ReservedIndexError));
    assert_eq!(p.write_freemps(), text);
    assert_eq!(p.num_cols(), 2);
    assert_eq!(p.num_rows(), 2);
}

#[test]
fn deleting_a_column_shifts_later_columns_down() {
    let mut p = two_by_two();
    p.set_integer(2, true).unwrap();
    assert_eq!(p.del_column(1), Ok(()));
    assert_eq!(p.num_cols(), 1);
    assert_eq!(p.get_row(1), Some(vec![4, 1]));
    assert_eq!(p.get_row(2), Some(vec![6, 3]));
    assert_eq!(p.is_integer(1), Some(true));
    assert_eq!(p.del_column(2), Err(ModelError::IndexOutOfRange));
}

#[test]
fn deleting_a_row_shifts_later_rows_up() {
    let mut p = two_by_two();
    assert_eq!(p.del_constraint(1), Ok(()));
    assert_eq!(p.num_rows(), 1);
    assert_eq!(p.get_row(1), Some(vec![6, 1, 3]));
    assert_eq!(p.get_constraint_type(1), Some(ConstraintType::Ge));
    assert_eq!(p.del_constraint(2), Err(ModelError::IndexOutOfRange));
}

#[test]
fn bounds_are_clamped_to_the_infinite_threshold() {
    let mut p = two_by_two();
    p.set_infinite(100);
    assert_eq!(p.get_infinite(), 100);
    assert_eq!(p.set_bounds(1, -500, 500), Ok(()));
    assert_eq!((p.get_lowbo(1), p.get_upbo(1)), (-100, 100));
    assert_eq!(p.is_unbounded(1), Some(true));
    assert_eq!(p.set_bounds(1, -5, -1), Ok(()));
    assert_eq!(p.is_negative(1), Some(true));
    assert_eq!(p.is_unbounded(1), Some(false));
    assert_eq!(p.set_bounds(1, 3, 2), Err(ModelError::InvalidBounds));
    assert_eq!(p.set_bounds(0, 0, 1), Err(ModelError::IndexOutOfRange));
    assert_eq!(p.set_bounds(3, 0, 1), Err(ModelError::IndexOutOfRange));
    assert_eq!(p.is_negative(3), None);
}

#[test]
fn restrictive_mode_only_tightens() {
    let mut p = two_by_two();
    p.set_bounds(1, 2, 10).unwrap();
    p.set_bounds_mode(BoundsMode::Restrictive);
    assert_eq!(p.get_bounds_mode(), BoundsMode::Restrictive);
    assert_eq!(p.set_bounds(1, 0, 8), Ok(()));
    assert_eq!((p.get_lowbo(1), p.get_upbo(1)), (2, 8));
    assert_eq!(p.set_bounds(1, 9, 20), Err(ModelError::InvalidBounds));
    assert_eq!((p.get_lowbo(1), p.get_upbo(1)), (2, 8));
}

#[test]
fn unbounded_column_takes_both_thresholds() {
    let mut p = two_by_two();
    assert_eq!(p.set_unbounded(2), Ok(()));
    assert_eq!(p.get_lowbo(2), -DEFAULT_INFINITE);
    assert_eq!(p.get_upbo(2), DEFAULT_INFINITE);
    assert_eq!(p.is_unbounded(2), Some(true));
    assert_eq!(p.set_unbounded(0), Err(ModelError::IndexOutOfRange));
}

#[test]
fn binary_variables_are_integer_in_zero_one() {
    let mut p = two_by_two();
    assert_eq!(p.get_variable_type(1), Some(VarType::Float));
    assert_eq!(p.set_variable_type(1, VarType::Binary), Ok(()));
    assert_eq!(p.get_variable_type(1), Some(VarType::Binary));
    assert_eq!(p.is_integer(1), Some(true));
    assert_eq!((p.get_lowbo(1), p.get_upbo(1)), (0, 1));
    assert_eq!(p.set_variable_type(1, VarType::Float), Ok(()));
    assert_eq!(p.get_variable_type(1), Some(VarType::Float));
    assert_eq!(p.get_variable_type(5), None);
}

#[test]
fn constraint_types_and_ranges() {
    let mut p = two_by_two();
    assert_eq!(p.set_constraint_type(1, ConstraintType::Eq), Ok(()));
    assert_eq!(p.get_constraint_type(1), Some(ConstraintType::Eq));
    assert_eq!(p.set_constraint_type(0, ConstraintType::Eq), Err(ModelError::IndexOutOfRange));
    assert_eq!(p.get_constraint_range(1), None);
    assert_eq!(p.set_constraint_range(1, 3), Ok(()));
    assert_eq!(p.get_constraint_range(1), Some(3));
    assert_eq!(p.set_constraint_range(1, DEFAULT_INFINITE), Ok(()));
    assert_eq!(p.get_constraint_range(1), None);
    assert_eq!(p.set_constraint_range(3, 1), Err(ModelError::IndexOutOfRange));
}

#[test]
fn objective_scatter_writes_in_order() {
    let mut p = two_by_two();
    assert_eq!(p.scatter_objective_function(&[7, 9, 4], &[2, 1, 2]), Ok(()));
    assert_eq!(p.get_row(0), Some(vec![0, 9, 4]));
    assert_eq!(p.scatter_objective_function(&[1], &[0]), Err(ModelError::IndexOutOfRange));
    assert_eq!(p.scatter_objective_function(&[1], &[]), Err(ModelError::DimensionError));
    assert_eq!(p.set_objective_function(&[1]), Err(ModelError::DimensionError));
}

#[test]
fn resize_cuts_rows_and_columns() {
    let mut p = two_by_two();
    p.resize(1, 5);
    assert_eq!((p.num_rows(), p.num_cols()), (1, 2));
    p.resize(5, 1);
    assert_eq!((p.num_rows(), p.num_cols()), (1, 1));
    assert_eq!(p.get_row(1), Some(vec![4, 1]));
}

#[test]
fn direction_and_verbosity() {
    let mut p = two_by_two();
    assert!(p.is_maxim());
    p.set_minim();
    assert!(!p.is_maxim());
    p.set_verbose(Verbosity::Full);
    assert_eq!(p.get_verbose(), Verbosity::Full);
}

#[test]
fn clone_is_independent() {
    let p = two_by_two();
    let mut q = p.clone();
    q.add_column(&[1, 1, 1]).unwrap();
    assert_eq!(p.num_cols(), 2);
    assert_eq!(q.num_cols(), 3);
}
