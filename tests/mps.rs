use lpsolve::model::Problem;
use lpsolve::ConstraintType;

fn sample() -> Problem {
    let mut p = Problem::new(0, 2).unwrap();
    p.set_objective_function(&[0, 3, -2]).unwrap();
    p.add_constraint(&[0, 1, 1], 4, ConstraintType::Le).unwrap();
    p.add_constraint(&[0, 0, 12], -6, ConstraintType::Ge).unwrap();
    p.set_constraint_range(2, 5).unwrap();
    p.set_integer(2, true).unwrap();
    p.set_bounds(2, -3, 10).unwrap();
    p.set_unbounded(1).unwrap();
    p
}

#[test]
fn free_mps_text() {
    let expected = "NAME\nROWS\n N  R0\n L  R1\n G  R2\nCOLUMNS\n    C1 R0 3\n    C1 R1 1\n    \
MARKER 'MARKER' 'INTORG'\n    C2 R0 -2\n    C2 R1 1\n    C2 R2 12\n    MARKER 'MARKER' 'INTEND'\n\
RHS\n    RHS R1 4\n    RHS R2 -6\nRANGES\n    RGS R2 5\nBOUNDS\n FR BND C1\n LO BND C2 -3\n UP BND C2 10\nENDATA\n";
    assert_eq!(sample().write_freemps(), expected);
    assert_eq!(sample().write_mps(2), expected);
}

#[test]
fn fixed_mps_text() {
    let expected = "NAME\nROWS\n N  R0\n L  R1\n G  R2\nCOLUMNS\n    C1        R0        3\n    C1        R1        1\n    \
MARKER    'MARKER'  'INTORG'\n    C2        R0        -2\n    C2        R1        1\n    C2        R2        12\n    \
MARKER    'MARKER'  'INTEND'\nRHS\n    RHS       R1        4\n    RHS       R2        -6\nRANGES\n    RGS       R2        5\n\
BOUNDS\n FR BND       C1\n LO BND       C2        -3\n UP BND       C2        10\nENDATA\n";
    assert_eq!(sample().write_fixedmps(), expected);
    assert_eq!(sample().write_mps(1), expected);
}

#[test]
fn empty_model_mps_text() {
    let p = Problem::new(0, 0).unwrap();
    assert_eq!(p.write_freemps(), "NAME\nROWS\n N  R0\nCOLUMNS\nRHS\nRANGES\nBOUNDS\nENDATA\n");
}

#[test]
fn mps_numbers_use_every_digit() {
    let mut p = Problem::new(0, 0).unwrap();
    p.add_constraint(&[0], -9876543210, ConstraintType::Eq).unwrap();
    let text = p.write_freemps();
    assert!(text.contains(" E  R1\n"));
    assert!(text.contains("    RHS R1 -9876543210\n"));
}

#[test]
fn mps_numbers_at_the_extremes_of_i64() {
    let mut p = Problem::new(0, 1).unwrap();
    p.set_objective_function(&[0, i64::MIN]).unwrap();
    p.add_constraint(&[0, i64::MAX], 0, ConstraintType::Le).unwrap();
    let text = p.write_freemps();
    assert!(text.contains("    C1 R0 -9223372036854775808\n"));
    assert!(text.contains("    C1 R1 9223372036854775807\n"));
    assert!(!text.contains("RHS R1"));
}
