use rule_engine::{Constraint, Status};

#[test]
fn string_equals_is_exact() {
    let c = Constraint::StringEquals("x".to_string());
    assert_eq!(c.check("x"), Status::Met);
    assert_eq!(c.check("y"), Status::NotMet);
    assert_eq!(c.check("X"), Status::NotMet);
    assert_eq!(c.check(" x"), Status::NotMet);
    assert_eq!(c.check("x "), Status::NotMet);
    assert_eq!(c.check(""), Status::NotMet);
}

#[test]
fn string_equals_empty_expectation() {
    let c = Constraint::StringEquals(String::new());
    assert_eq!(c.check(""), Status::Met);
    assert_eq!(c.check("a"), Status::NotMet);
}

#[test]
fn int_equals_parses_then_compares() {
    let c = Constraint::IntEquals(5);
    assert_eq!(c.check("5"), Status::Met);
    assert_eq!(c.check("abc"), Status::NotMet);
    assert_eq!(c.check("6"), Status::NotMet);
}

#[test]
fn int_equals_accepts_sign_and_leading_zeros() {
    let c = Constraint::IntEquals(5);
    assert_eq!(c.check("+5"), Status::Met);
    assert_eq!(c.check("005"), Status::Met);
    assert_eq!(c.check("-5"), Status::NotMet);
    let neg = Constraint::IntEquals(-12);
    assert_eq!(neg.check("-12"), Status::Met);
    assert_eq!(neg.check("12"), Status::NotMet);
    let zero = Constraint::IntEquals(0);
    assert_eq!(zero.check("-0"), Status::Met);
    assert_eq!(zero.check("+0"), Status::Met);
}

#[test]
fn int_equals_rejects_what_is_no_integer() {
    let c = Constraint::IntEquals(5);
    assert_eq!(c.check(""), Status::NotMet);
    assert_eq!(c.check("+"), Status::NotMet);
    assert_eq!(c.check("-"), Status::NotMet);
    assert_eq!(c.check(" 5"), Status::NotMet);
    assert_eq!(c.check("5 "), Status::NotMet);
    assert_eq!(c.check("5.0"), Status::NotMet);
    assert_eq!(c.check("1_0"), Status::NotMet);
    assert_eq!(c.check("++5"), Status::NotMet);
    assert_eq!(c.check("0x5"), Status::NotMet);
}

#[test]
fn int_constraints_fail_on_numbers_that_do_not_fit() {
    let too_big = "999999999999999999999999999999999999999999";
    assert_eq!(Constraint::IntEquals(isize::MAX).check(too_big), Status::NotMet);
    assert_eq!(
        Constraint::IntRange(isize::MIN, isize::MAX).check(too_big),
        Status::NotMet
    );
    assert_eq!(
        Constraint::IntRange(isize::MIN, isize::MAX).check("-999999999999999999999999999999999999999999"),
        Status::NotMet
    );
}

#[test]
fn int_constraints_reach_both_ends_of_isize() {
    let max = format!("{}", isize::MAX);
    let min = format!("{}", isize::MIN);
    assert_eq!(Constraint::IntEquals(isize::MAX).check(&max), Status::Met);
    assert_eq!(Constraint::IntEquals(isize::MIN).check(&min), Status::Met);
    assert_eq!(Constraint::IntRange(isize::MIN, isize::MAX).check(&min), Status::Met);
}

#[test]
fn int_range_includes_both_ends() {
    let c = Constraint::IntRange(1, 10);
    assert_eq!(c.check("1"), Status::Met);
    assert_eq!(c.check("10"), Status::Met);
    assert_eq!(c.check("5"), Status::Met);
    assert_eq!(c.check("11"), Status::NotMet);
    assert_eq!(c.check("0"), Status::NotMet);
    assert_eq!(c.check("ten"), Status::NotMet);
}

#[test]
fn int_range_that_is_empty_meets_nothing() {
    let c = Constraint::IntRange(10, 1);
    assert_eq!(c.check("1"), Status::NotMet);
    assert_eq!(c.check("5"), Status::NotMet);
    assert_eq!(c.check("10"), Status::NotMet);
}

#[test]
fn boolean_reads_true_in_any_case() {
    let c = Constraint::Boolean(true);
    assert_eq!(c.check("TRUE"), Status::Met);
    assert_eq!(c.check("true"), Status::Met);
    assert_eq!(c.check("True"), Status::Met);
    assert_eq!(c.check("tRuE"), Status::Met);
    assert_eq!(c.check("nonsense"), Status::NotMet);
    assert_eq!(c.check("false"), Status::NotMet);
    assert_eq!(c.check(""), Status::NotMet);
    assert_eq!(c.check(" true"), Status::NotMet);
    assert_eq!(c.check("1"), Status::NotMet);
}

#[test]
fn boolean_false_is_met_by_everything_else() {
    let c = Constraint::Boolean(false);
    assert_eq!(c.check("false"), Status::Met);
    assert_eq!(c.check("FALSE"), Status::Met);
    assert_eq!(c.check("nonsense"), Status::Met);
    assert_eq!(c.check(""), Status::Met);
    assert_eq!(c.check("true"), Status::NotMet);
    assert_eq!(c.check("TRUE"), Status::NotMet);
}

#[test]
fn check_lowered_compares_with_the_word_true() {
    assert_eq!(Constraint::check_lowered(true, "true"), Status::Met);
    assert_eq!(Constraint::check_lowered(true, "TRUE"), Status::NotMet);
    assert_eq!(Constraint::check_lowered(true, "yes"), Status::NotMet);
    assert_eq!(Constraint::check_lowered(false, "true"), Status::NotMet);
    assert_eq!(Constraint::check_lowered(false, "yes"), Status::Met);
    assert_eq!(Constraint::check_lowered(false, ""), Status::Met);
}

#[test]
fn constraints_never_answer_unknown() {
    let constraints = vec![
        Constraint::StringEquals("a".to_string()),
        Constraint::IntEquals(3),
        Constraint::IntRange(-1, 1),
        Constraint::Boolean(true),
        Constraint::Boolean(false),
    ];
    let values = vec!["", "a", "3", "0", "-1", "true", "TRUE", "?", "12345678901234567890123"];
    for c in constraints.iter() {
        for v in values.iter() {
            assert_ne!(c.check(v), Status::Unknown);
        }
    }
}
