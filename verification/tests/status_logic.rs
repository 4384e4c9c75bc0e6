use rule_engine::Status;
use rule_engine::Status::{Met, NotMet, Unknown};

#[test]
fn and_truth_table() {
    assert_eq!(Met & Met, Met);
    assert_eq!(Met & NotMet, NotMet);
    assert_eq!(Met & Unknown, Unknown);
    assert_eq!(NotMet & Met, NotMet);
    assert_eq!(NotMet & NotMet, NotMet);
    assert_eq!(NotMet & Unknown, NotMet);
    assert_eq!(Unknown & Met, Unknown);
    assert_eq!(Unknown & NotMet, NotMet);
    assert_eq!(Unknown & Unknown, Unknown);
}

#[test]
fn or_truth_table() {
    assert_eq!(Met | Met, Met);
    assert_eq!(Met | NotMet, Met);
    assert_eq!(Met | Unknown, Met);
    assert_eq!(NotMet | Met, Met);
    assert_eq!(NotMet | NotMet, NotMet);
    assert_eq!(NotMet | Unknown, Unknown);
    assert_eq!(Unknown | Met, Met);
    assert_eq!(Unknown | NotMet, Unknown);
    assert_eq!(Unknown | Unknown, Unknown);
}

#[test]
fn operators_commute_and_associate() {
    let all: [Status; 3] = [Met, NotMet, Unknown];
    for a in all {
        for b in all {
            assert_eq!(a & b, b & a);
            assert_eq!(a | b, b | a);
            for c in all {
                assert_eq!((a & b) & c, a & (b & c));
                assert_eq!((a | b) | c, a | (b | c));
            }
        }
    }
}

#[test]
fn identities_of_the_folds() {
    let all: [Status; 3] = [Met, NotMet, Unknown];
    for a in all {
        assert_eq!(Met & a, a);
        assert_eq!(NotMet | a, a);
    }
}
