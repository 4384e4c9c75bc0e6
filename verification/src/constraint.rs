//! Leaf checks: one observed string held against one expectation.
use vstd::prelude::*;
use crate::status::Status;
use crate::text::{lowercase_of, parse_isize, parsed_isize, str_eq, to_lowercase};

verus! {

/// A check of a single observed value.
#[derive(Debug)]
pub enum Constraint {
    /// The value is exactly this string.
    StringEquals(String),
    /// The value reads as this integer.
    IntEquals(isize),
    /// The value reads as an integer within these bounds, both included.
    IntRange(isize, isize),
    /// The value, read as a boolean, is this one.
    Boolean(bool),
}

/// Mathematical content of a [`Constraint`].
pub enum ConstraintModel {
    StringEquals(Seq<char>),
    IntEquals(int),
    IntRange(int, int),
    Boolean(bool),
}

impl View for Constraint {
    type V = ConstraintModel;

    open spec fn view(&self) -> ConstraintModel {
        match *self {
            Constraint::StringEquals(s) => ConstraintModel::StringEquals(s@),
            Constraint::IntEquals(i) => ConstraintModel::IntEquals(i as int),
            Constraint::IntRange(lo, hi) => ConstraintModel::IntRange(lo as int, hi as int),
            Constraint::Boolean(b) => ConstraintModel::Boolean(b),
        }
    }
}

/// `Met` when `holds`, `NotMet` otherwise.
pub open spec fn met_iff(holds: bool) -> Status {
    if holds {
        Status::Met
    } else {
        Status::NotMet
    }
}

/// The word that alone reads as the boolean `true`.
pub open spec fn true_word() -> Seq<char> {
    seq!['t', 'r', 'u', 'e']
}

/// Outcome of a boolean constraint on a value that is already lower-cased:
/// the value reads as `true` exactly when it is the word `true`, and every
/// other value reads as `false`.
pub open spec fn boolean_verdict(expected: bool, lowered: Seq<char>) -> Status {
    met_iff((lowered == true_word()) == expected)
}

impl ConstraintModel {
    /// Outcome of holding the observed value `val` against this constraint.
    ///
    /// A value that does not read as an integer fails an integer constraint.
    pub open spec fn verdict(self, val: Seq<char>) -> Status {
        match self {
            ConstraintModel::StringEquals(e) => met_iff(val == e),
            ConstraintModel::IntEquals(e) => match parsed_isize(val) {
                Some(v) => met_iff(v == e),
                None => Status::NotMet,
            },
            ConstraintModel::IntRange(lo, hi) => match parsed_isize(val) {
                Some(v) => met_iff(lo <= v && v <= hi),
                None => Status::NotMet,
            },
            ConstraintModel::Boolean(e) => boolean_verdict(e, lowercase_of(val)),
        }
    }
}

impl Constraint {
    /// Holds `val` against this constraint.
    pub fn check(&self, val: &str) -> (status: Status)
        ensures
            status == self@.verdict(val@),
            status != Status::Unknown,
    {
        match self {
            Constraint::StringEquals(s) => {
                if str_eq(val, s.as_str()) {
                    Status::Met
                } else {
                    Status::NotMet
                }
            },
            Constraint::IntEquals(i) => {
                match parse_isize(val) {
                    Some(v) => {
                        if v == *i {
                            Status::Met
                        } else {
                            Status::NotMet
                        }
                    },
                    None => Status::NotMet,
                }
            },
            Constraint::IntRange(start, end) => {
                match parse_isize(val) {
                    Some(v) => {
                        if *start <= v && v <= *end {
                            Status::Met
                        } else {
                            Status::NotMet
                        }
                    },
                    None => Status::NotMet,
                }
            },
            Constraint::Boolean(b) => {
                let lowered = to_lowercase(val);
                Self::check_lowered(*b, lowered.as_str())
            },
        }
    }

    /// Holds a value that is already lower-cased against the boolean
    /// `expected`.
    pub fn check_lowered(expected: bool, lowered: &str) -> (status: Status)
        ensures
            status == boolean_verdict(expected, lowered@),
    {
        proof {
            reveal_strlit("true");
            assert("true"@ =~= true_word());
        }
        let reads_true = str_eq(lowered, "true");
        if reads_true == expected {
            Status::Met
        } else {
            Status::NotMet
        }
    }
}

} // verus!
