//! A rule engine over three-valued logic.
//!
//! A tree of rules is built once from the constructor functions of this crate
//! and then evaluated against any number of fact maps. Every node of the tree
//! yields a [`Status`], and the whole evaluation is handed back as a tree of
//! [`RuleResult`] values of the same shape.
use vstd::prelude::*;

pub mod constraint;
pub mod facts;
pub mod rule;
pub mod status;
pub mod text;

pub use crate::constraint::Constraint;
pub use crate::rule::{Rule, RuleResult};
pub use crate::status::Status;

use crate::constraint::ConstraintModel;
use crate::rule::{models, RuleModel};

verus! {

/// Creates a rule that is met when all of `rules` are.
///
/// * If any child is `NotMet`, the result is `NotMet`.
/// * Otherwise, if any child is `Unknown`, the result is `Unknown`.
/// * The result is `Met` only if every child is `Met`.
pub fn and(rules: Vec<Rule>) -> (rule: Rule)
    ensures
        rule@ == RuleModel::And(models(rules@)),
{
    Rule::And { rules }
}

/// Creates a rule that is met when any of `rules` is.
///
/// * If any child is `Met`, the result is `Met`.
/// * Otherwise, if any child is `Unknown`, the result is `Unknown`.
/// * The result is `NotMet` only if every child is `NotMet`.
pub fn or(rules: Vec<Rule>) -> (rule: Rule)
    ensures
        rule@ == RuleModel::Or(models(rules@)),
{
    Rule::Or { rules }
}

/// Creates a rule that is met when at least `n` of `rules` are.
///
/// * If `n` or more children are `Met`, the result is `Met`.
/// * Otherwise, if so many children are `NotMet` that the others could not
///   reach `n`, the result is `NotMet`.
/// * Otherwise the result is `Unknown`.
pub fn n_of(n: usize, rules: Vec<Rule>) -> (rule: Rule)
    ensures
        rule@ == RuleModel::NumberOf(n as nat, models(rules@)),
{
    Rule::NumberOf { n, rules }
}

/// Creates a rule that compares the fact `field` with the string `val`.
pub fn string_equals(description: &str, field: &str, val: &str) -> (rule: Rule)
    ensures
        rule@ == RuleModel::Leaf(description@, field@, ConstraintModel::StringEquals(val@)),
{
    Rule::Rule {
        desc: description.to_owned(),
        field: field.to_owned(),
        constraint: Constraint::StringEquals(val.to_owned()),
    }
}

/// Creates a rule that compares the fact `field` with the integer `val`.
///
/// A fact that does not read as an integer is `NotMet`.
pub fn int_equals(description: &str, field: &str, val: isize) -> (rule: Rule)
    ensures
        rule@ == RuleModel::Leaf(description@, field@, ConstraintModel::IntEquals(val as int)),
{
    Rule::Rule {
        desc: description.to_owned(),
        field: field.to_owned(),
        constraint: Constraint::IntEquals(val),
    }
}

/// Creates a rule that holds the fact `field` against the interval from
/// `start` to `end`, both included.
///
/// A fact that does not read as an integer is `NotMet`.
pub fn int_range(description: &str, field: &str, start: isize, end: isize) -> (rule: Rule)
    ensures
        rule@ == RuleModel::Leaf(
            description@,
            field@,
            ConstraintModel::IntRange(start as int, end as int),
        ),
{
    Rule::Rule {
        desc: description.to_owned(),
        field: field.to_owned(),
        constraint: Constraint::IntRange(start, end),
    }
}

/// Creates a rule that compares the fact `field`, read as a boolean, with
/// `val`.
///
/// Only the word `true`, in any case, reads as `true`; every other fact
/// reads as `false`.
pub fn boolean(description: &str, field: &str, val: bool) -> (rule: Rule)
    ensures
        rule@ == RuleModel::Leaf(description@, field@, ConstraintModel::Boolean(val)),
{
    Rule::Rule {
        desc: description.to_owned(),
        field: field.to_owned(),
        constraint: Constraint::Boolean(val),
    }
}

} // verus!
