//! The rule tree and its evaluation.
use vstd::prelude::*;
use vstd::string::StringExecFns;
use std::collections::BTreeMap;
use crate::constraint::{Constraint, ConstraintModel};
use crate::facts::{facts_of, lookup};
use crate::status::{
    at_least, conj_all, count_of, disj_all, lemma_at_least_all_unknown, lemma_conj_all,
    lemma_disj_all, lemma_push, Status,
};
use crate::text::{decimal_digits, decimal_string};

verus! {

/// Node of a rule tree.
///
/// Trees are built with the constructor functions of the crate root and
/// evaluated with [`Rule::check`].
#[derive(Debug)]
pub enum Rule {
    /// Every child must be met.
    And { rules: Vec<Rule> },
    /// Some child must be met.
    Or { rules: Vec<Rule> },
    /// At least `n` children must be met.
    NumberOf { n: usize, rules: Vec<Rule> },
    /// A constraint on the fact named `field`, described by `desc`.
    Rule { desc: String, field: String, constraint: Constraint },
}

/// Mathematical content of a [`Rule`].
pub enum RuleModel {
    And(Seq<RuleModel>),
    Or(Seq<RuleModel>),
    NumberOf(nat, Seq<RuleModel>),
    Leaf(Seq<char>, Seq<char>, ConstraintModel),
}

/// Result of checking a rule tree.
#[derive(Debug)]
pub struct RuleResult {
    /// Human-friendly description of the rule.
    pub name: String,
    /// Status of this node.
    pub status: Status,
    /// Results of the sub-rules, in their order.
    pub children: Vec<RuleResult>,
}

/// Mathematical content of a [`RuleResult`].
pub struct ResultModel {
    pub name: Seq<char>,
    pub status: Status,
    pub children: Seq<ResultModel>,
}

/// The model of `rule`: the same tree, with strings as character sequences
/// and integers unbounded.
pub open spec fn rule_model(rule: Rule) -> RuleModel
    decreases rule,
{
    match rule {
        Rule::And { rules } => RuleModel::And(models(rules@)),
        Rule::Or { rules } => RuleModel::Or(models(rules@)),
        Rule::NumberOf { n, rules } => RuleModel::NumberOf(n as nat, models(rules@)),
        Rule::Rule { desc, field, constraint } => RuleModel::Leaf(desc@, field@, constraint@),
    }
}

/// The models of a sequence of rules, in order.
pub open spec fn models(rules: Seq<Rule>) -> Seq<RuleModel>
    decreases rules,
{
    Seq::new(
        rules.len(),
        |i: int|
            if 0 <= i < rules.len() {
                rule_model(rules[i])
            } else {
                arbitrary()
            },
    )
}

/// The model of `result`: the same tree, with names as character sequences.
pub open spec fn result_model(result: RuleResult) -> ResultModel
    decreases result,
{
    ResultModel {
        name: result.name@,
        status: result.status,
        children: result_models(result.children@),
    }
}

/// The models of a sequence of results, in order.
pub open spec fn result_models(results: Seq<RuleResult>) -> Seq<ResultModel>
    decreases results,
{
    Seq::new(
        results.len(),
        |i: int|
            if 0 <= i < results.len() {
                result_model(results[i])
            } else {
                arbitrary()
            },
    )
}

impl View for Rule {
    type V = RuleModel;

    open spec fn view(&self) -> RuleModel {
        rule_model(*self)
    }
}

impl View for RuleResult {
    type V = ResultModel;

    open spec fn view(&self) -> ResultModel {
        result_model(*self)
    }
}

/// The statuses of a sequence of results, in order.
pub open spec fn statuses(results: Seq<ResultModel>) -> Seq<Status> {
    results.map_values(|r: ResultModel| r.status)
}

/// Name of the result of a threshold node that asks for `n` children.
pub open spec fn threshold_name(n: nat) -> Seq<char> {
    "At least "@ + decimal_digits(n) + " of"@
}

impl RuleModel {
    /// The sub-rules of this node, in order; none for a leaf.
    pub open spec fn children(self) -> Seq<RuleModel> {
        match self {
            RuleModel::And(rules) => rules,
            RuleModel::Or(rules) => rules,
            RuleModel::NumberOf(_, rules) => rules,
            RuleModel::Leaf(_, _, _) => Seq::empty(),
        }
    }
}

/// The result of evaluating `rule` against `facts`.
///
/// Every child is evaluated, in order, and the result has one child per
/// sub-rule. A leaf whose field is missing from `facts` is `Unknown`.
pub open spec fn evaluate(rule: RuleModel, facts: Map<Seq<char>, Seq<char>>) -> ResultModel
    decreases rule,
{
    match rule {
        RuleModel::And(rules) => {
            let children = evaluate_each(rules, facts);
            ResultModel { name: "And"@, status: conj_all(statuses(children)), children }
        },
        RuleModel::Or(rules) => {
            let children = evaluate_each(rules, facts);
            ResultModel { name: "Or"@, status: disj_all(statuses(children)), children }
        },
        RuleModel::NumberOf(n, rules) => {
            let children = evaluate_each(rules, facts);
            ResultModel {
                name: threshold_name(n),
                status: at_least(n, statuses(children)),
                children,
            }
        },
        RuleModel::Leaf(desc, field, constraint) => ResultModel {
            name: desc,
            status: if facts.contains_key(field) {
                constraint.verdict(facts[field])
            } else {
                Status::Unknown
            },
            children: Seq::empty(),
        },
    }
}

/// The results of evaluating each of `rules` against `facts`, in order.
pub open spec fn evaluate_each(rules: Seq<RuleModel>, facts: Map<Seq<char>, Seq<char>>) -> Seq<
    ResultModel,
>
    decreases rules,
{
    Seq::new(
        rules.len(),
        |i: int|
            if 0 <= i < rules.len() {
                evaluate(rules[i], facts)
            } else {
                arbitrary()
            },
    )
}

/// The statuses that a vector of results holds, in order.
pub open spec fn held_statuses(results: Seq<RuleResult>) -> Seq<Status> {
    results.map_values(|r: RuleResult| r.status)
}

/// Folds the statuses of `results` with the three-valued conjunction.
fn fold_and(results: &Vec<RuleResult>) -> (status: Status)
    ensures
        status == conj_all(held_statuses(results@)),
{
    let mut status = Status::Met;
    let mut i: usize = 0;
    while i < results.len()
        invariant
            i <= results.len(),
            status == conj_all(held_statuses(results@.take(i as int))),
        decreases results.len() - i,
    {
        proof {
            let before = held_statuses(results@.take(i as int));
            lemma_push(before, results[i as int].status);
            assert(held_statuses(results@.take(i + 1)) =~= before.push(results[i as int].status));
        }
        status = status & results[i].status;
        i += 1;
    }
    proof {
        assert(results@.take(i as int) =~= results@);
    }
    status
}

/// Folds the statuses of `results` with the three-valued disjunction.
fn fold_or(results: &Vec<RuleResult>) -> (status: Status)
    ensures
        status == disj_all(held_statuses(results@)),
{
    let mut status = Status::NotMet;
    let mut i: usize = 0;
    while i < results.len()
        invariant
            i <= results.len(),
            status == disj_all(held_statuses(results@.take(i as int))),
        decreases results.len() - i,
    {
        proof {
            let before = held_statuses(results@.take(i as int));
            lemma_push(before, results[i as int].status);
            assert(held_statuses(results@.take(i + 1)) =~= before.push(results[i as int].status));
        }
        status = status | results[i].status;
        i += 1;
    }
    proof {
        assert(results@.take(i as int) =~= results@);
    }
    status
}

/// Counts the results whose status is `which`.
fn count_status(results: &Vec<RuleResult>, which: Status) -> (count: usize)
    ensures
        count == count_of(held_statuses(results@), which),
        count <= results.len(),
{
    let mut count: usize = 0;
    let mut i: usize = 0;
    while i < results.len()
        invariant
            i <= results.len(),
            count <= i,
            count == count_of(held_statuses(results@.take(i as int)), which),
        decreases results.len() - i,
    {
        proof {
            let before = held_statuses(results@.take(i as int));
            lemma_push(before, results[i as int].status);
            assert(held_statuses(results@.take(i + 1)) =~= before.push(results[i as int].status));
        }
        if results[i].status == which {
            count += 1;
        }
        i += 1;
    }
    proof {
        assert(results@.take(i as int) =~= results@);
    }
    count
}

/// Checks each of `rules` against the facts, in order.
fn check_each(rules: &Vec<Rule>, info: &BTreeMap<String, String>) -> (results: Vec<RuleResult>)
    ensures
        result_models(results@) == evaluate_each(models(rules@), facts_of(info)),
    decreases rules,
{
    let mut results: Vec<RuleResult> = Vec::new();
    let mut i: usize = 0;
    while i < rules.len()
        invariant
            i <= rules.len(),
            results.len() == i,
            forall|j: int|
                0 <= j < i ==> (#[trigger] results[j])@ == evaluate(rules[j]@, facts_of(info)),
        decreases rules.len() - i,
    {
        let result = rules[i].check(info);
        results.push(result);
        i += 1;
    }
    proof {
        assert(result_models(results@) =~= evaluate_each(models(rules@), facts_of(info)));
    }
    results
}

impl Rule {
    /// Starting at this node, checks every node of the tree, depth first,
    /// and returns the outcome of each in a tree of the same shape.
    pub fn check(&self, info: &BTreeMap<String, String>) -> (result: RuleResult)
        ensures
            result@ == evaluate(self@, facts_of(info)),
            mirrors(result@, self@),
        decreases self,
    {
        proof {
            lemma_result_mirrors_rule(self@, facts_of(info));
        }
        let result = match self {
            Rule::And { rules } => {
                let children = check_each(rules, info);
                let status = fold_and(&children);
                RuleResult { name: "And".to_owned(), status, children }
            },
            Rule::Or { rules } => {
                let children = check_each(rules, info);
                let status = fold_or(&children);
                RuleResult { name: "Or".to_owned(), status, children }
            },
            Rule::NumberOf { n, rules } => {
                let children = check_each(rules, info);
                let met_count = count_status(&children, Status::Met);
                let failed_count = count_status(&children, Status::NotMet);
                let status = if met_count >= *n {
                    Status::Met
                } else if *n > children.len() || failed_count > children.len() - *n {
                    Status::NotMet
                } else {
                    Status::Unknown
                };
                let mut name = "At least ".to_owned();
                let digits = decimal_string(*n);
                name.append(digits.as_str());
                name.append(" of");
                RuleResult { name, status, children }
            },
            Rule::Rule { desc, field, constraint } => {
                let status = match lookup(info, field.as_str()) {
                    Some(value) => constraint.check(value.as_str()),
                    None => Status::Unknown,
                };
                RuleResult { name: desc.clone(), status, children: Vec::new() }
            },
        };
        proof {
            assert(statuses(result@.children) =~= held_statuses(result.children@));
            assert(result@.children =~= evaluate(self@, facts_of(info)).children);
        }
        result
    }
}

/// Whether `result` has the shape of `rule`: as many children, and each
/// child the shape of the sub-rule at its place.
pub open spec fn mirrors(result: ResultModel, rule: RuleModel) -> bool
    decreases result,
{
    &&& result.children.len() == rule.children().len()
    &&& forall|i: int|
        0 <= i < result.children.len() ==> mirrors(
            #[trigger] result.children[i],
            rule.children()[i],
        )
}

/// The largest of `depths`, and zero when there are none.
pub open spec fn deepest(depths: Seq<nat>) -> nat
    decreases depths.len(),
{
    if depths.len() == 0 {
        0
    } else if depths.last() >= deepest(depths.drop_last()) {
        depths.last()
    } else {
        deepest(depths.drop_last())
    }
}

/// Number of nodes on the longest path from `rule` down to a leaf.
pub open spec fn rule_depth(rule: RuleModel) -> nat
    decreases rule,
{
    match rule {
        RuleModel::And(rules) => 1 + deepest(rule_depths(rules)),
        RuleModel::Or(rules) => 1 + deepest(rule_depths(rules)),
        RuleModel::NumberOf(_, rules) => 1 + deepest(rule_depths(rules)),
        RuleModel::Leaf(_, _, _) => 1,
    }
}

/// The depth of each of `rules`, in order.
pub open spec fn rule_depths(rules: Seq<RuleModel>) -> Seq<nat>
    decreases rules,
{
    Seq::new(
        rules.len(),
        |i: int|
            if 0 <= i < rules.len() {
                rule_depth(rules[i])
            } else {
                0
            },
    )
}

/// Number of nodes on the longest path from `result` down to a leaf.
pub open spec fn result_depth(result: ResultModel) -> nat
    decreases result,
{
    1 + deepest(result_depths(result.children))
}

/// The depth of each of `results`, in order.
pub open spec fn result_depths(results: Seq<ResultModel>) -> Seq<nat>
    decreases results,
{
    Seq::new(
        results.len(),
        |i: int|
            if 0 <= i < results.len() {
                result_depth(results[i])
            } else {
                0
            },
    )
}

/// A result that has the shape of a rule is as deep as the rule.
pub proof fn lemma_mirror_depth(result: ResultModel, rule: RuleModel)
    requires
        mirrors(result, rule),
    ensures
        result_depth(result) == rule_depth(rule),
    decreases result,
{
    let subrules = rule.children();
    assert forall|i: int| 0 <= i < result.children.len() implies result_depth(
        result.children[i],
    ) == rule_depth(subrules[i]) by {
        assert(mirrors(result.children[i], subrules[i]));
        lemma_mirror_depth(result.children[i], subrules[i]);
    }
    assert(result_depths(result.children) =~= rule_depths(subrules));
}

/// The result of an evaluation has the shape of the rule tree, node for
/// node, and so its depth, whatever the facts are.
pub proof fn lemma_result_mirrors_rule(rule: RuleModel, facts: Map<Seq<char>, Seq<char>>)
    ensures
        mirrors(evaluate(rule, facts), rule),
        evaluate(rule, facts).children == evaluate_each(rule.children(), facts),
        result_depth(evaluate(rule, facts)) == rule_depth(rule),
    decreases rule,
{
    let result = evaluate(rule, facts);
    let subrules = rule.children();
    assert(result.children =~= evaluate_each(subrules, facts));
    assert forall|i: int| 0 <= i < result.children.len() implies mirrors(
        #[trigger] result.children[i],
        subrules[i],
    ) by {
        lemma_result_mirrors_rule(subrules[i], facts);
    }
    lemma_mirror_depth(result, rule);
}

/// A conjunction without children is `Met`, and a disjunction without
/// children is `NotMet`.
pub proof fn lemma_empty_combinators(facts: Map<Seq<char>, Seq<char>>)
    ensures
        evaluate(RuleModel::And(Seq::empty()), facts).status == Status::Met,
        evaluate(RuleModel::Or(Seq::empty()), facts).status == Status::NotMet,
{
}

/// A conjunction with a child that is `NotMet` is `NotMet`, whatever its
/// other children are.
pub proof fn lemma_and_not_met(rules: Seq<RuleModel>, facts: Map<Seq<char>, Seq<char>>, i: int)
    requires
        0 <= i < rules.len(),
        evaluate(rules[i], facts).status == Status::NotMet,
    ensures
        evaluate(RuleModel::And(rules), facts).status == Status::NotMet,
{
    let ss = statuses(evaluate_each(rules, facts));
    lemma_conj_all(ss);
    assert(ss[i] == Status::NotMet);
}

/// A disjunction with a child that is `Met` is `Met`, whatever its other
/// children are.
pub proof fn lemma_or_met(rules: Seq<RuleModel>, facts: Map<Seq<char>, Seq<char>>, i: int)
    requires
        0 <= i < rules.len(),
        evaluate(rules[i], facts).status == Status::Met,
    ensures
        evaluate(RuleModel::Or(rules), facts).status == Status::Met,
{
    let ss = statuses(evaluate_each(rules, facts));
    lemma_disj_all(ss);
    assert(ss[i] == Status::Met);
}

/// A threshold of zero is `Met`, whatever the children are.
pub proof fn lemma_zero_threshold(rules: Seq<RuleModel>, facts: Map<Seq<char>, Seq<char>>)
    ensures
        evaluate(RuleModel::NumberOf(0, rules), facts).status == Status::Met,
{
}

/// A threshold between one and the number of children is `Unknown` when
/// every child is `Unknown`.
pub proof fn lemma_threshold_all_unknown(
    n: nat,
    rules: Seq<RuleModel>,
    facts: Map<Seq<char>, Seq<char>>,
)
    requires
        1 <= n <= rules.len(),
        forall|i: int| 0 <= i < rules.len() ==> evaluate(rules[i], facts).status == Status::Unknown,
    ensures
        evaluate(RuleModel::NumberOf(n, rules), facts).status == Status::Unknown,
{
    let ss = statuses(evaluate_each(rules, facts));
    assert forall|i: int| 0 <= i < ss.len() implies ss[i] == Status::Unknown by {
        assert(ss[i] == evaluate(rules[i], facts).status);
    }
    lemma_at_least_all_unknown(n, ss);
}

/// A leaf whose field the facts do not hold is `Unknown`, whatever its
/// constraint is; one whose field they hold is never `Unknown`.
pub proof fn lemma_leaf_unknown_iff_missing(
    desc: Seq<char>,
    field: Seq<char>,
    constraint: ConstraintModel,
    facts: Map<Seq<char>, Seq<char>>,
)
    ensures
        evaluate(RuleModel::Leaf(desc, field, constraint), facts).status == Status::Unknown
            <==> !facts.contains_key(field),
{
}

} // verus!
