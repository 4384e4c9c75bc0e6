//! The three-valued outcome of a check and the two operators that combine
//! outcomes.
use vstd::prelude::*;

verus! {

/// Outcome of evaluating a rule or a constraint.
#[derive(Clone, Copy, Debug, PartialEq, Eq, Structural)]
pub enum Status {
    /// The rule is satisfied.
    Met,
    /// The rule is not satisfied.
    NotMet,
    /// There is not enough information to decide.
    Unknown,
}

impl Status {
    /// Three-valued conjunction: `NotMet` wins over everything, `Met` needs
    /// both operands `Met`, anything else is `Unknown`.
    pub open spec fn conj(self, other: Status) -> Status {
        if self == Status::NotMet || other == Status::NotMet {
            Status::NotMet
        } else if self == Status::Met && other == Status::Met {
            Status::Met
        } else {
            Status::Unknown
        }
    }

    /// Three-valued disjunction: `Met` wins over everything, `NotMet` needs
    /// both operands `NotMet`, anything else is `Unknown`.
    pub open spec fn disj(self, other: Status) -> Status {
        if self == Status::Met || other == Status::Met {
            Status::Met
        } else if self == Status::NotMet && other == Status::NotMet {
            Status::NotMet
        } else {
            Status::Unknown
        }
    }
}

impl core::ops::BitAnd for Status {
    type Output = Status;

    fn bitand(self, rhs: Status) -> (r: Status) {
        match (self, rhs) {
            (Status::NotMet, _) | (_, Status::NotMet) => Status::NotMet,
            (Status::Met, Status::Met) => Status::Met,
            _ => Status::Unknown,
        }
    }
}

impl vstd::std_specs::ops::BitAndSpecImpl for Status {
    open spec fn obeys_bitand_spec() -> bool {
        true
    }

    open spec fn bitand_req(self, rhs: Status) -> bool {
        true
    }

    open spec fn bitand_spec(self, rhs: Status) -> Status {
        self.conj(rhs)
    }
}

impl core::ops::BitOr for Status {
    type Output = Status;

    fn bitor(self, rhs: Status) -> (r: Status) {
        match (self, rhs) {
            (Status::Met, _) | (_, Status::Met) => Status::Met,
            (Status::NotMet, Status::NotMet) => Status::NotMet,
            _ => Status::Unknown,
        }
    }
}

impl vstd::std_specs::ops::BitOrSpecImpl for Status {
    open spec fn obeys_bitor_spec() -> bool {
        true
    }

    open spec fn bitor_req(self, rhs: Status) -> bool {
        true
    }

    open spec fn bitor_spec(self, rhs: Status) -> Status {
        self.disj(rhs)
    }
}

/// Conjunction of a sequence of statuses, folded from the left and
/// starting from `Met`.
pub open spec fn conj_all(ss: Seq<Status>) -> Status
    decreases ss.len(),
{
    if ss.len() == 0 {
        Status::Met
    } else {
        conj_all(ss.drop_last()).conj(ss.last())
    }
}

/// Disjunction of a sequence of statuses, folded from the left and starting
/// from `NotMet`.
pub open spec fn disj_all(ss: Seq<Status>) -> Status
    decreases ss.len(),
{
    if ss.len() == 0 {
        Status::NotMet
    } else {
        disj_all(ss.drop_last()).disj(ss.last())
    }
}

/// How many entries of `ss` are `which`.
pub open spec fn count_of(ss: Seq<Status>, which: Status) -> nat
    decreases ss.len(),
{
    if ss.len() == 0 {
        0
    } else {
        count_of(ss.drop_last(), which) + if ss.last() == which {
            1nat
        } else {
            0nat
        }
    }
}

/// Outcome of asking for at least `n` statuses of `ss` to be `Met`.
///
/// `Met` once `n` of them are. Otherwise `NotMet` when so many have failed
/// that the rest, even if all `Met`, could not reach `n`. Otherwise
/// `Unknown`.
pub open spec fn at_least(n: nat, ss: Seq<Status>) -> Status {
    if count_of(ss, Status::Met) >= n {
        Status::Met
    } else if count_of(ss, Status::NotMet) > ss.len() - n {
        Status::NotMet
    } else {
        Status::Unknown
    }
}

/// Appending one status to a sequence folds it into the three summaries.
pub proof fn lemma_push(ss: Seq<Status>, s: Status)
    ensures
        conj_all(ss.push(s)) == conj_all(ss).conj(s),
        disj_all(ss.push(s)) == disj_all(ss).disj(s),
        forall|which: Status| #[trigger]
            count_of(ss.push(s), which) == count_of(ss, which) + if s == which {
                1nat
            } else {
                0nat
            },
{
    assert(ss.push(s).drop_last() =~= ss);
}

/// Every entry is counted under exactly one status: the three counts add up
/// to the length.
pub proof fn lemma_count_bounds(ss: Seq<Status>)
    ensures
        count_of(ss, Status::Met) + count_of(ss, Status::NotMet) + count_of(ss, Status::Unknown)
            == ss.len(),
    decreases ss.len(),
{
    if ss.len() > 0 {
        lemma_count_bounds(ss.drop_last());
    }
}

/// The conjunction does not depend on the order of its operands, nor on how
/// they are grouped.
pub proof fn lemma_conj_commutative_associative(a: Status, b: Status, c: Status)
    ensures
        a.conj(b) == b.conj(a),
        a.conj(b).conj(c) == a.conj(b.conj(c)),
        Status::Met.conj(a) == a,
{
}

/// The disjunction does not depend on the order of its operands, nor on how
/// they are grouped.
pub proof fn lemma_disj_commutative_associative(a: Status, b: Status, c: Status)
    ensures
        a.disj(b) == b.disj(a),
        a.disj(b).disj(c) == a.disj(b.disj(c)),
        Status::NotMet.disj(a) == a,
{
}

/// A conjunction is `NotMet` exactly when some operand is, and `Met` exactly
/// when every operand is; so one `NotMet` decides it whatever the others are.
pub proof fn lemma_conj_all(ss: Seq<Status>)
    ensures
        conj_all(ss) == Status::NotMet <==> exists|i: int|
            0 <= i < ss.len() && ss[i] == Status::NotMet,
        conj_all(ss) == Status::Met <==> forall|i: int|
            0 <= i < ss.len() ==> ss[i] == Status::Met,
    decreases ss.len(),
{
    if ss.len() > 0 {
        let front = ss.drop_last();
        lemma_conj_all(front);
        if exists|i: int| 0 <= i < front.len() && front[i] == Status::NotMet {
            let i = choose|i: int| 0 <= i < front.len() && front[i] == Status::NotMet;
            assert(ss[i] == Status::NotMet);
        }
        if exists|i: int| 0 <= i < ss.len() && ss[i] == Status::NotMet {
            let i = choose|i: int| 0 <= i < ss.len() && ss[i] == Status::NotMet;
            if i < front.len() {
                assert(front[i] == Status::NotMet);
            }
        }
        if forall|i: int| 0 <= i < ss.len() ==> ss[i] == Status::Met {
            assert forall|i: int| 0 <= i < front.len() implies front[i] == Status::Met by {
                assert(ss[i] == Status::Met);
            }
        }
        if conj_all(ss) == Status::NotMet {
            if ss.last() == Status::NotMet {
                assert(ss[ss.len() - 1] == Status::NotMet);
            }
        }
        if conj_all(ss) == Status::Met {
            assert forall|i: int| 0 <= i < ss.len() implies ss[i] == Status::Met by {
                if i < front.len() {
                    assert(front[i] == Status::Met);
                }
            }
        }
    }
}

/// A disjunction is `Met` exactly when some operand is, and `NotMet` exactly
/// when every operand is; so one `Met` decides it whatever the others are.
pub proof fn lemma_disj_all(ss: Seq<Status>)
    ensures
        disj_all(ss) == Status::Met <==> exists|i: int| 0 <= i < ss.len() && ss[i] == Status::Met,
        disj_all(ss) == Status::NotMet <==> forall|i: int|
            0 <= i < ss.len() ==> ss[i] == Status::NotMet,
    decreases ss.len(),
{
    if ss.len() > 0 {
        let front = ss.drop_last();
        lemma_disj_all(front);
        if exists|i: int| 0 <= i < front.len() && front[i] == Status::Met {
            let i = choose|i: int| 0 <= i < front.len() && front[i] == Status::Met;
            assert(ss[i] == Status::Met);
        }
        if exists|i: int| 0 <= i < ss.len() && ss[i] == Status::Met {
            let i = choose|i: int| 0 <= i < ss.len() && ss[i] == Status::Met;
            if i < front.len() {
                assert(front[i] == Status::Met);
            }
        }
        if forall|i: int| 0 <= i < ss.len() ==> ss[i] == Status::NotMet {
            assert forall|i: int| 0 <= i < front.len() implies front[i] == Status::NotMet by {
                assert(ss[i] == Status::NotMet);
            }
        }
        if disj_all(ss) == Status::Met {
            if ss.last() == Status::Met {
                assert(ss[ss.len() - 1] == Status::Met);
            }
        }
        if disj_all(ss) == Status::NotMet {
            assert forall|i: int| 0 <= i < ss.len() implies ss[i] == Status::NotMet by {
                if i < front.len() {
                    assert(front[i] == Status::NotMet);
                }
            }
        }
    }
}

/// A status that no entry has is counted zero times.
pub proof fn lemma_count_absent(ss: Seq<Status>, which: Status)
    requires
        forall|i: int| 0 <= i < ss.len() ==> ss[i] != which,
    ensures
        count_of(ss, which) == 0,
    decreases ss.len(),
{
    if ss.len() > 0 {
        let front = ss.drop_last();
        assert forall|i: int| 0 <= i < front.len() implies front[i] != which by {
            assert(ss[i] != which);
        }
        lemma_count_absent(front, which);
    }
}

/// Asking for none is always `Met`, whatever the statuses are.
pub proof fn lemma_at_least_zero(ss: Seq<Status>)
    ensures
        at_least(0, ss) == Status::Met,
{
}

/// When every status is `Unknown` and between one and all of them are asked
/// for, the outcome is `Unknown`.
pub proof fn lemma_at_least_all_unknown(n: nat, ss: Seq<Status>)
    requires
        1 <= n <= ss.len(),
        forall|i: int| 0 <= i < ss.len() ==> ss[i] == Status::Unknown,
    ensures
        at_least(n, ss) == Status::Unknown,
{
    lemma_count_absent(ss, Status::Met);
    lemma_count_absent(ss, Status::NotMet);
}

/// When more are asked for than there are statuses, the outcome is `NotMet`.
pub proof fn lemma_at_least_beyond_length(n: nat, ss: Seq<Status>)
    requires
        n > ss.len(),
    ensures
        at_least(n, ss) == Status::NotMet,
{
    lemma_count_bounds(ss);
}

} // verus!
