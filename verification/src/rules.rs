//! Conformance rules and the rule engine that checks them against the
//! membership filter of a chain.

use vstd::prelude::*;
use crate::filter::{saturate, MembershipFilter, Record};
use crate::fingerprint::Fingerprint;

verus! {

/// The operation `preceding` must already be recorded in the chain.
#[derive(Clone, Copy, Debug, PartialEq, Eq)]
pub struct PrecedenceRule {
    pub preceding: Fingerprint,
}

/// The operation `fingerprint` must have been recorded at least `min` and at
/// most `max` times.
#[derive(Clone, Copy, Debug, PartialEq, Eq)]
pub struct CardinalityRule {
    pub fingerprint: Fingerprint,
    pub min: u32,
    pub max: u32,
}

/// A declarative constraint on what a chain must hold before a step is proven.
#[derive(Clone, Copy, Debug, PartialEq, Eq)]
pub enum Rule {
    Precedence(PrecedenceRule),
    Cardinality(CardinalityRule),
}

/// The outcome of checking rules: acceptance, or the first rule that is
/// violated together with the values that violate it.
#[derive(Clone, Copy, Debug, PartialEq, Eq)]
pub enum ConformanceResult {
    Accepted,
    PrecedenceViolation { expected: Fingerprint, current: Fingerprint },
    CardinalityViolation { fingerprint: Fingerprint, actual: u32, min: u32, max: u32 },
}

/// Whether a single rule is satisfied by what the filter reports.
pub open spec fn rule_holds(rule: Rule, counts: Record) -> bool {
    match rule {
        Rule::Precedence(p) => counts.count(p.preceding@) > 0,
        Rule::Cardinality(c) => c.min <= saturate(counts.count(c.fingerprint@)) <= c.max,
    }
}

/// What a single rule answers for the step `current`.
pub open spec fn rule_verdict(
    rule: Rule,
    counts: Record,
    current: Fingerprint,
) -> ConformanceResult {
    if rule_holds(rule, counts) {
        ConformanceResult::Accepted
    } else {
        match rule {
            Rule::Precedence(p) => ConformanceResult::PrecedenceViolation {
                expected: p.preceding,
                current,
            },
            Rule::Cardinality(c) => ConformanceResult::CardinalityViolation {
                fingerprint: c.fingerprint,
                actual: saturate(counts.count(c.fingerprint@)),
                min: c.min,
                max: c.max,
            },
        }
    }
}

/// Rule `i` is violated and every rule declared before it holds.
pub open spec fn first_violated_at(rules: Seq<Rule>, counts: Record, i: int) -> bool {
    &&& 0 <= i < rules.len()
    &&& !rule_holds(rules[i], counts)
    &&& forall|j: int| 0 <= j < i ==> rule_holds(#[trigger] rules[j], counts)
}

/// The outcome for an ordered rule list: the verdict of the first violated
/// rule, or acceptance where no rule is violated.
pub open spec fn evaluation(
    rules: Seq<Rule>,
    counts: Record,
    current: Fingerprint,
) -> ConformanceResult {
    if exists|i: int| first_violated_at(rules, counts, i) {
        let i = choose|i: int| first_violated_at(rules, counts, i);
        rule_verdict(rules[i], counts, current)
    } else {
        ConformanceResult::Accepted
    }
}

/// At most one rule is the first violated one.
pub proof fn lemma_first_violation_unique(
    rules: Seq<Rule>,
    counts: Record,
    i: int,
    k: int,
)
    requires
        first_violated_at(rules, counts, i),
        first_violated_at(rules, counts, k),
    ensures
        i == k,
{
    if i < k {
        assert(rule_holds(rules[i], counts));
    } else if k < i {
        assert(rule_holds(rules[k], counts));
    }
}

/// Where rule `i` is the first violated one, its verdict is the outcome.
pub proof fn lemma_evaluation_rejects(
    rules: Seq<Rule>,
    counts: Record,
    current: Fingerprint,
    i: int,
)
    requires
        first_violated_at(rules, counts, i),
    ensures
        evaluation(rules, counts, current) == rule_verdict(rules[i], counts, current),
        evaluation(rules, counts, current) !is Accepted,
{
    let k = choose|k: int| first_violated_at(rules, counts, k);
    lemma_first_violation_unique(rules, counts, i, k);
}

/// The outcome is acceptance exactly when every rule holds.
pub proof fn lemma_evaluation_accepts(
    rules: Seq<Rule>,
    counts: Record,
    current: Fingerprint,
)
    ensures
        evaluation(rules, counts, current) is Accepted <==> forall|j: int|
            0 <= j < rules.len() ==> rule_holds(#[trigger] rules[j], counts),
{
    if exists|i: int| first_violated_at(rules, counts, i) {
        let i = choose|i: int| first_violated_at(rules, counts, i);
        lemma_evaluation_rejects(rules, counts, current, i);
    } else if exists|j: int| 0 <= j < rules.len() && !rule_holds(#[trigger] rules[j], counts) {
        let j = choose|j: int| 0 <= j < rules.len() && !rule_holds(#[trigger] rules[j], counts);
        lemma_some_violation_has_first(rules, counts, j);
    }
}

/// Below any violated rule there is a first violated one.
proof fn lemma_some_violation_has_first(rules: Seq<Rule>, counts: Record, j: int)
    requires
        0 <= j < rules.len(),
        !rule_holds(rules[j], counts),
    ensures
        exists|i: int| 0 <= i <= j && first_violated_at(rules, counts, i),
    decreases j,
{
    if forall|k: int| 0 <= k < j ==> rule_holds(#[trigger] rules[k], counts) {
        assert(first_violated_at(rules, counts, j));
    } else {
        let k = choose|k: int| 0 <= k < j && !rule_holds(#[trigger] rules[k], counts);
        lemma_some_violation_has_first(rules, counts, k);
    }
}

/// Evaluation is determined by the rule list, by what the filter reports and
/// by the current step: any two outcomes computed from the same three are
/// equal, and they name the same first violated rule.
pub proof fn law_evaluation_is_deterministic(
    rules: Seq<Rule>,
    counts: Record,
    current: Fingerprint,
    first: ConformanceResult,
    second: ConformanceResult,
)
    requires
        first == evaluation(rules, counts, current),
        second == evaluation(rules, counts, current),
    ensures
        first == second,
        forall|i: int, k: int|
            first_violated_at(rules, counts, i) && first_violated_at(rules, counts, k) ==> i == k,
{
    assert forall|i: int, k: int|
        first_violated_at(rules, counts, i) && first_violated_at(rules, counts, k) implies i
        == k by {
        lemma_first_violation_unique(rules, counts, i, k);
    }
}

/// A rule that holds can be taken out of the list, wherever it stands,
/// without changing the outcome.
pub proof fn lemma_holding_rule_is_neutral(
    rules: Seq<Rule>,
    counts: Record,
    current: Fingerprint,
    i: int,
)
    requires
        0 <= i < rules.len(),
        rule_holds(rules[i], counts),
    ensures
        evaluation(rules, counts, current) == evaluation(rules.remove(i), counts, current),
{
    let rest = rules.remove(i);
    assert forall|j: int| 0 <= j < rest.len() implies #[trigger] rest[j] == (if j < i {
        rules[j]
    } else {
        rules[j + 1]
    }) by {}
    if exists|k: int| first_violated_at(rules, counts, k) {
        let k = choose|k: int| first_violated_at(rules, counts, k);
        let moved = if k < i {
            k
        } else {
            k - 1
        };
        assert(rest[moved] == rules[k]);
        assert forall|j: int| 0 <= j < moved implies rule_holds(#[trigger] rest[j], counts) by {
            if j < i {
                assert(rule_holds(rules[j], counts));
            } else {
                assert(rule_holds(rules[j + 1], counts));
            }
        }
        assert(first_violated_at(rest, counts, moved));
        lemma_evaluation_rejects(rules, counts, current, k);
        lemma_evaluation_rejects(rest, counts, current, moved);
    } else {
        lemma_evaluation_accepts(rules, counts, current);
        assert forall|j: int| 0 <= j < rest.len() implies rule_holds(#[trigger] rest[j], counts) by {
            if j < i {
                assert(rule_holds(rules[j], counts));
            } else {
                assert(rule_holds(rules[j + 1], counts));
            }
        }
        lemma_evaluation_accepts(rest, counts, current);
    }
}

/// A precedence rule on `preceding` rejects the step while the filter does
/// not report `preceding`, whatever else the list holds. Once the filter
/// reports it, the rule no longer bears on the outcome, wherever it stands
/// among the other rules.
pub proof fn law_precedence_follows_the_filter(
    rules: Seq<Rule>,
    counts: Record,
    current: Fingerprint,
    i: int,
    preceding: Fingerprint,
)
    requires
        0 <= i < rules.len(),
        rules[i] == Rule::Precedence(PrecedenceRule { preceding }),
    ensures
        counts.count(preceding@) == 0 ==> evaluation(rules, counts, current) !is Accepted,
        counts.count(preceding@) > 0 ==> evaluation(rules, counts, current) == evaluation(
            rules.remove(i),
            counts,
            current,
        ),
        counts.count(preceding@) > 0 ==> evaluation(seq![rules[i]], counts, current) is Accepted,
{
    lemma_evaluation_accepts(rules, counts, current);
    lemma_evaluation_accepts(seq![rules[i]], counts, current);
    if counts.count(preceding@) > 0 {
        lemma_holding_rule_is_neutral(rules, counts, current, i);
    } else {
        assert(!rule_holds(rules[i], counts));
    }
}

/// Every rule of the first list holds where every rule of a list with the
/// same rules does.
proof fn lemma_same_rules_hold_together(first: Seq<Rule>, second: Seq<Rule>, counts: Record)
    requires
        first.to_multiset() == second.to_multiset(),
        forall|j: int| 0 <= j < second.len() ==> rule_holds(#[trigger] second[j], counts),
    ensures
        forall|i: int| 0 <= i < first.len() ==> rule_holds(#[trigger] first[i], counts),
{
    first.to_multiset_ensures();
    second.to_multiset_ensures();
    assert forall|i: int| 0 <= i < first.len() implies rule_holds(#[trigger] first[i], counts) by {
        assert(first.contains(first[i]));
        assert(second.to_multiset().count(first[i]) > 0);
        assert(second.contains(first[i]));
        let j = choose|j: int| 0 <= j < second.len() && second[j] == first[i];
        assert(rule_holds(second[j], counts));
    }
}

/// Whether a step is accepted does not depend on the order of its rules:
/// two lists that hold the same rules, each as often, are accepted together.
/// Only the reason of a rejection depends on the order.
pub proof fn law_acceptance_ignores_the_order(
    first: Seq<Rule>,
    second: Seq<Rule>,
    counts: Record,
    current: Fingerprint,
)
    requires
        first.to_multiset() == second.to_multiset(),
    ensures
        evaluation(first, counts, current) is Accepted <==> evaluation(second, counts, current)
            is Accepted,
{
    lemma_evaluation_accepts(first, counts, current);
    lemma_evaluation_accepts(second, counts, current);
    if evaluation(first, counts, current) is Accepted {
        lemma_same_rules_hold_together(second, first, counts);
    }
    if evaluation(second, counts, current) is Accepted {
        lemma_same_rules_hold_together(first, second, counts);
    }
}

/// A cardinality rule holds exactly when the reported count lies within its
/// bounds, both included. With both bounds at one it holds exactly at a count
/// of one, and at a count of zero a rule holds only if its lower bound is zero.
pub proof fn law_cardinality_bounds_are_inclusive(
    fingerprint: Fingerprint,
    min: u32,
    max: u32,
    counts: Record,
)
    ensures
        rule_holds(Rule::Cardinality(CardinalityRule { fingerprint, min, max }), counts) <==> min
            <= saturate(counts.count(fingerprint@)) <= max,
        rule_holds(Rule::Cardinality(CardinalityRule { fingerprint, min: 1, max: 1 }), counts)
            <==> counts.count(fingerprint@) == 1,
        counts.count(fingerprint@) == 0 && rule_holds(
            Rule::Cardinality(CardinalityRule { fingerprint, min, max }),
            counts,
        ) ==> min == 0,
{
}

/// The outcome for two rule lists checked one after the other: the second
/// list is reached only where the first accepts.
pub proof fn lemma_evaluation_of_concatenation(
    first: Seq<Rule>,
    second: Seq<Rule>,
    counts: Record,
    current: Fingerprint,
)
    ensures
        evaluation(first + second, counts, current) == (if evaluation(first, counts, current)
            is Accepted {
            evaluation(second, counts, current)
        } else {
            evaluation(first, counts, current)
        }),
{
    let both = first + second;
    assert forall|j: int| 0 <= j < both.len() implies #[trigger] both[j] == (if j < first.len() {
        first[j]
    } else {
        second[j - first.len()]
    }) by {}
    lemma_evaluation_accepts(first, counts, current);
    if exists|i: int| first_violated_at(first, counts, i) {
        let i = choose|i: int| first_violated_at(first, counts, i);
        assert forall|j: int| 0 <= j < i implies rule_holds(#[trigger] both[j], counts) by {
            assert(rule_holds(first[j], counts));
        }
        assert(first_violated_at(both, counts, i));
        lemma_evaluation_rejects(first, counts, current, i);
        lemma_evaluation_rejects(both, counts, current, i);
    } else if exists|k: int| first_violated_at(second, counts, k) {
        let k = choose|k: int| first_violated_at(second, counts, k);
        let at = first.len() + k;
        assert(both[at] == second[k]);
        assert forall|j: int| 0 <= j < at implies rule_holds(#[trigger] both[j], counts) by {
            if j < first.len() {
                assert(rule_holds(first[j], counts));
            } else {
                assert(rule_holds(second[j - first.len()], counts));
            }
        }
        assert(first_violated_at(both, counts, at));
        lemma_evaluation_rejects(second, counts, current, k);
        lemma_evaluation_rejects(both, counts, current, at);
    } else {
        lemma_evaluation_accepts(second, counts, current);
        assert forall|j: int| 0 <= j < both.len() implies rule_holds(#[trigger] both[j], counts) by {
            if j < first.len() {
                assert(rule_holds(first[j], counts));
            } else {
                assert(rule_holds(second[j - first.len()], counts));
            }
        }
        lemma_evaluation_accepts(both, counts, current);
    }
}

/// The rules that accompany a proving request. Either list may be absent,
/// and an absent list constrains nothing.
#[derive(Clone, Debug, PartialEq, Eq)]
pub struct RuleInput {
    /// Rules of any kind, checked first.
    pub rules: Option<Vec<Rule>>,
    /// Rules on the order of steps, checked after the others.
    pub ordering_rules: Option<Vec<PrecedenceRule>>,
}

/// A list of ordering rules as rules.
pub open spec fn as_rules(ordering: Seq<PrecedenceRule>) -> Seq<Rule> {
    ordering.map_values(|p: PrecedenceRule| Rule::Precedence(p))
}

/// The rules of a list that may be absent.
pub open spec fn listed(rules: Option<Vec<Rule>>) -> Seq<Rule> {
    match rules {
        Some(list) => list@,
        None => Seq::<Rule>::empty(),
    }
}

/// The ordering rules of a list that may be absent, as rules.
pub open spec fn ordered(rules: Option<Vec<PrecedenceRule>>) -> Seq<Rule> {
    match rules {
        Some(list) => as_rules(list@),
        None => Seq::<Rule>::empty(),
    }
}

/// What a rule is checked against: the filter of the chain, or nothing
/// where the chain has recorded nothing yet.
pub open spec fn record_of(filter: Option<&MembershipFilter>) -> Record {
    match filter {
        Some(f) => f.counts(),
        None => Record::nothing(),
    }
}

/// Checks one rule against the filter, or against an empty record where
/// there is no filter.
fn check_rule_in(rule: &Rule, filter: Option<&MembershipFilter>, current: &Fingerprint) -> (r:
    ConformanceResult)
    ensures
        r == rule_verdict(*rule, record_of(filter), *current),
        r is Accepted <==> rule_holds(*rule, record_of(filter)),
        (filter matches Some(f) && *rule matches Rule::Precedence(p) && f.recorded().count(
            p.preceding@,
        ) > 0) ==> r is Accepted,
{
    match rule {
        Rule::Precedence(p) => {
            let reported = match filter {
                Some(f) => f.contains(&p.preceding),
                None => false,
            };
            if reported {
                ConformanceResult::Accepted
            } else {
                ConformanceResult::PrecedenceViolation { expected: p.preceding, current: *current }
            }
        },
        Rule::Cardinality(c) => {
            let actual: u32 = match filter {
                Some(f) => f.approximate_count(&c.fingerprint),
                None => 0,
            };
            if c.min <= actual && actual <= c.max {
                ConformanceResult::Accepted
            } else {
                ConformanceResult::CardinalityViolation {
                    fingerprint: c.fingerprint,
                    actual,
                    min: c.min,
                    max: c.max,
                }
            }
        },
    }
}

/// Checks the rules in the order in which they are declared and stops at
/// the first that is violated.
fn evaluate_in(rules: &[Rule], filter: Option<&MembershipFilter>, current: &Fingerprint) -> (r:
    ConformanceResult)
    ensures
        r == evaluation(rules@, record_of(filter), *current),
        r is Accepted <==> forall|j: int|
            0 <= j < rules@.len() ==> rule_holds(#[trigger] rules@[j], record_of(filter)),
        r !is Accepted ==> exists|i: int|
            #[trigger] first_violated_at(rules@, record_of(filter), i) && r == rule_verdict(
                rules@[i],
                record_of(filter),
                *current,
            ),
{
    let mut i: usize = 0;
    while i < rules.len()
        invariant
            i <= rules@.len(),
            forall|j: int| 0 <= j < i ==> rule_holds(#[trigger] rules@[j], record_of(filter)),
        decreases rules@.len() - i,
    {
        let verdict = check_rule_in(&rules[i], filter, current);
        match verdict {
            ConformanceResult::Accepted => {},
            _ => {
                proof {
                    lemma_evaluation_rejects(rules@, record_of(filter), *current, i as int);
                    lemma_evaluation_accepts(rules@, record_of(filter), *current);
                }
                return verdict;
            },
        }
        i = i + 1;
    }
    proof {
        lemma_evaluation_accepts(rules@, record_of(filter), *current);
    }
    ConformanceResult::Accepted
}

/// Checks one rule against the filter. A precedence rule on a fingerprint
/// that was inserted is always accepted.
pub fn check_rule(rule: &Rule, filter: &MembershipFilter, current: &Fingerprint) -> (r:
    ConformanceResult)
    ensures
        r == rule_verdict(*rule, filter.counts(), *current),
        r is Accepted <==> rule_holds(*rule, filter.counts()),
        *rule matches Rule::Precedence(p) ==> (filter.recorded().count(p.preceding@) > 0 ==> r
            is Accepted),
{
    check_rule_in(rule, Some(filter), current)
}

/// What a single rule answers where nothing has been recorded yet.
pub fn check_rule_unrecorded(rule: &Rule, current: &Fingerprint) -> (r: ConformanceResult)
    ensures
        r == rule_verdict(*rule, Record::nothing(), *current),
        r is Accepted <==> rule_holds(*rule, Record::nothing()),
{
    check_rule_in(rule, None, current)
}

/// Checks the rules in the order in which they are declared and stops at the
/// first that is violated. The filter is only read.
pub fn evaluate(rules: &[Rule], filter: &MembershipFilter, current: &Fingerprint) -> (r:
    ConformanceResult)
    ensures
        r == evaluation(rules@, filter.counts(), *current),
        r is Accepted <==> forall|j: int|
            0 <= j < rules@.len() ==> rule_holds(#[trigger] rules@[j], filter.counts()),
        r !is Accepted ==> exists|i: int|
            #[trigger] first_violated_at(rules@, filter.counts(), i) && r == rule_verdict(
                rules@[i],
                filter.counts(),
                *current,
            ),
{
    evaluate_in(rules, Some(filter), current)
}

/// Checks a rule list that may be absent. An absent list accepts.
pub fn evaluate_optional(
    rules: &Option<Vec<Rule>>,
    filter: &MembershipFilter,
    current: &Fingerprint,
) -> (r: ConformanceResult)
    ensures
        r == evaluation(listed(*rules), filter.counts(), *current),
        *rules is None ==> r is Accepted,
{
    match rules {
        Some(list) => evaluate(list.as_slice(), filter, current),
        None => {
            proof {
                lemma_evaluation_accepts(Seq::<Rule>::empty(), filter.counts(), *current);
            }
            ConformanceResult::Accepted
        },
    }
}

/// A copy of a rule list.
pub fn copy_rules(rules: &[Rule]) -> (r: Vec<Rule>)
    ensures
        r@ == rules@,
{
    let mut out: Vec<Rule> = Vec::new();
    let mut i: usize = 0;
    while i < rules.len()
        invariant
            i <= rules@.len(),
            out@ == rules@.take(i as int),
        decreases rules@.len() - i,
    {
        out.push(rules[i]);
        assert(rules@.take(i + 1) =~= rules@.take(i as int).push(rules@[i as int]));
        i = i + 1;
    }
    assert(rules@.take(rules@.len() as int) =~= rules@);
    out
}

/// The ordering rules of a list as rules.
pub fn ordering_as_rules(ordering: &[PrecedenceRule]) -> (r: Vec<Rule>)
    ensures
        r@ == as_rules(ordering@),
{
    let mut out: Vec<Rule> = Vec::new();
    let mut i: usize = 0;
    while i < ordering.len()
        invariant
            i <= ordering@.len(),
            out@.len() == i,
            forall|j: int| 0 <= j < i ==> out@[j] == Rule::Precedence(ordering@[j]),
        decreases ordering@.len() - i,
    {
        out.push(Rule::Precedence(ordering[i]));
        i = i + 1;
    }
    assert(out@ =~= as_rules(ordering@));
    out
}

/// A copy of a list of ordering rules.
pub fn copy_ordering(rules: &[PrecedenceRule]) -> (r: Vec<PrecedenceRule>)
    ensures
        r@ == rules@,
{
    let mut out: Vec<PrecedenceRule> = Vec::new();
    let mut i: usize = 0;
    while i < rules.len()
        invariant
            i <= rules@.len(),
            out@ == rules@.take(i as int),
        decreases rules@.len() - i,
    {
        out.push(rules[i]);
        assert(rules@.take(i + 1) =~= rules@.take(i as int).push(rules@[i as int]));
        i = i + 1;
    }
    assert(rules@.take(rules@.len() as int) =~= rules@);
    out
}

impl RuleInput {
    /// All rules of the input in the order in which they are checked.
    pub open spec fn all_rules(&self) -> Seq<Rule> {
        listed(self.rules) + ordered(self.ordering_rules)
    }

    /// The input holds the same lists as the other, each present or absent
    /// as in the other.
    pub open spec fn same_rules(&self, other: RuleInput) -> bool {
        &&& self.rules is Some <==> other.rules is Some
        &&& self.ordering_rules is Some <==> other.ordering_rules is Some
        &&& listed(self.rules) == listed(other.rules)
        &&& ordered(self.ordering_rules) == ordered(other.ordering_rules)
        &&& self.all_rules() == other.all_rules()
    }

    /// A copy of the input.
    pub fn duplicate(&self) -> (r: RuleInput)
        ensures
            r.same_rules(*self),
    {
        let rules = match &self.rules {
            Some(list) => Some(copy_rules(list.as_slice())),
            None => None,
        };
        let ordering_rules = match &self.ordering_rules {
            Some(list) => Some(copy_ordering(list.as_slice())),
            None => None,
        };
        RuleInput { rules, ordering_rules }
    }

    /// Checks the rules of the input: the rule list first, then the ordering
    /// rules, stopping at the first violation.
    fn evaluate_in(&self, filter: Option<&MembershipFilter>, current: &Fingerprint) -> (r:
        ConformanceResult)
        ensures
            r == evaluation(self.all_rules(), record_of(filter), *current),
            self.all_rules().len() == 0 ==> r is Accepted,
    {
        proof {
            lemma_evaluation_of_concatenation(
                listed(self.rules),
                ordered(self.ordering_rules),
                record_of(filter),
                *current,
            );
            lemma_evaluation_accepts(Seq::<Rule>::empty(), record_of(filter), *current);
            lemma_evaluation_accepts(self.all_rules(), record_of(filter), *current);
        }
        let verdict = match &self.rules {
            Some(list) => evaluate_in(list.as_slice(), filter, current),
            None => ConformanceResult::Accepted,
        };
        match verdict {
            ConformanceResult::Accepted => {},
            _ => {
                return verdict;
            },
        }
        match &self.ordering_rules {
            Some(list) => {
                let rules = ordering_as_rules(list.as_slice());
                evaluate_in(rules.as_slice(), filter, current)
            },
            None => ConformanceResult::Accepted,
        }
    }

    /// Checks the rules of the input against the filter: the rule list
    /// first, then the ordering rules, stopping at the first violation.
    pub fn evaluate(&self, filter: &MembershipFilter, current: &Fingerprint) -> (r:
        ConformanceResult)
        ensures
            r == evaluation(self.all_rules(), filter.counts(), *current),
            self.rules is None && self.ordering_rules is None ==> r is Accepted,
    {
        self.evaluate_in(Some(filter), current)
    }

    /// Checks the rules of the input for a chain that has recorded nothing.
    pub fn evaluate_unrecorded(&self, current: &Fingerprint) -> (r: ConformanceResult)
        ensures
            r == evaluation(self.all_rules(), Record::nothing(), *current),
            self.all_rules().len() == 0 ==> r is Accepted,
    {
        self.evaluate_in(None, current)
    }
}

} // verus!
