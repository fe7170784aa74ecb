//! Wire forms: the plain shapes in which fingerprints, rules, metadata and
//! receipts travel between rounds and across the service boundary. A wire
//! fingerprint is a list of words of any length; reading it back checks the
//! shape.

use vstd::prelude::*;
use vstd::slice::slice_to_vec;
use crate::fingerprint::{lemma_fingerprint_view_injective, Fingerprint};
use crate::rules::{CardinalityRule, PrecedenceRule, Rule};

verus! {

/// A receipt in serialized form, paired with the fingerprint of the binary
/// it claims to come from.
#[derive(Clone, Debug, PartialEq, Eq)]
pub struct Proof {
    pub image_id: Vec<u32>,
    pub receipt: Vec<u8>,
}

/// What a proven step discloses: a result and the metadata that goes with it.
#[derive(Clone, Debug, PartialEq, Eq)]
pub struct PublicOutput {
    pub result: String,
    pub metadata: String,
}

/// A rule as it travels.
#[derive(Clone, Debug, PartialEq, Eq)]
pub enum WireRule {
    Precedence { preceding: Vec<u32> },
    Cardinality { fingerprint: Vec<u32>, min: u32, max: u32 },
}

/// The contents of a wire rule.
pub enum WireRuleView {
    Precedence { preceding: Seq<u32> },
    Cardinality { fingerprint: Seq<u32>, min: u32, max: u32 },
}

impl View for WireRule {
    type V = WireRuleView;

    open spec fn view(&self) -> WireRuleView {
        match *self {
            WireRule::Precedence { preceding } => WireRuleView::Precedence {
                preceding: preceding@,
            },
            WireRule::Cardinality { fingerprint, min, max } => WireRuleView::Cardinality {
                fingerprint: fingerprint@,
                min,
                max,
            },
        }
    }
}

impl WireRuleView {
    /// The fingerprint that the rule speaks of.
    pub open spec fn subject(self) -> Seq<u32> {
        match self {
            WireRuleView::Precedence { preceding } => preceding,
            WireRuleView::Cardinality { fingerprint, .. } => fingerprint,
        }
    }

    /// The rule names a fingerprint of eight words.
    pub open spec fn well_shaped(self) -> bool {
        self.subject().len() == 8
    }
}

/// The contents of a list of wire rules.
pub open spec fn wire_views(rules: Seq<WireRule>) -> Seq<WireRuleView> {
    rules.map_values(|w: WireRule| w@)
}

/// The wire form of a rule.
pub open spec fn wire_rule(rule: Rule) -> WireRuleView {
    match rule {
        Rule::Precedence(p) => WireRuleView::Precedence { preceding: p.preceding@ },
        Rule::Cardinality(c) => WireRuleView::Cardinality {
            fingerprint: c.fingerprint@,
            min: c.min,
            max: c.max,
        },
    }
}

/// The wire form of a rule list.
pub open spec fn wire_rules(rules: Seq<Rule>) -> Seq<WireRuleView> {
    rules.map_values(|r: Rule| wire_rule(r))
}

/// The wire form of a fingerprint that may be absent.
pub open spec fn wire_option(id: Option<Fingerprint>) -> Option<Seq<u32>> {
    match id {
        Some(f) => Some(f@),
        None => None,
    }
}

/// The contents of a word list that may be absent.
pub open spec fn option_words(id: Option<Vec<u32>>) -> Option<Seq<u32>> {
    match id {
        Some(words) => Some(words@),
        None => None,
    }
}

/// Every rule of the list names a fingerprint of eight words.
pub open spec fn all_well_shaped(rules: Seq<WireRuleView>) -> bool {
    forall|i: int| 0 <= i < rules.len() ==> (#[trigger] rules[i]).well_shaped()
}

/// Two rules with the same wire form are the same rule, and the wire form
/// of a rule is well shaped.
pub proof fn lemma_wire_rule_injective(a: Rule, b: Rule)
    ensures
        wire_rule(a).well_shaped(),
        wire_rule(a) == wire_rule(b) ==> a == b,
{
    match a {
        Rule::Precedence(p) => {
            lemma_fingerprint_view_injective(p.preceding, p.preceding);
            if let Rule::Precedence(q) = b {
                lemma_fingerprint_view_injective(p.preceding, q.preceding);
            }
        },
        Rule::Cardinality(c) => {
            lemma_fingerprint_view_injective(c.fingerprint, c.fingerprint);
            if let Rule::Cardinality(d) = b {
                lemma_fingerprint_view_injective(c.fingerprint, d.fingerprint);
            }
        },
    }
}

/// Two rule lists with the same wire form are the same list, and the wire
/// form of a rule list is well shaped throughout.
pub proof fn lemma_wire_rules_injective(a: Seq<Rule>, b: Seq<Rule>)
    ensures
        all_well_shaped(wire_rules(a)),
        wire_rules(a) == wire_rules(b) ==> a == b,
{
    assert forall|i: int| 0 <= i < a.len() implies (#[trigger] wire_rules(a)[i]).well_shaped() by {
        lemma_wire_rule_injective(a[i], a[i]);
    }
    if wire_rules(a) == wire_rules(b) {
        assert(a.len() == wire_rules(a).len());
        assert(b.len() == wire_rules(b).len());
        assert forall|i: int| 0 <= i < a.len() implies a[i] == b[i] by {
            assert(wire_rules(a)[i] == wire_rule(a[i]));
            assert(wire_rules(b)[i] == wire_rule(b[i]));
            lemma_wire_rule_injective(a[i], b[i]);
        }
        assert(a =~= b);
    }
}

impl Rule {
    /// Writes the rule in its wire form.
    pub fn to_wire(&self) -> (r: WireRule)
        ensures
            r@ == wire_rule(*self),
    {
        match self {
            Rule::Precedence(p) => WireRule::Precedence { preceding: p.preceding.to_words() },
            Rule::Cardinality(c) => WireRule::Cardinality {
                fingerprint: c.fingerprint.to_words(),
                min: c.min,
                max: c.max,
            },
        }
    }

    /// Reads a rule from its wire form. A rule whose fingerprint does not
    /// have eight words is refused.
    pub fn from_wire(wire: &WireRule) -> (r: Option<Rule>)
        ensures
            r is Some <==> wire@.well_shaped(),
            r matches Some(rule) ==> wire_rule(rule) == wire@,
    {
        match wire {
            WireRule::Precedence { preceding } => {
                match Fingerprint::from_words(preceding) {
                    Some(f) => Some(Rule::Precedence(PrecedenceRule { preceding: f })),
                    None => None,
                }
            },
            WireRule::Cardinality { fingerprint, min, max } => {
                match Fingerprint::from_words(fingerprint) {
                    Some(f) => Some(
                        Rule::Cardinality(CardinalityRule { fingerprint: f, min: *min, max: *max }),
                    ),
                    None => None,
                }
            },
        }
    }
}

/// Writes a rule list in its wire form, rule by rule.
pub fn rules_to_wire(rules: &[Rule]) -> (r: Vec<WireRule>)
    ensures
        wire_views(r@) == wire_rules(rules@),
{
    let mut out: Vec<WireRule> = Vec::new();
    let mut i: usize = 0;
    while i < rules.len()
        invariant
            i <= rules@.len(),
            out@.len() == i,
            forall|j: int| 0 <= j < i ==> (#[trigger] out@[j])@ == wire_rule(rules@[j]),
        decreases rules@.len() - i,
    {
        out.push(rules[i].to_wire());
        i = i + 1;
    }
    assert(wire_views(out@) =~= wire_rules(rules@));
    out
}

/// Reads a rule list from its wire form. The list is refused as a whole if
/// any of its rules is.
pub fn rules_from_wire(wire: &[WireRule]) -> (r: Option<Vec<Rule>>)
    ensures
        r is Some <==> all_well_shaped(wire_views(wire@)),
        r matches Some(rules) ==> wire_rules(rules@) == wire_views(wire@),
{
    let mut out: Vec<Rule> = Vec::new();
    let mut i: usize = 0;
    while i < wire.len()
        invariant
            i <= wire@.len(),
            out@.len() == i,
            forall|j: int| 0 <= j < i ==> wire_rule(#[trigger] out@[j]) == wire@[j]@,
            forall|j: int| 0 <= j < i ==> (#[trigger] wire_views(wire@)[j]).well_shaped(),
        decreases wire@.len() - i,
    {
        match Rule::from_wire(&wire[i]) {
            Some(rule) => {
                out.push(rule);
            },
            None => {
                assert(!wire_views(wire@)[i as int].well_shaped());
                return None;
            },
        }
        assert(wire_views(wire@)[i as int] == wire@[i as int]@);
        i = i + 1;
    }
    assert(wire_rules(out@) =~= wire_views(wire@));
    Some(out)
}

/// A copy of a byte string.
pub fn copy_bytes(bytes: &[u8]) -> (r: Vec<u8>)
    ensures
        r@ == bytes@,
{
    slice_to_vec(bytes)
}

} // verus!
