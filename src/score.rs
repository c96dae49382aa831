//! Aggregation of answers into scores per aspect, per domain and overall.
//!
//! A score is kept exactly, as three integers: `points`, `span` and `max`.
//! Its value is `max * points / span` and its percentage
//! `100 * points / span`. For `count` controls in scope with ordinal values
//! summing to `total`, `points = total - count` and `span = 4 * count`: each
//! scale starts at 1 and ends at 5, so all controls at the lowest level give
//! 0 and all at the highest give `max`. With no control in scope the span is
//! 0 and the score has no value; it is then shown as 0 and left out of sums.
use vstd::prelude::*;

use crate::answer::{Answer, DetailedOptional};
use crate::cid::{all_domains, CidKey, Domain, CID};
use crate::control::Control;
use crate::data::{in_group, SOCData};
use crate::schema::{ControlSchema, Schema};

verus! {

/// The highest value of a maturity score.
pub const MATURITY_SCALE: u64 = 5;

/// The highest value of a capability score.
pub const CAPABILITY_SCALE: u64 = 5;

/// The highest overall score: a maturity score for each of the five domains
/// and a capability score for the two domains that carry one.
pub const OVERALL_MAX: u64 = 35;

/// The largest span a score can have: four for each of `u64::MAX` controls.
pub const MAX_SPAN: u128 = 0x3_FFFF_FFFF_FFFF_FFFC;

/// The answer counts toward the scale in question.
pub open spec fn in_scope(a: Answer, capability: bool) -> bool {
    if capability {
        a.spec_capability_in_scope()
    } else {
        a.spec_maturity_in_scope()
    }
}

/// The ordinal value the answer contributes to that scale.
pub open spec fn ordinal(a: Answer, capability: bool) -> nat {
    if capability {
        a.spec_capability_score()->Some_0 as nat
    } else {
        a.spec_maturity_score()->Some_0 as nat
    }
}

/// The control is scored: the scheme knows it, does not mark it as kept
/// only for compatibility, and its answer is in scope.
pub open spec fn counted(c: Control, s: Option<ControlSchema>, capability: bool) -> bool {
    s is Some && !s->Some_0.spec_nist_only() && in_scope(c.spec_answer(), capability)
}

/// How many controls of the group are scored, and the sum of their ordinal
/// values.
pub open spec fn tally(
    e: Seq<(CidKey, Control)>,
    schema: Schema,
    d: Domain,
    a: Option<u8>,
    capability: bool,
) -> (nat, nat)
    decreases e.len(),
{
    if e.len() == 0 {
        (0, 0)
    } else {
        let p = tally(e.drop_last(), schema, d, a, capability);
        let (k, c) = e.last();
        if in_group(k, d, a) && counted(c, schema.schema_of(CID::spec_from_key(k)), capability) {
            (p.0 + 1, p.1 + ordinal(c.spec_answer(), capability))
        } else {
            p
        }
    }
}

/// Every scored control of the group has ordinal value `v`.
pub open spec fn all_at(
    e: Seq<(CidKey, Control)>,
    schema: Schema,
    d: Domain,
    a: Option<u8>,
    capability: bool,
    v: nat,
) -> bool {
    forall|i: int|
        0 <= i < e.len() && in_group(e[i].0, d, a) && counted(
            e[i].1,
            schema.schema_of(CID::spec_from_key(e[i].0)),
            capability,
        ) ==> ordinal((#[trigger] e[i]).1.spec_answer(), capability) == v
}

/// All scored controls at the top of the scale give points equal to the
/// span (the full score); all at the bottom give no points (a score of 0).
pub proof fn lemma_tally_extremes(
    e: Seq<(CidKey, Control)>,
    schema: Schema,
    d: Domain,
    a: Option<u8>,
    capability: bool,
)
    ensures
        all_at(e, schema, d, a, capability, 5) ==> tally(e, schema, d, a, capability).1 == 5 * tally(
            e,
            schema,
            d,
            a,
            capability,
        ).0,
        all_at(e, schema, d, a, capability, 1) ==> tally(e, schema, d, a, capability).1 == tally(
            e,
            schema,
            d,
            a,
            capability,
        ).0,
    decreases e.len(),
{
    if e.len() > 0 {
        let init = e.drop_last();
        lemma_tally_extremes(init, schema, d, a, capability);
        assert forall|v: nat| all_at(e, schema, d, a, capability, v) implies all_at(init, schema, d, a, capability, v) by {
            assert forall|i: int|
                0 <= i < init.len() && in_group(init[i].0, d, a) && counted(
                    init[i].1,
                    schema.schema_of(CID::spec_from_key(init[i].0)),
                    capability,
                ) implies ordinal((#[trigger] init[i]).1.spec_answer(), capability) == v by {
                assert(init[i] == e[i]);
            }
        }
        assert(e.last() == e[e.len() - 1]);
    }
}

/// A control answered `NotRequired` changes no capability tally: inserting
/// one anywhere leaves both the count and the total as they were.
pub proof fn lemma_not_required_ignored(
    e: Seq<(CidKey, Control)>,
    i: int,
    x: (CidKey, Control),
    schema: Schema,
    d: Domain,
    a: Option<u8>,
)
    requires
        0 <= i <= e.len(),
        x.1.spec_answer() == Answer::DetailedOptional(DetailedOptional::NotRequired),
    ensures
        tally(e.insert(i, x), schema, d, a, true) == tally(e, schema, d, a, true),
    decreases e.len(),
{
    let f = e.insert(i, x);
    if i == e.len() {
        assert(f.drop_last() =~= e);
        assert(f.last() == x);
    } else {
        lemma_not_required_ignored(e.drop_last(), i, x, schema, d, a);
        assert(f.drop_last() =~= e.drop_last().insert(i, x));
        assert(f.last() == e.last());
    }
}

/// An exact score: value `max * points / span`, no value when `span` is 0.
#[derive(Clone, Copy, Debug, PartialEq, Eq, Structural)]
pub struct Score {
    points: u128,
    span: u128,
    max: u64,
}

impl Score {
    pub closed spec fn spec_points(self) -> nat {
        self.points as nat
    }

    pub closed spec fn spec_span(self) -> nat {
        self.span as nat
    }

    pub closed spec fn spec_max(self) -> nat {
        self.max as nat
    }

    /// The score of `t = (count, total)` on a scale up to `max`.
    pub open spec fn of_tally(self, t: (nat, nat), max: nat) -> bool {
        &&& t.1 >= t.0
        &&& self.spec_points() == t.1 - t.0
        &&& self.spec_span() == 4 * t.0
        &&& self.spec_max() == max
    }

    /// The points never exceed the span, and the span fits its bound.
    pub open spec fn wf(self) -> bool {
        self.spec_points() <= self.spec_span() <= MAX_SPAN
    }

    /// The score has a value: some control was in scope.
    pub open spec fn applicable(self) -> bool {
        self.spec_span() > 0
    }

    /// The score of `t = (count, total)` on a scale up to `max`, as a value.
    pub closed spec fn exact(t: (nat, nat), max: nat) -> Score {
        Score { points: (t.1 - t.0) as u128, span: (4 * t.0) as u128, max: max as u64 }
    }

    pub fn new(points: u128, span: u128, max: u64) -> (r: Score)
        requires
            points <= span <= MAX_SPAN,
        ensures
            r.wf(),
            r.spec_points() == points,
            r.spec_span() == span,
            r.spec_max() == max,
    {
        Score { points, span, max }
    }

    pub fn points(&self) -> (r: u128)
        ensures
            r == self.spec_points(),
    {
        self.points
    }

    pub fn span(&self) -> (r: u128)
        ensures
            r == self.spec_span(),
    {
        self.span
    }

    /// The highest value the score can take.
    pub fn max(&self) -> (r: u64)
        ensures
            r == self.spec_max(),
    {
        self.max
    }

    /// Whether any control was in scope.
    pub fn is_applicable(&self) -> (r: bool)
        ensures
            r == self.applicable(),
    {
        self.span > 0
    }

    /// Whether the score reaches its maximum.
    pub fn is_full(&self) -> (r: bool)
        ensures
            r == (self.applicable() && self.spec_points() == self.spec_span()),
    {
        self.span > 0 && self.points == self.span
    }

    /// The whole percentage, rounded down; 0 when the score has no value.
    pub fn percentage_or_zero(&self) -> (r: u128)
        requires
            self.wf(),
        ensures
            r == if self.applicable() {
                100 * self.spec_points() / self.spec_span()
            } else {
                0
            },
    {
        if self.span == 0 {
            0
        } else {
            assert(100 * self.points <= 100 * MAX_SPAN) by (nonlinear_arith)
                requires self.points <= MAX_SPAN;
            100 * self.points / self.span
        }
    }
}

/// The scores that make up the overall score, and its maximum.
#[derive(Clone, Debug, PartialEq, Eq)]
pub struct OverallScore {
    parts: Vec<Score>,
    max: u64,
}

impl OverallScore {
    pub closed spec fn spec_parts(&self) -> Seq<Score> {
        self.parts@
    }

    pub closed spec fn spec_max(&self) -> nat {
        self.max as nat
    }

    /// The scores to add up: each has a value.
    pub fn parts(&self) -> (r: &Vec<Score>)
        ensures
            r@ == self.spec_parts(),
    {
        &self.parts
    }

    /// The highest value the sum can take.
    pub fn max(&self) -> (r: u64)
        ensures
            r == self.spec_max(),
    {
        self.max
    }
}

/// A working set read against its scheme.
pub struct Stats {
    data: SOCData,
    schema: Schema,
}

impl Stats {
    pub closed spec fn spec_data(&self) -> SOCData {
        self.data
    }

    pub closed spec fn spec_schema(&self) -> Schema {
        self.schema
    }

    /// How many controls of the group are scored, and their ordinal sum.
    pub open spec fn tally_of(&self, d: Domain, a: Option<u8>, capability: bool) -> (nat, nat) {
        tally(self.spec_data().entries(), self.spec_schema(), d, a, capability)
    }

    /// The scores that the overall score adds up, for the first `n` domains:
    /// per domain its maturity score, then its capability score, each only
    /// where it has a value.
    pub open spec fn overall_parts(&self, n: nat) -> Seq<Score>
        decreases n,
    {
        if n == 0 {
            Seq::<Score>::empty()
        } else {
            let d = all_domains()[n - 1];
            let m = Score::exact(self.tally_of(d, None, false), MATURITY_SCALE as nat);
            let c = Score::exact(self.tally_of(d, None, true), CAPABILITY_SCALE as nat);
            let prev = self.overall_parts((n - 1) as nat);
            let with_m = if m.applicable() {
                prev.push(m)
            } else {
                prev
            };
            if c.applicable() {
                with_m.push(c)
            } else {
                with_m
            }
        }
    }

    pub fn new(data: SOCData, schema: Schema) -> (r: Stats)
        ensures
            r.spec_data() == data,
            r.spec_schema() == schema,
    {
        Stats { data, schema }
    }

    pub fn data(&self) -> (r: &SOCData)
        ensures
            *r == self.spec_data(),
    {
        &self.data
    }

    pub fn schema(&self) -> (r: &Schema)
        ensures
            *r == self.spec_schema(),
    {
        &self.schema
    }

    /// The score of one group of controls on one scale.
    fn aggregate(&self, domain: &Domain, aspect: Option<u8>, capability: bool, scale: u64) -> (r: Score)
        ensures
            r.wf(),
            r.of_tally(self.tally_of(*domain, aspect, capability), scale as nat),
            r == Score::exact(self.tally_of(*domain, aspect, capability), scale as nat),
    {
        let ghost e = self.data.entries();
        let n = self.data.len();
        let d = domain.index();
        let mut count: u128 = 0;
        let mut total: u128 = 0;
        let mut i: usize = 0;
        while i < n
            invariant
                n == e.len(),
                e == self.data.entries(),
                d == domain.spec_index(),
                i <= n,
                (count as nat, total as nat) == tally(e.subrange(0, i as int), self.schema, *domain, aspect, capability),
                count <= i,
                count <= total <= 5 * count,
            decreases n - i,
        {
            proof {
                assert(e.subrange(0, i as int + 1).drop_last() =~= e.subrange(0, i as int));
                assert(e.subrange(0, i as int + 1).last() == e[i as int]);
            }
            match self.data.entry_at(i) {
                Some((k, c)) => {
                    let wanted = match aspect {
                        Some(a) => k.0 == d && k.1 == a,
                        None => k.0 == d,
                    };
                    if wanted {
                        let cid = CID::from_key(*k);
                        match self.schema.control_schema(&cid) {
                            Some(s) => {
                                if !s.nist_only() {
                                    let a = c.answer();
                                    proof {
                                        crate::answer::lemma_scored_range(*a);
                                    }
                                    let v = if capability {
                                        if a.capability_in_scope() {
                                            a.capability_score()
                                        } else {
                                            None
                                        }
                                    } else {
                                        if a.maturity_in_scope() {
                                            a.maturity_score()
                                        } else {
                                            None
                                        }
                                    };
                                    match v {
                                        Some(x) => {
                                            count = count + 1;
                                            total = total + x as u128;
                                        },
                                        None => {},
                                    }
                                }
                            },
                            None => {},
                        }
                    }
                },
                None => {},
            }
            i = i + 1;
        }
        proof {
            assert(e.subrange(0, n as int) =~= e);
        }
        Score { points: total - count, span: 4 * count, max: scale }
    }

    /// The maturity score of one aspect of a domain.
    pub fn maturity_by_aspect(&self, domain: &Domain, aspect_id: u8) -> (r: Score)
        ensures
            r.wf(),
            r.of_tally(self.tally_of(*domain, Some(aspect_id), false), MATURITY_SCALE as nat),
    {
        self.aggregate(domain, Some(aspect_id), false, MATURITY_SCALE)
    }

    /// The capability score of one aspect of a domain.
    pub fn capability_by_aspect(&self, domain: &Domain, aspect_id: u8) -> (r: Score)
        ensures
            r.wf(),
            r.of_tally(self.tally_of(*domain, Some(aspect_id), true), CAPABILITY_SCALE as nat),
    {
        self.aggregate(domain, Some(aspect_id), true, CAPABILITY_SCALE)
    }

    /// The maturity score of a domain, over all its controls.
    pub fn maturity_by_domain(&self, domain: &Domain) -> (r: Score)
        ensures
            r.wf(),
            r.of_tally(self.tally_of(*domain, None, false), MATURITY_SCALE as nat),
    {
        self.aggregate(domain, None, false, MATURITY_SCALE)
    }

    /// The capability score of a domain, over all its controls.
    pub fn capability_by_domain(&self, domain: &Domain) -> (r: Score)
        ensures
            r.wf(),
            r.of_tally(self.tally_of(*domain, None, true), CAPABILITY_SCALE as nat),
    {
        self.aggregate(domain, None, true, CAPABILITY_SCALE)
    }

    /// The overall score: the scores of all domains that have a value, to be
    /// added up, out of `OVERALL_MAX`.
    pub fn score_overall(&self) -> (r: OverallScore)
        ensures
            r.spec_parts() == self.overall_parts(5),
            r.spec_max() == OVERALL_MAX,
    {
        let domains = Domain::all();
        let mut parts: Vec<Score> = Vec::new();
        let mut i: usize = 0;
        while i < 5
            invariant
                domains@ == all_domains(),
                i <= 5,
                parts@ == self.overall_parts(i as nat),
            decreases 5 - i,
        {
            let d = domains[i];
            let m = self.aggregate(&d, None, false, MATURITY_SCALE);
            let c = self.aggregate(&d, None, true, CAPABILITY_SCALE);
            if m.is_applicable() {
                parts.push(m);
            }
            if c.is_applicable() {
                parts.push(c);
            }
            i = i + 1;
        }
        OverallScore { parts, max: OVERALL_MAX }
    }
}

} // verus!
