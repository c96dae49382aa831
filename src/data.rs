//! The working set of answers: one control per identifier, kept in
//! identifier order, plus notes and profile answers.
use vstd::prelude::*;
use indexmap::IndexMap;

use crate::answer::{lemma_same_kind, Answer};
use crate::aspect::{strays, Aspect};
use crate::cid::{key_lt, CidKey, Domain, CID};
use crate::control::{is_starting_answer, Control};
use crate::control_map::{
    control_at, control_count, control_entries, get_control, has_key, insert_control,
    is_permutation, keys_unique, new_control_map, new_profile_map, profile_entries, remove_control, sort_control_map, takes,
};
use crate::error::CmmError;
use crate::schema::Schema;
use crate::score::Score;

verus! {

/// The keys strictly ascend.
pub open spec fn sorted_keys(e: Seq<(CidKey, Control)>) -> bool {
    forall|i: int, j: int| 0 <= i < j < e.len() ==> key_lt(e[i].0, e[j].0)
}

/// Every key is the key of some identifier.
pub open spec fn valid_keys(e: Seq<(CidKey, Control)>) -> bool {
    forall|i: int| 0 <= i < e.len() ==> (#[trigger] e[i]).0.0 < 5
}

/// The control stored under key `k`.
pub open spec fn lookup(e: Seq<(CidKey, Control)>, k: CidKey) -> Option<Control> {
    if has_key(e, k) {
        Some(e[choose|i: int| 0 <= i < e.len() && e[i].0 == k].1)
    } else {
        None
    }
}

/// The control given last for the identifier with key `k`.
pub open spec fn last_given(s: Seq<(CID, Control)>, k: CidKey) -> Option<Control>
    decreases s.len(),
{
    if s.len() == 0 {
        None
    } else if s.last().0.spec_key() == k {
        Some(s.last().1)
    } else {
        last_given(s.drop_last(), k)
    }
}

proof fn lemma_lookup(e: Seq<(CidKey, Control)>, k: CidKey)
    requires
        keys_unique(e),
    ensures
        forall|i: int| 0 <= i < e.len() && e[i].0 == k ==> lookup(e, k) == Some(#[trigger] e[i].1),
        !has_key(e, k) ==> lookup(e, k) is None,
{
}

proof fn lemma_sorted_unique(e: Seq<(CidKey, Control)>)
    requires
        sorted_keys(e),
    ensures
        keys_unique(e),
{
    assert forall|i: int, j: int| 0 <= i < e.len() && 0 <= j < e.len() && i != j implies e[i].0
        != e[j].0 by {
        if i < j {
            assert(key_lt(e[i].0, e[j].0));
        } else {
            assert(key_lt(e[j].0, e[i].0));
        }
    }
}

/// A map holding, for each identifier given, the control given last for it,
/// in identifier order.
fn build_control_map(controls: &Vec<(CID, Control)>) -> (m: IndexMap<CidKey, Control>)
    ensures
        sorted_keys(control_entries(m)),
        valid_keys(control_entries(m)),
        forall|k: CidKey| #[trigger] lookup(control_entries(m), k) == last_given(controls@, k),
{
    let mut m = new_control_map();
    let mut i: usize = 0;
    proof {
        assert forall|k: CidKey| #[trigger] lookup(control_entries(m), k) == last_given(controls@.subrange(0, 0), k) by {
        }
    }
    while i < controls.len()
        invariant
            i <= controls@.len(),
            keys_unique(control_entries(m)),
            valid_keys(control_entries(m)),
            forall|k: CidKey| #[trigger] lookup(control_entries(m), k) == last_given(controls@.subrange(0, i as int), k),
        decreases controls@.len() - i,
    {
        let ghost e = control_entries(m);
        let key = controls[i].0.key();
        let c = controls[i].1.duplicate();
        proof {
            controls@[i as int].0.lemma_key(controls@[i as int].0);
        }
        insert_control(&mut m, key, c);
        let ghost e2 = control_entries(m);
        proof {
            let pre = controls@.subrange(0, i as int);
            let pre2 = controls@.subrange(0, i as int + 1);
            assert(pre2.drop_last() =~= pre);
            assert(pre2.last() == controls@[i as int]);
            if has_key(e, key) {
                let j = choose|j: int| 0 <= j < e.len() && e[j].0 == key;
                assert(e2 == e.update(j, (key, c)));
                assert(keys_unique(e2));
                assert forall|k: CidKey| #[trigger] lookup(e2, k) == last_given(pre2, k) by {
                    lemma_lookup(e, k);
                    lemma_lookup(e2, k);
                    if k == key {
                        assert(e2[j].0 == k);
                    } else if has_key(e, k) {
                        let t = choose|t: int| 0 <= t < e.len() && e[t].0 == k;
                        assert(e2[t] == e[t]);
                    } else {
                        assert(!has_key(e2, k)) by {
                            if has_key(e2, k) {
                                let t = choose|t: int| 0 <= t < e2.len() && e2[t].0 == k;
                                assert(e[t].0 == k);
                            }
                        }
                    }
                }
            } else {
                assert(e2 == e.push((key, c)));
                assert(keys_unique(e2));
                assert forall|k: CidKey| #[trigger] lookup(e2, k) == last_given(pre2, k) by {
                    lemma_lookup(e, k);
                    lemma_lookup(e2, k);
                    if k == key {
                        assert(e2[e.len() as int].0 == k);
                    } else if has_key(e, k) {
                        let t = choose|t: int| 0 <= t < e.len() && e[t].0 == k;
                        assert(e2[t] == e[t]);
                    } else {
                        assert(!has_key(e2, k)) by {
                            if has_key(e2, k) {
                                let t = choose|t: int| 0 <= t < e2.len() && e2[t].0 == k;
                                if t < e.len() {
                                    assert(e[t].0 == k);
                                }
                            }
                        }
                    }
                }
            }
            assert(valid_keys(e2)) by {
                assert forall|t: int| 0 <= t < e2.len() implies (#[trigger] e2[t]).0.0 < 5 by {
                    if t >= e.len() || e2[t] != e[t] {
                        assert(e2[t].0 == key);
                    }
                }
            }
        }
        i = i + 1;
    }
    let ghost e = control_entries(m);
    sort_control_map(&mut m);
    proof {
        assert(controls@.subrange(0, controls@.len() as int) =~= controls@);
        let e2 = control_entries(m);
        let p = choose|p: Seq<int>| is_permutation(p, e.len() as int) && e2.len() == e.len() && forall|i: int|
            0 <= i < e2.len() ==> #[trigger] e2[i] == e[p[i]];
        assert(keys_unique(e2)) by {
            assert forall|a: int, b: int| 0 <= a < e2.len() && 0 <= b < e2.len() && a != b implies e2[a].0 != e2[b].0 by {
                assert(e2[a] == e[p[a]]);
                assert(e2[b] == e[p[b]]);
            }
        }
        assert(sorted_keys(e2)) by {
            assert forall|a: int, b: int| 0 <= a < b < e2.len() implies key_lt(e2[a].0, e2[b].0) by {
                assert(e2[a] == e[p[a]]);
                assert(e2[b] == e[p[b]]);
                assert(p[a] != p[b]);
                assert(e[p[a]].0 != e[p[b]].0);
                assert(!key_lt(e2[b].0, e2[a].0));
            }
        }
        assert(valid_keys(e2)) by {
            assert forall|t: int| 0 <= t < e2.len() implies (#[trigger] e2[t]).0.0 < 5 by {
                assert(e2[t] == e[p[t]]);
            }
        }
        assert forall|k: CidKey| #[trigger] lookup(e2, k) == last_given(controls@, k) by {
            lemma_lookup(e, k);
            lemma_lookup(e2, k);
            if has_key(e, k) {
                let j = choose|j: int| 0 <= j < e.len() && e[j].0 == k;
                assert(takes(p, j));
                let t = choose|t: int| 0 <= t < p.len() && p[t] == j;
                assert(e2[t] == e[j]);
            } else {
                assert(!has_key(e2, k)) by {
                    if has_key(e2, k) {
                        let t = choose|t: int| 0 <= t < e2.len() && e2[t].0 == k;
                        assert(e2[t] == e[p[t]]);
                    }
                }
            }
        }
    }
    m
}


/// The entries of a list of identifiers and controls, by key.
pub open spec fn keyed(s: Seq<(CID, Control)>) -> Seq<(CidKey, Control)> {
    s.map_values(|x: (CID, Control)| (x.0.spec_key(), x.1))
}

/// The identifiers strictly ascend.
pub open spec fn cids_ascend(s: Seq<(CID, Control)>) -> bool {
    forall|i: int, j: int| 0 <= i < j < s.len() ==> key_lt(s[i].0.spec_key(), s[j].0.spec_key())
}

proof fn lemma_lookup_drop_last(e: Seq<(CidKey, Control)>, k: CidKey)
    requires
        keys_unique(e),
        e.len() > 0,
    ensures
        lookup(e.drop_last(), k) == if k == e.last().0 {
            None
        } else {
            lookup(e, k)
        },
{
    let d = e.drop_last();
    assert(keys_unique(d));
    lemma_lookup(e, k);
    lemma_lookup(d, k);
    if has_key(d, k) {
        let t = choose|t: int| 0 <= t < d.len() && d[t].0 == k;
        assert(e[t] == d[t]);
    } else if k != e.last().0 {
        assert(!has_key(e, k)) by {
            if has_key(e, k) {
                let t = choose|t: int| 0 <= t < e.len() && e[t].0 == k;
                assert(t < d.len());
                assert(d[t] == e[t]);
            }
        }
    }
}

/// Two maps sorted by key with the same lookups are equal.
proof fn lemma_sorted_ext(e1: Seq<(CidKey, Control)>, e2: Seq<(CidKey, Control)>)
    requires
        sorted_keys(e1),
        sorted_keys(e2),
        forall|k: CidKey| #[trigger] lookup(e1, k) == lookup(e2, k),
    ensures
        e1 == e2,
    decreases e1.len() + e2.len(),
{
    lemma_sorted_unique(e1);
    lemma_sorted_unique(e2);
    if e1.len() == 0 || e2.len() == 0 {
        if e1.len() > 0 {
            lemma_lookup(e1, e1[0].0);
            lemma_lookup(e2, e1[0].0);
            assert(lookup(e1, e1[0].0) == lookup(e2, e1[0].0));
        }
        if e2.len() > 0 {
            lemma_lookup(e1, e2[0].0);
            lemma_lookup(e2, e2[0].0);
            assert(lookup(e1, e2[0].0) == lookup(e2, e2[0].0));
        }
        assert(e1 =~= e2);
    } else {
        let n1 = e1.len() - 1;
        let n2 = e2.len() - 1;
        let k1 = e1[n1].0;
        let k2 = e2[n2].0;
        lemma_lookup(e1, k1);
        lemma_lookup(e2, k1);
        lemma_lookup(e1, k2);
        lemma_lookup(e2, k2);
        assert(lookup(e1, k1) == lookup(e2, k1));
        assert(lookup(e1, k2) == lookup(e2, k2));
        let j = choose|j: int| 0 <= j < e2.len() && e2[j].0 == k1;
        let t = choose|t: int| 0 <= t < e1.len() && e1[t].0 == k2;
        if j < n2 {
            assert(key_lt(k1, k2));
            if t < n1 {
                assert(key_lt(k2, k1));
            }
        }
        assert(k1 == k2);
        assert(e1.last() == e2.last());
        let d1 = e1.drop_last();
        let d2 = e2.drop_last();
        assert forall|k: CidKey| #[trigger] lookup(d1, k) == lookup(d2, k) by {
            lemma_lookup_drop_last(e1, k);
            lemma_lookup_drop_last(e2, k);
            assert(lookup(e1, k) == lookup(e2, k));
        }
        lemma_sorted_ext(d1, d2);
        assert(e1 =~= d1.push(e1.last()));
        assert(e2 =~= d2.push(e2.last()));
    }
}

/// A list already in identifier order is kept as it is.
proof fn lemma_ascending_input(s: Seq<(CID, Control)>, e: Seq<(CidKey, Control)>)
    requires
        cids_ascend(s),
        sorted_keys(e),
        forall|k: CidKey| #[trigger] lookup(e, k) == last_given(s, k),
    ensures
        e == keyed(s),
{
    let ks = keyed(s);
    assert(sorted_keys(ks));
    lemma_sorted_unique(ks);
    assert forall|k: CidKey| #[trigger] lookup(e, k) == lookup(ks, k) by {
        lemma_lookup(ks, k);
        lemma_last_given(s, k);
        if last_given(s, k) is Some {
            let i = choose|i: int|
                0 <= i < s.len() && s[i].0.spec_key() == k && s[i].1 == last_given(s, k)->Some_0;
            assert(ks[i].0 == k);
        } else {
            assert(!has_key(ks, k)) by {
                if has_key(ks, k) {
                    let i = choose|i: int| 0 <= i < ks.len() && ks[i].0 == k;
                    assert(s[i].0.spec_key() == k);
                }
            }
        }
    }
    lemma_sorted_ext(e, ks);
}

/// `k` lies in domain `d` and, where `a` is given, in aspect `a`.
pub open spec fn in_group(k: CidKey, d: Domain, a: Option<u8>) -> bool {
    k.0 == d.spec_index() && (a is None || k.1 == a->Some_0)
}

/// The entries in domain `d` (and aspect `a`, where given), in order.
pub open spec fn group_entries(e: Seq<(CidKey, Control)>, d: Domain, a: Option<u8>) -> Seq<
    (CidKey, Control),
>
    decreases e.len(),
{
    if e.len() == 0 {
        e
    } else {
        let p = group_entries(e.drop_last(), d, a);
        if in_group(e.last().0, d, a) {
            p.push(e.last())
        } else {
            p
        }
    }
}

/// `c` lies below `p`: another identifier of the same domain that agrees
/// with `p` on every segment `p` has.
pub open spec fn is_child_of(c: CidKey, p: CidKey) -> bool {
    &&& c.0 == p.0
    &&& c != p
    &&& p.1 != 0 ==> c.1 == p.1
    &&& p.2 != 0 ==> c.2 == p.2
    &&& p.3 != 0 ==> c.3 == p.3
    &&& p.4 != 0 ==> c.4 == p.4
}

/// Among the yes/no controls below `p`: how many are answered yes, and how
/// many there are.
pub open spec fn completeness(e: Seq<(CidKey, Control)>, p: CidKey) -> (nat, nat)
    decreases e.len(),
{
    if e.len() == 0 {
        (0, 0)
    } else {
        let q = completeness(e.drop_last(), p);
        let (k, c) = e.last();
        if is_child_of(k, p) && c.spec_answer() is Bool {
            (q.0 + if c.spec_answer() == Answer::Bool(true) {
                1nat
            } else {
                0nat
            }, q.1 + 1)
        } else {
            q
        }
    }
}

/// The controls of the aspects, one after the other.
pub open spec fn joined(a: Seq<Aspect>) -> Seq<(CID, Control)>
    decreases a.len(),
{
    if a.len() == 0 {
        Seq::<(CID, Control)>::empty()
    } else {
        joined(a.drop_last()) + a.last().spec_controls()
    }
}

/// `s` lists the entries of `g`, by identifier.
pub open spec fn lists(s: Seq<(CID, Control)>, g: Seq<(CidKey, Control)>) -> bool {
    s.len() == g.len() && forall|i: int| 0 <= i < s.len() ==> (#[trigger] s[i]).0.spec_key() == g[i].0 && s[i].1 == g[i].1
}

/// Each aspect holds controls of one aspect, at least one, and neighbours
/// differ in their aspect.
pub open spec fn proper_runs(a: Seq<Aspect>) -> bool {
    &&& forall|i: int| 0 <= i < a.len() ==> (#[trigger] a[i]).spec_controls().len() > 0
    &&& forall|i: int, j: int| 0 <= i < a.len() && 0 <= j < a[i].spec_controls().len() ==> !#[trigger] strays(a[i].spec_controls(), j)
    &&& forall|i: int| 0 < i < a.len() ==> (#[trigger] a[i]).spec_controls()[0].0.spec_aspect_id() != a[i - 1].spec_controls()[0].0.spec_aspect_id()
}

/// `new` has the keys of `old` at the same places; the control under key
/// `k` is related to its previous value by `step`, every other control is
/// unchanged.
pub open spec fn same_but_at(
    old: Seq<(CidKey, Control)>,
    new: Seq<(CidKey, Control)>,
    k: CidKey,
    step: spec_fn(Control, Control) -> bool,
) -> bool {
    &&& new.len() == old.len()
    &&& forall|i: int| 0 <= i < old.len() ==> (#[trigger] new[i]).0 == old[i].0
    &&& forall|i: int| 0 <= i < old.len() && old[i].0 != k ==> (#[trigger] new[i]).1 == old[i].1
    &&& forall|i: int| 0 <= i < old.len() && old[i].0 == k ==> step(old[i].1, #[trigger] new[i].1)
}

/// An incoming record: an identifier, an answer and a comment.
pub type Incoming = (CID, Answer, Option<String>);

/// Incoming record `j` would change the kind of an existing answer.
pub open spec fn conflicts(e: Seq<(CidKey, Control)>, inc: Seq<Incoming>, j: int) -> bool {
    lookup(e, inc[j].0.spec_key()) is Some && !lookup(e, inc[j].0.spec_key())->Some_0.spec_answer().same_kind(&inc[j].1)
}

/// The answer and comment given last for key `k` among the incoming records.
pub open spec fn last_incoming(inc: Seq<Incoming>, k: CidKey) -> Option<(Answer, Option<String>)>
    decreases inc.len(),
{
    if inc.len() == 0 {
        None
    } else if inc.last().0.spec_key() == k {
        Some((inc.last().1, inc.last().2))
    } else {
        last_incoming(inc.drop_last(), k)
    }
}

/// `new` is `old` with every incoming record applied to the control it
/// names: the last record for a control sets its answer and comment, the
/// pinned flag stays; records for absent controls change nothing.
pub open spec fn merged(old: Seq<(CidKey, Control)>, new: Seq<(CidKey, Control)>, inc: Seq<Incoming>) -> bool {
    &&& new.len() == old.len()
    &&& forall|i: int| 0 <= i < old.len() ==> (#[trigger] new[i]).0 == old[i].0
    &&& forall|i: int|
        0 <= i < old.len() ==> match last_incoming(inc, old[i].0) {
            Some(x) => (#[trigger] new[i]).1.spec_answer() == x.0 && new[i].1.spec_comment() == x.1
                && new[i].1.spec_bookmark() == old[i].1.spec_bookmark(),
            None => new[i].1 == old[i].1,
        }
}

proof fn lemma_group_in_domain(e: Seq<(CidKey, Control)>, d: Domain, a: Option<u8>)
    ensures
        forall|t: int| 0 <= t < group_entries(e, d, a).len() ==> in_group(#[trigger] group_entries(e, d, a)[t].0, d, a),
    decreases e.len(),
{
    if e.len() > 0 {
        lemma_group_in_domain(e.drop_last(), d, a);
        let p = group_entries(e.drop_last(), d, a);
        assert forall|t: int| 0 <= t < group_entries(e, d, a).len() implies in_group(#[trigger] group_entries(e, d, a)[t].0, d, a) by {
            if t < p.len() {
                assert(group_entries(e, d, a)[t] == p[t]);
            }
        }
    }
}

proof fn lemma_index_injective(a: Domain, b: Domain)
    ensures
        a.spec_index() == b.spec_index() ==> a == b,
{
}

proof fn lemma_last_given(s: Seq<(CID, Control)>, k: CidKey)
    ensures
        last_given(s, k) is Some <==> exists|i: int| 0 <= i < s.len() && s[i].0.spec_key() == k,
        last_given(s, k) is Some ==> exists|i: int|
            0 <= i < s.len() && s[i].0.spec_key() == k && s[i].1 == last_given(s, k)->Some_0,
    decreases s.len(),
{
    if s.len() > 0 {
        lemma_last_given(s.drop_last(), k);
        if last_given(s, k) is Some && s.last().0.spec_key() != k {
            let i = choose|i: int|
                0 <= i < s.drop_last().len() && s.drop_last()[i].0.spec_key() == k && s.drop_last()[i].1
                    == last_given(s.drop_last(), k)->Some_0;
            assert(s[i] == s.drop_last()[i]);
        }
        if exists|i: int| 0 <= i < s.len() && s[i].0.spec_key() == k {
            let i = choose|i: int| 0 <= i < s.len() && s[i].0.spec_key() == k;
            if i < s.len() - 1 {
                assert(s.drop_last()[i] == s[i]);
            }
        }
    }
}

/// The mutable working set: the control of each identifier, in identifier
/// order, plus free-text notes and profile answers.
#[derive(Debug)]
pub struct SOCData {
    controls: IndexMap<CidKey, Control>,
    notes: Option<String>,
    profile: IndexMap<String, String>,
}

impl SOCData {
    /// The key and control of each identifier, in order.
    pub closed spec fn entries(&self) -> Seq<(CidKey, Control)> {
        control_entries(self.controls)
    }

    pub closed spec fn spec_notes(&self) -> Option<String> {
        self.notes
    }

    /// The profile answers, question key first.
    pub closed spec fn spec_profile(&self) -> Seq<(String, String)> {
        profile_entries(self.profile)
    }

    /// The controls are sorted by identifier, each identifier once.
    pub open spec fn wf(&self) -> bool {
        sorted_keys(self.entries()) && valid_keys(self.entries())
    }

    /// The control of an identifier, if there is one.
    pub open spec fn control_of(&self, c: CID) -> Option<Control> {
        lookup(self.entries(), c.spec_key())
    }

    /// The working set of the given controls, sorted by identifier; where an
    /// identifier is given twice, the later control counts.
    pub fn from_map(controls: Vec<(CID, Control)>) -> (r: SOCData)
        ensures
            r.wf(),
            forall|c: CID| #[trigger] r.control_of(c) == last_given(controls@, c.spec_key()),
            cids_ascend(controls@) ==> r.entries() == keyed(controls@),
            r.spec_notes() is None,
            r.spec_profile().len() == 0,
    {
        let r = SOCData { controls: build_control_map(&controls), notes: None, profile: new_profile_map() };
        proof {
            if cids_ascend(controls@) {
                lemma_ascending_input(controls@, r.entries());
            }
        }
        r
    }

    /// The working set of the given controls, notes and profile answers; the
    /// controls are sorted as in `from_map`.
    pub fn new(controls: Vec<(CID, Control)>, notes: Option<String>, profile: IndexMap<String, String>) -> (r: SOCData)
        ensures
            r.wf(),
            forall|c: CID| #[trigger] r.control_of(c) == last_given(controls@, c.spec_key()),
            cids_ascend(controls@) ==> r.entries() == keyed(controls@),
            r.spec_notes() == notes,
            r.spec_profile() == profile_entries(profile),
    {
        let ghost input = controls@;
        let r = SOCData { controls: build_control_map(&controls), notes, profile };
        proof {
            if cids_ascend(input) {
                lemma_ascending_input(input, r.entries());
            }
        }
        r
    }

    /// A fresh working set for a scheme: one control for each identifier the
    /// scheme lists, holding its type's starting answer.
    pub fn from_schema(schema: &Schema) -> (r: SOCData)
        ensures
            r.wf(),
            forall|c: CID| #[trigger] r.control_of(c) is Some <==> exists|i: int|
                0 <= i < schema.spec_controls().len() && schema.spec_controls()[i].0 == c,
            forall|c: CID| #[trigger] r.control_of(c) is Some ==> exists|i: int|
                0 <= i < schema.spec_controls().len() && schema.spec_controls()[i].0 == c
                    && is_starting_answer(schema.spec_controls()[i].1.spec_control_type(), r.control_of(c)->Some_0.spec_answer())
                    && r.control_of(c)->Some_0.spec_comment() is None
                    && !r.control_of(c)->Some_0.spec_bookmark(),
            r.spec_notes() is None,
            r.spec_profile().len() == 0,
    {
        let entries = schema.controls();
        let mut fresh: Vec<(CID, Control)> = Vec::new();
        let mut i: usize = 0;
        while i < entries.len()
            invariant
                i <= entries@.len(),
                entries@ == schema.spec_controls(),
                fresh@.len() == i,
                forall|j: int| 0 <= j < i ==> (#[trigger] fresh@[j]).0 == entries@[j].0
                    && is_starting_answer(entries@[j].1.spec_control_type(), fresh@[j].1.spec_answer())
                    && fresh@[j].1.spec_comment() is None && !fresh@[j].1.spec_bookmark(),
            decreases entries@.len() - i,
        {
            let c = Control::from_schema(&entries[i].1);
            fresh.push((entries[i].0, c));
            i = i + 1;
        }
        let ghost f = fresh@;
        let r = SOCData::from_map(fresh);
        proof {
            assert forall|c: CID| #[trigger] r.control_of(c) is Some <==> exists|i: int|
                0 <= i < schema.spec_controls().len() && schema.spec_controls()[i].0 == c by {
                lemma_last_given(f, c.spec_key());
                if exists|i: int| 0 <= i < f.len() && f[i].0.spec_key() == c.spec_key() {
                    let i = choose|i: int| 0 <= i < f.len() && f[i].0.spec_key() == c.spec_key();
                    f[i].0.lemma_key(c);
                    assert(schema.spec_controls()[i].0 == c);
                }
                if exists|i: int| 0 <= i < schema.spec_controls().len() && schema.spec_controls()[i].0 == c {
                    let i = choose|i: int| 0 <= i < schema.spec_controls().len() && schema.spec_controls()[i].0 == c;
                    assert(f[i].0.spec_key() == c.spec_key());
                }
            }
            assert forall|c: CID| #[trigger] r.control_of(c) is Some implies exists|i: int|
                0 <= i < schema.spec_controls().len() && schema.spec_controls()[i].0 == c
                    && is_starting_answer(schema.spec_controls()[i].1.spec_control_type(), r.control_of(c)->Some_0.spec_answer())
                    && r.control_of(c)->Some_0.spec_comment() is None
                    && !r.control_of(c)->Some_0.spec_bookmark() by {
                lemma_last_given(f, c.spec_key());
                let i = choose|i: int|
                    0 <= i < f.len() && f[i].0.spec_key() == c.spec_key() && f[i].1 == last_given(f, c.spec_key())->Some_0;
                f[i].0.lemma_key(c);
                assert(schema.spec_controls()[i].0 == c);
            }
        }
        r
    }

    /// The control of an identifier.
    pub fn control(&self, cid: &CID) -> (r: Option<&Control>)
        requires
            self.wf(),
        ensures
            r is Some <==> self.control_of(*cid) is Some,
            r is Some ==> *r->Some_0 == self.control_of(*cid)->Some_0,
    {
        proof {
            lemma_sorted_unique(self.entries());
            lemma_lookup(self.entries(), cid.spec_key());
        }
        get_control(&self.controls, &cid.key())
    }

    /// The identifiers and controls of a domain, in order.
    pub fn controls_by_domain(&self, domain: &Domain) -> (r: Vec<(CID, &Control)>)
        ensures
            r@.len() == group_entries(self.entries(), *domain, None).len(),
            forall|i: int| 0 <= i < r@.len() ==> (#[trigger] r@[i]).0.spec_key() == group_entries(self.entries(), *domain, None)[i].0
                && *r@[i].1 == group_entries(self.entries(), *domain, None)[i].1,
    {
        self.select(domain, None)
    }

    /// The identifiers and controls of one aspect of a domain, in order.
    pub fn controls_by_aspect(&self, domain: &Domain, aspect_id: u8) -> (r: Vec<(CID, &Control)>)
        ensures
            r@.len() == group_entries(self.entries(), *domain, Some(aspect_id)).len(),
            forall|i: int| 0 <= i < r@.len() ==> (#[trigger] r@[i]).0.spec_key() == group_entries(self.entries(), *domain, Some(aspect_id))[i].0
                && *r@[i].1 == group_entries(self.entries(), *domain, Some(aspect_id))[i].1,
    {
        self.select(domain, Some(aspect_id))
    }

    /// The controls of a domain, grouped into aspects: runs of neighbouring
    /// controls, in order, that share their first segment.
    pub fn aspects(&self, domain: &Domain) -> (r: Vec<Aspect>)
        ensures
            lists(joined(r@), group_entries(self.entries(), *domain, None)),
            proper_runs(r@),
    {
        let sel = self.select(domain, None);
        let ghost g = group_entries(self.entries(), *domain, None);
        proof {
            lemma_group_in_domain(self.entries(), *domain, None);
        }
        let mut out: Vec<Aspect> = Vec::new();
        let mut run: Vec<(CID, Control)> = Vec::new();
        let mut i: usize = 0;
        proof {
            assert(joined(out@) + run@ =~= Seq::<(CID, Control)>::empty());
        }
        while i < sel.len()
            invariant
                i <= sel@.len(),
                sel@.len() == g.len(),
                forall|t: int| 0 <= t < sel@.len() ==> (#[trigger] sel@[t]).0.spec_key() == g[t].0 && *sel@[t].1 == g[t].1,
                forall|t: int| 0 <= t < g.len() ==> (#[trigger] g[t]).0.0 == domain.spec_index(),
                lists(joined(out@) + run@, g.subrange(0, i as int)),
                proper_runs(out@),
                forall|j: int| 0 <= j < run@.len() ==> !strays(run@, j),
                forall|j: int| 0 <= j < run@.len() ==> (#[trigger] run@[j]).0.spec_domain() == *domain,
                (i > 0) == (run@.len() > 0),
                out@.len() > 0 && run@.len() > 0 ==> run@[0].0.spec_aspect_id() != out@.last().spec_controls()[0].0.spec_aspect_id(),
            decreases sel@.len() - i,
        {
            let c = sel[i].0;
            let ctrl = sel[i].1.duplicate();
            let ghost x = (c, ctrl);
            let ghost before = joined(out@) + run@;
            let ghost head = run@;
            proof {
                c.lemma_key(c);
                lemma_index_injective(c.spec_domain(), *domain);
                assert(c.spec_domain() == *domain);
            }
            if run.len() > 0 && run[0].0.aspect_id() != c.aspect_id() {
                let ghost old_out = out@;
                let ghost old_run = run@;
                let full = run;
                match Aspect::try_from_map(full) {
                    Ok(a) => {
                        out.push(a);
                    },
                    Err(_) => {},
                }
                run = Vec::new();
                proof {
                    assert(out@.drop_last() =~= old_out);
                    assert(joined(out@) == joined(old_out) + old_run);
                    assert(joined(out@) + run@ =~= before);
                    assert forall|t: int| 0 < t < out@.len() implies (#[trigger] out@[t]).spec_controls()[0].0.spec_aspect_id() != out@[t - 1].spec_controls()[0].0.spec_aspect_id() by {
                        if t < out@.len() - 1 {
                            assert(out@[t] == old_out[t]);
                            assert(out@[t - 1] == old_out[t - 1]);
                        }
                    }
                    assert forall|t: int, j: int| 0 <= t < out@.len() && 0 <= j < out@[t].spec_controls().len() implies !#[trigger] strays(out@[t].spec_controls(), j) by {
                        if t < out@.len() - 1 {
                            assert(out@[t] == old_out[t]);
                        }
                    }
                    assert forall|t: int| 0 <= t < out@.len() implies (#[trigger] out@[t]).spec_controls().len() > 0 by {
                        if t < out@.len() - 1 {
                            assert(out@[t] == old_out[t]);
                        }
                    }
                }
            }
            let ghost mid = run@;
            run.push((c, ctrl));
            proof {
                assert(joined(out@) + run@ =~= before.push(x));
                assert(g.subrange(0, i as int + 1) =~= g.subrange(0, i as int).push(g[i as int]));
                if mid.len() > 0 {
                    assert(mid == head);
                    assert(mid[0].0.spec_aspect_id() == c.spec_aspect_id());
                    assert(mid[0].0.spec_domain() == *domain);
                }
                assert forall|j: int| 0 <= j < run@.len() implies !strays(run@, j) by {
                    if mid.len() > 0 {
                        assert(run@[0] == mid[0]);
                        if j < mid.len() {
                            assert(run@[j] == mid[j]);
                            assert(!strays(head, j));
                        } else {
                            assert(run@[j].0 == c);
                            assert(run@[j].0.spec_aspect_id() == run@[0].0.spec_aspect_id());
                            assert(run@[j].0.spec_domain() == run@[0].0.spec_domain());
                        }
                    }
                }
            }
            i = i + 1;
        }
        proof {
            assert(g.subrange(0, g.len() as int) =~= g);
        }
        if run.len() > 0 {
            let ghost old_out = out@;
            let ghost old_run = run@;
            match Aspect::try_from_map(run) {
                Ok(a) => {
                    out.push(a);
                },
                Err(_) => {},
            }
            proof {
                assert(out@.drop_last() =~= old_out);
                assert(joined(out@) == joined(old_out) + old_run);
                assert forall|t: int| 0 < t < out@.len() implies (#[trigger] out@[t]).spec_controls()[0].0.spec_aspect_id() != out@[t - 1].spec_controls()[0].0.spec_aspect_id() by {
                    if t < out@.len() - 1 {
                        assert(out@[t] == old_out[t]);
                        assert(out@[t - 1] == old_out[t - 1]);
                    }
                }
                assert forall|t: int, j: int| 0 <= t < out@.len() && 0 <= j < out@[t].spec_controls().len() implies !#[trigger] strays(out@[t].spec_controls(), j) by {
                    if t < out@.len() - 1 {
                        assert(out@[t] == old_out[t]);
                    }
                }
                assert forall|t: int| 0 <= t < out@.len() implies (#[trigger] out@[t]).spec_controls().len() > 0 by {
                    if t < out@.len() - 1 {
                        assert(out@[t] == old_out[t]);
                    }
                }
            }
        } else {
            proof {
                assert(joined(out@) + run@ =~= joined(out@));
            }
        }
        out
    }

    fn select(&self, domain: &Domain, aspect: Option<u8>) -> (r: Vec<(CID, &Control)>)
        ensures
            r@.len() == group_entries(self.entries(), *domain, aspect).len(),
            forall|i: int| 0 <= i < r@.len() ==> (#[trigger] r@[i]).0.spec_key() == group_entries(self.entries(), *domain, aspect)[i].0
                && *r@[i].1 == group_entries(self.entries(), *domain, aspect)[i].1,
    {
        let ghost e = self.entries();
        let n = control_count(&self.controls);
        let d = domain.index();
        let mut r: Vec<(CID, &Control)> = Vec::new();
        let mut i: usize = 0;
        while i < n
            invariant
                n == e.len(),
                e == self.entries(),
                d == domain.spec_index(),
                i <= n,
                r@.len() == group_entries(e.subrange(0, i as int), *domain, aspect).len(),
                forall|j: int| 0 <= j < r@.len() ==> (#[trigger] r@[j]).0.spec_key() == group_entries(e.subrange(0, i as int), *domain, aspect)[j].0
                    && *r@[j].1 == group_entries(e.subrange(0, i as int), *domain, aspect)[j].1,
            decreases n - i,
        {
            proof {
                assert(e.subrange(0, i as int + 1).drop_last() =~= e.subrange(0, i as int));
            }
            match control_at(&self.controls, i) {
                Some((k, c)) => {
                    let wanted = match aspect {
                        Some(a) => k.0 == d && k.1 == a,
                        None => k.0 == d,
                    };
                    if wanted {
                        r.push((CID::from_key(*k), c));
                    }
                },
                None => {},
            }
            i = i + 1;
        }
        proof {
            assert(e.subrange(0, n as int) =~= e);
        }
        r
    }

    /// Replaces the control stored under `k`, which is there.
    fn replace_at(&mut self, k: CidKey, c: Control)
        requires
            old(self).wf(),
            has_key(old(self).entries(), k),
        ensures
            final(self).wf(),
            exists|j: int| 0 <= j < old(self).entries().len() && old(self).entries()[j].0 == k
                && final(self).entries() == old(self).entries().update(j, (k, c)),
            final(self).spec_notes() == old(self).spec_notes(),
            final(self).spec_profile() == old(self).spec_profile(),
    {
        let ghost e = self.entries();
        let ghost j = choose|j: int| 0 <= j < e.len() && e[j].0 == k;
        insert_control(&mut self.controls, k, c);
        proof {
            let e2 = self.entries();
            assert(e2 == e.update(j, (k, c)));
            assert forall|a: int, b: int| 0 <= a < b < e2.len() implies key_lt(e2[a].0, e2[b].0) by {
                assert(e2[a].0 == e[a].0);
                assert(e2[b].0 == e[b].0);
            }
            assert forall|t: int| 0 <= t < e2.len() implies (#[trigger] e2[t]).0.0 < 5 by {
                assert(e2[t].0 == e[t].0);
            }
        }
    }

    /// Sets the answer of an identifier's control, if there is one. An
    /// answer of another kind than the control's is refused and nothing
    /// changes: a control keeps its kind.
    pub fn set_answer(&mut self, cid: &CID, answer: Answer) -> (r: Result<(), CmmError>)
        requires
            old(self).wf(),
        ensures
            final(self).wf(),
            r is Err <==> (old(self).control_of(*cid) is Some && !old(self).control_of(
                *cid,
            )->Some_0.spec_answer().same_kind(&answer)),
            r is Err ==> *final(self) == *old(self) && r->Err_0 == CmmError::DiscriminantMismatch(
                old(self).control_of(*cid)->Some_0.spec_answer(),
                answer,
            ),
            r is Ok ==> same_but_at(
                old(self).entries(),
                final(self).entries(),
                cid.spec_key(),
                |a: Control, b: Control|
                    b.spec_answer() == answer && b.spec_comment() == a.spec_comment()
                        && b.spec_bookmark() == a.spec_bookmark(),
            ),
            final(self).spec_notes() == old(self).spec_notes(),
            final(self).spec_profile() == old(self).spec_profile(),
    {
        let k = cid.key();
        let ghost e = self.entries();
        proof {
            lemma_sorted_unique(e);
            lemma_lookup(e, k);
        }
        match get_control(&self.controls, &k) {
            Some(c) => {
                if !c.answer().type_eq(&answer) {
                    return Err(CmmError::DiscriminantMismatch(c.answer().duplicate(), answer));
                }
                let mut c2 = c.duplicate();
                let _ = c2.set_answer(answer);
                self.replace_at(k, c2);
            },
            None => {},
        }
        Ok(())
    }

    /// Sets the comment of an identifier's control, if there is one.
    pub fn set_comment(&mut self, cid: &CID, comment: Option<String>)
        requires
            old(self).wf(),
        ensures
            final(self).wf(),
            same_but_at(
                old(self).entries(),
                final(self).entries(),
                cid.spec_key(),
                |a: Control, b: Control|
                    b.spec_comment() == comment && b.spec_answer() == a.spec_answer()
                        && b.spec_bookmark() == a.spec_bookmark(),
            ),
            final(self).spec_notes() == old(self).spec_notes(),
            final(self).spec_profile() == old(self).spec_profile(),
    {
        let k = cid.key();
        let ghost e = self.entries();
        proof {
            lemma_sorted_unique(e);
        }
        match get_control(&self.controls, &k) {
            Some(c) => {
                let mut c2 = c.duplicate();
                c2.set_comment(comment);
                self.replace_at(k, c2);
            },
            None => {},
        }
    }

    /// Flips the pinned flag of an identifier's control, if there is one.
    pub fn toggle_bookmark(&mut self, cid: &CID)
        requires
            old(self).wf(),
        ensures
            final(self).wf(),
            same_but_at(
                old(self).entries(),
                final(self).entries(),
                cid.spec_key(),
                |a: Control, b: Control|
                    b.spec_bookmark() == !a.spec_bookmark() && b.spec_answer() == a.spec_answer()
                        && b.spec_comment() == a.spec_comment(),
            ),
            final(self).spec_notes() == old(self).spec_notes(),
            final(self).spec_profile() == old(self).spec_profile(),
    {
        let k = cid.key();
        let ghost e = self.entries();
        proof {
            lemma_sorted_unique(e);
        }
        match get_control(&self.controls, &k) {
            Some(c) => {
                let mut c2 = c.duplicate();
                c2.toggle_bookmark();
                self.replace_at(k, c2);
            },
            None => {},
        }
    }

    /// Removes an identifier's control, keeping the others in order.
    pub fn remove_control(&mut self, cid: &CID)
        requires
            old(self).wf(),
        ensures
            final(self).wf(),
            has_key(old(self).entries(), cid.spec_key()) ==> exists|j: int|
                0 <= j < old(self).entries().len() && old(self).entries()[j].0 == cid.spec_key()
                    && final(self).entries() == old(self).entries().remove(j),
            !has_key(old(self).entries(), cid.spec_key()) ==> final(self).entries() == old(self).entries(),
            final(self).spec_notes() == old(self).spec_notes(),
            final(self).spec_profile() == old(self).spec_profile(),
    {
        let k = cid.key();
        let ghost e = self.entries();
        remove_control(&mut self.controls, &k);
        proof {
            let e2 = self.entries();
            if has_key(e, k) {
                let j = choose|j: int| 0 <= j < e.len() && e[j].0 == k;
                assert(e2 == e.remove(j));
                assert forall|a: int, b: int| 0 <= a < b < e2.len() implies key_lt(e2[a].0, e2[b].0) by {
                    let a0 = if a < j { a } else { a + 1 };
                    let b0 = if b < j { b } else { b + 1 };
                    assert(e2[a] == e[a0]);
                    assert(e2[b] == e[b0]);
                }
                assert forall|t: int| 0 <= t < e2.len() implies (#[trigger] e2[t]).0.0 < 5 by {
                    let t0 = if t < j { t } else { t + 1 };
                    assert(e2[t] == e[t0]);
                }
            }
        }
    }

    pub fn notes(&self) -> (r: Option<&String>)
        ensures
            r is Some <==> self.spec_notes() is Some,
            r is Some ==> *r->Some_0 == self.spec_notes()->Some_0,
    {
        self.notes.as_ref()
    }

    pub fn set_notes(&mut self, notes: Option<String>)
        ensures
            final(self).spec_notes() == notes,
            final(self).entries() == old(self).entries(),
            final(self).spec_profile() == old(self).spec_profile(),
    {
        self.notes = notes;
    }

    /// How complete the section under `cid` is: of the yes/no controls
    /// below it, the share answered yes. The score is the number of yes
    /// answers out of the number of yes/no controls.
    pub fn section_completeness(&self, cid: &CID) -> (r: Score)
        ensures
            r.wf(),
            r.spec_points() == completeness(self.entries(), cid.spec_key()).0,
            r.spec_span() == completeness(self.entries(), cid.spec_key()).1,
            r.spec_max() == completeness(self.entries(), cid.spec_key()).1,
    {
        let ghost e = self.entries();
        let p = cid.key();
        let n = control_count(&self.controls);
        let mut yes: u64 = 0;
        let mut all: u64 = 0;
        let mut i: usize = 0;
        while i < n
            invariant
                n == e.len(),
                e == self.entries(),
                p == cid.spec_key(),
                i <= n,
                (yes as nat, all as nat) == completeness(e.subrange(0, i as int), p),
                yes <= all <= i,
            decreases n - i,
        {
            proof {
                assert(e.subrange(0, i as int + 1).drop_last() =~= e.subrange(0, i as int));
            }
            match control_at(&self.controls, i) {
                Some((k, c)) => {
                    let below = k.0 == p.0 && (k.1 != p.1 || k.2 != p.2 || k.3 != p.3 || k.4 != p.4)
                        && (p.1 == 0 || k.1 == p.1) && (p.2 == 0 || k.2 == p.2) && (p.3 == 0 || k.3
                        == p.3) && (p.4 == 0 || k.4 == p.4);
                    if below {
                        match c.answer() {
                            Answer::Bool(b) => {
                                all = all + 1;
                                if *b {
                                    yes = yes + 1;
                                }
                            },
                            _ => {},
                        }
                    }
                },
                None => {},
            }
            i = i + 1;
        }
        proof {
            assert(e.subrange(0, n as int) =~= e);
        }
        Score::new(yes as u128, all as u128, all)
    }

    /// The number of controls.
    pub fn len(&self) -> (r: usize)
        ensures
            r == self.entries().len(),
    {
        control_count(&self.controls)
    }

    /// The key and control at position `i` of the identifier order.
    pub(crate) fn entry_at(&self, i: usize) -> (r: Option<(&CidKey, &Control)>)
        ensures
            i < self.entries().len() ==> r == Some((&self.entries()[i as int].0, &self.entries()[i as int].1)),
            i >= self.entries().len() ==> r is None,
    {
        control_at(&self.controls, i)
    }

    /// The profile answers, question key first.
    pub fn profile(&self) -> (r: &IndexMap<String, String>)
        ensures
            profile_entries(*r) == self.spec_profile(),
    {
        &self.profile
    }

    /// Whether any control is pinned.
    pub fn has_pinned_items(&self) -> (r: bool)
        ensures
            r == exists|i: int| 0 <= i < self.entries().len() && (#[trigger] self.entries()[i]).1.spec_bookmark(),
    {
        let n = control_count(&self.controls);
        let mut i: usize = 0;
        while i < n
            invariant
                n == self.entries().len(),
                i <= n,
                forall|j: int| 0 <= j < i ==> !(#[trigger] self.entries()[j]).1.spec_bookmark(),
            decreases n - i,
        {
            match control_at(&self.controls, i) {
                Some((_, c)) => {
                    if c.bookmark() {
                        return true;
                    }
                },
                None => {},
            }
            i = i + 1;
        }
        false
    }

    /// Applies incoming records (identifier, answer, comment) as one
    /// transaction. If any record would change the kind of an existing
    /// answer, nothing is applied and the first such record is reported.
    /// Otherwise each record sets the answer and comment of the control it
    /// names; records for identifiers without a control are ignored.
    pub fn merge(&mut self, incoming: &Vec<Incoming>) -> (r: Result<(), CmmError>)
        requires
            old(self).wf(),
        ensures
            r is Err <==> exists|j: int| 0 <= j < incoming@.len() && conflicts(old(self).entries(), incoming@, j),
            r is Err ==> *final(self) == *old(self),
            r is Err ==> exists|j: int|
                0 <= j < incoming@.len() && conflicts(old(self).entries(), incoming@, j)
                    && (forall|t: int| 0 <= t < j ==> !conflicts(old(self).entries(), incoming@, t))
                    && r->Err_0 == CmmError::DiscriminantMismatch(
                        lookup(old(self).entries(), incoming@[j].0.spec_key())->Some_0.spec_answer(),
                        incoming@[j].1,
                    ),
            r is Ok ==> final(self).wf() && merged(old(self).entries(), final(self).entries(), incoming@),
            final(self).spec_notes() == old(self).spec_notes(),
            final(self).spec_profile() == old(self).spec_profile(),
    {
        let ghost e0 = self.entries();
        proof {
            lemma_sorted_unique(e0);
        }
        let mut j: usize = 0;
        while j < incoming.len()
            invariant
                j <= incoming@.len(),
                self.wf(),
                self.entries() == e0,
                keys_unique(e0),
                forall|t: int| 0 <= t < j ==> !conflicts(e0, incoming@, t),
            decreases incoming@.len() - j,
        {
            proof {
                lemma_lookup(e0, incoming@[j as int].0.spec_key());
            }
            match get_control(&self.controls, &incoming[j].0.key()) {
                Some(existing) => {
                    if !existing.answer().type_eq(&incoming[j].1) {
                        proof {
                            let t = choose|t: int| 0 <= t < e0.len() && e0[t].0 == incoming@[j as int].0.spec_key();
                            assert(lookup(e0, incoming@[j as int].0.spec_key()) == Some(e0[t].1));
                            assert(conflicts(e0, incoming@, j as int));
                        }
                        return Err(
                            CmmError::DiscriminantMismatch(
                                existing.answer().duplicate(),
                                incoming[j].1.duplicate(),
                            ),
                        );
                    }
                },
                None => {},
            }
            j = j + 1;
        }
        let mut j: usize = 0;
        proof {
            assert forall|i: int| 0 <= i < e0.len() implies match last_incoming(incoming@.subrange(0, 0), e0[i].0) {
                Some(x) => (#[trigger] e0[i]).1.spec_answer() == x.0 && e0[i].1.spec_comment() == x.1
                    && e0[i].1.spec_bookmark() == e0[i].1.spec_bookmark(),
                None => e0[i].1 == e0[i].1,
            } by {}
        }
        while j < incoming.len()
            invariant
                j <= incoming@.len(),
                self.wf(),
                keys_unique(e0),
                self.spec_notes() == old(self).spec_notes(),
                self.spec_profile() == old(self).spec_profile(),
                e0 == old(self).entries(),
                forall|t: int| 0 <= t < incoming@.len() ==> !conflicts(e0, incoming@, t),
                merged(e0, self.entries(), incoming@.subrange(0, j as int)),
                forall|i: int| 0 <= i < e0.len() ==> (#[trigger] self.entries()[i]).1.spec_answer().same_kind(&e0[i].1.spec_answer()),
            decreases incoming@.len() - j,
        {
            let ghost e = self.entries();
            let k = incoming[j].0.key();
            proof {
                lemma_sorted_unique(e);
            }
            match get_control(&self.controls, &k) {
                Some(c) => {
                    proof {
                        let t = choose|t: int| 0 <= t < e.len() && e[t].0 == k;
                        assert(e[t].0 == e0[t].0);
                        lemma_lookup(e0, k);
                        assert(!conflicts(e0, incoming@, j as int));
                        lemma_same_kind(e[t].1.spec_answer(), e0[t].1.spec_answer(), incoming@[j as int].1);
                    }
                    let mut c2 = c.duplicate();
                    let _ = c2.set_answer(incoming[j].1.duplicate());
                    let comment = match &incoming[j].2 {
                        Some(t) => Some(t.clone()),
                        None => None,
                    };
                    c2.set_comment(comment);
                    self.replace_at(k, c2);
                },
                None => {},
            }
            proof {
                let pre = incoming@.subrange(0, j as int);
                let pre2 = incoming@.subrange(0, j as int + 1);
                assert(pre2.drop_last() =~= pre);
                assert(pre2.last() == incoming@[j as int]);
                let e2 = self.entries();
                assert forall|i: int| 0 <= i < e0.len() implies match last_incoming(pre2, e0[i].0) {
                    Some(x) => (#[trigger] e2[i]).1.spec_answer() == x.0 && e2[i].1.spec_comment() == x.1
                        && e2[i].1.spec_bookmark() == e0[i].1.spec_bookmark(),
                    None => e2[i].1 == e0[i].1,
                } by {
                    assert(e[i].0 == e0[i].0);
                    if e0[i].0 == k {
                        assert(has_key(e, k));
                        assert(e2[i].0 == k);
                    } else {
                        if has_key(e, k) {
                            assert(e2[i] == e[i]);
                        }
                    }
                }
                assert forall|i: int| 0 <= i < e0.len() implies (#[trigger] e2[i]).0 == e0[i].0 by {
                    assert(e[i].0 == e0[i].0);
                }
                assert forall|i: int| 0 <= i < e0.len() implies (#[trigger] e2[i]).1.spec_answer().same_kind(&e0[i].1.spec_answer()) by {
                    assert(e[i].0 == e0[i].0);
                    assert(e[i].1.spec_answer().same_kind(&e0[i].1.spec_answer()));
                    if e0[i].0 == k {
                        lemma_lookup(e0, k);
                        assert(!conflicts(e0, incoming@, j as int));
                        lemma_same_kind(incoming@[j as int].1, e0[i].1.spec_answer(), e0[i].1.spec_answer());
                    }
                }
            }
            j = j + 1;
        }
        proof {
            assert(incoming@.subrange(0, incoming@.len() as int) =~= incoming@);
        }
        Ok(())
    }
}

} // verus!
