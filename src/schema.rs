//! Reference data of one scheme version: aspect titles, per-control metadata
//! and profile questions. Built once and never changed.
use vstd::prelude::*;

use indexmap::IndexMap;
use itertools::Itertools;

use crate::cid::{key_lt, Domain, CID};
use crate::control_map::is_permutation;
use crate::error::CmmError;
use crate::profile::ProfileQuestion;

verus! {

/// The answer variant a control expects.
#[derive(Clone, Copy, Debug, PartialEq, Eq, Structural)]
pub enum ControlType {
    Satisfaction,
    Detailed,
    DetailedOptional,
    Occurence,
    Bool,
    Any,
    Title,
    ScoredSectionTitle,
}

impl Default for ControlType {
    fn default() -> (r: ControlType)
        ensures
            r == ControlType::Title,
    {
        ControlType::Title
    }
}

/// Metadata of one control.
#[derive(Clone, Debug, PartialEq, Eq)]
pub struct ControlSchema {
    guidances: Vec<String>,
    remarks: Option<String>,
    title: String,
    control_type: ControlType,
    nist_only: bool,
}

impl ControlSchema {
    pub closed spec fn spec_title(&self) -> Seq<char> {
        self.title@
    }

    /// What each score means for this control: entry `i` describes score
    /// `i + 1`.
    pub closed spec fn spec_guidances(&self) -> Seq<String> {
        self.guidances@
    }

    pub closed spec fn spec_remarks(&self) -> Option<String> {
        self.remarks
    }

    pub closed spec fn spec_control_type(&self) -> ControlType {
        self.control_type
    }

    /// The control exists only for compatibility with another framework and
    /// is left out of every score.
    pub closed spec fn spec_nist_only(&self) -> bool {
        self.nist_only
    }

    pub fn new(
        title: String,
        guidances: Vec<String>,
        remarks: Option<String>,
        control_type: ControlType,
        nist_only: bool,
    ) -> (r: ControlSchema)
        ensures
            r.spec_title() == title@,
            r.spec_guidances() == guidances@,
            r.spec_remarks() == remarks,
            r.spec_control_type() == control_type,
            r.spec_nist_only() == nist_only,
    {
        ControlSchema { guidances, remarks, title, control_type, nist_only }
    }

    pub fn title(&self) -> (r: &String)
        ensures
            r@ == self.spec_title(),
    {
        &self.title
    }

    pub fn guidances(&self) -> (r: &Vec<String>)
        ensures
            r@ == self.spec_guidances(),
    {
        &self.guidances
    }

    /// The description of what `score` means for this control, if the
    /// control has one.
    pub fn guidance(&self, score: u8) -> (r: Option<&String>)
        ensures
            r is Some <==> 1 <= score <= self.spec_guidances().len(),
            r is Some ==> *r->Some_0 == self.spec_guidances()[score - 1],
    {
        if score >= 1 && (score as usize) <= self.guidances.len() {
            Some(&self.guidances[(score - 1) as usize])
        } else {
            None
        }
    }

    pub fn remarks(&self) -> (r: &Option<String>)
        ensures
            *r == self.spec_remarks(),
    {
        &self.remarks
    }

    pub fn control_type(&self) -> (r: &ControlType)
        ensures
            *r == self.spec_control_type(),
    {
        &self.control_type
    }

    pub fn nist_only(&self) -> (r: bool)
        ensures
            r == self.spec_nist_only(),
    {
        self.nist_only
    }
}

impl Default for ControlSchema {
    /// An untitled section title with no guidance.
    fn default() -> (r: ControlSchema)
        ensures
            r.spec_title().len() == 0,
            r.spec_guidances().len() == 0,
            r.spec_remarks() is None,
            r.spec_control_type() == ControlType::Title,
            !r.spec_nist_only(),
    {
        ControlSchema {
            guidances: Vec::new(),
            remarks: None,
            title: String::new(),
            control_type: ControlType::Title,
            nist_only: false,
        }
    }
}

/// No identifier has two entries.
pub open spec fn unique_cids(s: Seq<(CID, ControlSchema)>) -> bool {
    forall|i: int, j: int| 0 <= i < j < s.len() ==> s[i].0 != s[j].0
}

/// No domain has two entries.
pub open spec fn unique_domains(s: Seq<(Domain, Vec<String>)>) -> bool {
    forall|i: int, j: int| 0 <= i < j < s.len() ==> s[i].0 != s[j].0
}

/// The metadata of the first entry for identifier `c`.
pub open spec fn find_schema(s: Seq<(CID, ControlSchema)>, c: CID) -> Option<ControlSchema>
    decreases s.len(),
{
    if s.len() == 0 {
        None
    } else if s[0].0 == c {
        Some(s[0].1)
    } else {
        find_schema(s.drop_first(), c)
    }
}

/// The entries whose identifier lies in domain `d` and, where `a` is given,
/// in aspect `a`, in the scheme's order.
pub open spec fn schema_group(s: Seq<(CID, ControlSchema)>, d: Domain, a: Option<u8>) -> Seq<(CID, ControlSchema)>
    decreases s.len(),
{
    if s.len() == 0 {
        s
    } else {
        let p = schema_group(s.drop_last(), d, a);
        let c = s.last().0;
        if c.spec_domain() == d && (a is None || c.spec_aspect_id() == a->Some_0) {
            p.push(s.last())
        } else {
            p
        }
    }
}

/// `r` holds the entries of `g` ordered by identifier; entries with equal
/// identifiers keep their order in `g`.
pub open spec fn sorted_from(r: Seq<(CID, &ControlSchema)>, g: Seq<(CID, ControlSchema)>) -> bool {
    &&& r.len() == g.len()
    &&& exists|p: Seq<int>|
        is_permutation(p, g.len() as int) && (forall|i: int|
            0 <= i < r.len() ==> (#[trigger] r[i]).0 == g[p[i]].0 && *r[i].1 == g[p[i]].1) && (forall|
            i: int,
            j: int,
        | 0 <= i < j < r.len() && r[i].0.spec_key() == r[j].0.spec_key() ==> p[i] < p[j])
    &&& ascending(r)
}

/// No entry has a smaller key than one before it.
pub open spec fn ascending(r: Seq<(CID, &ControlSchema)>) -> bool {
    forall|i: int, j: int| 0 <= i < j < r.len() ==> !key_lt(r[j].0.spec_key(), r[i].0.spec_key())
}

/// `r` is `v` reordered, entries with equal keys keeping their order.
pub open spec fn stable_reorder(r: Seq<(CID, &ControlSchema)>, v: Seq<(CID, &ControlSchema)>) -> bool {
    exists|p: Seq<int>|
        is_permutation(p, v.len() as int) && (forall|i: int|
            0 <= i < r.len() ==> #[trigger] r[i] == v[p[i]]) && (forall|i: int, j: int|
            0 <= i < j < r.len() && r[i].0.spec_key() == r[j].0.spec_key() ==> p[i] < p[j])
}

/// Relies on `itertools::Itertools::sorted_by_key`, a stable sort, here by
/// the identifiers' keys, which are tuples ordered lexicographically.
#[verifier::external_body]
fn sorted_by_cid<'a>(v: Vec<(CID, &'a ControlSchema)>) -> (r: Vec<(CID, &'a ControlSchema)>)
    ensures
        r@.len() == v@.len(),
        stable_reorder(r@, v@),
        ascending(r@),
{
    v.into_iter().sorted_by_key(|e| e.0.key()).collect()
}

/// The aspect titles of the first entry for domain `d`, or none.
pub open spec fn find_titles(s: Seq<(Domain, Vec<String>)>, d: Domain) -> Seq<String>
    decreases s.len(),
{
    if s.len() == 0 {
        Seq::<String>::empty()
    } else if s[0].0 == d {
        s[0].1@
    } else {
        find_titles(s.drop_first(), d)
    }
}

/// The scheme: ordered aspect titles per domain, metadata per control, and
/// the profile questions.
#[derive(Debug)]
pub struct Schema {
    aspects: Vec<(Domain, Vec<String>)>,
    control_schemas: Vec<(CID, ControlSchema)>,
    profile: IndexMap<String, ProfileQuestion>,
}

impl Schema {
    pub closed spec fn spec_aspects(&self) -> Seq<(Domain, Vec<String>)> {
        self.aspects@
    }

    pub closed spec fn spec_controls(&self) -> Seq<(CID, ControlSchema)> {
        self.control_schemas@
    }

    pub closed spec fn spec_profile(&self) -> IndexMap<String, ProfileQuestion> {
        self.profile
    }

    /// Each identifier and each domain appears once.
    pub open spec fn wf(&self) -> bool {
        unique_cids(self.spec_controls()) && unique_domains(self.spec_aspects())
    }

    /// The titles of a domain's aspects: aspect `i` has title `i - 1`.
    pub open spec fn aspect_titles(&self, d: Domain) -> Seq<String> {
        find_titles(self.spec_aspects(), d)
    }

    /// The metadata of a control, if the scheme has it.
    pub open spec fn schema_of(&self, c: CID) -> Option<ControlSchema> {
        find_schema(self.spec_controls(), c)
    }

    pub fn new(
        aspects: Vec<(Domain, Vec<String>)>,
        control_schemas: Vec<(CID, ControlSchema)>,
        profile: IndexMap<String, ProfileQuestion>,
    ) -> (r: Schema)
        requires
            unique_cids(control_schemas@),
            unique_domains(aspects@),
        ensures
            r.wf(),
            r.spec_aspects() == aspects@,
            r.spec_controls() == control_schemas@,
            r.spec_profile() == profile,
    {
        Schema { aspects, control_schemas, profile }
    }

    /// The aspect titles of a domain, in aspect order.
    pub fn aspects(&self, domain: &Domain) -> (r: Vec<&String>)
        ensures
            r@.len() == self.aspect_titles(*domain).len(),
            forall|i: int| 0 <= i < r@.len() ==> *r@[i] == #[trigger] self.aspect_titles(*domain)[i],
    {
        let mut k: usize = 0;
        proof {
            assert(self.aspects@.subrange(0, self.aspects@.len() as int) =~= self.aspects@);
        }
        while k < self.aspects.len()
            invariant
                k <= self.aspects@.len(),
                find_titles(self.aspects@, *domain) == find_titles(self.aspects@.subrange(k as int, self.aspects@.len() as int), *domain),
            decreases self.aspects@.len() - k,
        {
            proof {
                let rest = self.aspects@.subrange(k as int, self.aspects@.len() as int);
                assert(rest.drop_first() =~= self.aspects@.subrange(k as int + 1, self.aspects@.len() as int));
            }
            if self.aspects[k].0 == *domain {
                let titles = &self.aspects[k].1;
                let mut r: Vec<&String> = Vec::new();
                let mut i: usize = 0;
                while i < titles.len()
                    invariant
                        i <= titles@.len(),
                        titles@ == self.aspect_titles(*domain),
                        r@.len() == i,
                        forall|j: int| 0 <= j < i ==> *r@[j] == #[trigger] titles@[j],
                    decreases titles@.len() - i,
                {
                    r.push(&titles[i]);
                    i = i + 1;
                }
                return r;
            }
            k = k + 1;
        }
        proof {
            assert(self.aspects@.subrange(k as int, self.aspects@.len() as int) =~= Seq::<(Domain, Vec<String>)>::empty());
        }
        Vec::new()
    }

    /// The title of aspect `aspect_id` (counted from 1) of a domain.
    pub fn aspect_title(&self, domain: &Domain, aspect_id: u8) -> (r: Result<&String, CmmError>)
        ensures
            r is Ok <==> 1 <= aspect_id <= self.aspect_titles(*domain).len(),
            r is Ok ==> *r->Ok_0 == self.aspect_titles(*domain)[aspect_id - 1],
            r is Err ==> r->Err_0 is MissingAspectTitle,
    {
        let titles = self.aspects(domain);
        if aspect_id >= 1 && (aspect_id as usize) <= titles.len() {
            Ok(titles[(aspect_id - 1) as usize])
        } else {
            Err(CmmError::MissingAspectTitle)
        }
    }

    /// The metadata of a control.
    pub fn control_schema(&self, cid: &CID) -> (r: Option<&ControlSchema>)
        ensures
            r is Some <==> self.schema_of(*cid) is Some,
            r is Some ==> *r->Some_0 == self.schema_of(*cid)->Some_0,
    {
        let mut i: usize = 0;
        proof {
            assert(self.control_schemas@.subrange(0, self.control_schemas@.len() as int) =~= self.control_schemas@);
        }
        while i < self.control_schemas.len()
            invariant
                i <= self.control_schemas@.len(),
                find_schema(self.control_schemas@, *cid) == find_schema(
                    self.control_schemas@.subrange(i as int, self.control_schemas@.len() as int),
                    *cid,
                ),
            decreases self.control_schemas@.len() - i,
        {
            proof {
                let rest = self.control_schemas@.subrange(i as int, self.control_schemas@.len() as int);
                assert(rest.drop_first() =~= self.control_schemas@.subrange(i as int + 1, self.control_schemas@.len() as int));
            }
            if self.control_schemas[i].0 == *cid {
                return Some(&self.control_schemas[i].1);
            }
            i = i + 1;
        }
        proof {
            assert(self.control_schemas@.subrange(i as int, self.control_schemas@.len() as int) =~= Seq::<(CID, ControlSchema)>::empty());
        }
        None
    }

    /// The metadata of a domain's controls, ordered by identifier.
    pub fn controls_by_domain(&self, domain: &Domain) -> (r: Vec<(CID, &ControlSchema)>)
        ensures
            sorted_from(r@, schema_group(self.spec_controls(), *domain, None)),
    {
        self.sorted_group(domain, None)
    }

    /// The metadata of one aspect's controls, ordered by identifier.
    pub fn controls_by_aspect(&self, domain: &Domain, aspect_id: u8) -> (r: Vec<(CID, &ControlSchema)>)
        ensures
            sorted_from(r@, schema_group(self.spec_controls(), *domain, Some(aspect_id))),
    {
        self.sorted_group(domain, Some(aspect_id))
    }

    fn sorted_group(&self, domain: &Domain, aspect: Option<u8>) -> (r: Vec<(CID, &ControlSchema)>)
        ensures
            sorted_from(r@, schema_group(self.spec_controls(), *domain, aspect)),
    {
        let v = self.select(domain, aspect);
        let ghost g = schema_group(self.spec_controls(), *domain, aspect);
        let r = sorted_by_cid(v);
        proof {
            let p = choose|p: Seq<int>|
                is_permutation(p, v@.len() as int) && (forall|i: int|
                    0 <= i < r@.len() ==> #[trigger] r@[i] == v@[p[i]]) && (forall|i: int, j: int|
                    0 <= i < j < r@.len() && r@[i].0.spec_key() == r@[j].0.spec_key() ==> p[i] < p[j]);
            assert forall|i: int| 0 <= i < r@.len() implies (#[trigger] r@[i]).0 == g[p[i]].0 && *r@[i].1 == g[p[i]].1 by {
                assert(r@[i] == v@[p[i]]);
            }
        }
        r
    }

    fn select(&self, domain: &Domain, aspect: Option<u8>) -> (r: Vec<(CID, &ControlSchema)>)
        ensures
            r@.len() == schema_group(self.spec_controls(), *domain, aspect).len(),
            forall|i: int| 0 <= i < r@.len() ==> (#[trigger] r@[i]).0 == schema_group(self.spec_controls(), *domain, aspect)[i].0
                && *r@[i].1 == schema_group(self.spec_controls(), *domain, aspect)[i].1,
    {
        let s = &self.control_schemas;
        let mut r: Vec<(CID, &ControlSchema)> = Vec::new();
        let mut i: usize = 0;
        while i < s.len()
            invariant
                s@ == self.spec_controls(),
                i <= s@.len(),
                r@.len() == schema_group(s@.subrange(0, i as int), *domain, aspect).len(),
                forall|j: int| 0 <= j < r@.len() ==> (#[trigger] r@[j]).0 == schema_group(s@.subrange(0, i as int), *domain, aspect)[j].0
                    && *r@[j].1 == schema_group(s@.subrange(0, i as int), *domain, aspect)[j].1,
            decreases s@.len() - i,
        {
            proof {
                assert(s@.subrange(0, i as int + 1).drop_last() =~= s@.subrange(0, i as int));
            }
            let c = s[i].0;
            let in_domain = c.domain() == *domain;
            let wanted = in_domain && match aspect {
                Some(a) => c.aspect_id() == a,
                None => true,
            };
            if wanted {
                r.push((c, &s[i].1));
            }
            i = i + 1;
        }
        proof {
            assert(s@.subrange(0, s@.len() as int) =~= s@);
        }
        r
    }

    /// All control metadata, in the order the scheme lists it.
    pub fn controls(&self) -> (r: &Vec<(CID, ControlSchema)>)
        ensures
            r@ == self.spec_controls(),
    {
        &self.control_schemas
    }

    pub fn profile(&self) -> (r: &IndexMap<String, ProfileQuestion>)
        ensures
            *r == self.spec_profile(),
    {
        &self.profile
    }
}

} // verus!
