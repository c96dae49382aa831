//! An aspect: the controls of one domain that share their first segment.
use vstd::prelude::*;

use crate::answer::lemma_scored_range;
use crate::cid::CID;
use crate::control::Control;
use crate::error::CmmError;
use crate::score::{in_scope, ordinal, Score, CAPABILITY_SCALE, MATURITY_SCALE};

verus! {

/// Entry `j` lies in another domain or aspect than the first entry.
pub open spec fn strays(s: Seq<(CID, Control)>, j: int) -> bool {
    s[j].0.spec_domain() != s[0].0.spec_domain() || s[j].0.spec_aspect_id() != s[0].0.spec_aspect_id()
}

/// How many answers are in scope for the scale, and their ordinal sum.
pub open spec fn aspect_tally(s: Seq<(CID, Control)>, capability: bool) -> (nat, nat)
    decreases s.len(),
{
    if s.len() == 0 {
        (0, 0)
    } else {
        let p = aspect_tally(s.drop_last(), capability);
        let a = s.last().1.spec_answer();
        if in_scope(a, capability) {
            (p.0 + 1, p.1 + ordinal(a, capability))
        } else {
            p
        }
    }
}

/// The controls of one aspect.
#[derive(Clone, Debug, PartialEq, Eq)]
pub struct Aspect {
    controls: Vec<(CID, Control)>,
}

impl Aspect {
    pub closed spec fn spec_controls(&self) -> Seq<(CID, Control)> {
        self.controls@
    }

    /// An aspect of the given controls, which must all lie in the domain and
    /// aspect of the first; otherwise the first one that does not is
    /// reported beside the first.
    pub fn try_from_map(controls: Vec<(CID, Control)>) -> (r: Result<Aspect, CmmError>)
        ensures
            r is Ok <==> forall|j: int| 0 <= j < controls@.len() ==> !strays(controls@, j),
            r is Ok ==> r->Ok_0.spec_controls() == controls@,
            r is Err ==> exists|j: int|
                0 <= j < controls@.len() && strays(controls@, j) && (forall|t: int|
                    0 <= t < j ==> !strays(controls@, t)) && r->Err_0 == CmmError::MultipleAspects(
                    controls@[0].0,
                    controls@[j].0,
                ),
    {
        let n = controls.len();
        if n == 0 {
            return Ok(Aspect { controls });
        }
        let first = controls[0].0;
        let mut j: usize = 0;
        while j < n
            invariant
                n == controls@.len(),
                first == controls@[0].0,
                j <= n,
                forall|t: int| 0 <= t < j ==> !strays(controls@, t),
            decreases n - j,
        {
            let c = controls[j].0;
            let same_domain = c.domain() == first.domain();
            if !same_domain || c.aspect_id() != first.aspect_id() {
                proof {
                    assert(c == controls@[j as int].0);
                    assert(strays(controls@, j as int));
                }
                return Err(CmmError::MultipleAspects(first, c));
            }
            j = j + 1;
        }
        Ok(Aspect { controls })
    }

    /// The identifiers and controls of the aspect.
    pub fn controls(&self) -> (r: &Vec<(CID, Control)>)
        ensures
            r@ == self.spec_controls(),
    {
        &self.controls
    }

    /// Counts and sums the answers in scope for one scale.
    fn tally(&self, capability: bool) -> (r: (u64, u128))
        ensures
            r.0 as nat == aspect_tally(self.spec_controls(), capability).0,
            r.1 as nat == aspect_tally(self.spec_controls(), capability).1,
            r.0 <= r.1 <= 5 * r.0,
    {
        let s = &self.controls;
        let mut count: u64 = 0;
        let mut total: u128 = 0;
        let mut i: usize = 0;
        while i < s.len()
            invariant
                s@ == self.spec_controls(),
                i <= s@.len(),
                (count as nat, total as nat) == aspect_tally(s@.subrange(0, i as int), capability),
                count <= i,
                count <= total <= 5 * count,
            decreases s@.len() - i,
        {
            proof {
                assert(s@.subrange(0, i as int + 1).drop_last() =~= s@.subrange(0, i as int));
                lemma_scored_range(s@[i as int].1.spec_answer());
            }
            let a = s[i].1.answer();
            let v = if capability {
                if a.capability_in_scope() {
                    a.capability_score()
                } else {
                    None
                }
            } else {
                if a.maturity_in_scope() {
                    a.maturity_score()
                } else {
                    None
                }
            };
            match v {
                Some(x) => {
                    count = count + 1;
                    total = total + x as u128;
                },
                None => {},
            }
            i = i + 1;
        }
        proof {
            assert(s@.subrange(0, s@.len() as int) =~= s@);
        }
        (count, total)
    }

    /// How many answers count toward maturity.
    pub fn maturity_factor(&self) -> (r: u64)
        ensures
            r == aspect_tally(self.spec_controls(), false).0,
    {
        self.tally(false).0
    }

    /// How many answers count toward capability.
    pub fn capability_factor(&self) -> (r: u64)
        ensures
            r == aspect_tally(self.spec_controls(), true).0,
    {
        self.tally(true).0
    }

    /// The sum of the maturity ordinal values.
    pub fn maturity_total_score(&self) -> (r: u128)
        ensures
            r == aspect_tally(self.spec_controls(), false).1,
    {
        self.tally(false).1
    }

    /// The sum of the capability ordinal values.
    pub fn capability_total_score(&self) -> (r: u128)
        ensures
            r == aspect_tally(self.spec_controls(), true).1,
    {
        self.tally(true).1
    }

    /// The highest maturity sum: 5 for each answer in scope.
    pub fn maturity_max_score(&self) -> (r: u128)
        ensures
            r == 5 * aspect_tally(self.spec_controls(), false).0,
    {
        5 * (self.tally(false).0 as u128)
    }

    /// The highest capability sum: 5 for each answer in scope.
    pub fn capability_max_score(&self) -> (r: u128)
        ensures
            r == 5 * aspect_tally(self.spec_controls(), true).0,
    {
        5 * (self.tally(true).0 as u128)
    }

    /// The maturity score of the aspect.
    pub fn maturity_score(&self) -> (r: Score)
        ensures
            r.wf(),
            r.of_tally(aspect_tally(self.spec_controls(), false), MATURITY_SCALE as nat),
    {
        let (count, total) = self.tally(false);
        Score::new(total - count as u128, 4 * count as u128, MATURITY_SCALE)
    }

    /// The capability score of the aspect.
    pub fn capability_score(&self) -> (r: Score)
        ensures
            r.wf(),
            r.of_tally(aspect_tally(self.spec_controls(), true), CAPABILITY_SCALE as nat),
    {
        let (count, total) = self.tally(true);
        Score::new(total - count as u128, 4 * count as u128, CAPABILITY_SCALE)
    }
}

} // verus!
