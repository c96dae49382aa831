use vstd::prelude::*;

use crate::answer::Answer;
use crate::cid::CID;

verus! {

/// Every failure the library reports.
#[derive(Debug)]
pub enum CmmError {
    /// An aspect holds controls of two different aspects (the first CID and
    /// the one that conflicts with it).
    MultipleAspects(CID, CID),
    /// A merge tried to change the kind of an answer (existing, incoming).
    DiscriminantMismatch(Answer, Answer),
    /// An aspect has no title in the schema.
    MissingAspectTitle,
    /// The first part of an identifier is not a domain name.
    CIDMissingDomain,
    /// A segment of an identifier is zero.
    CIDInvalidZero,
    /// A segment of an identifier is not an integer from 0 to 255.
    CIDMalformed,
    /// A label is none of the labels of the answer's scale.
    UnknownVariant,
}

} // verus!
