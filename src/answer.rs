//! The answer taxonomy: the ordinal scales, the answer variants and what
//! each of them contributes to scoring.
use vstd::prelude::*;

use crate::error::CmmError;
use crate::text::str_eq;

verus! {

/// How far a practice is satisfied.
#[derive(Clone, Copy, Debug, PartialEq, Eq, Structural)]
pub enum Satisfaction {
    No,
    Somewhat,
    Averagely,
    Mostly,
    Fully,
}

/// The ordinal value of each Satisfaction level, from 1 in declaration order.
pub open spec fn satisfaction_value(v: Satisfaction) -> u8 {
    match v {
        Satisfaction::No => 1,
        Satisfaction::Somewhat => 2,
        Satisfaction::Averagely => 3,
        Satisfaction::Mostly => 4,
        Satisfaction::Fully => 5,
    }
}

/// The label of each Satisfaction level.
pub open spec fn satisfaction_label(v: Satisfaction) -> Seq<char> {
    match v {
        Satisfaction::No => "No"@,
        Satisfaction::Somewhat => "Somewhat"@,
        Satisfaction::Averagely => "Averagely"@,
        Satisfaction::Mostly => "Mostly"@,
        Satisfaction::Fully => "Fully"@,
    }
}

/// The labels of the Satisfaction scale, lowest first.
pub open spec fn satisfaction_labels() -> Seq<Seq<char>> {
    seq!["No"@, "Somewhat"@, "Averagely"@, "Mostly"@, "Fully"@]
}

/// The Satisfaction level whose label is exactly `t`.
pub open spec fn satisfaction_of_label(t: Seq<char>) -> Option<Satisfaction> {
    if t == "No"@ {
        Some(Satisfaction::No)
    } else if t == "Somewhat"@ {
        Some(Satisfaction::Somewhat)
    } else if t == "Averagely"@ {
        Some(Satisfaction::Averagely)
    } else if t == "Mostly"@ {
        Some(Satisfaction::Mostly)
    } else if t == "Fully"@ {
        Some(Satisfaction::Fully)
    } else {
        None
    }
}

impl Satisfaction {
    pub fn value(&self) -> (r: u8)
        ensures
            r == satisfaction_value(*self),
    {
        match self {
            Satisfaction::No => 1,
            Satisfaction::Somewhat => 2,
            Satisfaction::Averagely => 3,
            Satisfaction::Mostly => 4,
            Satisfaction::Fully => 5,
        }
    }

    /// The level with ordinal value `v`, if there is one.
    pub fn from_repr(v: usize) -> (r: Option<Satisfaction>)
        ensures
            r is Some <==> 1 <= v <= 5,
            r is Some ==> satisfaction_value(r->Some_0) == v,
    {
        if v == 1 {
            Some(Satisfaction::No)
        } else if v == 2 {
            Some(Satisfaction::Somewhat)
        } else if v == 3 {
            Some(Satisfaction::Averagely)
        } else if v == 4 {
            Some(Satisfaction::Mostly)
        } else if v == 5 {
            Some(Satisfaction::Fully)
        } else {
            None
        }
    }

    pub fn label(&self) -> (r: &'static str)
        ensures
            r@ == satisfaction_label(*self),
    {
        match self {
            Satisfaction::No => "No",
            Satisfaction::Somewhat => "Somewhat",
            Satisfaction::Averagely => "Averagely",
            Satisfaction::Mostly => "Mostly",
            Satisfaction::Fully => "Fully",
        }
    }

    /// The level whose label is exactly `t`.
    pub fn from_label(t: &str) -> (r: Option<Satisfaction>)
        ensures
            r == satisfaction_of_label(t@),
    {
        if str_eq(t, "No") {
            Some(Satisfaction::No)
        } else if str_eq(t, "Somewhat") {
            Some(Satisfaction::Somewhat)
        } else if str_eq(t, "Averagely") {
            Some(Satisfaction::Averagely)
        } else if str_eq(t, "Mostly") {
            Some(Satisfaction::Mostly)
        } else if str_eq(t, "Fully") {
            Some(Satisfaction::Fully)
        } else {
            None
        }
    }

    /// The labels of the scale, lowest first.
    pub fn labels() -> (r: Vec<&'static str>)
        ensures
            r@.len() == satisfaction_labels().len(),
            forall|i: int| 0 <= i < r@.len() ==> #[trigger] r@[i]@ == satisfaction_labels()[i],
    {
        let r = vec!["No", "Somewhat", "Averagely", "Mostly", "Fully"];
        r
    }
}

impl Default for Satisfaction {
    /// The lowest level.
    fn default() -> (r: Satisfaction)
        ensures
            satisfaction_value(r) == 1,
    {
        Satisfaction::No
    }
}

/// How often a practice occurs.
#[derive(Clone, Copy, Debug, PartialEq, Eq, Structural)]
pub enum Occurence {
    Never,
    Sometimes,
    Averagely,
    Mostly,
    Always,
}

/// The ordinal value of each Occurence level, from 1 in declaration order.
pub open spec fn occurence_value(v: Occurence) -> u8 {
    match v {
        Occurence::Never => 1,
        Occurence::Sometimes => 2,
        Occurence::Averagely => 3,
        Occurence::Mostly => 4,
        Occurence::Always => 5,
    }
}

/// The label of each Occurence level.
pub open spec fn occurence_label(v: Occurence) -> Seq<char> {
    match v {
        Occurence::Never => "Never"@,
        Occurence::Sometimes => "Sometimes"@,
        Occurence::Averagely => "Averagely"@,
        Occurence::Mostly => "Mostly"@,
        Occurence::Always => "Always"@,
    }
}

/// The labels of the Occurence scale, lowest first.
pub open spec fn occurence_labels() -> Seq<Seq<char>> {
    seq!["Never"@, "Sometimes"@, "Averagely"@, "Mostly"@, "Always"@]
}

/// The Occurence level whose label is exactly `t`.
pub open spec fn occurence_of_label(t: Seq<char>) -> Option<Occurence> {
    if t == "Never"@ {
        Some(Occurence::Never)
    } else if t == "Sometimes"@ {
        Some(Occurence::Sometimes)
    } else if t == "Averagely"@ {
        Some(Occurence::Averagely)
    } else if t == "Mostly"@ {
        Some(Occurence::Mostly)
    } else if t == "Always"@ {
        Some(Occurence::Always)
    } else {
        None
    }
}

impl Occurence {
    pub fn value(&self) -> (r: u8)
        ensures
            r == occurence_value(*self),
    {
        match self {
            Occurence::Never => 1,
            Occurence::Sometimes => 2,
            Occurence::Averagely => 3,
            Occurence::Mostly => 4,
            Occurence::Always => 5,
        }
    }

    /// The level with ordinal value `v`, if there is one.
    pub fn from_repr(v: usize) -> (r: Option<Occurence>)
        ensures
            r is Some <==> 1 <= v <= 5,
            r is Some ==> occurence_value(r->Some_0) == v,
    {
        if v == 1 {
            Some(Occurence::Never)
        } else if v == 2 {
            Some(Occurence::Sometimes)
        } else if v == 3 {
            Some(Occurence::Averagely)
        } else if v == 4 {
            Some(Occurence::Mostly)
        } else if v == 5 {
            Some(Occurence::Always)
        } else {
            None
        }
    }

    pub fn label(&self) -> (r: &'static str)
        ensures
            r@ == occurence_label(*self),
    {
        match self {
            Occurence::Never => "Never",
            Occurence::Sometimes => "Sometimes",
            Occurence::Averagely => "Averagely",
            Occurence::Mostly => "Mostly",
            Occurence::Always => "Always",
        }
    }

    /// The level whose label is exactly `t`.
    pub fn from_label(t: &str) -> (r: Option<Occurence>)
        ensures
            r == occurence_of_label(t@),
    {
        if str_eq(t, "Never") {
            Some(Occurence::Never)
        } else if str_eq(t, "Sometimes") {
            Some(Occurence::Sometimes)
        } else if str_eq(t, "Averagely") {
            Some(Occurence::Averagely)
        } else if str_eq(t, "Mostly") {
            Some(Occurence::Mostly)
        } else if str_eq(t, "Always") {
            Some(Occurence::Always)
        } else {
            None
        }
    }

    /// The labels of the scale, lowest first.
    pub fn labels() -> (r: Vec<&'static str>)
        ensures
            r@.len() == occurence_labels().len(),
            forall|i: int| 0 <= i < r@.len() ==> #[trigger] r@[i]@ == occurence_labels()[i],
    {
        let r = vec!["Never", "Sometimes", "Averagely", "Mostly", "Always"];
        r
    }
}

impl Default for Occurence {
    /// The lowest level.
    fn default() -> (r: Occurence)
        ensures
            occurence_value(r) == 1,
    {
        Occurence::Never
    }
}

/// How completely a practice is in place.
#[derive(Clone, Copy, Debug, PartialEq, Eq, Structural)]
pub enum Detailed {
    No,
    Partially,
    Averagely,
    Mostly,
    Fully,
}

/// The ordinal value of each Detailed level, from 1 in declaration order.
pub open spec fn detailed_value(v: Detailed) -> u8 {
    match v {
        Detailed::No => 1,
        Detailed::Partially => 2,
        Detailed::Averagely => 3,
        Detailed::Mostly => 4,
        Detailed::Fully => 5,
    }
}

/// The label of each Detailed level.
pub open spec fn detailed_label(v: Detailed) -> Seq<char> {
    match v {
        Detailed::No => "No"@,
        Detailed::Partially => "Partially"@,
        Detailed::Averagely => "Averagely"@,
        Detailed::Mostly => "Mostly"@,
        Detailed::Fully => "Fully"@,
    }
}

/// The labels of the Detailed scale, lowest first.
pub open spec fn detailed_labels() -> Seq<Seq<char>> {
    seq!["No"@, "Partially"@, "Averagely"@, "Mostly"@, "Fully"@]
}

/// The Detailed level whose label is exactly `t`.
pub open spec fn detailed_of_label(t: Seq<char>) -> Option<Detailed> {
    if t == "No"@ {
        Some(Detailed::No)
    } else if t == "Partially"@ {
        Some(Detailed::Partially)
    } else if t == "Averagely"@ {
        Some(Detailed::Averagely)
    } else if t == "Mostly"@ {
        Some(Detailed::Mostly)
    } else if t == "Fully"@ {
        Some(Detailed::Fully)
    } else {
        None
    }
}

impl Detailed {
    pub fn value(&self) -> (r: u8)
        ensures
            r == detailed_value(*self),
    {
        match self {
            Detailed::No => 1,
            Detailed::Partially => 2,
            Detailed::Averagely => 3,
            Detailed::Mostly => 4,
            Detailed::Fully => 5,
        }
    }

    /// The level with ordinal value `v`, if there is one.
    pub fn from_repr(v: usize) -> (r: Option<Detailed>)
        ensures
            r is Some <==> 1 <= v <= 5,
            r is Some ==> detailed_value(r->Some_0) == v,
    {
        if v == 1 {
            Some(Detailed::No)
        } else if v == 2 {
            Some(Detailed::Partially)
        } else if v == 3 {
            Some(Detailed::Averagely)
        } else if v == 4 {
            Some(Detailed::Mostly)
        } else if v == 5 {
            Some(Detailed::Fully)
        } else {
            None
        }
    }

    pub fn label(&self) -> (r: &'static str)
        ensures
            r@ == detailed_label(*self),
    {
        match self {
            Detailed::No => "No",
            Detailed::Partially => "Partially",
            Detailed::Averagely => "Averagely",
            Detailed::Mostly => "Mostly",
            Detailed::Fully => "Fully",
        }
    }

    /// The level whose label is exactly `t`.
    pub fn from_label(t: &str) -> (r: Option<Detailed>)
        ensures
            r == detailed_of_label(t@),
    {
        if str_eq(t, "No") {
            Some(Detailed::No)
        } else if str_eq(t, "Partially") {
            Some(Detailed::Partially)
        } else if str_eq(t, "Averagely") {
            Some(Detailed::Averagely)
        } else if str_eq(t, "Mostly") {
            Some(Detailed::Mostly)
        } else if str_eq(t, "Fully") {
            Some(Detailed::Fully)
        } else {
            None
        }
    }

    /// The labels of the scale, lowest first.
    pub fn labels() -> (r: Vec<&'static str>)
        ensures
            r@.len() == detailed_labels().len(),
            forall|i: int| 0 <= i < r@.len() ==> #[trigger] r@[i]@ == detailed_labels()[i],
    {
        let r = vec!["No", "Partially", "Averagely", "Mostly", "Fully"];
        r
    }
}

impl Default for Detailed {
    /// The lowest level.
    fn default() -> (r: Detailed)
        ensures
            detailed_value(r) == 1,
    {
        Detailed::No
    }
}

/// How completely an optional capability is in place; `NotRequired`
/// takes it out of scoring.
#[derive(Clone, Copy, Debug, PartialEq, Eq, Structural)]
pub enum DetailedOptional {
    No,
    Partially,
    Averagely,
    Mostly,
    Fully,
    NotRequired,
}

/// The ordinal value of each DetailedOptional level, from 1 in declaration order.
pub open spec fn detailed_optional_value(v: DetailedOptional) -> u8 {
    match v {
        DetailedOptional::No => 1,
        DetailedOptional::Partially => 2,
        DetailedOptional::Averagely => 3,
        DetailedOptional::Mostly => 4,
        DetailedOptional::Fully => 5,
        DetailedOptional::NotRequired => 6,
    }
}

/// The label of each DetailedOptional level.
pub open spec fn detailed_optional_label(v: DetailedOptional) -> Seq<char> {
    match v {
        DetailedOptional::No => "No"@,
        DetailedOptional::Partially => "Partially"@,
        DetailedOptional::Averagely => "Averagely"@,
        DetailedOptional::Mostly => "Mostly"@,
        DetailedOptional::Fully => "Fully"@,
        DetailedOptional::NotRequired => "NotRequired"@,
    }
}

/// The labels of the DetailedOptional scale, lowest first.
pub open spec fn detailed_optional_labels() -> Seq<Seq<char>> {
    seq!["No"@, "Partially"@, "Averagely"@, "Mostly"@, "Fully"@, "NotRequired"@]
}

/// The DetailedOptional level whose label is exactly `t`.
pub open spec fn detailed_optional_of_label(t: Seq<char>) -> Option<DetailedOptional> {
    if t == "No"@ {
        Some(DetailedOptional::No)
    } else if t == "Partially"@ {
        Some(DetailedOptional::Partially)
    } else if t == "Averagely"@ {
        Some(DetailedOptional::Averagely)
    } else if t == "Mostly"@ {
        Some(DetailedOptional::Mostly)
    } else if t == "Fully"@ {
        Some(DetailedOptional::Fully)
    } else if t == "NotRequired"@ {
        Some(DetailedOptional::NotRequired)
    } else {
        None
    }
}

impl DetailedOptional {
    pub fn value(&self) -> (r: u8)
        ensures
            r == detailed_optional_value(*self),
    {
        match self {
            DetailedOptional::No => 1,
            DetailedOptional::Partially => 2,
            DetailedOptional::Averagely => 3,
            DetailedOptional::Mostly => 4,
            DetailedOptional::Fully => 5,
            DetailedOptional::NotRequired => 6,
        }
    }

    /// The level with ordinal value `v`, if there is one.
    pub fn from_repr(v: usize) -> (r: Option<DetailedOptional>)
        ensures
            r is Some <==> 1 <= v <= 6,
            r is Some ==> detailed_optional_value(r->Some_0) == v,
    {
        if v == 1 {
            Some(DetailedOptional::No)
        } else if v == 2 {
            Some(DetailedOptional::Partially)
        } else if v == 3 {
            Some(DetailedOptional::Averagely)
        } else if v == 4 {
            Some(DetailedOptional::Mostly)
        } else if v == 5 {
            Some(DetailedOptional::Fully)
        } else if v == 6 {
            Some(DetailedOptional::NotRequired)
        } else {
            None
        }
    }

    pub fn label(&self) -> (r: &'static str)
        ensures
            r@ == detailed_optional_label(*self),
    {
        match self {
            DetailedOptional::No => "No",
            DetailedOptional::Partially => "Partially",
            DetailedOptional::Averagely => "Averagely",
            DetailedOptional::Mostly => "Mostly",
            DetailedOptional::Fully => "Fully",
            DetailedOptional::NotRequired => "NotRequired",
        }
    }

    /// The level whose label is exactly `t`.
    pub fn from_label(t: &str) -> (r: Option<DetailedOptional>)
        ensures
            r == detailed_optional_of_label(t@),
    {
        if str_eq(t, "No") {
            Some(DetailedOptional::No)
        } else if str_eq(t, "Partially") {
            Some(DetailedOptional::Partially)
        } else if str_eq(t, "Averagely") {
            Some(DetailedOptional::Averagely)
        } else if str_eq(t, "Mostly") {
            Some(DetailedOptional::Mostly)
        } else if str_eq(t, "Fully") {
            Some(DetailedOptional::Fully)
        } else if str_eq(t, "NotRequired") {
            Some(DetailedOptional::NotRequired)
        } else {
            None
        }
    }

    /// The labels of the scale, lowest first.
    pub fn labels() -> (r: Vec<&'static str>)
        ensures
            r@.len() == detailed_optional_labels().len(),
            forall|i: int| 0 <= i < r@.len() ==> #[trigger] r@[i]@ == detailed_optional_labels()[i],
    {
        let r = vec!["No", "Partially", "Averagely", "Mostly", "Fully", "NotRequired"];
        r
    }
}

impl Default for DetailedOptional {
    /// The lowest level.
    fn default() -> (r: DetailedOptional)
        ensures
            detailed_optional_value(r) == 1,
    {
        DetailedOptional::No
    }
}

/// One control's current response.
#[derive(Clone, Debug, PartialEq, Eq)]
pub enum Answer {
    Satisfaction(Satisfaction),
    Detailed(Detailed),
    DetailedOptional(DetailedOptional),
    Occurence(Occurence),
    Bool(bool),
    Any(String),
    Title,
}

/// The boolean that `t` writes, as `bool`'s `FromStr` reads it.
pub open spec fn bool_of_label(t: Seq<char>) -> Option<bool> {
    if t == "true"@ {
        Some(true)
    } else if t == "false"@ {
        Some(false)
    } else {
        None
    }
}

impl Answer {
    /// Counts toward the maturity scores.
    pub open spec fn spec_maturity_in_scope(&self) -> bool {
        match self {
            Answer::Satisfaction(_) | Answer::Occurence(_) | Answer::Detailed(_) => true,
            _ => false,
        }
    }

    /// Counts toward the capability scores: an optional capability that is
    /// required.
    pub open spec fn spec_capability_in_scope(&self) -> bool {
        match self {
            Answer::DetailedOptional(v) => *v != DetailedOptional::NotRequired,
            _ => false,
        }
    }

    pub open spec fn spec_maturity_score(&self) -> Option<u8> {
        match self {
            Answer::Satisfaction(v) => Some(satisfaction_value(*v)),
            Answer::Occurence(v) => Some(occurence_value(*v)),
            Answer::Detailed(v) => Some(detailed_value(*v)),
            _ => None,
        }
    }

    pub open spec fn spec_capability_score(&self) -> Option<u8> {
        match self {
            Answer::DetailedOptional(v) => Some(detailed_optional_value(*v)),
            _ => None,
        }
    }

    pub open spec fn spec_max_score(&self) -> Option<u8> {
        match self {
            Answer::Satisfaction(_) | Answer::Occurence(_) | Answer::Detailed(_)
            | Answer::DetailedOptional(_) => Some(5),
            _ => None,
        }
    }

    /// The labels a user picks from for the answer's kind, lowest first;
    /// none for yes/no answers, free text and titles.
    pub open spec fn spec_variants(&self) -> Seq<Seq<char>> {
        match self {
            Answer::Satisfaction(_) => satisfaction_labels(),
            Answer::Detailed(_) => detailed_labels(),
            Answer::DetailedOptional(_) => detailed_optional_labels(),
            Answer::Occurence(_) => occurence_labels(),
            Answer::Bool(_) => Seq::<Seq<char>>::empty(),
            Answer::Any(_) => Seq::<Seq<char>>::empty(),
            Answer::Title => Seq::<Seq<char>>::empty(),
        }
    }

    /// The text the answer shows: the label of its level, `true`/`false`,
    /// the free text, or nothing for a title.
    pub open spec fn spec_text(&self) -> Seq<char> {
        match self {
            Answer::Satisfaction(v) => satisfaction_label(*v),
            Answer::Detailed(v) => detailed_label(*v),
            Answer::DetailedOptional(v) => detailed_optional_label(*v),
            Answer::Occurence(v) => occurence_label(*v),
            Answer::Bool(b) => if *b {
                "true"@
            } else {
                "false"@
            },
            Answer::Any(t) => t@,
            Answer::Title => Seq::<char>::empty(),
        }
    }

    /// Whether the answer's own label is `t`; free text and titles have none.
    pub open spec fn spec_variant_eq(&self, t: Seq<char>) -> bool {
        match self {
            Answer::Any(_) | Answer::Title => false,
            _ => self.spec_text() == t,
        }
    }

    /// An answer of the same kind as `self`, at the level labelled `t`.
    pub open spec fn spec_extend_from_variant(&self, t: Seq<char>) -> Result<Answer, CmmError> {
        match self {
            Answer::Satisfaction(_) => match satisfaction_of_label(t) {
                Some(v) => Ok(Answer::Satisfaction(v)),
                None => Err(CmmError::UnknownVariant),
            },
            Answer::Detailed(_) => match detailed_of_label(t) {
                Some(v) => Ok(Answer::Detailed(v)),
                None => Err(CmmError::UnknownVariant),
            },
            Answer::DetailedOptional(_) => match detailed_optional_of_label(t) {
                Some(v) => Ok(Answer::DetailedOptional(v)),
                None => Err(CmmError::UnknownVariant),
            },
            Answer::Occurence(_) => match occurence_of_label(t) {
                Some(v) => Ok(Answer::Occurence(v)),
                None => Err(CmmError::UnknownVariant),
            },
            Answer::Bool(_) => match bool_of_label(t) {
                Some(b) => Ok(Answer::Bool(b)),
                None => Err(CmmError::UnknownVariant),
            },
            Answer::Any(x) => Ok(Answer::Any(*x)),
            Answer::Title => Ok(Answer::Title),
        }
    }

    /// Both answers are of the same variant, whatever their values.
    pub open spec fn same_kind(&self, other: &Answer) -> bool {
        match (self, other) {
            (Answer::Satisfaction(_), Answer::Satisfaction(_)) => true,
            (Answer::Detailed(_), Answer::Detailed(_)) => true,
            (Answer::DetailedOptional(_), Answer::DetailedOptional(_)) => true,
            (Answer::Occurence(_), Answer::Occurence(_)) => true,
            (Answer::Bool(_), Answer::Bool(_)) => true,
            (Answer::Any(_), Answer::Any(_)) => true,
            (Answer::Title, Answer::Title) => true,
            _ => false,
        }
    }

    /// The answer still holds its kind's starting value.
    pub open spec fn spec_is_default(&self) -> bool {
        match self {
            Answer::Satisfaction(v) => *v == Satisfaction::No,
            Answer::Detailed(v) => *v == Detailed::No,
            Answer::DetailedOptional(v) => *v == DetailedOptional::No,
            Answer::Occurence(v) => *v == Occurence::Never,
            Answer::Bool(b) => !*b,
            Answer::Any(t) => t@.len() == 0,
            Answer::Title => true,
        }
    }

    pub fn capability_in_scope(&self) -> (r: bool)
        ensures
            r == self.spec_capability_in_scope(),
    {
        match self {
            Answer::DetailedOptional(DetailedOptional::NotRequired) => false,
            Answer::DetailedOptional(_) => true,
            _ => false,
        }
    }

    pub fn maturity_in_scope(&self) -> (r: bool)
        ensures
            r == self.spec_maturity_in_scope(),
    {
        match self {
            Answer::Satisfaction(_) | Answer::Occurence(_) | Answer::Detailed(_) => true,
            _ => false,
        }
    }

    /// The ordinal value of a maturity answer.
    pub fn maturity_score(&self) -> (r: Option<u8>)
        ensures
            r == self.spec_maturity_score(),
    {
        match self {
            Answer::Satisfaction(v) => Some(v.value()),
            Answer::Occurence(v) => Some(v.value()),
            Answer::Detailed(v) => Some(v.value()),
            _ => None,
        }
    }

    /// The ordinal value of a capability answer.
    pub fn capability_score(&self) -> (r: Option<u8>)
        ensures
            r == self.spec_capability_score(),
    {
        match self {
            Answer::DetailedOptional(v) => Some(v.value()),
            _ => None,
        }
    }

    /// The highest score a scored answer can contribute.
    pub fn max_score(&self) -> (r: Option<u8>)
        ensures
            r == self.spec_max_score(),
    {
        match self {
            Answer::Satisfaction(_) | Answer::Occurence(_) | Answer::Detailed(_)
            | Answer::DetailedOptional(_) => Some(5),
            _ => None,
        }
    }

    /// The labels a user picks from for this answer, lowest first; empty
    /// for yes/no answers, free text and titles.
    pub fn variants(&self) -> (r: Vec<&'static str>)
        ensures
            r@.len() == self.spec_variants().len(),
            forall|i: int| 0 <= i < r@.len() ==> #[trigger] r@[i]@ == self.spec_variants()[i],
    {
        match self {
            Answer::Satisfaction(_) => Satisfaction::labels(),
            Answer::Detailed(_) => Detailed::labels(),
            Answer::DetailedOptional(_) => DetailedOptional::labels(),
            Answer::Occurence(_) => Occurence::labels(),
            Answer::Bool(_) => Vec::new(),
            Answer::Any(_) => Vec::new(),
            Answer::Title => Vec::new(),
        }
    }

    /// Whether `t` is the label of this answer.
    pub fn variant_eq(&self, t: &str) -> (r: bool)
        ensures
            r == self.spec_variant_eq(t@),
    {
        match self {
            Answer::Any(_) | Answer::Title => false,
            _ => {
                let own = self.to_string();
                str_eq(own.as_str(), t)
            },
        }
    }

    /// Reads the label `t` as an answer of the same kind as `self`; free
    /// text and titles are kept as they are.
    pub fn extend_from_variant(&self, t: &str) -> (r: Result<Answer, CmmError>)
        ensures
            r == self.spec_extend_from_variant(t@),
    {
        match self {
            Answer::Satisfaction(_) => match Satisfaction::from_label(t) {
                Some(v) => Ok(Answer::Satisfaction(v)),
                None => Err(CmmError::UnknownVariant),
            },
            Answer::Detailed(_) => match Detailed::from_label(t) {
                Some(v) => Ok(Answer::Detailed(v)),
                None => Err(CmmError::UnknownVariant),
            },
            Answer::DetailedOptional(_) => match DetailedOptional::from_label(t) {
                Some(v) => Ok(Answer::DetailedOptional(v)),
                None => Err(CmmError::UnknownVariant),
            },
            Answer::Occurence(_) => match Occurence::from_label(t) {
                Some(v) => Ok(Answer::Occurence(v)),
                None => Err(CmmError::UnknownVariant),
            },
            Answer::Bool(_) => {
                if str_eq(t, "true") {
                    Ok(Answer::Bool(true))
                } else if str_eq(t, "false") {
                    Ok(Answer::Bool(false))
                } else {
                    Err(CmmError::UnknownVariant)
                }
            },
            Answer::Any(x) => Ok(Answer::Any(x.clone())),
            Answer::Title => Ok(Answer::Title),
        }
    }

    pub fn is_capability(&self) -> (r: bool)
        ensures
            r == (self is DetailedOptional),
    {
        match self {
            Answer::DetailedOptional(_) => true,
            _ => false,
        }
    }

    pub fn is_maturity(&self) -> (r: bool)
        ensures
            r == self.spec_maturity_in_scope(),
    {
        match self {
            Answer::Satisfaction(_) | Answer::Detailed(_) | Answer::Occurence(_) => true,
            _ => false,
        }
    }

    pub fn is_default(&self) -> (r: bool)
        ensures
            r == self.spec_is_default(),
    {
        match self {
            Answer::Satisfaction(v) => matches!(v, Satisfaction::No),
            Answer::Detailed(v) => matches!(v, Detailed::No),
            Answer::DetailedOptional(v) => matches!(v, DetailedOptional::No),
            Answer::Occurence(v) => matches!(v, Occurence::Never),
            Answer::Bool(b) => !*b,
            Answer::Any(t) => t.unicode_len() == 0,
            Answer::Title => true,
        }
    }

    /// Whether both answers are of the same variant.
    pub fn type_eq(&self, other: &Answer) -> (r: bool)
        ensures
            r == self.same_kind(other),
    {
        match (self, other) {
            (Answer::Satisfaction(_), Answer::Satisfaction(_)) => true,
            (Answer::Detailed(_), Answer::Detailed(_)) => true,
            (Answer::DetailedOptional(_), Answer::DetailedOptional(_)) => true,
            (Answer::Occurence(_), Answer::Occurence(_)) => true,
            (Answer::Bool(_), Answer::Bool(_)) => true,
            (Answer::Any(_), Answer::Any(_)) => true,
            (Answer::Title, Answer::Title) => true,
            _ => false,
        }
    }

    /// The text the answer shows.
    pub fn to_string(&self) -> (r: String)
        ensures
            r@ == self.spec_text(),
    {
        match self {
            Answer::Satisfaction(v) => String::from_str(v.label()),
            Answer::Detailed(v) => String::from_str(v.label()),
            Answer::DetailedOptional(v) => String::from_str(v.label()),
            Answer::Occurence(v) => String::from_str(v.label()),
            Answer::Bool(b) => if *b {
                String::from_str("true")
            } else {
                String::from_str("false")
            },
            Answer::Any(t) => t.clone(),
            Answer::Title => String::new(),
        }
    }

    /// A copy of the answer.
    pub fn duplicate(&self) -> (r: Answer)
        ensures
            r == *self,
    {
        match self {
            Answer::Satisfaction(v) => Answer::Satisfaction(*v),
            Answer::Detailed(v) => Answer::Detailed(*v),
            Answer::DetailedOptional(v) => Answer::DetailedOptional(*v),
            Answer::Occurence(v) => Answer::Occurence(*v),
            Answer::Bool(b) => Answer::Bool(*b),
            Answer::Any(t) => Answer::Any(t.clone()),
            Answer::Title => Answer::Title,
        }
    }
}

/// Having the same kind is symmetric and transitive.
pub proof fn lemma_same_kind(a: Answer, b: Answer, c: Answer)
    ensures
        a.same_kind(&b) ==> b.same_kind(&a),
        a.same_kind(&b) && b.same_kind(&c) ==> a.same_kind(&c),
{
}

/// No answer counts toward both the maturity and the capability scores.
pub proof fn lemma_scope_exclusive(a: Answer)
    ensures
        !(a.spec_maturity_in_scope() && a.spec_capability_in_scope()),
{
}

/// An answer in either scope has an ordinal value from 1 to its maximum,
/// and the maximum is 5.
pub proof fn lemma_scored_range(a: Answer)
    ensures
        a.spec_maturity_in_scope() ==> a.spec_maturity_score() is Some && 1 <= a.spec_maturity_score()->Some_0 <= 5
            && a.spec_max_score() == Some(5u8),
        a.spec_capability_in_scope() ==> a.spec_capability_score() is Some && 1 <= a.spec_capability_score()->Some_0 <= 5
            && a.spec_max_score() == Some(5u8),
{
}

} // verus!
