//! One control's mutable answer record.
use vstd::prelude::*;

use crate::answer::{Answer, Detailed, DetailedOptional, Occurence, Satisfaction};
use crate::error::CmmError;
use crate::schema::{ControlSchema, ControlType};

verus! {

/// The answer, an optional comment and a pinned flag of one control.
#[derive(Clone, Debug, PartialEq, Eq)]
pub struct Control {
    answer: Answer,
    bookmark: bool,
    comment: Option<String>,
}

/// `a` is the answer a control of type `t` starts with: the lowest level of
/// its scale, `false`, empty text, or a title.
pub open spec fn is_starting_answer(t: ControlType, a: Answer) -> bool {
    match t {
        ControlType::Satisfaction => a == Answer::Satisfaction(Satisfaction::No),
        ControlType::Detailed => a == Answer::Detailed(Detailed::No),
        ControlType::DetailedOptional => a == Answer::DetailedOptional(DetailedOptional::No),
        ControlType::Occurence => a == Answer::Occurence(Occurence::Never),
        ControlType::Bool => a == Answer::Bool(false),
        ControlType::Any => a is Any && a->Any_0@.len() == 0,
        ControlType::Title | ControlType::ScoredSectionTitle => a == Answer::Title,
    }
}

impl Control {
    pub closed spec fn spec_answer(&self) -> Answer {
        self.answer
    }

    pub closed spec fn spec_comment(&self) -> Option<String> {
        self.comment
    }

    pub closed spec fn spec_bookmark(&self) -> bool {
        self.bookmark
    }

    /// The control holds nothing a user entered.
    pub open spec fn spec_is_default(&self) -> bool {
        self.spec_answer().spec_is_default() && self.spec_comment() is None && !self.spec_bookmark()
    }

    /// A control that is not pinned.
    pub fn new(answer: Answer, comment: Option<String>) -> (r: Control)
        ensures
            r.spec_answer() == answer,
            r.spec_comment() == comment,
            !r.spec_bookmark(),
    {
        Control { answer, bookmark: false, comment }
    }

    /// A fresh control for a schema entry, holding its type's starting
    /// answer.
    pub fn from_schema(schema: &ControlSchema) -> (r: Control)
        ensures
            is_starting_answer(schema.spec_control_type(), r.spec_answer()),
            r.spec_comment() is None,
            !r.spec_bookmark(),
    {
        let answer = match schema.control_type() {
            ControlType::Satisfaction => Answer::Satisfaction(Satisfaction::No),
            ControlType::Detailed => Answer::Detailed(Detailed::No),
            ControlType::DetailedOptional => Answer::DetailedOptional(DetailedOptional::No),
            ControlType::Occurence => Answer::Occurence(Occurence::Never),
            ControlType::Bool => Answer::Bool(false),
            ControlType::Any => Answer::Any(String::new()),
            ControlType::Title | ControlType::ScoredSectionTitle => Answer::Title,
        };
        Control { answer, bookmark: false, comment: None }
    }

    pub fn answer(&self) -> (r: &Answer)
        ensures
            *r == self.spec_answer(),
    {
        &self.answer
    }

    /// Sets the answer, which must be of the same kind as the current one;
    /// otherwise nothing changes and both answers are reported.
    pub fn set_answer(&mut self, answer: Answer) -> (r: Result<(), CmmError>)
        ensures
            r is Ok <==> old(self).spec_answer().same_kind(&answer),
            r is Ok ==> final(self).spec_answer() == answer,
            r is Err ==> final(self).spec_answer() == old(self).spec_answer() && r->Err_0
                == CmmError::DiscriminantMismatch(old(self).spec_answer(), answer),
            final(self).spec_comment() == old(self).spec_comment(),
            final(self).spec_bookmark() == old(self).spec_bookmark(),
    {
        if self.answer.type_eq(&answer) {
            self.answer = answer;
            Ok(())
        } else {
            Err(CmmError::DiscriminantMismatch(self.answer.duplicate(), answer))
        }
    }

    pub fn comment(&self) -> (r: &Option<String>)
        ensures
            *r == self.spec_comment(),
    {
        &self.comment
    }

    pub fn set_comment(&mut self, comment: Option<String>)
        ensures
            final(self).spec_comment() == comment,
            final(self).spec_answer() == old(self).spec_answer(),
            final(self).spec_bookmark() == old(self).spec_bookmark(),
    {
        self.comment = comment;
    }

    pub fn bookmark(&self) -> (r: bool)
        ensures
            r == self.spec_bookmark(),
    {
        self.bookmark
    }

    pub fn toggle_bookmark(&mut self)
        ensures
            final(self).spec_bookmark() == !old(self).spec_bookmark(),
            final(self).spec_answer() == old(self).spec_answer(),
            final(self).spec_comment() == old(self).spec_comment(),
    {
        self.bookmark = !self.bookmark;
    }

    pub fn is_default(&self) -> (r: bool)
        ensures
            r == self.spec_is_default(),
    {
        self.answer.is_default() && self.comment.is_none() && !self.bookmark
    }

    /// A copy of the control.
    pub fn duplicate(&self) -> (r: Control)
        ensures
            r == *self,
    {
        let comment = match &self.comment {
            Some(t) => Some(t.clone()),
            None => None,
        };
        Control { answer: self.answer.duplicate(), bookmark: self.bookmark, comment }
    }
}

} // verus!
