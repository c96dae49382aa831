//! Definitions of the profile questions asked besides the controls.
use vstd::prelude::*;

verus! {

/// The kind of value a profile question takes.
#[derive(Clone, Debug, PartialEq, Eq)]
pub enum QuestionType {
    YesNo,
    Text,
    /// A date written `yyyy-mm-dd`.
    Date,
    Number,
    Select { items: Vec<String> },
}

/// Whom a profile question is about.
#[derive(Clone, Copy, Debug, PartialEq, Eq, Structural)]
pub enum QuestionCategory {
    Personal,
    Organization,
}

impl QuestionType {
    /// The value a question of this type starts with.
    pub open spec fn spec_default_value(&self) -> Seq<char> {
        match self {
            QuestionType::YesNo => "No"@,
            QuestionType::Select { items } => if items@.len() > 0 {
                items@[0]@
            } else {
                Seq::<char>::empty()
            },
            QuestionType::Date => "2000-01-01"@,
            QuestionType::Number => "0"@,
            QuestionType::Text => Seq::<char>::empty(),
        }
    }

    pub fn default_value(&self) -> (r: String)
        ensures
            r@ == self.spec_default_value(),
    {
        match self {
            QuestionType::YesNo => String::from_str("No"),
            QuestionType::Select { items } => if items.len() > 0 {
                items[0].clone()
            } else {
                String::new()
            },
            QuestionType::Date => String::from_str("2000-01-01"),
            QuestionType::Number => String::from_str("0"),
            QuestionType::Text => String::new(),
        }
    }
}

/// One profile question.
#[derive(Clone, Debug, PartialEq, Eq)]
pub struct ProfileQuestion {
    question: String,
    description: Option<String>,
    category: QuestionCategory,
    /// Short description of what the answer value represents.
    short: String,
    question_type: QuestionType,
}

impl ProfileQuestion {
    pub closed spec fn spec_question(&self) -> Seq<char> {
        self.question@
    }

    pub closed spec fn spec_description(&self) -> Option<String> {
        self.description
    }

    pub closed spec fn spec_category(&self) -> QuestionCategory {
        self.category
    }

    pub closed spec fn spec_short(&self) -> Seq<char> {
        self.short@
    }

    pub closed spec fn spec_question_type(&self) -> QuestionType {
        self.question_type
    }

    pub fn new(
        question: String,
        description: Option<String>,
        category: QuestionCategory,
        short: String,
        question_type: QuestionType,
    ) -> (r: ProfileQuestion)
        ensures
            r.spec_question() == question@,
            r.spec_description() == description,
            r.spec_category() == category,
            r.spec_short() == short@,
            r.spec_question_type() == question_type,
    {
        ProfileQuestion { question, description, category, short, question_type }
    }

    pub fn question(&self) -> (r: &String)
        ensures
            r@ == self.spec_question(),
    {
        &self.question
    }

    pub fn description(&self) -> (r: Option<&String>)
        ensures
            r is Some <==> self.spec_description() is Some,
            r is Some ==> *r->Some_0 == self.spec_description()->Some_0,
    {
        self.description.as_ref()
    }

    pub fn question_type(&self) -> (r: &QuestionType)
        ensures
            *r == self.spec_question_type(),
    {
        &self.question_type
    }

    pub fn short(&self) -> (r: &str)
        ensures
            r@ == self.spec_short(),
    {
        self.short.as_str()
    }

    pub fn category(&self) -> (r: &QuestionCategory)
        ensures
            *r == self.spec_category(),
    {
        &self.category
    }
}

} // verus!
