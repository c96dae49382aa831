use cmm_core::profile::{ProfileQuestion, QuestionCategory, QuestionType};

#[test]
fn default_values_by_question_type() {
    assert_eq!(QuestionType::YesNo.default_value(), "No");
    assert_eq!(QuestionType::Date.default_value(), "2000-01-01");
    assert_eq!(QuestionType::Number.default_value(), "0");
    assert_eq!(QuestionType::Text.default_value(), "");
    let select = QuestionType::Select { items: vec![String::from("small"), String::from("large")] };
    assert_eq!(select.default_value(), "small");
    assert_eq!(QuestionType::Select { items: Vec::new() }.default_value(), "");
}

#[test]
fn question_accessors() {
    let q = ProfileQuestion::new(
        String::from("How many analysts?"),
        None,
        QuestionCategory::Organization,
        String::from("analysts"),
        QuestionType::Number,
    );
    assert_eq!(q.question(), "How many analysts?");
    assert_eq!(q.description(), None);
    assert_eq!(q.category(), &QuestionCategory::Organization);
    assert_eq!(q.short(), "analysts");
    assert_eq!(q.question_type(), &QuestionType::Number);
}
