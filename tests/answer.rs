use cmm_core::answer::{Answer, Detailed, DetailedOptional, Occurence, Satisfaction};
use cmm_core::error::CmmError;

#[test]
fn test_answer_to_string() {
    assert_eq!(
        Answer::DetailedOptional(DetailedOptional::Averagely).to_string(),
        String::from("Averagely")
    );
    assert_eq!(Answer::Title.to_string(), String::new());
}

fn every_kind() -> Vec<Answer> {
    vec![
        Answer::Satisfaction(Satisfaction::Mostly),
        Answer::Detailed(Detailed::Partially),
        Answer::DetailedOptional(DetailedOptional::Fully),
        Answer::DetailedOptional(DetailedOptional::NotRequired),
        Answer::Occurence(Occurence::Always),
        Answer::Bool(true),
        Answer::Any(String::from("text")),
        Answer::Title,
    ]
}

#[test]
fn no_answer_is_in_both_scopes() {
    for a in every_kind() {
        assert!(!(a.maturity_in_scope() && a.capability_in_scope()));
    }
}

#[test]
fn scopes_by_variant() {
    assert!(Answer::Satisfaction(Satisfaction::No).maturity_in_scope());
    assert!(Answer::Detailed(Detailed::No).maturity_in_scope());
    assert!(Answer::Occurence(Occurence::Never).maturity_in_scope());
    assert!(Answer::DetailedOptional(DetailedOptional::No).capability_in_scope());
    assert!(!Answer::DetailedOptional(DetailedOptional::NotRequired).capability_in_scope());
    assert!(Answer::DetailedOptional(DetailedOptional::NotRequired).is_capability());
    for a in [Answer::Bool(false), Answer::Any(String::new()), Answer::Title] {
        assert!(!a.maturity_in_scope());
        assert!(!a.capability_in_scope());
        assert_eq!(a.max_score(), None);
    }
}

#[test]
fn scores_are_ordinal_values() {
    assert_eq!(Answer::Satisfaction(Satisfaction::Somewhat).maturity_score(), Some(2));
    assert_eq!(Answer::Occurence(Occurence::Always).maturity_score(), Some(5));
    assert_eq!(Answer::Detailed(Detailed::Averagely).maturity_score(), Some(3));
    assert_eq!(Answer::DetailedOptional(DetailedOptional::Mostly).capability_score(), Some(4));
    assert_eq!(Answer::DetailedOptional(DetailedOptional::NotRequired).capability_score(), Some(6));
    assert_eq!(Answer::Satisfaction(Satisfaction::Fully).capability_score(), None);
    assert_eq!(Answer::DetailedOptional(DetailedOptional::Fully).maturity_score(), None);
    assert_eq!(Answer::Detailed(Detailed::No).max_score(), Some(5));
    assert_eq!(Answer::DetailedOptional(DetailedOptional::No).max_score(), Some(5));
}

#[test]
fn variants_list_the_labels_lowest_first() {
    assert_eq!(
        Answer::Satisfaction(Satisfaction::No).variants(),
        vec!["No", "Somewhat", "Averagely", "Mostly", "Fully"]
    );
    assert_eq!(
        Answer::Occurence(Occurence::Never).variants(),
        vec!["Never", "Sometimes", "Averagely", "Mostly", "Always"]
    );
    assert_eq!(
        Answer::DetailedOptional(DetailedOptional::No).variants(),
        vec!["No", "Partially", "Averagely", "Mostly", "Fully", "NotRequired"]
    );
    assert!(Answer::Bool(false).variants().is_empty());
    assert!(Answer::Any(String::new()).variants().is_empty());
    assert!(Answer::Title.variants().is_empty());
}

#[test]
fn extend_from_variant_keeps_the_kind() {
    let a = Answer::Detailed(Detailed::No);
    assert_eq!(a.extend_from_variant("Mostly").unwrap(), Answer::Detailed(Detailed::Mostly));
    let b = Answer::Bool(false);
    assert_eq!(b.extend_from_variant("true").unwrap(), Answer::Bool(true));
    let s = Answer::Satisfaction(Satisfaction::No);
    assert_eq!(s.extend_from_variant("Somewhat").unwrap(), Answer::Satisfaction(Satisfaction::Somewhat));
    let t = Answer::Any(String::from("kept"));
    assert_eq!(t.extend_from_variant("whatever").unwrap(), Answer::Any(String::from("kept")));
}

#[test]
fn extend_from_unknown_label_fails() {
    let a = Answer::Detailed(Detailed::No);
    assert!(matches!(a.extend_from_variant("Somewhat"), Err(CmmError::UnknownVariant)));
    assert!(matches!(Answer::Bool(true).extend_from_variant("yes"), Err(CmmError::UnknownVariant)));
    assert!(matches!(
        Answer::Occurence(Occurence::Never).extend_from_variant("never"),
        Err(CmmError::UnknownVariant)
    ));
}

#[test]
fn variant_eq_compares_the_label() {
    assert!(Answer::Detailed(Detailed::Mostly).variant_eq("Mostly"));
    assert!(!Answer::Detailed(Detailed::Mostly).variant_eq("Fully"));
    assert!(Answer::Bool(false).variant_eq("false"));
    assert!(!Answer::Any(String::from("x")).variant_eq("x"));
    assert!(!Answer::Title.variant_eq(""));
}

#[test]
fn defaults_are_the_lowest_levels() {
    assert_eq!(Satisfaction::default(), Satisfaction::No);
    assert_eq!(Occurence::default(), Occurence::Never);
    assert_eq!(Detailed::default(), Detailed::No);
    assert_eq!(DetailedOptional::default(), DetailedOptional::No);
    assert!(Answer::Satisfaction(Satisfaction::No).is_default());
    assert!(!Answer::Satisfaction(Satisfaction::Fully).is_default());
    assert!(Answer::Bool(false).is_default());
    assert!(Answer::Title.is_default());
    assert!(Answer::Any(String::new()).is_default());
    assert!(!Answer::Any(String::from("x")).is_default());
}

#[test]
fn from_repr_reads_ordinal_values() {
    assert_eq!(DetailedOptional::from_repr(6), Some(DetailedOptional::NotRequired));
    assert_eq!(Detailed::from_repr(0), None);
    assert_eq!(Occurence::from_repr(3), Some(Occurence::Averagely));
    assert_eq!(Satisfaction::from_repr(7), None);
}

#[test]
fn type_eq_ignores_values() {
    assert!(Answer::Detailed(Detailed::No).type_eq(&Answer::Detailed(Detailed::Fully)));
    assert!(!Answer::Detailed(Detailed::No).type_eq(&Answer::Bool(true)));
    assert!(!Answer::Detailed(Detailed::No).type_eq(&Answer::DetailedOptional(DetailedOptional::No)));
}
