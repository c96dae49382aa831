use indexmap::IndexMap;
use cmm_core::answer::{Answer, Detailed, DetailedOptional, Occurence, Satisfaction};
use cmm_core::cid::{Domain, CID};
use cmm_core::control::Control;
use cmm_core::data::SOCData;
use cmm_core::error::CmmError;
use cmm_core::schema::{ControlSchema, ControlType, Schema};

fn cid(text: &str) -> CID {
    text.parse().unwrap()
}

fn sample() -> SOCData {
    SOCData::new(
        vec![
            (cid("Services.1.11"), Control::new(Answer::DetailedOptional(DetailedOptional::No), None)),
            (cid("Business.1"), Control::new(Answer::Detailed(Detailed::Mostly), Some(String::from("kept")))),
            (cid("Services.1.2"), Control::new(Answer::Bool(false), None)),
            (cid("People.3"), Control::new(Answer::Satisfaction(Satisfaction::No), None)),
        ],
        Some(String::from("notes")),
        IndexMap::from([(String::from("name"), String::from("SOC"))]),
    )
}

#[test]
fn controls_are_kept_in_identifier_order() {
    let data = sample();
    assert_eq!(data.len(), 4);
    let services: Vec<String> = data
        .controls_by_domain(&Domain::Services)
        .iter()
        .map(|(c, _)| c.to_string())
        .collect();
    assert_eq!(services, vec!["Services.1.2", "Services.1.11"]);
    assert_eq!(data.controls_by_aspect(&Domain::Services, 1).len(), 2);
    assert_eq!(data.controls_by_aspect(&Domain::Services, 2).len(), 0);
    assert_eq!(data.controls_by_domain(&Domain::Process).len(), 0);
    assert_eq!(data.notes(), Some(&String::from("notes")));
    assert_eq!(data.profile().len(), 1);
}

#[test]
fn later_duplicate_wins() {
    let data = SOCData::from_map(vec![
        (cid("People.1"), Control::new(Answer::Bool(false), None)),
        (cid("People.1"), Control::new(Answer::Bool(true), None)),
    ]);
    assert_eq!(data.len(), 1);
    assert_eq!(data.control(&cid("People.1")).unwrap().answer(), &Answer::Bool(true));
    assert_eq!(data.notes(), None);
}

#[test]
fn merge_with_another_kind_fails_and_changes_nothing() {
    let mut data = sample();
    let incoming = vec![
        (cid("People.3"), Answer::Satisfaction(Satisfaction::Fully), None),
        (cid("Business.1"), Answer::Bool(true), None),
    ];
    match data.merge(&incoming) {
        Err(CmmError::DiscriminantMismatch(existing, new)) => {
            assert_eq!(existing, Answer::Detailed(Detailed::Mostly));
            assert_eq!(new, Answer::Bool(true));
        },
        other => panic!("unexpected result {:?}", other),
    }
    let business = data.control(&cid("Business.1")).unwrap();
    assert_eq!(business.answer(), &Answer::Detailed(Detailed::Mostly));
    assert_eq!(business.comment(), &Some(String::from("kept")));
    assert_eq!(
        data.control(&cid("People.3")).unwrap().answer(),
        &Answer::Satisfaction(Satisfaction::No)
    );
}

#[test]
fn merge_sets_answers_and_comments_and_ignores_unknown_identifiers() {
    let mut data = sample();
    data.toggle_bookmark(&cid("People.3"));
    let incoming = vec![
        (cid("People.3"), Answer::Satisfaction(Satisfaction::Averagely), Some(String::from("first"))),
        (cid("Process.9"), Answer::Occurence(Occurence::Always), None),
        (cid("People.3"), Answer::Satisfaction(Satisfaction::Fully), Some(String::from("last"))),
        (cid("Business.1"), Answer::Detailed(Detailed::No), None),
    ];
    assert!(data.merge(&incoming).is_ok());
    let people = data.control(&cid("People.3")).unwrap();
    assert_eq!(people.answer(), &Answer::Satisfaction(Satisfaction::Fully));
    assert_eq!(people.comment(), &Some(String::from("last")));
    assert!(people.bookmark());
    let business = data.control(&cid("Business.1")).unwrap();
    assert_eq!(business.answer(), &Answer::Detailed(Detailed::No));
    assert_eq!(business.comment(), &None);
    assert!(data.control(&cid("Process.9")).is_none());
    assert_eq!(data.len(), 4);
}

#[test]
fn setters_change_one_control() {
    let mut data = sample();
    assert!(data.set_answer(&cid("Services.1.2"), Answer::Bool(true)).is_ok());
    data.set_comment(&cid("Services.1.2"), Some(String::from("why")));
    data.toggle_bookmark(&cid("Services.1.2"));
    assert!(data.set_answer(&cid("Process.1"), Answer::Bool(true)).is_ok());
    let c = data.control(&cid("Services.1.2")).unwrap();
    assert_eq!(c.answer(), &Answer::Bool(true));
    assert_eq!(c.comment(), &Some(String::from("why")));
    assert!(c.bookmark());
    assert!(data.has_pinned_items());
    assert!(data.control(&cid("Process.1")).is_none());
    assert_eq!(
        data.control(&cid("Services.1.11")).unwrap().answer(),
        &Answer::DetailedOptional(DetailedOptional::No)
    );
}

#[test]
fn set_answer_of_another_kind_fails_and_changes_nothing() {
    let mut data = sample();
    match data.set_answer(&cid("Business.1"), Answer::Bool(true)) {
        Err(CmmError::DiscriminantMismatch(existing, new)) => {
            assert_eq!(existing, Answer::Detailed(Detailed::Mostly));
            assert_eq!(new, Answer::Bool(true));
        },
        other => panic!("unexpected result {:?}", other),
    }
    let business = data.control(&cid("Business.1")).unwrap();
    assert_eq!(business.answer(), &Answer::Detailed(Detailed::Mostly));
    assert_eq!(business.comment(), &Some(String::from("kept")));
    assert!(data.set_answer(&cid("Business.1"), Answer::Detailed(Detailed::Fully)).is_ok());
    assert_eq!(data.control(&cid("Business.1")).unwrap().answer(), &Answer::Detailed(Detailed::Fully));
}

#[test]
fn remove_and_notes() {
    let mut data = sample();
    assert!(!data.has_pinned_items());
    data.remove_control(&cid("Business.1"));
    assert!(data.control(&cid("Business.1")).is_none());
    assert_eq!(data.len(), 3);
    data.remove_control(&cid("Business.1"));
    assert_eq!(data.len(), 3);
    data.set_notes(None);
    assert_eq!(data.notes(), None);
}

#[test]
fn fresh_data_from_schema_starts_at_the_lowest_levels() {
    let schema = Schema::new(
        vec![(Domain::People, vec![String::from("Employees"), String::from("Roles")])],
        vec![
            (cid("People.1.1"), ControlSchema::new(String::from("a"), Vec::new(), None, ControlType::Satisfaction, false)),
            (cid("People.1.2"), ControlSchema::new(String::from("b"), Vec::new(), None, ControlType::Occurence, false)),
            (cid("People.1"), ControlSchema::new(String::from("c"), Vec::new(), None, ControlType::Any, false)),
            (cid("People.2"), ControlSchema::new(String::from("d"), Vec::new(), None, ControlType::ScoredSectionTitle, false)),
        ],
        IndexMap::new(),
    );
    let data = SOCData::from_schema(&schema);
    assert_eq!(data.len(), 4);
    assert_eq!(data.control(&cid("People.1.1")).unwrap().answer(), &Answer::Satisfaction(Satisfaction::No));
    assert_eq!(data.control(&cid("People.1.2")).unwrap().answer(), &Answer::Occurence(Occurence::Never));
    assert_eq!(data.control(&cid("People.1")).unwrap().answer(), &Answer::Any(String::new()));
    assert_eq!(data.control(&cid("People.2")).unwrap().answer(), &Answer::Title);
    let order: Vec<String> = data.controls_by_domain(&Domain::People).iter().map(|(c, _)| c.to_string()).collect();
    assert_eq!(order, vec!["People.1", "People.1.1", "People.1.2", "People.2"]);
    assert_eq!(schema.aspects(&Domain::People), vec![&String::from("Employees"), &String::from("Roles")]);
    assert_eq!(schema.aspect_title(&Domain::People, 2).unwrap(), &String::from("Roles"));
    assert!(matches!(schema.aspect_title(&Domain::People, 3), Err(CmmError::MissingAspectTitle)));
    assert!(matches!(schema.aspect_title(&Domain::People, 0), Err(CmmError::MissingAspectTitle)));
    assert!(schema.aspects(&Domain::Business).is_empty());
    assert_eq!(schema.control_schema(&cid("People.1.2")).unwrap().title(), &String::from("b"));
    assert!(schema.control_schema(&cid("People.9")).is_none());
}

#[test]
fn control_records() {
    let mut c = Control::new(Answer::Detailed(Detailed::No), None);
    assert!(c.is_default());
    c.toggle_bookmark();
    assert!(!c.is_default());
    c.toggle_bookmark();
    c.set_comment(Some(String::from("x")));
    assert!(!c.is_default());
    c.set_comment(None);
    assert!(c.set_answer(Answer::Detailed(Detailed::Fully)).is_ok());
    assert!(!c.is_default());
    assert!(matches!(c.set_answer(Answer::Bool(true)), Err(CmmError::DiscriminantMismatch(_, _))));
    assert_eq!(c.answer(), &Answer::Detailed(Detailed::Fully));
    let schema = ControlSchema::new(
        String::from("t"),
        vec![String::from("none"), String::from("some")],
        Some(String::from("r")),
        ControlType::Bool,
        false,
    );
    assert_eq!(Control::from_schema(&schema).answer(), &Answer::Bool(false));
    assert_eq!(schema.guidance(2), Some(&String::from("some")));
    assert_eq!(schema.guidance(0), None);
    assert_eq!(schema.guidance(3), None);
    assert_eq!(schema.remarks(), &Some(String::from("r")));
    assert!(!schema.nist_only());
}

#[test]
fn schema_queries_are_ordered_by_identifier() {
    let entries = ["Technology.1.11", "Technology.2", "People.1", "Technology.1.2", "Technology.1"];
    let schema = Schema::new(
        Vec::new(),
        entries.iter().map(|t| (cid(t), ControlSchema::default())).collect(),
        IndexMap::new(),
    );
    let by_domain: Vec<String> =
        schema.controls_by_domain(&Domain::Technology).iter().map(|(c, _)| c.to_string()).collect();
    assert_eq!(by_domain, vec!["Technology.1", "Technology.1.2", "Technology.1.11", "Technology.2"]);
    let by_aspect: Vec<String> =
        schema.controls_by_aspect(&Domain::Technology, 1).iter().map(|(c, _)| c.to_string()).collect();
    assert_eq!(by_aspect, vec!["Technology.1", "Technology.1.2", "Technology.1.11"]);
    assert_eq!(schema.controls().len(), 5);
}

#[test]
fn section_completeness_counts_yes_answers_below() {
    let data = SOCData::from_map(vec![
        (cid("People.2"), Control::new(Answer::Title, None)),
        (cid("People.2.1"), Control::new(Answer::Bool(true), None)),
        (cid("People.2.2"), Control::new(Answer::Bool(false), None)),
        (cid("People.2.3"), Control::new(Answer::Bool(true), None)),
        (cid("People.2.4"), Control::new(Answer::Detailed(Detailed::Fully), None)),
        (cid("People.3.1"), Control::new(Answer::Bool(true), None)),
    ]);
    let s = data.section_completeness(&cid("People.2"));
    assert_eq!((s.points(), s.span(), s.max()), (2, 3, 3));
    assert_eq!(s.percentage_or_zero(), 66);
    let none = data.section_completeness(&cid("Process.1"));
    assert!(!none.is_applicable());
}
