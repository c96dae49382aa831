use cmm_core::answer::{Answer, Detailed, DetailedOptional, Satisfaction};
use cmm_core::aspect::Aspect;
use cmm_core::cid::{Domain, CID};
use cmm_core::control::Control;
use cmm_core::data::SOCData;
use cmm_core::error::CmmError;

fn entry(text: &str, answer: Answer) -> (CID, Control) {
    (text.parse().unwrap(), Control::new(answer, None))
}

#[test]
fn controls_of_one_aspect_make_an_aspect() {
    let aspect = Aspect::try_from_map(vec![
        entry("People.2", Answer::Title),
        entry("People.2.1", Answer::Satisfaction(Satisfaction::Mostly)),
        entry("People.2.2", Answer::Detailed(Detailed::Fully)),
        entry("People.2.3", Answer::DetailedOptional(DetailedOptional::Partially)),
        entry("People.2.4", Answer::DetailedOptional(DetailedOptional::NotRequired)),
    ])
    .unwrap();
    assert_eq!(aspect.controls().len(), 5);
    assert_eq!(aspect.maturity_factor(), 2);
    assert_eq!(aspect.maturity_total_score(), 9);
    assert_eq!(aspect.maturity_max_score(), 10);
    assert_eq!(aspect.capability_factor(), 1);
    assert_eq!(aspect.capability_total_score(), 2);
    assert_eq!(aspect.capability_max_score(), 5);
    let m = aspect.maturity_score();
    assert_eq!((m.points(), m.span(), m.max()), (7, 8, 5));
    let c = aspect.capability_score();
    assert_eq!((c.points(), c.span(), c.max()), (1, 4, 5));
}

#[test]
fn controls_of_two_aspects_are_refused() {
    let result = Aspect::try_from_map(vec![
        entry("People.2.1", Answer::Title),
        entry("People.2.2", Answer::Title),
        entry("People.3.1", Answer::Title),
        entry("Process.2.1", Answer::Title),
    ]);
    match result {
        Err(CmmError::MultipleAspects(first, conflict)) => {
            assert_eq!(first.to_string(), "People.2.1");
            assert_eq!(conflict.to_string(), "People.3.1");
        },
        other => panic!("unexpected result {:?}", other),
    }
    assert!(matches!(
        Aspect::try_from_map(vec![entry("People.2.1", Answer::Title), entry("Business.2.1", Answer::Title)]),
        Err(CmmError::MultipleAspects(_, _))
    ));
}

#[test]
fn empty_aspect_has_no_score() {
    let aspect = Aspect::try_from_map(Vec::new()).unwrap();
    assert_eq!(aspect.maturity_factor(), 0);
    assert!(!aspect.maturity_score().is_applicable());
    assert_eq!(aspect.maturity_score().percentage_or_zero(), 0);
}

#[test]
fn data_groups_into_aspects_by_first_segment() {
    let data = SOCData::from_map(vec![
        entry("Services.2.1", Answer::Title),
        entry("Services.1.11", Answer::Title),
        entry("People.1", Answer::Title),
        entry("Services.1.2", Answer::Title),
        entry("Services.10", Answer::Title),
        entry("Services.2", Answer::Title),
    ]);
    let aspects = data.aspects(&Domain::Services);
    let texts: Vec<Vec<String>> = aspects
        .iter()
        .map(|a| a.controls().iter().map(|(c, _)| c.to_string()).collect())
        .collect();
    assert_eq!(
        texts,
        vec![
            vec!["Services.1.2".to_string(), "Services.1.11".to_string()],
            vec!["Services.2".to_string(), "Services.2.1".to_string()],
            vec!["Services.10".to_string()],
        ]
    );
    assert!(data.aspects(&Domain::Technology).is_empty());
    assert_eq!(data.aspects(&Domain::People).len(), 1);
}
