use indexmap::IndexMap;
use cmm_core::answer::{Answer, Detailed, DetailedOptional, Satisfaction};
use cmm_core::cid::{Domain, CID};
use cmm_core::control::Control;
use cmm_core::data::SOCData;
use cmm_core::schema::{ControlSchema, ControlType, Schema};
use cmm_core::score::{Score, Stats, OVERALL_MAX};

fn value(s: &Score) -> f64 {
    s.max() as f64 * (s.points() as f64 / s.span() as f64)
}

fn percentage(s: &Score) -> f64 {
    s.points() as f64 / s.span() as f64 * 100.0
}

fn stats_from_controls(controls: Vec<Control>) -> Stats {
    let mut data = Vec::new();
    let mut schema = Vec::new();
    for (i, control) in controls.into_iter().enumerate() {
        let cid: CID = format!("Business.{}", i + 1).parse().unwrap();
        data.push((cid, control));
        schema.push((cid, ControlSchema::default()));
    }
    Stats::new(SOCData::new(data, None, IndexMap::new()), Schema::new(Vec::new(), schema, IndexMap::new()))
}

#[test]
fn test_capability_score() {
    // 3 out of 3, so the score is the maximum: 100%
    let controls = vec![
        Control::new(Answer::DetailedOptional(DetailedOptional::Fully), None),
        Control::new(Answer::DetailedOptional(DetailedOptional::Fully), None),
        Control::new(Answer::DetailedOptional(DetailedOptional::Fully), None),
    ];
    let stats = stats_from_controls(controls);

    let score = stats.capability_by_domain(&Domain::Business);
    assert_eq!(value(&score), 5.0);
    assert_eq!(score.max() as f64, 5.0);
    assert_eq!(percentage(&score), 100.0);
}

#[test]
fn test_mixed_score() {
    let controls = vec![
        Control::new(Answer::DetailedOptional(DetailedOptional::Fully), None),
        Control::new(Answer::DetailedOptional(DetailedOptional::Fully), None),
        Control::new(Answer::DetailedOptional(DetailedOptional::Fully), None),
        Control::new(Answer::Satisfaction(Satisfaction::Fully), None),
        Control::new(Answer::Satisfaction(Satisfaction::Fully), None),
        Control::new(Answer::Satisfaction(Satisfaction::Fully), None),
    ];

    let stats = stats_from_controls(controls);

    let score = stats.capability_by_domain(&Domain::Business);
    assert_eq!(value(&score), 5.0);
    assert_eq!(score.max() as f64, 5.0);
    assert_eq!(percentage(&score), 100.0);

    let score = stats.maturity_by_domain(&Domain::Business);
    assert_eq!(value(&score), 5.0);
    assert_eq!(score.max() as f64, 5.0);
    assert_eq!(percentage(&score), 100.0);
}

#[test]
fn test_capability_score_not_required() {
    // 2 out of 2: the control that is not required does not count
    let controls = vec![
        Control::new(Answer::DetailedOptional(DetailedOptional::NotRequired), None),
        Control::new(Answer::DetailedOptional(DetailedOptional::Fully), None),
        Control::new(Answer::DetailedOptional(DetailedOptional::Fully), None),
    ];

    let stats = stats_from_controls(controls);

    let score = stats.capability_by_domain(&Domain::Business);
    assert_eq!(value(&score), 5.0);
    assert_eq!(score.max() as f64, 5.0);
    assert_eq!(percentage(&score), 100.0);
}

#[test]
fn not_required_is_left_out_of_the_count() {
    let controls = vec![
        Control::new(Answer::DetailedOptional(DetailedOptional::NotRequired), None),
        Control::new(Answer::DetailedOptional(DetailedOptional::Fully), None),
        Control::new(Answer::DetailedOptional(DetailedOptional::Fully), None),
    ];
    let score = stats_from_controls(controls).capability_by_domain(&Domain::Business);
    // two controls counted: span 4 per control
    assert_eq!(score.span(), 8);
    assert_eq!(score.points(), 8);
    assert!(score.is_full());
}

#[test]
fn six_fully_satisfied_controls_in_one_aspect_score_full() {
    let mut data = Vec::new();
    let mut schema = Vec::new();
    for i in 1..=6 {
        let cid: CID = format!("Business.1.{}", i).parse().unwrap();
        data.push((cid, Control::new(Answer::Satisfaction(Satisfaction::Fully), None)));
        schema.push((cid, ControlSchema::default()));
    }
    let stats = Stats::new(SOCData::new(data, None, IndexMap::new()), Schema::new(Vec::new(), schema, IndexMap::new()));
    let score = stats.maturity_by_aspect(&Domain::Business, 1);
    assert_eq!(value(&score), 5.0);
    assert_eq!(score.max() as f64, 5.0);
    assert_eq!(percentage(&score), 100.0);
    assert_eq!(score.percentage_or_zero(), 100);
}

#[test]
fn aspect_without_scored_controls_has_no_value() {
    let controls = vec![
        Control::new(Answer::Bool(true), None),
        Control::new(Answer::Title, None),
        Control::new(Answer::Any(String::from("free text")), None),
    ];
    let stats = stats_from_controls(controls);
    let score = stats.maturity_by_aspect(&Domain::Business, 1);
    assert!(!score.is_applicable());
    assert!((score.points() as f64 / score.span() as f64).is_nan());
    assert_eq!(score.percentage_or_zero(), 0);
    let empty = stats.maturity_by_aspect(&Domain::People, 1);
    assert!(!empty.is_applicable());
    assert_eq!(empty.percentage_or_zero(), 0);
}

#[test]
fn lowest_answers_score_zero_and_mixed_answers_scale_linearly() {
    let low = stats_from_controls(vec![
        Control::new(Answer::Detailed(Detailed::No), None),
        Control::new(Answer::Satisfaction(Satisfaction::No), None),
    ]);
    let s = low.maturity_by_domain(&Domain::Business);
    assert_eq!(value(&s), 0.0);
    assert_eq!(s.percentage_or_zero(), 0);
    assert!(s.is_applicable());

    let mixed = stats_from_controls(vec![
        Control::new(Answer::Satisfaction(Satisfaction::No), None),
        Control::new(Answer::Satisfaction(Satisfaction::Averagely), None),
        Control::new(Answer::Satisfaction(Satisfaction::Fully), None),
    ]);
    let s = mixed.maturity_by_domain(&Domain::Business);
    // total 9 over 3 controls: (9 - 3) / (15 - 3) of 5
    assert_eq!(s.points(), 6);
    assert_eq!(s.span(), 12);
    assert_eq!(value(&s), 2.5);
    assert_eq!(s.percentage_or_zero(), 50);
}

#[test]
fn compatibility_only_controls_are_not_scored() {
    let a: CID = "Process.2.2.5".parse().unwrap();
    let b: CID = "Process.2.2.6".parse().unwrap();
    let data = SOCData::new(
        vec![
            (a, Control::new(Answer::Detailed(Detailed::No), None)),
            (b, Control::new(Answer::Detailed(Detailed::Fully), None)),
        ],
        None,
        IndexMap::new(),
    );
    let schema = Schema::new(
        Vec::new(),
        vec![
            (a, ControlSchema::new(String::from("a"), Vec::new(), None, ControlType::Detailed, true)),
            (b, ControlSchema::new(String::from("b"), Vec::new(), None, ControlType::Detailed, false)),
        ],
        IndexMap::new(),
    );
    let stats = Stats::new(data, schema);
    let s = stats.maturity_by_aspect(&Domain::Process, 2);
    assert_eq!(s.span(), 4);
    assert!(s.is_full());
}

#[test]
fn controls_missing_from_the_schema_are_not_scored() {
    let a: CID = "People.1.1".parse().unwrap();
    let b: CID = "People.1.2".parse().unwrap();
    let data = SOCData::new(
        vec![
            (a, Control::new(Answer::Detailed(Detailed::No), None)),
            (b, Control::new(Answer::Detailed(Detailed::Fully), None)),
        ],
        None,
        IndexMap::new(),
    );
    let schema = Schema::new(Vec::new(), vec![(b, ControlSchema::default())], IndexMap::new());
    let s = Stats::new(data, schema).maturity_by_domain(&Domain::People);
    assert_eq!(s.span(), 4);
    assert_eq!(s.points(), 4);
}

#[test]
fn aspects_and_domains_are_scored_apart() {
    let entries = vec![
        ("People.1.1", Answer::Satisfaction(Satisfaction::Fully)),
        ("People.2.1", Answer::Satisfaction(Satisfaction::No)),
        ("Services.1.1", Answer::DetailedOptional(DetailedOptional::Mostly)),
    ];
    let mut data = Vec::new();
    let mut schema = Vec::new();
    for (text, answer) in entries {
        let cid: CID = text.parse().unwrap();
        data.push((cid, Control::new(answer, None)));
        schema.push((cid, ControlSchema::default()));
    }
    let stats = Stats::new(SOCData::new(data, None, IndexMap::new()), Schema::new(Vec::new(), schema, IndexMap::new()));
    assert!(stats.maturity_by_aspect(&Domain::People, 1).is_full());
    assert_eq!(stats.maturity_by_aspect(&Domain::People, 2).points(), 0);
    assert_eq!(stats.maturity_by_domain(&Domain::People).span(), 8);
    assert_eq!(stats.maturity_by_domain(&Domain::People).points(), 4);
    let cap = stats.capability_by_aspect(&Domain::Services, 1);
    assert_eq!((cap.points(), cap.span()), (3, 4));
    assert!(!stats.capability_by_domain(&Domain::People).is_applicable());

    let overall = stats.score_overall();
    assert_eq!(overall.max(), OVERALL_MAX);
    assert_eq!(overall.max(), 35);
    // People maturity, then Services capability; nothing else has a value
    assert_eq!(overall.parts().len(), 2);
    assert_eq!(overall.parts()[0], stats.maturity_by_domain(&Domain::People));
    assert_eq!(overall.parts()[1], stats.capability_by_domain(&Domain::Services));
    let sum: f64 = overall.parts().iter().map(value).sum();
    assert_eq!(sum, 2.5 + 3.75);
}

#[test]
fn score_accessors() {
    let s = Score::new(3, 4, 5);
    assert_eq!((s.points(), s.span(), s.max()), (3, 4, 5));
    assert_eq!(s.percentage_or_zero(), 75);
    assert!(!s.is_full());
}
