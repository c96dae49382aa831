use cmm_core::answer::{Answer, Detailed, DetailedOptional, Occurence, Satisfaction};
use cmm_core::cid::CID;
use cmm_core::compat::{input_map, nist_compat, to_cid};
use cmm_core::control::Control;
use cmm_core::error::CmmError;

#[test]
fn workbook_identifiers_are_spelled_out() {
    assert_eq!(to_cid("P 3.1").unwrap().to_string(), "People.3.1");
    assert_eq!(to_cid("M 1.2").unwrap().to_string(), "Process.1.2");
    assert_eq!(to_cid("B 4.6").unwrap().to_string(), "Business.4.6");
    assert_eq!(to_cid("T 2").unwrap().to_string(), "Technology.2");
    assert_eq!(to_cid("S 2 - Scope").unwrap().to_string(), "Services.2");
    assert_eq!(to_cid("S 3 - Security incident Management").unwrap().to_string(), "Services.3");
    assert_eq!(to_cid("S 4 - Security Analysis").unwrap().to_string(), "Services.4");
}

#[test]
fn unknown_workbook_identifiers_fail() {
    assert!(matches!(to_cid("X 1"), Err(CmmError::CIDMissingDomain)));
    assert!(matches!(to_cid("P 0.1"), Err(CmmError::CIDInvalidZero)));
    assert!(matches!(to_cid("P 1.a"), Err(CmmError::CIDMalformed)));
}

#[test]
fn form_control_selections_map_to_answers() {
    assert_eq!(
        input_map("_Input!$C$13:$C$18", 6, "C"),
        Answer::DetailedOptional(DetailedOptional::NotRequired)
    );
    assert_eq!(input_map("_Input!$C$13:$C$18", 9, "C"), Answer::DetailedOptional(DetailedOptional::No));
    assert_eq!(input_map("_Input!$C$13:$C$17", 4, "M"), Answer::Detailed(Detailed::Mostly));
    assert_eq!(input_map("_Input!$C$3:$C$4", 2, ""), Answer::Bool(true));
    assert_eq!(input_map("_Input!$C$3:$C$4", 1, "M"), Answer::Bool(false));
    assert_eq!(input_map("_Input!$C$39:$C$43", 2, "M"), Answer::Occurence(Occurence::Sometimes));
    assert_eq!(input_map("_Input!$C$45:$C$49", 5, "M"), Answer::Satisfaction(Satisfaction::Fully));
    assert_eq!(input_map("_Input!$C$45:$C$49", 0, "M"), Answer::Satisfaction(Satisfaction::No));
}

#[test]
fn compatibility_controls_are_reset() {
    let mut controls = vec![
        ("Services.4.15.30".parse::<CID>().unwrap(), Control::new(Answer::Title, Some(String::from("c")))),
        ("Process.2.4.9".parse::<CID>().unwrap(), Control::new(Answer::Title, None)),
        ("Business.4.6".parse::<CID>().unwrap(), Control::new(Answer::Title, None)),
        ("People.2.2.14".parse::<CID>().unwrap(), Control::new(Answer::Any(String::from("x")), None)),
        ("People.2.2.13".parse::<CID>().unwrap(), Control::new(Answer::Bool(true), None)),
    ];
    controls[1].1.toggle_bookmark();
    nist_compat(&mut controls);
    assert_eq!(controls[0].1.answer(), &Answer::DetailedOptional(DetailedOptional::No));
    assert_eq!(controls[0].1.comment(), &Some(String::from("c")));
    assert_eq!(controls[1].1.answer(), &Answer::Detailed(Detailed::No));
    assert!(controls[1].1.bookmark());
    assert_eq!(controls[2].1.answer(), &Answer::Detailed(Detailed::No));
    assert_eq!(controls[3].1.answer(), &Answer::Any(String::new()));
    assert_eq!(controls[4].1.answer(), &Answer::Bool(true));
    assert_eq!(controls[4].0.to_string(), "People.2.2.13");
}
