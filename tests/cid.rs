use cmm_core::cid::{Domain, CID};
use cmm_core::error::CmmError;

#[test]
fn test_cid_from_string() {
    let cid = "Business.1.2.3.4".parse::<CID>().unwrap();
    assert_eq!(cid.domain(), Domain::Business);
    assert_eq!(cid.segments(), vec![1, 2, 3, 4]);
}

#[test]
fn test_short_cid() {
    let cid = "Business.1".parse::<CID>().unwrap();
    assert_eq!(cid.domain(), Domain::Business);
    assert_eq!(cid.segments(), vec![1, 0, 0, 0]);
}

#[test]
fn test_long_cid() {
    let cid = "Business.11.11.11.11".parse::<CID>().unwrap();
    assert_eq!(cid.domain(), Domain::Business);
    assert_eq!(cid.segments(), vec![11, 11, 11, 11]);
}

#[test]
fn test_cid_invalid_domain() {
    assert!("A.1.2.3.4".parse::<CID>().is_err());
}

#[test]
fn test_cid_invalid_zero() {
    assert!("Business.0.11.11.11".parse::<CID>().is_err());
}

#[test]
fn test_cid_serialization() {
    assert_eq!(
        "Business.1",
        "Business.1".parse::<CID>().unwrap().to_string()
    );
}

#[test]
fn test_cid_sort() {
    let mut cids: Vec<CID> = vec![
        "Services.1.1".parse().unwrap(),
        "Services.1.11".parse().unwrap(),
        "Services.1.2".parse().unwrap(),
        "People.3".parse().unwrap(),
    ];

    let correct_order: Vec<CID> = vec![
        "People.3".parse().unwrap(),
        "Services.1.1".parse().unwrap(),
        "Services.1.2".parse().unwrap(),
        "Services.1.11".parse().unwrap(),
    ];

    cids.sort();

    assert_eq!(correct_order, cids);
}

#[test]
fn test_cid_as_short_string() {
    assert_eq!("People.3".parse::<CID>().unwrap().as_short_string(), "3".to_string());
    assert_eq!("People.3.1".parse::<CID>().unwrap().as_short_string(), "3.1".to_string());
    assert_eq!("People.3.12.1".parse::<CID>().unwrap().as_short_string(), "3.12.1".to_string());
}

#[test]
fn test_cid_indent() {
    assert_eq!("People.3".parse::<CID>().unwrap().indent(), 1);
    assert_eq!("People.3.1".parse::<CID>().unwrap().indent(), 2);
    assert_eq!("People.3.12.1".parse::<CID>().unwrap().indent(), 3);
}

#[test]
fn zero_segment_is_invalid_zero() {
    assert!(matches!(CID::parse("Business.0.11.11.11"), Err(CmmError::CIDInvalidZero)));
    assert!(matches!(CID::parse("Business.1.00"), Err(CmmError::CIDInvalidZero)));
}

#[test]
fn unknown_domain_is_missing_domain() {
    assert!(matches!(CID::parse("A.1.2.3.4"), Err(CmmError::CIDMissingDomain)));
    assert!(matches!(CID::parse("business.1"), Err(CmmError::CIDMissingDomain)));
    assert!(matches!(CID::parse(""), Err(CmmError::CIDMissingDomain)));
}

#[test]
fn bad_segment_is_malformed() {
    assert!(matches!(CID::parse("People.x"), Err(CmmError::CIDMalformed)));
    assert!(matches!(CID::parse("People.256"), Err(CmmError::CIDMalformed)));
    assert!(matches!(CID::parse("People.1..2"), Err(CmmError::CIDMalformed)));
    assert!(matches!(CID::parse("People."), Err(CmmError::CIDMalformed)));
}

#[test]
fn first_failure_in_reading_order_is_reported() {
    assert!(matches!(CID::parse("People.0.x"), Err(CmmError::CIDInvalidZero)));
    assert!(matches!(CID::parse("People.x.0"), Err(CmmError::CIDMalformed)));
}

#[test]
fn segments_after_the_fourth_are_ignored() {
    let cid = CID::parse("Process.1.2.3.4.5.x").unwrap();
    assert_eq!(cid.segments(), vec![1, 2, 3, 4]);
    assert_eq!(cid.to_string(), "Process.1.2.3.4");
}

#[test]
fn largest_segment_round_trips() {
    let cid = CID::parse("Technology.255.255.255.255").unwrap();
    assert_eq!(cid.segments(), vec![255, 255, 255, 255]);
    assert_eq!(cid.to_string(), "Technology.255.255.255.255");
}

#[test]
fn canonical_texts_round_trip() {
    for text in ["Business", "People.3", "Process.2.17", "Technology.4.15.30", "Services.6.15.20.1"] {
        assert_eq!(CID::parse(text).unwrap().to_string(), text);
    }
}

#[test]
fn domain_only_identifier_has_no_segments() {
    let cid = CID::parse("Services").unwrap();
    assert_eq!(cid.indent(), 0);
    assert_eq!(cid.as_short_string(), "");
    assert_eq!(cid.aspect_id(), 0);
}

#[test]
fn non_canonical_segments_are_read_as_numbers() {
    let cid = CID::parse("People.+3.007").unwrap();
    assert_eq!(cid.segments(), vec![3, 7, 0, 0]);
    assert_eq!(cid.to_string(), "People.3.7");
}

#[test]
fn ordering_is_numeric_not_textual() {
    let a = CID::parse("Services.1.2").unwrap();
    let b = CID::parse("Services.1.11").unwrap();
    let c = CID::parse("People.3").unwrap();
    assert!(a.precedes(&b));
    assert!(!b.precedes(&a));
    assert!(c.precedes(&a));
    assert!(!a.precedes(&a));
}

#[test]
fn aspect_id_is_first_segment() {
    assert_eq!(CID::parse("People.3.12.1").unwrap().aspect_id(), 3);
}

#[test]
fn key_round_trips() {
    let cid = CID::parse("Technology.4.15").unwrap();
    assert_eq!(cid.key(), (3, 4, 15, 0, 0));
    assert_eq!(CID::from_key(cid.key()), cid);
}

#[test]
fn domain_names_and_order() {
    let all = Domain::all();
    assert_eq!(all.len(), 5);
    for (i, d) in all.iter().enumerate() {
        assert_eq!(d.index() as usize, i);
        assert_eq!(Domain::from_name(d.name()), Some(*d));
    }
    assert_eq!(Domain::from_name("Nope"), None);
}

#[test]
fn indent_counts_every_present_segment() {
    let cid = CID::from_key((0, 0, 1, 0, 0));
    assert_eq!(cid.indent(), 1);
    assert_eq!(cid.as_short_string(), "1");
}
