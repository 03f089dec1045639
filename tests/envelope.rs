use abbrws::envelope::{parse, parse_one, DecodeError, Envelope, ErrorStatus, OneOrNone};

#[test]
fn mod_test_parse_bad_signal() {
    let envelope: Envelope<()> = Envelope {
        state: None,
        status: Some(ErrorStatus::from_wire(-1073445879, "Signal not found".to_string())),
    };
    assert!(matches!(parse(envelope), Ok(Err(ErrorStatus { code: 0xc0048409, .. }))));
}

#[test]
fn error_code_bits_are_reinterpreted() {
    assert_eq!(ErrorStatus::from_wire(-1, String::new()).code, 0xFFFF_FFFF);
    assert_eq!(ErrorStatus::from_wire(i32::MIN, String::new()).code, 0x8000_0000);
    assert_eq!(ErrorStatus::from_wire(0, String::new()).code, 0);
    assert_eq!(ErrorStatus::from_wire(i32::MAX, String::new()).code, 0x7FFF_FFFF);
    assert_eq!(ErrorStatus::from_wire(-1073445879, "m".to_string()).message, "m");
}

#[test]
fn status_wins_over_state() {
    let envelope = Envelope { state: Some(5u32), status: Some(ErrorStatus::from_wire(7, "x".to_string())) };
    assert!(matches!(parse(envelope), Ok(Err(ErrorStatus { code: 7, .. }))));
}

#[test]
fn state_without_status() {
    let envelope = Envelope { state: Some(5u32), status: None };
    assert!(matches!(parse(envelope), Ok(Ok(5))));
    let envelope = Envelope { state: Some(OneOrNone::One(9u32)), status: None };
    assert!(matches!(parse_one(envelope), Ok(Ok(9))));
}

#[test]
fn neither_is_missing_state() {
    let envelope: Envelope<u32> = Envelope { state: None, status: None };
    assert!(matches!(parse(envelope), Err(DecodeError::MissingField("_state"))));
    let envelope: Envelope<OneOrNone<u32>> = Envelope { state: Some(OneOrNone::Empty), status: None };
    assert!(matches!(parse_one(envelope), Err(DecodeError::MissingField("_state"))));
}

#[test]
fn one_or_none_into_option() {
    assert_eq!(OneOrNone::One(3u8).into_option(), Some(3));
    assert_eq!(OneOrNone::<u8>::Empty.into_option(), None);
}
