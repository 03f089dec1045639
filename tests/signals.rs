use abbrws::envelope::{Envelope, ErrorStatus, OneOrNone};
use abbrws::signal::{parse_list, parse_one, RawListSignal, RawSingleSignal};
use abbrws::{DecodeError, Signal, SignalKind, SignalValue};

fn single(kind: &str, lvalue: &str) -> RawSingleSignal {
    RawSingleSignal {
        title: "Local/PANEL/SS2".to_string(),
        kind: kind.to_string(),
        category: "safety".to_string(),
        lvalue: lvalue.to_string(),
        lvalue_float: lvalue.parse::<f64>().ok().map(f64::to_bits),
    }
}

fn listed(title: &str, kind: &str, lvalue: f64) -> RawListSignal {
    RawListSignal { title: title.to_string(), kind: kind.to_string(), category: "".to_string(), lvalue: lvalue.to_bits() }
}

fn bad_signal_status() -> ErrorStatus {
    ErrorStatus::from_wire(-1073445879, "Signal not found".to_string())
}

#[test]
fn test_parse_signals() {
    let envelope = Envelope {
        state: Some(vec![
            listed("Local/PANEL/SS1", "DI", 1.0),
            listed("Local/PANEL/SS2", "DO", 0.0),
            listed("Local/DRV_1/TEMP", "AI", 21.5),
            listed("Local/DRV_1/SPEED", "AO", -3.25),
            listed("Local/IO/GROUP_IN", "GI", 12.0),
            listed("Local/IO/GROUP_OUT", "GO", 0.0),
        ]),
        status: None,
    };
    let parsed = parse_list(envelope);
    assert!(matches!(&parsed, Ok(Ok(_))));
    let signals = parsed.unwrap().unwrap();
    assert_eq!(signals.len(), 6);
    assert_eq!(signals[0].lvalue, SignalValue::Binary(true));
    assert_eq!(signals[1].lvalue, SignalValue::Binary(false));
    assert_eq!(signals[2].lvalue, SignalValue::Analog(21.5f64.to_bits()));
    assert_eq!(signals[3].kind, SignalKind::AnalogOutput);
    assert_eq!(signals[4].lvalue, SignalValue::Group(12));
    assert_eq!(signals[5].title, "Local/IO/GROUP_OUT");
}

#[test]
fn signal_test_parse_bad_signal() {
    let envelope = Envelope { state: Some(OneOrNone::Empty), status: Some(bad_signal_status()) };
    let parsed = parse_one(envelope);
    assert!(matches!(parsed, Ok(Err(ErrorStatus { code: 0xc0048409, .. }))));
}

#[test]
fn bad_signal_as_list_gives_status() {
    let envelope: Envelope<Vec<RawListSignal>> = Envelope { state: Some(vec![]), status: Some(bad_signal_status()) };
    let parsed = parse_list(envelope);
    assert!(matches!(parsed, Ok(Err(ErrorStatus { code: 0xc0048409, .. }))));
}

#[test]
fn test_parse_signal() {
    let envelope = Envelope { state: Some(OneOrNone::One(single("DI", "1"))), status: None };
    let parsed = parse_one(envelope);
    assert!(matches!(&parsed, Ok(Ok(_))));
    let parsed: Signal = parsed.unwrap().unwrap();

    assert!(parsed.title == "Local/PANEL/SS2");
    assert!(parsed.category == "safety");
    assert!(parsed.kind == SignalKind::DigitalInput);
    assert!(parsed.lvalue == SignalValue::Binary(true));
}

#[test]
fn single_digital_values() {
    assert_eq!(Signal::from_single_raw(&single("DO", "0")).unwrap().lvalue, SignalValue::Binary(false));
    assert!(matches!(Signal::from_single_raw(&single("DI", "2")), Err(DecodeError::InvalidValue(_))));
    assert!(matches!(Signal::from_single_raw(&single("DI", "1.0")), Err(DecodeError::InvalidValue(_))));
    assert!(matches!(Signal::from_single_raw(&single("DI", "true")), Err(DecodeError::InvalidValue(_))));
}

#[test]
fn list_digital_values() {
    let one = Signal::from_list_raw(&listed("s", "DI", 1.0)).unwrap();
    assert_eq!(one.lvalue, SignalValue::Binary(true));
    let neg_zero = Signal::from_list_raw(&listed("s", "DO", -0.0)).unwrap();
    assert_eq!(neg_zero.lvalue, SignalValue::Binary(false));
    assert!(matches!(Signal::from_list_raw(&listed("s", "DI", 0.5)), Err(DecodeError::InvalidValue(_))));
    assert!(matches!(Signal::from_list_raw(&listed("s", "DI", 2.0)), Err(DecodeError::InvalidValue(_))));
}

#[test]
fn single_analog_and_group_values() {
    assert_eq!(Signal::from_single_raw(&single("AI", "2.5")).unwrap().lvalue, SignalValue::Analog(2.5f64.to_bits()));
    assert!(matches!(Signal::from_single_raw(&single("AO", "abc")), Err(DecodeError::InvalidValue(_))));
    assert_eq!(Signal::from_single_raw(&single("GI", "42")).unwrap().lvalue, SignalValue::Group(42));
    assert_eq!(Signal::from_single_raw(&single("GO", "+7")).unwrap().lvalue, SignalValue::Group(7));
    assert_eq!(
        Signal::from_single_raw(&single("GO", "18446744073709551615")).unwrap().lvalue,
        SignalValue::Group(u64::MAX)
    );
    assert!(matches!(Signal::from_single_raw(&single("GO", "18446744073709551616")), Err(DecodeError::InvalidValue(_))));
    assert!(matches!(Signal::from_single_raw(&single("GI", "-1")), Err(DecodeError::InvalidValue(_))));
    assert!(matches!(Signal::from_single_raw(&single("GI", "")), Err(DecodeError::InvalidValue(_))));
}

#[test]
fn unknown_kind_is_unknown_variant() {
    match Signal::from_single_raw(&single("XX", "1")) {
        Err(DecodeError::UnknownVariant(code)) => assert_eq!(code, "XX"),
        other => panic!("unexpected {:?}", other),
    }
    assert!(matches!(Signal::from_list_raw(&listed("s", "di", 1.0)), Err(DecodeError::UnknownVariant(_))));
}

#[test]
fn list_group_values_truncate_like_a_cast() {
    for x in [0.0f64, 0.9, 1.0, 12.0, 12.7, 4503599627370496.5, 9007199254740993.0, 1e19, 1.8e19, 1e20, -5.0, f64::INFINITY, f64::NEG_INFINITY, f64::NAN, 1e-300] {
        let s = Signal::from_list_raw(&listed("g", "GI", x)).unwrap();
        assert_eq!(s.lvalue, SignalValue::Group(x as u64), "value {}", x);
    }
}

#[test]
fn list_analog_passes_through() {
    let s = Signal::from_list_raw(&listed("a", "AI", -0.125)).unwrap();
    assert_eq!(s.lvalue, SignalValue::Analog((-0.125f64).to_bits()));
}

#[test]
fn list_first_failure_decides() {
    let envelope = Envelope {
        state: Some(vec![listed("a", "DI", 1.0), listed("b", "DI", 3.0), listed("c", "ZZ", 1.0)]),
        status: None,
    };
    assert!(matches!(parse_list(envelope), Err(DecodeError::InvalidValue(_))));
}

#[test]
fn missing_state_is_missing_field() {
    let envelope: Envelope<OneOrNone<RawSingleSignal>> = Envelope { state: Some(OneOrNone::Empty), status: None };
    assert!(matches!(parse_one(envelope), Err(DecodeError::MissingField("_state"))));
    let envelope: Envelope<Vec<RawListSignal>> = Envelope { state: None, status: None };
    assert!(matches!(parse_list(envelope), Err(DecodeError::MissingField("_state"))));
}

#[test]
fn value_from_text() {
    assert_eq!(SignalValue::from_text("1", Some(1.0f64.to_bits())), Ok(SignalValue::Binary(true)));
    assert_eq!(SignalValue::from_text("0", Some(0.0f64.to_bits())), Ok(SignalValue::Binary(false)));
    assert_eq!(SignalValue::from_text("true", None), Ok(SignalValue::Binary(true)));
    assert_eq!(SignalValue::from_text("false", None), Ok(SignalValue::Binary(false)));
    assert_eq!(SignalValue::from_text("17", Some(17.0f64.to_bits())), Ok(SignalValue::Group(17)));
    assert_eq!(SignalValue::from_text("1.5", Some(1.5f64.to_bits())), Ok(SignalValue::Analog(1.5f64.to_bits())));
    assert!(SignalValue::from_text("x", None).is_err());
}

#[test]
fn value_to_text() {
    assert_eq!(SignalValue::Binary(true).to_text().unwrap(), "1");
    assert_eq!(SignalValue::Binary(false).to_text().unwrap(), "0");
    assert_eq!(SignalValue::Group(0).to_text().unwrap(), "0");
    assert_eq!(SignalValue::Group(1234567890).to_text().unwrap(), "1234567890");
    assert_eq!(SignalValue::Group(u64::MAX).to_text().unwrap(), "18446744073709551615");
    assert!(SignalValue::Analog(1.5f64.to_bits()).to_text().is_none());
}

#[test]
fn analog_text_round_trip() {
    for x in [0.0f64, 1.5, -2.25, 123456.789, 1e-7, 3.141592653589793] {
        let text = format!("{}", x);
        let raw = single("AI", &text);
        let s = Signal::from_single_raw(&raw).unwrap();
        assert_eq!(s.lvalue, SignalValue::Analog(x.to_bits()));
    }
}

#[test]
fn kind_codes_and_descriptions() {
    let codes = ["DI", "DO", "AI", "AO", "GI", "GO"];
    let names = ["digital input", "digital output", "analog input", "analog output", "group input", "group output"];
    for (code, name) in codes.iter().zip(names.iter()) {
        let kind = SignalKind::from_code(code).unwrap();
        assert_eq!(kind.description(), *name);
    }
    assert!(SignalKind::from_code("D").is_none());
    assert!(SignalKind::from_code("DIX").is_none());
}
