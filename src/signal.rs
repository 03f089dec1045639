//! Signals: named I/O points of the controller, and how their records decode.
use vstd::prelude::*;
use crate::envelope::{DecodeError, Envelope, ErrorStatus, OneOrNone, is_missing_state, one_of};
use crate::float_bits::{bits_are_one, bits_are_zero, is_one, is_zero, truncate_bits_to_u64, truncated_u64};
use crate::text::{
    decimal, decimal_text, lemma_decimal_reads_back, read_u64, same_text, text_false, text_true, unsigned_text_value,
};

verus! {

/// The electrical type of a signal.
#[derive(Clone, Copy, Debug, PartialEq, Eq, Structural)]
pub enum SignalKind {
    DigitalInput,
    DigitalOutput,
    AnalogInput,
    AnalogOutput,
    GroupInput,
    GroupOutput,
}

/// The kind that a wire code names: `DI`, `DO`, `AI`, `AO`, `GI` or `GO`.
pub open spec fn kind_of_code(code: Seq<char>) -> Option<SignalKind> {
    if code.len() != 2 {
        None
    } else if code[0] == 'D' && code[1] == 'I' {
        Some(SignalKind::DigitalInput)
    } else if code[0] == 'D' && code[1] == 'O' {
        Some(SignalKind::DigitalOutput)
    } else if code[0] == 'A' && code[1] == 'I' {
        Some(SignalKind::AnalogInput)
    } else if code[0] == 'A' && code[1] == 'O' {
        Some(SignalKind::AnalogOutput)
    } else if code[0] == 'G' && code[1] == 'I' {
        Some(SignalKind::GroupInput)
    } else if code[0] == 'G' && code[1] == 'O' {
        Some(SignalKind::GroupOutput)
    } else {
        None
    }
}

impl SignalKind {
    pub open spec fn is_digital(self) -> bool {
        self is DigitalInput || self is DigitalOutput
    }

    pub open spec fn is_analog(self) -> bool {
        self is AnalogInput || self is AnalogOutput
    }

    pub open spec fn is_group(self) -> bool {
        self is GroupInput || self is GroupOutput
    }

    /// The kind named by a wire code.
    pub fn from_code(code: &str) -> (r: Option<SignalKind>)
        ensures
            r == kind_of_code(code@),
    {
        if code.unicode_len() != 2 {
            return None;
        }
        let a = code.get_char(0);
        let b = code.get_char(1);
        if a == 'D' && b == 'I' {
            Some(SignalKind::DigitalInput)
        } else if a == 'D' && b == 'O' {
            Some(SignalKind::DigitalOutput)
        } else if a == 'A' && b == 'I' {
            Some(SignalKind::AnalogInput)
        } else if a == 'A' && b == 'O' {
            Some(SignalKind::AnalogOutput)
        } else if a == 'G' && b == 'I' {
            Some(SignalKind::GroupInput)
        } else if a == 'G' && b == 'O' {
            Some(SignalKind::GroupOutput)
        } else {
            None
        }
    }

    /// A description for people: "digital input" and so on.
    pub fn description(&self) -> (r: &'static str)
        ensures
            self is DigitalInput ==> r@ == "digital input"@,
            self is DigitalOutput ==> r@ == "digital output"@,
            self is AnalogInput ==> r@ == "analog input"@,
            self is AnalogOutput ==> r@ == "analog output"@,
            self is GroupInput ==> r@ == "group input"@,
            self is GroupOutput ==> r@ == "group output"@,
    {
        match self {
            SignalKind::DigitalInput => "digital input",
            SignalKind::DigitalOutput => "digital output",
            SignalKind::AnalogInput => "analog input",
            SignalKind::AnalogOutput => "analog output",
            SignalKind::GroupInput => "group input",
            SignalKind::GroupOutput => "group output",
        }
    }
}

/// The value of a signal. An analog value is held as the IEEE-754 bit
/// pattern of its binary64 floating-point number.
#[derive(Clone, Copy, Debug, PartialEq, Eq, Structural)]
pub enum SignalValue {
    Binary(bool),
    Analog(u64),
    Group(u64),
}

/// Text that reads as no signal value.
#[derive(Clone, Copy, Debug, PartialEq, Eq, Structural)]
pub struct SignalValueFromStrError;

pub open spec fn text_one() -> Seq<char> {
    seq!['1']
}

pub open spec fn text_zero() -> Seq<char> {
    seq!['0']
}

/// The value that text names, tried in turn as `1` or `0`, as `true` or
/// `false`, as an unsigned integer, and last as a floating-point number,
/// whose reading (as a bit pattern) is given.
pub open spec fn value_of_text(t: Seq<char>, float_bits: Option<u64>) -> Option<SignalValue> {
    if t == text_one() || t == text_true() {
        Some(SignalValue::Binary(true))
    } else if t == text_zero() || t == text_false() {
        Some(SignalValue::Binary(false))
    } else if let Some(n) = unsigned_text_value(t, u64::MAX as nat) {
        Some(SignalValue::Group(n as u64))
    } else if let Some(b) = float_bits {
        Some(SignalValue::Analog(b))
    } else {
        None
    }
}

/// The form text of a value: `1` or `0` for a binary value, decimal for a
/// group value. Writing a floating-point number is left to the caller.
pub open spec fn value_text(v: SignalValue) -> Option<Seq<char>> {
    match v {
        SignalValue::Binary(true) => Some(text_one()),
        SignalValue::Binary(false) => Some(text_zero()),
        SignalValue::Group(n) => Some(decimal(n as nat)),
        SignalValue::Analog(_) => None,
    }
}

impl SignalValue {
    /// Reads a value from text. `float_bits` is the reading of `input` as a
    /// floating-point number, as its bit pattern, where it reads as one.
    pub fn from_text(input: &str, float_bits: Option<u64>) -> (r: Result<SignalValue, SignalValueFromStrError>)
        ensures
            r is Ok <==> value_of_text(input@, float_bits) is Some,
            r matches Ok(v) ==> value_of_text(input@, float_bits) == Some(v),
    {
        proof {
            reveal_strlit("1");
            reveal_strlit("0");
            reveal_strlit("true");
            reveal_strlit("false");
            assert("1"@ =~= text_one());
            assert("0"@ =~= text_zero());
            assert("true"@ =~= text_true());
            assert("false"@ =~= text_false());
        }
        if same_text(input, "1") || same_text(input, "true") {
            Ok(SignalValue::Binary(true))
        } else if same_text(input, "0") || same_text(input, "false") {
            Ok(SignalValue::Binary(false))
        } else if let Some(n) = read_u64(input) {
            Ok(SignalValue::Group(n))
        } else if let Some(b) = float_bits {
            Ok(SignalValue::Analog(b))
        } else {
            Err(SignalValueFromStrError)
        }
    }

    /// The text that sets this value in a form, where the library writes it.
    pub fn to_text(&self) -> (r: Option<String>)
        ensures
            r is Some <==> value_text(*self) is Some,
            r matches Some(t) ==> value_text(*self) == Some(t@),
    {
        match self {
            SignalValue::Binary(true) => Some(decimal_text(1)),
            SignalValue::Binary(false) => Some(decimal_text(0)),
            SignalValue::Group(n) => Some(decimal_text(*n)),
            SignalValue::Analog(_) => None,
        }
    }
}

/// A signal as the server reports it.
#[derive(Clone, Debug, PartialEq)]
pub struct Signal {
    pub title: String,
    pub kind: SignalKind,
    pub category: String,
    pub lvalue: SignalValue,
}

/// A signal record as the single-item request returns it: the value is text.
/// `lvalue_float` is the reading of `lvalue` as a floating-point number (its
/// bit pattern), where it reads as one; the caller supplies it.
pub struct RawSingleSignal {
    pub title: String,
    pub kind: String,
    pub category: String,
    pub lvalue: String,
    pub lvalue_float: Option<u64>,
}

/// A signal record as the list request returns it: the value is a JSON
/// number, held as the bit pattern of its binary64 reading.
pub struct RawListSignal {
    pub title: String,
    pub kind: String,
    pub category: String,
    pub lvalue: u64,
}

/// The value a single-item record carries for a signal of `kind`.
pub open spec fn single_value(kind: SignalKind, text: Seq<char>, float_bits: Option<u64>) -> Option<SignalValue> {
    if kind.is_digital() {
        if text == text_one() {
            Some(SignalValue::Binary(true))
        } else if text == text_zero() {
            Some(SignalValue::Binary(false))
        } else {
            None
        }
    } else if kind.is_analog() {
        match float_bits {
            Some(b) => Some(SignalValue::Analog(b)),
            None => None,
        }
    } else {
        match unsigned_text_value(text, u64::MAX as nat) {
            Some(n) => Some(SignalValue::Group(n as u64)),
            None => None,
        }
    }
}

/// The value a list record carries for a signal of `kind`: a digital value
/// must be exactly 1.0 or 0.0; a group value is the number cast to `u64`.
/// The wire sends a group value as a binary64 number, so a group value past
/// 2^53 may already have lost its low bits; the cast keeps what arrived.
pub open spec fn list_value(kind: SignalKind, bits: u64) -> Option<SignalValue> {
    if kind.is_digital() {
        if is_one(bits) {
            Some(SignalValue::Binary(true))
        } else if is_zero(bits) {
            Some(SignalValue::Binary(false))
        } else {
            None
        }
    } else if kind.is_analog() {
        Some(SignalValue::Analog(bits))
    } else {
        Some(SignalValue::Group(truncated_u64(bits)))
    }
}

/// Whether `s` is the signal of the given fields.
pub open spec fn signal_is(
    s: Signal,
    title: Seq<char>,
    kind: SignalKind,
    category: Seq<char>,
    value: SignalValue,
) -> bool {
    s.title@ == title && s.kind == kind && s.category@ == category && s.lvalue == value
}

/// How a record with the given kind code and value decodes: the result is
/// the signal when both the code and the value are good; an unknown code is
/// an unknown variant; a value the kind does not allow is an invalid value.
pub open spec fn decodes_as(
    r: Result<Signal, DecodeError>,
    title: Seq<char>,
    code: Seq<char>,
    category: Seq<char>,
    value: spec_fn(SignalKind) -> Option<SignalValue>,
) -> bool {
    match kind_of_code(code) {
        None => r matches Err(DecodeError::UnknownVariant(c)) && c@ == code,
        Some(k) => match value(k) {
            None => r matches Err(DecodeError::InvalidValue(_)),
            Some(v) => r matches Ok(s) && signal_is(s, title, k, category, v),
        },
    }
}

pub open spec fn single_decodes_as(r: Result<Signal, DecodeError>, raw: RawSingleSignal) -> bool {
    decodes_as(r, raw.title@, raw.kind@, raw.category@, |k: SignalKind| single_value(k, raw.lvalue@, raw.lvalue_float))
}

pub open spec fn list_decodes_as(r: Result<Signal, DecodeError>, raw: RawListSignal) -> bool {
    decodes_as(r, raw.title@, raw.kind@, raw.category@, |k: SignalKind| list_value(k, raw.lvalue))
}

impl Signal {
    /// Decodes a single-item record. The kind alone decides how the value is
    /// read: `1` or `0` for a digital signal, a floating-point number for an
    /// analog one, an unsigned integer for a group.
    pub fn from_single_raw(raw: &RawSingleSignal) -> (r: Result<Signal, DecodeError>)
        ensures
            single_decodes_as(r, *raw),
    {
        let kind = match SignalKind::from_code(raw.kind.as_str()) {
            Some(k) => k,
            None => return Err(DecodeError::UnknownVariant(raw.kind.clone())),
        };
        proof {
            reveal_strlit("1");
            reveal_strlit("0");
            assert("1"@ =~= text_one());
            assert("0"@ =~= text_zero());
        }
        let value = match kind {
            SignalKind::AnalogInput | SignalKind::AnalogOutput => match raw.lvalue_float {
                Some(b) => SignalValue::Analog(b),
                None => return Err(DecodeError::InvalidValue("floating-point value")),
            },
            SignalKind::DigitalInput | SignalKind::DigitalOutput => {
                if same_text(raw.lvalue.as_str(), "1") {
                    SignalValue::Binary(true)
                } else if same_text(raw.lvalue.as_str(), "0") {
                    SignalValue::Binary(false)
                } else {
                    return Err(DecodeError::InvalidValue("1 or 0"));
                }
            },
            SignalKind::GroupInput | SignalKind::GroupOutput => match read_u64(raw.lvalue.as_str()) {
                Some(n) => SignalValue::Group(n),
                None => return Err(DecodeError::InvalidValue("integer")),
            },
        };
        Ok(Signal { title: raw.title.clone(), kind, category: raw.category.clone(), lvalue: value })
    }

    /// Decodes a list record, whose value is a number for every kind.
    pub fn from_list_raw(raw: &RawListSignal) -> (r: Result<Signal, DecodeError>)
        ensures
            list_decodes_as(r, *raw),
    {
        let kind = match SignalKind::from_code(raw.kind.as_str()) {
            Some(k) => k,
            None => return Err(DecodeError::UnknownVariant(raw.kind.clone())),
        };
        let value = match kind {
            SignalKind::AnalogInput | SignalKind::AnalogOutput => SignalValue::Analog(raw.lvalue),
            SignalKind::DigitalInput | SignalKind::DigitalOutput => {
                if bits_are_one(raw.lvalue) {
                    SignalValue::Binary(true)
                } else if bits_are_zero(raw.lvalue) {
                    SignalValue::Binary(false)
                } else {
                    return Err(DecodeError::InvalidValue("1 or 0"));
                }
            },
            SignalKind::GroupInput | SignalKind::GroupOutput => SignalValue::Group(truncate_bits_to_u64(raw.lvalue)),
        };
        Ok(Signal { title: raw.title.clone(), kind, category: raw.category.clone(), lvalue: value })
    }
}

/// Whether a list record decodes without error.
pub open spec fn list_record_ok(raw: RawListSignal) -> bool {
    kind_of_code(raw.kind@) matches Some(k) && list_value(k, raw.lvalue) is Some
}

/// Whether an enveloped result is the decoded record, an error status never
/// standing for a record failure.
pub open spec fn record_result(r: Result<Result<Signal, ErrorStatus>, DecodeError>) -> Result<Signal, DecodeError> {
    match r {
        Ok(Ok(s)) => Ok(s),
        Ok(Err(_)) => Err(DecodeError::MissingField("_state")),
        Err(e) => Err(e),
    }
}

/// Decodes the response to a single-signal request. An error status in the
/// envelope is the result; without one, the one record is decoded, and no
/// record is a missing state.
pub fn parse_one(envelope: Envelope<OneOrNone<RawSingleSignal>>) -> (r: Result<Result<Signal, ErrorStatus>, DecodeError>)
    ensures
        envelope.status matches Some(e) ==> r == Ok::<Result<Signal, ErrorStatus>, DecodeError>(Err(e)),
        envelope.status is None && one_of(envelope.state) is None ==> (r matches Err(e) && is_missing_state(e)),
        envelope.status is None ==> (one_of(envelope.state) matches Some(raw) ==> {
            &&& !(r matches Ok(Err(_)))
            &&& single_decodes_as(record_result(r), raw)
        }),
{
    match crate::envelope::parse_one(envelope) {
        Ok(Ok(raw)) => match Signal::from_single_raw(&raw) {
            Ok(s) => Ok(Ok(s)),
            Err(e) => Err(e),
        },
        Ok(Err(status)) => Ok(Err(status)),
        Err(e) => Err(e),
    }
}

/// Decodes the response to the list request. An error status in the envelope
/// is the result; without one, every record is decoded in order, and the
/// first record that fails decides the error.
pub fn parse_list(envelope: Envelope<Vec<RawListSignal>>) -> (r: Result<Result<Vec<Signal>, ErrorStatus>, DecodeError>)
    ensures
        envelope.status matches Some(e) ==> r == Ok::<Result<Vec<Signal>, ErrorStatus>, DecodeError>(Err(e)),
        envelope.status is None && envelope.state is None ==> (r matches Err(e) && is_missing_state(e)),
        envelope.status is None ==> (envelope.state matches Some(raws) ==> !(r matches Ok(Err(_)))),
        envelope.status is None ==> (envelope.state matches Some(raws) ==> (r is Ok <==> forall|i: int|
            0 <= i < raws@.len() ==> list_record_ok(#[trigger] raws@[i]))),
        envelope.status is None ==> (envelope.state matches Some(raws) ==> (r matches Ok(Ok(v)) ==> {
            &&& v@.len() == raws@.len()
            &&& forall|i: int| 0 <= i < raws@.len() ==> list_decodes_as(Ok(#[trigger] v@[i]), raws@[i])
        })),
        envelope.status is None ==> (envelope.state matches Some(raws) ==> (r matches Err(e) ==> exists|i: int| {
            &&& 0 <= i < raws@.len()
            &&& list_decodes_as(Err(e), #[trigger] raws@[i])
            &&& forall|j: int| 0 <= j < i ==> list_record_ok(#[trigger] raws@[j])
        })),
{
    let raws = match crate::envelope::parse(envelope) {
        Ok(Ok(raws)) => raws,
        Ok(Err(status)) => return Ok(Err(status)),
        Err(e) => return Err(e),
    };
    let mut signals: Vec<Signal> = Vec::new();
    let mut i: usize = 0;
    while i < raws.len()
        invariant
            i <= raws@.len(),
            envelope.status is None,
            envelope.state == Some(raws),
            signals@.len() == i,
            forall|j: int| 0 <= j < i ==> list_record_ok(#[trigger] raws@[j]),
            forall|j: int| 0 <= j < i ==> list_decodes_as(Ok(#[trigger] signals@[j]), raws@[j]),
        decreases raws@.len() - i,
    {
        match Signal::from_list_raw(&raws[i]) {
            Ok(s) => {
                signals.push(s);
            },
            Err(e) => {
                assert(!list_record_ok(raws@[i as int]));
                assert(list_decodes_as(Err(e), raws@[i as int]));
                assert(envelope.state->Some_0@ == raws@);
                assert(!list_record_ok(envelope.state->Some_0@[i as int]));
                return Err(e);
            },
        }
        i = i + 1;
    }
    Ok(Ok(signals))
}

/// In either wire shape a digital record holds `Binary(true)` exactly when its
/// value is one (the text `1`, or the number 1.0), `Binary(false)` exactly when
/// it is zero (`0`, or 0.0), and any other value fails to decode.
pub proof fn lemma_digital_values(kind: SignalKind, text: Seq<char>, float_bits: Option<u64>, bits: u64)
    requires
        kind.is_digital(),
    ensures
        single_value(kind, text, float_bits) == Some(SignalValue::Binary(true)) <==> text == text_one(),
        single_value(kind, text, float_bits) == Some(SignalValue::Binary(false)) <==> text == text_zero(),
        single_value(kind, text, float_bits) is None <==> (text != text_one() && text != text_zero()),
        list_value(kind, bits) == Some(SignalValue::Binary(true)) <==> is_one(bits),
        list_value(kind, bits) == Some(SignalValue::Binary(false)) <==> is_zero(bits),
        list_value(kind, bits) is None <==> (!is_one(bits) && !is_zero(bits)),
{
    assert(text_one()[0] != text_zero()[0]);
}

/// A binary or group value, written as form text, reads back as itself
/// through the single-item decoder for a signal of its kind.
pub proof fn lemma_value_text_round_trip(kind: SignalKind, v: SignalValue, float_bits: Option<u64>)
    requires
        (kind.is_digital() && v is Binary) || (kind.is_group() && v is Group),
    ensures
        value_text(v) matches Some(t) && single_value(kind, t, float_bits) == Some(v),
{
    if let SignalValue::Group(n) = v {
        lemma_decimal_reads_back(n as nat);
    } else {
        assert(text_one()[0] != text_zero()[0]);
    }
}

} // verus!
