//! Percent-encoding of query values.
use vstd::prelude::*;
use crate::text::{ascii_char, push_ascii};

verus! {

/// The bytes that may not appear bare in a query value.
pub open spec fn is_reserved(b: u8) -> bool {
    b == 0x23 || b == 0x25 || b == 0x26 || b == 0x3D || b > 127
}

/// An upper-case hexadecimal digit for a value below sixteen.
pub open spec fn hex_digit(n: u8) -> char {
    if n < 10 {
        ascii_char((48 + n) as u8)
    } else {
        ascii_char((55 + n) as u8)
    }
}

/// The text that stands for one byte.
pub open spec fn encode_byte(b: u8) -> Seq<char> {
    if is_reserved(b) {
        seq!['%', hex_digit(b / 16), hex_digit(b % 16)]
    } else {
        seq![ascii_char(b)]
    }
}

/// The encoding of a whole byte string: each byte encoded in turn.
pub open spec fn encoded(s: Seq<u8>) -> Seq<char>
    decreases s.len(),
{
    if s.len() == 0 {
        Seq::empty()
    } else {
        encoded(s.drop_last()) + encode_byte(s.last())
    }
}

/// True for the bytes that must be escaped: `#`, `%`, `&`, `=` and every byte above 127.
pub fn must_escape(byte: u8) -> (r: bool)
    ensures
        r == is_reserved(byte),
{
    match byte {
        0x23 => true,
        0x25 => true,
        0x26 => true,
        0x3D => true,
        _ => byte > 127,
    }
}

fn push_hex_digit(out: &mut String, n: u8)
    requires
        n < 16,
    ensures
        final(out)@ == old(out)@.push(hex_digit(n)),
{
    if n < 10 {
        push_ascii(out, 48 + n);
    } else {
        push_ascii(out, 55 + n);
    }
}

/// A query value waiting to be written out percent-encoded.
pub struct UrlEncodeQueryValue {
    data: Vec<u8>,
}

impl UrlEncodeQueryValue {
    pub closed spec fn bytes(&self) -> Seq<u8> {
        self.data@
    }

    /// The encoded text.
    pub fn to_string(&self) -> (r: String)
        ensures
            r@ == encoded(self.bytes()),
    {
        let mut out = String::new();
        let mut i: usize = 0;
        while i < self.data.len()
            invariant
                i <= self.data@.len(),
                out@ == encoded(self.data@.subrange(0, i as int)),
            decreases self.data@.len() - i,
        {
            let b = self.data[i];
            if must_escape(b) {
                out.push('%');
                push_hex_digit(&mut out, b / 16);
                push_hex_digit(&mut out, b % 16);
            } else {
                push_ascii(&mut out, b);
            }
            assert(self.data@.subrange(0, i + 1).drop_last() == self.data@.subrange(0, i as int));
            i = i + 1;
        }
        assert(self.data@.subrange(0, i as int) == self.data@);
        out
    }
}

/// Wraps a byte string for percent-encoding as a query value.
pub fn url_encode_query_value(data: &[u8]) -> (r: UrlEncodeQueryValue)
    ensures
        r.bytes() == data@,
{
    UrlEncodeQueryValue { data: vstd::slice::slice_to_vec(data) }
}

/// The bytes of ASCII text.
pub open spec fn ascii_bytes(t: Seq<char>) -> Seq<u8> {
    t.map_values(|c: char| c as u8)
}

/// A value without reserved bytes is written out unchanged, so encoding the
/// result once more gives the same text: encoding is idempotent on it.
pub proof fn lemma_encode_plain(s: Seq<u8>)
    requires
        forall|i: int| 0 <= i < s.len() ==> !is_reserved(#[trigger] s[i]),
    ensures
        encoded(s) == s.map_values(|b: u8| ascii_char(b)),
        ascii_bytes(encoded(s)) == s,
        encoded(ascii_bytes(encoded(s))) == encoded(s),
    decreases s.len(),
{
    if s.len() > 0 {
        let init = s.drop_last();
        assert forall|i: int| 0 <= i < init.len() implies !is_reserved(#[trigger] init[i]) by {
            assert(init[i] == s[i]);
        }
        lemma_encode_plain(init);
        assert(!is_reserved(s.last()));
        assert(s.map_values(|b: u8| ascii_char(b)) =~= init.map_values(|b: u8| ascii_char(b)).push(ascii_char(s.last())));
    }
    assert forall|i: int| 0 <= i < s.len() implies (#[trigger] ascii_char(s[i])) as u8 == s[i] by {
        assert(!is_reserved(s[i]));
    }
    assert(ascii_bytes(encoded(s)) =~= s);
}

/// The value of an upper-case hexadecimal digit.
pub open spec fn hex_value(c: char) -> int {
    if c as u32 <= 57 {
        c as u32 - 48
    } else {
        c as u32 - 55
    }
}

/// Percent-decoding: `%` and two hexadecimal digits stand for one byte,
/// any other character for the byte of its code.
pub open spec fn percent_decoded(t: Seq<char>) -> Seq<u8>
    decreases t.len(),
{
    if t.len() == 0 {
        Seq::empty()
    } else if t[0] == '%' && t.len() >= 3 {
        seq![(hex_value(t[1]) * 16 + hex_value(t[2])) as u8] + percent_decoded(t.subrange(3, t.len() as int))
    } else {
        seq![t[0] as u8] + percent_decoded(t.drop_first())
    }
}

proof fn lemma_encoded_front(s: Seq<u8>)
    requires
        s.len() > 0,
    ensures
        encoded(s) == encode_byte(s[0]) + encoded(s.drop_first()),
    decreases s.len(),
{
    if s.len() > 1 {
        lemma_encoded_front(s.drop_last());
        assert(s.drop_last().drop_first() =~= s.drop_first().drop_last());
        assert(s.drop_last()[0] == s[0]);
        assert(s.drop_first().last() == s.last());
    } else {
        assert(s.drop_first() =~= Seq::<u8>::empty());
        assert(s.drop_last() =~= Seq::<u8>::empty());
    }
}

proof fn lemma_decode_byte(b: u8, rest: Seq<char>)
    ensures
        percent_decoded(encode_byte(b) + rest) == seq![b] + percent_decoded(rest),
{
    let t = encode_byte(b) + rest;
    if is_reserved(b) {
        assert(t.subrange(3, t.len() as int) =~= rest);
        assert((b / 16) * 16 + b % 16 == b);
    } else {
        assert(t.drop_first() =~= rest);
    }
}

/// Every character of an encoding is ASCII, and percent-decoding it gives
/// back the bytes it was made from.
pub proof fn lemma_encoding_decodes(s: Seq<u8>)
    ensures
        forall|i: int| 0 <= i < encoded(s).len() ==> (#[trigger] encoded(s)[i]) as u32 <= 127,
        percent_decoded(encoded(s)) == s,
    decreases s.len(),
{
    if s.len() > 0 {
        lemma_encoded_front(s);
        lemma_encoding_decodes(s.drop_first());
        lemma_decode_byte(s[0], encoded(s.drop_first()));
        assert(seq![s[0]] + s.drop_first() =~= s);
        let head = encode_byte(s[0]);
        let tail = encoded(s.drop_first());
        assert forall|i: int| 0 <= i < encoded(s).len() implies (#[trigger] encoded(s)[i]) as u32 <= 127 by {
            if i < head.len() {
                assert(encoded(s)[i] == head[i]);
            } else {
                assert(encoded(s)[i] == tail[i - head.len()]);
            }
        }
    } else {
        assert(percent_decoded(encoded(s)) =~= s);
    }
}

} // verus!
