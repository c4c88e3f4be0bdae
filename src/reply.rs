use vstd::prelude::*;
use vstd::string::StringSliceAdditionalSpecFns;
use vstd::utf8::*;

use crate::types::{digital_value_of, error_for_code, DigitalValue, Error, Failure};

verus! {

broadcast use {
    vstd::utf8::encode_utf8_decode_utf8,
    vstd::utf8::decode_utf8_encode_utf8,
    vstd::utf8::is_char_boundary_start_end_of_seq,
};

/// Largest number of bytes a reply may hold.
pub const REPLY_CAPACITY: usize = 150;

/// ASCII whitespace: space, tab, line feed, form feed, carriage return.
pub open spec fn is_space(b: u8) -> bool {
    b == 0x20 || b == 0x09 || b == 0x0A || b == 0x0C || b == 0x0D
}

/// End of `s[..n]` once every trailing NUL is dropped.
pub open spec fn unpadded_len(s: Seq<u8>, n: int) -> int
    decreases n,
{
    if n > 0 && s[n - 1] == 0 {
        unpadded_len(s, n - 1)
    } else {
        n
    }
}

/// End of the reply text: trailing NULs dropped, then one trailing `;`.
pub open spec fn body_len(s: Seq<u8>) -> int {
    let m = unpadded_len(s, s.len() as int);
    if m > 0 && s[m - 1] == ';' as u8 {
        m - 1
    } else {
        m
    }
}

/// First index at or after `i` (and before `e`) that holds no whitespace.
pub open spec fn skip_spaces(s: Seq<u8>, i: int, e: int) -> int
    decreases e - i,
{
    if i < e && is_space(s[i]) {
        skip_spaces(s, i + 1, e)
    } else {
        i
    }
}

/// First index at or after `i` (and before `e`) that holds whitespace.
pub open spec fn skip_word(s: Seq<u8>, i: int, e: int) -> int
    decreases e - i,
{
    if i < e && !is_space(s[i]) {
        skip_word(s, i + 1, e)
    } else {
        i
    }
}

pub open spec fn status_start(s: Seq<u8>) -> int {
    skip_spaces(s, 0, body_len(s))
}

pub open spec fn status_end(s: Seq<u8>) -> int {
    skip_word(s, status_start(s), body_len(s))
}

pub open spec fn argument_start(s: Seq<u8>) -> int {
    skip_spaces(s, status_end(s), body_len(s))
}

pub open spec fn argument_end(s: Seq<u8>) -> int {
    skip_word(s, argument_start(s), body_len(s))
}

/// First whitespace-separated token of the reply text (empty if none).
pub open spec fn status_token(s: Seq<u8>) -> Seq<u8> {
    s.subrange(status_start(s), status_end(s))
}

/// Second whitespace-separated token of the reply text (empty if none).
pub open spec fn argument_token(s: Seq<u8>) -> Seq<u8> {
    s.subrange(argument_start(s), argument_end(s))
}

pub open spec fn ack_status() -> Seq<u8> {
    seq!['A' as u8, 'C' as u8, 'K' as u8]
}

pub open spec fn error_status() -> Seq<u8> {
    seq!['E' as u8, 'R' as u8, 'R' as u8, 'O' as u8, 'R' as u8]
}

/// What a well-formed UTF-8 reply stands for: the argument of an `ACK`, or
/// the error it reports. A missing status counts as `ERROR`; any other status
/// is an unknown error.
pub open spec fn reply_outcome(s: Seq<u8>) -> Result<Seq<char>, Error> {
    let status = status_token(s);
    let arg = decode_utf8(argument_token(s));
    if status == ack_status() {
        Ok(arg)
    } else if status.len() == 0 || status == error_status() {
        Err(error_for_code(arg))
    } else {
        Err(Error::UnknownError)
    }
}

/// A decoded reply agrees with the outcome its bytes stand for.
pub open spec fn agrees(r: Result<String, Error>, o: Result<Seq<char>, Error>) -> bool {
    match r {
        Ok(t) => o == Ok::<Seq<char>, Error>(t@),
        Err(e) => o == Err::<Seq<char>, Error>(e),
    }
}

/// Outcome of a reply to a command that returns nothing.
pub open spec fn unit_outcome(s: Seq<u8>) -> Result<(), Error> {
    match reply_outcome(s) {
        Ok(_) => Ok(()),
        Err(e) => Err(e),
    }
}

/// Outcome of a reply to a digital read.
pub open spec fn digital_outcome(s: Seq<u8>) -> Result<DigitalValue, Error> {
    match reply_outcome(s) {
        Ok(t) => match digital_value_of(t) {
            Some(v) => Ok(v),
            None => Err(Error::UnknownDigitalValue),
        },
        Err(e) => Err(e),
    }
}

/// Value of a string of ASCII decimal digits.
pub open spec fn digits_value(t: Seq<char>) -> int
    decreases t.len(),
{
    if t.len() == 0 {
        0
    } else {
        digits_value(t.drop_last()) * 10 + ((t.last() as u32) as int - ('0' as u32) as int)
    }
}

pub open spec fn is_digits(t: Seq<char>) -> bool {
    t.len() > 0 && forall|i: int| 0 <= i < t.len() ==> '0' <= #[trigger] t[i] <= '9'
}

/// The byte that `t` writes in decimal: an optional `+`, then one or more
/// digits whose value is at most 255.
pub open spec fn decimal_byte(t: Seq<char>) -> Option<u8> {
    let d = if t.len() > 0 && t[0] == '+' {
        t.drop_first()
    } else {
        t
    };
    if is_digits(d) && digits_value(d) <= 255 {
        Some(digits_value(d) as u8)
    } else {
        None
    }
}

/// Relies on `String::from_utf8`: it accepts exactly the well-formed UTF-8
/// byte sequences and then holds the characters they encode.
#[verifier::external_body]
fn utf8_text(bytes: Vec<u8>) -> (r: Result<String, std::string::FromUtf8Error>)
    ensures
        r is Ok <==> valid_utf8(bytes@),
        r matches Ok(t) ==> t@ == decode_utf8(bytes@),
{
    String::from_utf8(bytes)
}

/// Relies on `u8::from_str` (through `str::parse`): it accepts an optional `+`
/// followed by ASCII digits whose value fits in a byte, and fails otherwise.
#[verifier::external_body]
fn parse_byte(t: &str) -> (r: Result<u8, std::num::ParseIntError>)
    ensures
        match decimal_byte(t@) {
            Some(v) => r == Ok::<u8, std::num::ParseIntError>(v),
            None => r is Err,
        },
{
    t.parse::<u8>()
}

fn space(b: u8) -> (r: bool)
    ensures
        r == is_space(b),
{
    b == 0x20 || b == 0x09 || b == 0x0A || b == 0x0C || b == 0x0D
}

fn body_end(b: &[u8]) -> (e: usize)
    ensures
        e == body_len(b@),
        e <= b@.len(),
        e < b@.len() ==> b@[e as int] == 0 || b@[e as int] == ';' as u8,
{
    let mut m: usize = b.len();
    while m > 0 && b[m - 1] == 0
        invariant
            m <= b@.len(),
            unpadded_len(b@, m as int) == unpadded_len(b@, b@.len() as int),
            m < b@.len() ==> b@[m as int] == 0,
        decreases m,
    {
        m = m - 1;
    }
    if m > 0 && b[m - 1] == ';' as u8 {
        m - 1
    } else {
        m
    }
}

fn skip_spaces_from(b: &[u8], i: usize, e: usize) -> (j: usize)
    requires
        i <= e <= b@.len(),
    ensures
        j == skip_spaces(b@, i as int, e as int),
        i <= j <= e,
        j < e ==> !is_space(b@[j as int]),
        j > i ==> is_space(b@[j - 1]),
{
    let mut j: usize = i;
    while j < e && space(b[j])
        invariant
            i <= j <= e <= b@.len(),
            skip_spaces(b@, j as int, e as int) == skip_spaces(b@, i as int, e as int),
            j > i ==> is_space(b@[j - 1]),
        decreases e - j,
    {
        j = j + 1;
    }
    j
}

fn skip_word_from(b: &[u8], i: usize, e: usize) -> (j: usize)
    requires
        i <= e <= b@.len(),
    ensures
        j == skip_word(b@, i as int, e as int),
        i <= j <= e,
        j < e ==> is_space(b@[j as int]),
{
    let mut j: usize = i;
    while j < e && !space(b[j])
        invariant
            i <= j <= e <= b@.len(),
            skip_word(b@, j as int, e as int) == skip_word(b@, i as int, e as int),
        decreases e - j,
    {
        j = j + 1;
    }
    j
}

fn token_is(b: &[u8], i: usize, j: usize, lit: &[u8]) -> (r: bool)
    requires
        i <= j <= b@.len(),
    ensures
        r == (b@.subrange(i as int, j as int) == lit@),
{
    if j - i != lit.len() {
        return false;
    }
    let mut k: usize = 0;
    while k < lit.len()
        invariant
            j - i == lit@.len(),
            i <= j <= b@.len(),
            k <= lit@.len(),
            forall|q: int| 0 <= q < k ==> b@[i + q] == lit@[q],
        decreases lit@.len() - k,
    {
        if b[i + k] != lit[k] {
            assert(b@.subrange(i as int, j as int)[k as int] != lit@[k as int]);
            return false;
        }
        k = k + 1;
    }
    assert(b@.subrange(i as int, j as int) =~= lit@);
    true
}

/// In well-formed UTF-8, a character starts next to every ASCII byte.
pub(crate) proof fn lemma_ascii_boundary(bytes: Seq<u8>, i: int)
    requires
        valid_utf8(bytes),
        0 <= i <= bytes.len(),
        i == 0 || i == bytes.len() || bytes[i] < 0x80 || bytes[i - 1] < 0x80,
    ensures
        is_char_boundary(bytes, i),
{
    if i == 0 || i == bytes.len() {
    } else if bytes[i] < 0x80 {
        is_char_boundary_iff_not_is_continuation_byte(bytes, i);
    } else {
        is_char_boundary_iff_not_is_continuation_byte(bytes, i - 1);
        valid_utf8_split(bytes, i - 1);
        let t = bytes.subrange(i - 1, bytes.len() as int);
        let u = bytes.subrange(i, bytes.len() as int);
        assert(valid_utf8(t));
        assert(t[0] == bytes[i - 1]);
        assert(length_of_first_scalar(t) == 1);
        assert(pop_first_scalar(t) =~= u);
        assert(valid_utf8(u));
        assert(u.len() > 0);
        assert(valid_first_scalar(u));
        assert(u[0] == bytes[i]);
        is_char_boundary_iff_not_is_continuation_byte(bytes, i);
    }
}

/// Decodes a reply buffer: the argument of an `ACK`, or the error that the
/// reply reports. Bytes that are not UTF-8 are a decoding failure.
pub fn decode_reply(buffer: Vec<u8>) -> (r: Result<String, Error>)
    ensures
        valid_utf8(buffer@) ==> agrees(r, reply_outcome(buffer@)),
        !valid_utf8(buffer@) ==> r matches Err(Error::Other(Failure::Utf8(_))),
{
    let ghost bytes = buffer@;
    let text = match utf8_text(buffer) {
        Ok(t) => t,
        Err(e) => {
            return Err(Error::Other(Failure::Utf8(e)));
        },
    };
    let s: &str = text.as_str();
    let b: &[u8] = s.as_bytes();
    assert(b@ == bytes);
    let e = body_end(b);
    let a = skip_spaces_from(b, 0, e);
    let c = skip_word_from(b, a, e);
    let d = skip_spaces_from(b, c, e);
    let f = skip_word_from(b, d, e);
    proof {
        lemma_ascii_boundary(bytes, f as int);
        valid_utf8_split(bytes, f as int);
        let left = bytes.subrange(0, f as int);
        if d < f {
            assert(d > c);
            assert(left[d - 1] == bytes[d - 1]);
        }
        lemma_ascii_boundary(left, d as int);
    }
    let (left, _) = s.split_at(f);
    let (_, arg) = left.split_at(d);
    proof {
        assert(arg.spec_bytes() =~= bytes.subrange(d as int, f as int));
        assert(arg@ == decode_utf8(encode_utf8(arg@)));
    }
    let ack: [u8; 3] = ['A' as u8, 'C' as u8, 'K' as u8];
    let err: [u8; 5] = ['E' as u8, 'R' as u8, 'R' as u8, 'O' as u8, 'R' as u8];
    proof {
        assert(ack@ =~= ack_status());
        assert(err@ =~= error_status());
    }
    if token_is(b, a, c, ack.as_slice()) {
        Ok(arg.to_owned())
    } else if a == c || token_is(b, a, c, err.as_slice()) {
        Err(Error::from_code(arg))
    } else {
        Err(Error::UnknownError)
    }
}

/// Decodes the reply to a command that returns nothing (pin mode, digital
/// or analog write).
pub fn decode_unit_reply(buffer: Vec<u8>) -> (r: Result<(), Error>)
    ensures
        valid_utf8(buffer@) ==> r == unit_outcome(buffer@),
        !valid_utf8(buffer@) ==> r matches Err(Error::Other(Failure::Utf8(_))),
{
    match decode_reply(buffer) {
        Ok(_) => Ok(()),
        Err(e) => Err(e),
    }
}

/// Decodes the reply to a digital read: `L` is low, `H` is high, any other
/// argument is `UnknownDigitalValue`.
pub fn decode_digital_reply(buffer: Vec<u8>) -> (r: Result<DigitalValue, Error>)
    ensures
        valid_utf8(buffer@) ==> r == digital_outcome(buffer@),
        !valid_utf8(buffer@) ==> r matches Err(Error::Other(Failure::Utf8(_))),
{
    match decode_reply(buffer) {
        Ok(t) => match DigitalValue::from_token(t.as_str()) {
            Some(v) => Ok(v),
            None => Err(Error::UnknownDigitalValue),
        },
        Err(e) => Err(e),
    }
}

/// Decodes the reply to an analog read: the argument of the `ACK` read as a
/// decimal byte; an argument that is not one is a parse failure.
pub fn decode_analog_reply(buffer: Vec<u8>) -> (r: Result<u8, Error>)
    ensures
        valid_utf8(buffer@) ==> match reply_outcome(buffer@) {
            Ok(t) => match decimal_byte(t) {
                Some(v) => r == Ok::<u8, Error>(v),
                None => r matches Err(Error::Other(Failure::Parse(_))),
            },
            Err(e) => r == Err::<u8, Error>(e),
        },
        !valid_utf8(buffer@) ==> r matches Err(Error::Other(Failure::Utf8(_))),
{
    match decode_reply(buffer) {
        Ok(t) => match parse_byte(t.as_str()) {
            Ok(v) => Ok(v),
            Err(e) => Err(Error::Other(Failure::Parse(e))),
        },
        Err(e) => Err(e),
    }
}

} // verus!
