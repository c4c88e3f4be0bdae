use vstd::prelude::*;
use vstd::utf8::*;

use crate::reply::{
    ack_status, argument_token, body_len, digital_outcome, error_status, is_space,
    lemma_ascii_boundary, reply_outcome, skip_spaces, skip_word, status_token, unit_outcome,
    unpadded_len,
};
use crate::request::{digital_write_request, echo_request};
use crate::reply::{decimal_byte, digits_value, is_digits};
use crate::types::{error_for_code, value_token, DigitalValue, Error};

verus! {

broadcast use {vstd::utf8::encode_utf8_decode_utf8, vstd::utf8::encode_utf8_valid_utf8};

/// `k` NUL bytes, as the firmware pads a short reply.
pub open spec fn nul_padding(k: nat) -> Seq<u8> {
    Seq::new(k, |i: int| 0u8)
}

/// A reply written as `<status> <arg>;`.
pub open spec fn reply_with(status: Seq<u8>, arg: Seq<u8>) -> Seq<u8> {
    status + seq![' ' as u8] + arg + seq![';' as u8]
}

/// No byte of `w` is whitespace.
pub open spec fn no_space(w: Seq<u8>) -> bool {
    forall|i: int| 0 <= i < w.len() ==> !is_space(#[trigger] w[i])
}

proof fn lemma_ascii_valid(b: Seq<u8>)
    requires
        forall|i: int| 0 <= i < b.len() ==> #[trigger] b[i] < 0x80,
    ensures
        valid_utf8(b),
{
    assert(valid_utf8(b.subrange(0, 0)));
    partial_valid_utf8_extend_ascii_block(b, 0, b.len() as int);
    assert(b.subrange(0, b.len() as int) =~= b);
}

proof fn lemma_unpadded_prefix(s: Seq<u8>, p: Seq<u8>, j: int)
    requires
        0 <= j <= s.len() <= p.len(),
        forall|i: int| 0 <= i < s.len() ==> p[i] == s[i],
    ensures
        unpadded_len(p, j) == unpadded_len(s, j),
        0 <= unpadded_len(s, j) <= j,
    decreases j,
{
    if j > 0 {
        lemma_unpadded_prefix(s, p, j - 1);
    }
}

proof fn lemma_unpadded_zeros(p: Seq<u8>, n: int, m: int)
    requires
        0 <= n <= m <= p.len(),
        forall|i: int| n <= i < m ==> p[i] == 0,
    ensures
        unpadded_len(p, m) == unpadded_len(p, n),
    decreases m - n,
{
    if m > n {
        lemma_unpadded_zeros(p, n, m - 1);
    }
}

proof fn lemma_skips_prefix(s: Seq<u8>, p: Seq<u8>, i: int, e: int)
    requires
        0 <= i <= e <= s.len() <= p.len(),
        forall|q: int| 0 <= q < s.len() ==> p[q] == s[q],
    ensures
        skip_spaces(p, i, e) == skip_spaces(s, i, e),
        skip_word(p, i, e) == skip_word(s, i, e),
        i <= skip_spaces(s, i, e) <= e,
        i <= skip_word(s, i, e) <= e,
    decreases e - i,
{
    if i < e {
        lemma_skips_prefix(s, p, i + 1, e);
    }
}

proof fn lemma_skip_facts(s: Seq<u8>, i: int, e: int)
    requires
        0 <= i <= e <= s.len(),
    ensures
        i <= skip_spaces(s, i, e) <= e,
        skip_spaces(s, i, e) < e ==> !is_space(s[skip_spaces(s, i, e)]),
        i <= skip_word(s, i, e) <= e,
        i < e && !is_space(s[i]) ==> skip_word(s, i, e) > i,
    decreases e - i,
{
    if i < e {
        lemma_skip_facts(s, i + 1, e);
    }
}

proof fn lemma_word_run(s: Seq<u8>, i: int, j: int, e: int)
    requires
        0 <= i <= j <= e <= s.len(),
        forall|q: int| i <= q < j ==> !is_space(#[trigger] s[q]),
        j == e || is_space(s[j]),
    ensures
        skip_word(s, i, e) == j,
    decreases j - i,
{
    if i < j {
        lemma_word_run(s, i + 1, j, e);
    }
}

proof fn lemma_space_run(s: Seq<u8>, i: int, j: int, e: int)
    requires
        0 <= i <= j <= e <= s.len(),
        forall|q: int| i <= q < j ==> is_space(#[trigger] s[q]),
        j == e || !is_space(s[j]),
    ensures
        skip_spaces(s, i, e) == j,
    decreases j - i,
{
    if i < j {
        lemma_space_run(s, i + 1, j, e);
    }
}

/// NUL padding after a reply changes nothing: the padded bytes are UTF-8
/// exactly when the reply is, and then stand for the same outcome.
pub proof fn lemma_padding_ignored(s: Seq<u8>, k: nat)
    ensures
        valid_utf8(s + nul_padding(k)) == valid_utf8(s),
        reply_outcome(s + nul_padding(k)) == reply_outcome(s),
{
    let z = nul_padding(k);
    let p = s + z;
    let n = s.len() as int;
    assert forall|i: int| 0 <= i < n implies p[i] == s[i] by {}
    assert forall|i: int| n <= i < p.len() implies p[i] == 0 by {}
    lemma_unpadded_zeros(p, n, p.len() as int);
    lemma_unpadded_prefix(s, p, n);
    let m = unpadded_len(s, n);
    if m > 0 {
        assert(p[m - 1] == s[m - 1]);
    }
    assert(body_len(p) == body_len(s));
    let e = body_len(s);
    lemma_skips_prefix(s, p, 0, e);
    let a = skip_spaces(s, 0, e);
    lemma_skips_prefix(s, p, a, e);
    let c = skip_word(s, a, e);
    lemma_skips_prefix(s, p, c, e);
    let d = skip_spaces(s, c, e);
    lemma_skips_prefix(s, p, d, e);
    let f = skip_word(s, d, e);
    assert(status_token(p) =~= status_token(s));
    assert(argument_token(p) =~= argument_token(s));
    lemma_ascii_valid(z);
    if valid_utf8(s) {
        valid_utf8_concat(s, z);
    }
    if valid_utf8(p) && k > 0 {
        lemma_ascii_boundary(p, n);
        valid_utf8_split(p, n);
        assert(p.subrange(0, n) =~= s);
    }
    if k == 0 {
        assert(p =~= s);
    }
}

/// The tokens of `<w1> <w2>;` are `w1` and `w2`.
pub proof fn lemma_reply_tokens(w1: Seq<u8>, w2: Seq<u8>)
    requires
        w1.len() > 0,
        no_space(w1),
        no_space(w2),
    ensures
        status_token(reply_with(w1, w2)) == w1,
        argument_token(reply_with(w1, w2)) == w2,
{
    let s = reply_with(w1, w2);
    let n1 = w1.len() as int;
    let e = n1 + 1 + w2.len();
    assert(s.len() == e + 1);
    assert(s[e] == ';' as u8);
    assert(unpadded_len(s, s.len() as int) == s.len());
    assert(body_len(s) == e);
    assert(!is_space(s[0]));
    lemma_space_run(s, 0, 0, e);
    assert forall|q: int| 0 <= q < n1 implies !is_space(#[trigger] s[q]) by {
        assert(s[q] == w1[q]);
    }
    assert(is_space(s[n1]));
    lemma_word_run(s, 0, n1, e);
    if n1 + 1 < e {
        assert(s[n1 + 1] == w2[0]);
    }
    lemma_space_run(s, n1, n1 + 1, e);
    assert forall|q: int| n1 + 1 <= q < e implies !is_space(#[trigger] s[q]) by {
        assert(s[q] == w2[q - n1 - 1]);
    }
    lemma_word_run(s, n1 + 1, e, e);
    assert(status_token(s) =~= w1);
    assert(argument_token(s) =~= w2);
}

proof fn lemma_reply_valid(w1: Seq<u8>, w2: Seq<u8>, k: nat)
    requires
        valid_utf8(w1),
        valid_utf8(w2),
    ensures
        valid_utf8(reply_with(w1, w2) + nul_padding(k)),
{
    let sp = seq![' ' as u8];
    let semi = seq![';' as u8];
    lemma_ascii_valid(sp);
    lemma_ascii_valid(semi);
    valid_utf8_concat(w1, sp);
    valid_utf8_concat(w1 + sp, w2);
    valid_utf8_concat(w1 + sp + w2, semi);
    lemma_padding_ignored(reply_with(w1, w2), k);
}

proof fn lemma_status_words_valid()
    ensures
        valid_utf8(ack_status()),
        valid_utf8(error_status()),
        no_space(ack_status()),
        no_space(error_status()),
{
    lemma_ascii_valid(ack_status());
    lemma_ascii_valid(error_status());
}

/// A reply whose status is neither `ACK` nor `ERROR` is an unknown error, and
/// so is an empty reply.
pub proof fn lemma_unknown_status(s: Seq<u8>)
    requires
        status_token(s) != ack_status(),
        status_token(s) != error_status(),
    ensures
        reply_outcome(s) == Err::<Seq<char>, Error>(Error::UnknownError),
{
    let e = body_len(s);
    let m = unpadded_len(s, s.len() as int);
    lemma_unpadded_prefix(s, s, s.len() as int);
    lemma_skip_facts(s, 0, e);
    let a = skip_spaces(s, 0, e);
    lemma_skip_facts(s, a, e);
    if status_token(s).len() == 0 {
        assert(a == e);
        assert(argument_token(s) =~= Seq::<u8>::empty());
        assert(decode_utf8(Seq::<u8>::empty()) =~= Seq::<char>::empty());
        reveal_strlit("TIMEOUT");
        reveal_strlit("NO_COMMAND");
        reveal_strlit("UNKNOWN_COMMAND");
        reveal_strlit("UNKNOWN_MODE");
        reveal_strlit("UNKNOWN_DIGITAL_VALUE");
    }
}

/// A reply `ERROR <code>;`, padded or not, reports the error that `code`
/// names; a code outside the table is an unknown error.
pub proof fn lemma_error_reply(code: Seq<u8>, k: nat)
    requires
        valid_utf8(code),
        no_space(code),
    ensures
        valid_utf8(reply_with(error_status(), code) + nul_padding(k)),
        reply_outcome(reply_with(error_status(), code) + nul_padding(k)) == Err::<
            Seq<char>,
            Error,
        >(error_for_code(decode_utf8(code))),
{
    lemma_status_words_valid();
    lemma_reply_tokens(error_status(), code);
    lemma_reply_valid(error_status(), code, k);
    lemma_padding_ignored(reply_with(error_status(), code), k);
    assert(error_status() != ack_status());
}

/// The echo command carries `text` after `ECHO `, and a firmware that sends
/// it back as `ACK <text>;`, padded or not, makes the echo return `text`
/// itself, as long as `text` holds no whitespace.
pub proof fn lemma_echo_round_trip(text: Seq<char>, k: nat)
    requires
        no_space(encode_utf8(text)),
    ensures
        echo_request(encode_utf8(text)).subrange(5, 5 + encode_utf8(text).len() as int) == encode_utf8(text),
        valid_utf8(reply_with(ack_status(), encode_utf8(text)) + nul_padding(k)),
        reply_outcome(reply_with(ack_status(), encode_utf8(text)) + nul_padding(k)) == Ok::<
            Seq<char>,
            Error,
        >(text),
{
    let w = encode_utf8(text);
    assert(echo_request(w).subrange(5, 5 + w.len() as int) =~= w);
    lemma_status_words_valid();
    lemma_reply_tokens(ack_status(), w);
    lemma_reply_valid(ack_status(), w, k);
    lemma_padding_ignored(reply_with(ack_status(), w), k);
}

/// A digital write sends the level's token just before its `;`; a firmware
/// that answers a later digital read with `ACK <that token>;` makes the read
/// return the level that was written.
pub proof fn lemma_digital_round_trip(pin: i8, v: DigitalValue, k: nat)
    ensures
        digital_write_request(pin, v)[digital_write_request(pin, v).len() - 2] == value_token(v),
        valid_utf8(reply_with(ack_status(), seq![value_token(v)]) + nul_padding(k)),
        digital_outcome(reply_with(ack_status(), seq![value_token(v)]) + nul_padding(k)) == Ok::<
            DigitalValue,
            Error,
        >(v),
{
    let c = match v {
        DigitalValue::Low => seq!['L'],
        DigitalValue::High => seq!['H'],
    };
    assert(is_ascii_chars(c));
    is_ascii_chars_encode_utf8(c);
    assert(encode_utf8(c) =~= seq![value_token(v)]);
    let w = encode_utf8(c);
    let req = digital_write_request(pin, v);
    assert(req[req.len() - 2] == value_token(v));
    assert(no_space(w));
    lemma_status_words_valid();
    lemma_reply_tokens(ack_status(), w);
    lemma_reply_valid(ack_status(), w, k);
    lemma_padding_ignored(reply_with(ack_status(), w), k);
}

/// Any reply whose status is `ACK` is a success for a command that returns
/// nothing, such as setting a pin's mode.
pub proof fn lemma_ack_is_success(s: Seq<u8>)
    requires
        status_token(s) == ack_status(),
    ensures
        unit_outcome(s) == Ok::<(), Error>(()),
{
}

/// A reply `ACK <digits>;`, padded or not, whose digits write a value of at
/// most 255 gives that value to an analog read.
pub proof fn lemma_analog_reply(digits: Seq<char>, k: nat)
    requires
        is_digits(digits),
        digits_value(digits) <= 255,
    ensures
        valid_utf8(reply_with(ack_status(), encode_utf8(digits)) + nul_padding(k)),
        reply_outcome(reply_with(ack_status(), encode_utf8(digits)) + nul_padding(k)) == Ok::<
            Seq<char>,
            Error,
        >(digits),
        decimal_byte(digits) == Some(digits_value(digits) as u8),
{
    assert(is_ascii_chars(digits));
    is_ascii_chars_encode_utf8(digits);
    let w = encode_utf8(digits);
    assert forall|i: int| 0 <= i < w.len() implies !is_space(#[trigger] w[i]) by {
        assert(digits[i] as u8 == w[i]);
        assert('0' <= digits[i] <= '9');
    }
    lemma_status_words_valid();
    lemma_reply_tokens(ack_status(), w);
    lemma_reply_valid(ack_status(), w, k);
    lemma_padding_ignored(reply_with(ack_status(), w), k);
    assert(digits[0] != '+');
}

} // verus!
