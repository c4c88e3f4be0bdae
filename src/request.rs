use vstd::prelude::*;
use vstd::string::StringSliceAdditionalSpecFns;

use crate::types::{mode_token, value_token, DigitalValue, PinMode};

verus! {

/// ASCII decimal digits of `n`, most significant first, without leading zeros.
pub open spec fn digits(n: nat) -> Seq<u8>
    decreases n,
{
    if n < 10 {
        seq![('0' as nat + n) as u8]
    } else {
        digits(n / 10).push(('0' as nat + n % 10) as u8)
    }
}

/// ASCII decimal form of `n`, with a leading `-` when it is negative.
pub open spec fn decimal(n: int) -> Seq<u8> {
    if n < 0 {
        seq!['-' as u8] + digits((-n) as nat)
    } else {
        digits(n as nat)
    }
}

/// Bytes of `PM <pin> <I|O>;`.
pub open spec fn pin_mode_request(pin: i8, mode: PinMode) -> Seq<u8> {
    seq!['P' as u8, 'M' as u8, ' ' as u8] + decimal(pin as int) + seq![' ' as u8, mode_token(mode), ';' as u8]
}

/// Bytes of `DW <pin> <L|H>;`.
pub open spec fn digital_write_request(pin: i8, value: DigitalValue) -> Seq<u8> {
    seq!['D' as u8, 'W' as u8, ' ' as u8] + decimal(pin as int) + seq![' ' as u8, value_token(value), ';' as u8]
}

/// Bytes of `DR <pin>;`.
pub open spec fn digital_read_request(pin: i8) -> Seq<u8> {
    seq!['D' as u8, 'R' as u8, ' ' as u8] + decimal(pin as int) + seq![';' as u8]
}

/// Bytes of `AW <pin> <value>;`.
pub open spec fn analog_write_request(pin: i8, value: u8) -> Seq<u8> {
    seq!['A' as u8, 'W' as u8, ' ' as u8] + decimal(pin as int) + seq![' ' as u8] + decimal(value as int) + seq![';' as u8]
}

/// Bytes of `AR <pin>;`.
pub open spec fn analog_read_request(pin: i8) -> Seq<u8> {
    seq!['A' as u8, 'R' as u8, ' ' as u8] + decimal(pin as int) + seq![';' as u8]
}

/// Bytes of `ECHO <text>;`.
pub open spec fn echo_request(text: Seq<u8>) -> Seq<u8> {
    seq!['E' as u8, 'C' as u8, 'H' as u8, 'O' as u8, ' ' as u8] + text + seq![';' as u8]
}

fn push_decimal(out: &mut Vec<u8>, n: i16)
    requires
        -128 <= n <= 255,
    ensures
        final(out)@ == old(out)@ + decimal(n as int),
{
    let ghost start = out@;
    let m: u8 = if n < 0 {
        out.push('-' as u8);
        (-n) as u8
    } else {
        n as u8
    };
    let ghost signed = out@;
    if m >= 100 {
        out.push('0' as u8 + m / 100);
    }
    if m >= 10 {
        out.push('0' as u8 + (m / 10) % 10);
    }
    out.push('0' as u8 + m % 10);
    proof {
        reveal_with_fuel(digits, 3);
        let d = digits(m as nat);
        if m >= 100 {
            assert(d =~= seq![('0' as u8 + m / 100) as u8, ('0' as u8 + (m / 10) % 10) as u8, ('0' as u8 + m % 10) as u8]);
        } else if m >= 10 {
            assert(d =~= seq![('0' as u8 + (m / 10) % 10) as u8, ('0' as u8 + m % 10) as u8]);
        } else {
            assert(d =~= seq![('0' as u8 + m % 10) as u8]);
        }
        assert(out@ =~= signed + d);
        assert(out@ =~= start + decimal(n as int));
    }
}

fn push_bytes(out: &mut Vec<u8>, bytes: &[u8])
    ensures
        final(out)@ == old(out)@ + bytes@,
{
    let ghost start = out@;
    let mut i: usize = 0;
    while i < bytes.len()
        invariant
            i <= bytes@.len(),
            out@ == start + bytes@.subrange(0, i as int),
        decreases bytes@.len() - i,
    {
        out.push(bytes[i]);
        i = i + 1;
        assert(out@ =~= start + bytes@.subrange(0, i as int));
    }
    assert(bytes@.subrange(0, i as int) =~= bytes@);
}

fn verb(a: u8, b: u8) -> (r: Vec<u8>)
    ensures
        r@ == seq![a, b, ' ' as u8],
{
    let mut out: Vec<u8> = Vec::new();
    out.push(a);
    out.push(b);
    out.push(' ' as u8);
    assert(out@ =~= seq![a, b, ' ' as u8]);
    out
}

impl PinMode {
    /// The wire token of this mode.
    pub fn token(self) -> (r: u8)
        ensures
            r == mode_token(self),
    {
        match self {
            PinMode::Input => 'I' as u8,
            PinMode::Output => 'O' as u8,
        }
    }
}

impl DigitalValue {
    /// The wire token of this level.
    pub fn token(self) -> (r: u8)
        ensures
            r == value_token(self),
    {
        match self {
            DigitalValue::Low => 'L' as u8,
            DigitalValue::High => 'H' as u8,
        }
    }
}

/// Command that sets the mode of `pin`.
pub fn pin_mode_command(pin: i8, mode: PinMode) -> (r: Vec<u8>)
    ensures
        r@ == pin_mode_request(pin, mode),
{
    let mut out = verb('P' as u8, 'M' as u8);
    push_decimal(&mut out, pin as i16);
    out.push(' ' as u8);
    out.push(mode.token());
    out.push(';' as u8);
    assert(out@ =~= pin_mode_request(pin, mode));
    out
}

/// Command that drives `pin` to `value`.
pub fn digital_write_command(pin: i8, value: DigitalValue) -> (r: Vec<u8>)
    ensures
        r@ == digital_write_request(pin, value),
{
    let mut out = verb('D' as u8, 'W' as u8);
    push_decimal(&mut out, pin as i16);
    out.push(' ' as u8);
    out.push(value.token());
    out.push(';' as u8);
    assert(out@ =~= digital_write_request(pin, value));
    out
}

/// Command that reads the level of `pin`.
pub fn digital_read_command(pin: i8) -> (r: Vec<u8>)
    ensures
        r@ == digital_read_request(pin),
{
    let mut out = verb('D' as u8, 'R' as u8);
    push_decimal(&mut out, pin as i16);
    out.push(';' as u8);
    assert(out@ =~= digital_read_request(pin));
    out
}

/// Command that writes the analog `value` to `pin`.
pub fn analog_write_command(pin: i8, value: u8) -> (r: Vec<u8>)
    ensures
        r@ == analog_write_request(pin, value),
{
    let mut out = verb('A' as u8, 'W' as u8);
    push_decimal(&mut out, pin as i16);
    out.push(' ' as u8);
    push_decimal(&mut out, value as i16);
    out.push(';' as u8);
    assert(out@ =~= analog_write_request(pin, value));
    out
}

/// Command that reads the analog value of `pin`.
pub fn analog_read_command(pin: i8) -> (r: Vec<u8>)
    ensures
        r@ == analog_read_request(pin),
{
    let mut out = verb('A' as u8, 'R' as u8);
    push_decimal(&mut out, pin as i16);
    out.push(';' as u8);
    assert(out@ =~= analog_read_request(pin));
    out
}

/// Command that asks the firmware to send `text` back.
pub fn echo_command(text: &str) -> (r: Vec<u8>)
    ensures
        r@ == echo_request(text.spec_bytes()),
{
    let mut out: Vec<u8> = Vec::new();
    out.push('E' as u8);
    out.push('C' as u8);
    out.push('H' as u8);
    out.push('O' as u8);
    out.push(' ' as u8);
    push_bytes(&mut out, text.as_bytes());
    out.push(';' as u8);
    assert(out@ =~= echo_request(text.spec_bytes()));
    out
}

/// Command made of `text` exactly as given, with no terminator added.
pub fn raw_command(text: &str) -> (r: Vec<u8>)
    ensures
        r@ == text.spec_bytes(),
{
    let mut out: Vec<u8> = Vec::new();
    push_bytes(&mut out, text.as_bytes());
    assert(out@ =~= text.spec_bytes());
    out
}

} // verus!
