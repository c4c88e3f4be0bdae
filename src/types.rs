use serialport::Error as SerialError;
use vstd::prelude::*;

verus! {

/// `std::io::Error`, carried opaquely inside `Failure::Io`.
#[verifier::external_type_specification]
#[verifier::external_body]
pub struct ExIoError(std::io::Error);

/// `std::string::FromUtf8Error`, returned by `String::from_utf8` and carried
/// opaquely inside `Failure::Utf8`.
#[verifier::external_type_specification]
#[verifier::external_body]
pub struct ExFromUtf8Error(std::string::FromUtf8Error);

/// `std::num::ParseIntError`, returned by `u8::from_str` and carried opaquely
/// inside `Failure::Parse`.
#[verifier::external_type_specification]
#[verifier::external_body]
pub struct ExParseIntError(std::num::ParseIntError);

/// `serialport::Error`, the failure of opening or configuring a port, carried
/// opaquely inside `Failure::Serial`.
#[verifier::external_type_specification]
#[verifier::external_body]
pub struct ExSerialError(SerialError);

/// Direction a pin is configured for.
#[derive(Debug, Clone, Copy, PartialEq, Eq, Structural)]
pub enum PinMode {
    Input,
    Output,
}

/// Level of a digital pin.
#[derive(Debug, Clone, Copy, PartialEq, Eq, Structural)]
pub enum DigitalValue {
    Low,
    High,
}

/// A lower-level failure, kept as it was reported.
#[derive(Debug)]
pub enum Failure {
    /// The transport failed to read or write.
    Io(std::io::Error),
    /// The serial port could not be opened or configured.
    Serial(SerialError),
    /// The reply was not valid UTF-8.
    Utf8(std::string::FromUtf8Error),
    /// A numeric reply argument did not parse.
    Parse(std::num::ParseIntError),
}

/// Everything a call on the device can fail with.
#[derive(Debug)]
pub enum Error {
    Timeout,
    NoCommand,
    UnknownCommand,
    UnknownPinMode,
    UnknownDigitalValue,
    Other(Failure),
    UnknownError,
}

/// Wire token of a pin mode.
pub open spec fn mode_token(mode: PinMode) -> u8 {
    match mode {
        PinMode::Input => 'I' as u8,
        PinMode::Output => 'O' as u8,
    }
}

/// Wire token of a digital level.
pub open spec fn value_token(v: DigitalValue) -> u8 {
    match v {
        DigitalValue::Low => 'L' as u8,
        DigitalValue::High => 'H' as u8,
    }
}

/// The digital level named by a reply argument, if any.
pub open spec fn digital_value_of(t: Seq<char>) -> Option<DigitalValue> {
    if t == seq!['L'] {
        Some(DigitalValue::Low)
    } else if t == seq!['H'] {
        Some(DigitalValue::High)
    } else {
        None
    }
}

/// The error that a firmware error code stands for; unknown codes give
/// `UnknownError`.
pub open spec fn error_for_code(code: Seq<char>) -> Error {
    if code == "TIMEOUT"@ {
        Error::Timeout
    } else if code == "NO_COMMAND"@ {
        Error::NoCommand
    } else if code == "UNKNOWN_COMMAND"@ {
        Error::UnknownCommand
    } else if code == "UNKNOWN_MODE"@ {
        Error::UnknownPinMode
    } else if code == "UNKNOWN_DIGITAL_VALUE"@ {
        Error::UnknownDigitalValue
    } else {
        Error::UnknownError
    }
}

fn same_text(a: &str, lit: &str) -> (r: bool)
    ensures
        r == (a@ == lit@),
{
    a.to_owned() == lit.to_owned()
}

impl DigitalValue {
    /// Reads a digital level from its wire token (`L` or `H`).
    pub fn from_token(t: &str) -> (r: Option<DigitalValue>)
        ensures
            r == digital_value_of(t@),
    {
        proof {
            reveal_strlit("L");
            reveal_strlit("H");
            assert("L"@ =~= seq!['L']);
            assert("H"@ =~= seq!['H']);
        }
        if same_text(t, "L") {
            Some(DigitalValue::Low)
        } else if same_text(t, "H") {
            Some(DigitalValue::High)
        } else {
            None
        }
    }
}

impl Error {
    /// Maps a firmware error code onto an error; this never fails.
    pub fn from_code(code: &str) -> (r: Error)
        ensures
            r == error_for_code(code@),
    {
        if same_text(code, "TIMEOUT") {
            Error::Timeout
        } else if same_text(code, "NO_COMMAND") {
            Error::NoCommand
        } else if same_text(code, "UNKNOWN_COMMAND") {
            Error::UnknownCommand
        } else if same_text(code, "UNKNOWN_MODE") {
            Error::UnknownPinMode
        } else if same_text(code, "UNKNOWN_DIGITAL_VALUE") {
            Error::UnknownDigitalValue
        } else {
            Error::UnknownError
        }
    }
}

impl From<std::io::Error> for Error {
    fn from(e: std::io::Error) -> Error {
        Error::Other(Failure::Io(e))
    }
}

impl vstd::std_specs::convert::FromSpecImpl<std::io::Error> for Error {
    open spec fn obeys_from_spec() -> bool {
        true
    }

    open spec fn from_spec(v: std::io::Error) -> Error {
        Error::Other(Failure::Io(v))
    }
}

impl From<SerialError> for Error {
    fn from(e: SerialError) -> Error {
        Error::Other(Failure::Serial(e))
    }
}

impl vstd::std_specs::convert::FromSpecImpl<SerialError> for Error {
    open spec fn obeys_from_spec() -> bool {
        true
    }

    open spec fn from_spec(v: SerialError) -> Error {
        Error::Other(Failure::Serial(v))
    }
}

impl From<std::string::FromUtf8Error> for Error {
    fn from(e: std::string::FromUtf8Error) -> Error {
        Error::Other(Failure::Utf8(e))
    }
}

impl vstd::std_specs::convert::FromSpecImpl<std::string::FromUtf8Error> for Error {
    open spec fn obeys_from_spec() -> bool {
        true
    }

    open spec fn from_spec(v: std::string::FromUtf8Error) -> Error {
        Error::Other(Failure::Utf8(v))
    }
}

impl From<std::num::ParseIntError> for Error {
    fn from(e: std::num::ParseIntError) -> Error {
        Error::Other(Failure::Parse(e))
    }
}

impl vstd::std_specs::convert::FromSpecImpl<std::num::ParseIntError> for Error {
    open spec fn obeys_from_spec() -> bool {
        true
    }

    open spec fn from_spec(v: std::num::ParseIntError) -> Error {
        Error::Other(Failure::Parse(v))
    }
}

impl std::str::FromStr for DigitalValue {
    type Err = ();

    fn from_str(s: &str) -> (r: Result<DigitalValue, ()>)
        ensures
            r == (match digital_value_of(s@) {
                Some(v) => Ok::<DigitalValue, ()>(v),
                None => Err::<DigitalValue, ()>(()),
            }),
    {
        match DigitalValue::from_token(s) {
            Some(v) => Ok(v),
            None => Err(()),
        }
    }
}

impl std::str::FromStr for Error {
    type Err = Error;

    fn from_str(s: &str) -> (r: Result<Error, Error>)
        ensures
            r == Ok::<Error, Error>(error_for_code(s@)),
    {
        Ok(Error::from_code(s))
    }
}

} // verus!
