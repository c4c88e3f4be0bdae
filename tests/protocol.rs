use gpioduino::{
    analog_read_command, analog_write_command, decode_analog_reply, decode_digital_reply,
    decode_reply, decode_unit_reply, digital_read_command, digital_write_command, echo_command,
    pin_mode_command, raw_command, DigitalValue, Error, Failure, PinMode, REPLY_CAPACITY,
};

fn padded(s: &str) -> Vec<u8> {
    let mut v = s.as_bytes().to_vec();
    v.resize(REPLY_CAPACITY, 0);
    v
}

fn bytes(s: &str) -> Vec<u8> {
    s.as_bytes().to_vec()
}

/// A stand-in for the firmware: it remembers the last level written to each
/// pin and echoes text back.
struct FakeFirmware {
    levels: Vec<(String, String)>,
}

impl FakeFirmware {
    fn new() -> FakeFirmware {
        FakeFirmware { levels: Vec::new() }
    }

    fn answer(&mut self, command: &[u8]) -> Vec<u8> {
        let text = String::from_utf8(command.to_vec()).unwrap();
        let body = text.strip_suffix(';').unwrap();
        let words: Vec<&str> = body.split(' ').collect();
        let reply = match words[0] {
            "DW" => {
                self.levels.retain(|(p, _)| p != words[1]);
                self.levels.push((words[1].to_string(), words[2].to_string()));
                "ACK;".to_string()
            }
            "DR" => {
                let level = self.levels.iter().find(|(p, _)| p == words[1]).unwrap();
                format!("ACK {};", level.1)
            }
            "ECHO" => format!("ACK {};", &body[5..]),
            "PM" | "AW" => "ACK;".to_string(),
            _ => "ERROR UNKNOWN_COMMAND;".to_string(),
        };
        padded(&reply)
    }
}

#[test]
fn pin_mode_command_bytes() {
    assert_eq!(pin_mode_command(13, PinMode::Output), b"PM 13 O;".to_vec());
    assert_eq!(pin_mode_command(2, PinMode::Input), b"PM 2 I;".to_vec());
    assert_eq!(pin_mode_command(-128, PinMode::Input), b"PM -128 I;".to_vec());
    assert_eq!(pin_mode_command(127, PinMode::Output), b"PM 127 O;".to_vec());
}

#[test]
fn digital_commands_bytes() {
    assert_eq!(digital_write_command(13, DigitalValue::High), b"DW 13 H;".to_vec());
    assert_eq!(digital_write_command(0, DigitalValue::Low), b"DW 0 L;".to_vec());
    assert_eq!(digital_read_command(-7), b"DR -7;".to_vec());
}

#[test]
fn analog_commands_bytes() {
    assert_eq!(analog_write_command(3, 255), b"AW 3 255;".to_vec());
    assert_eq!(analog_write_command(3, 0), b"AW 3 0;".to_vec());
    assert_eq!(analog_write_command(-10, 42), b"AW -10 42;".to_vec());
    assert_eq!(analog_read_command(100), b"AR 100;".to_vec());
}

#[test]
fn echo_and_raw_commands_bytes() {
    assert_eq!(echo_command("hello"), b"ECHO hello;".to_vec());
    assert_eq!(echo_command(""), b"ECHO ;".to_vec());
    assert_eq!(raw_command("XY 1 2"), b"XY 1 2".to_vec());
}

#[test]
fn ack_reply_returns_argument() {
    assert_eq!(decode_reply(bytes("ACK H;")).unwrap(), "H");
    assert_eq!(decode_reply(bytes("ACK;")).unwrap(), "");
    assert_eq!(decode_reply(bytes("ACK")).unwrap(), "");
    assert_eq!(decode_reply(bytes("  ACK \t x  ;")).unwrap(), "x");
    assert_eq!(decode_reply(bytes("ACK a b;")).unwrap(), "a");
    assert_eq!(decode_reply(bytes("ACK h\u{e9}llo;")).unwrap(), "h\u{e9}llo");
}

#[test]
fn padded_reply_decodes_like_unpadded() {
    let full = padded("ACK H;");
    assert_eq!(full.len(), 150);
    assert_eq!(decode_reply(full).unwrap(), "H");
    assert_eq!(decode_reply(bytes("ACK H;")).unwrap(), "H");
    assert_eq!(decode_reply(padded("ACK H")).unwrap(), "H");
    assert!(matches!(decode_reply(padded("ERROR TIMEOUT;")), Err(Error::Timeout)));
}

#[test]
fn only_one_terminator_is_dropped() {
    assert!(matches!(decode_reply(bytes("ACK;;")), Err(Error::UnknownError)));
    assert_eq!(decode_reply(bytes("ACK a;;")).unwrap(), "a;");
}

#[test]
fn error_codes_map_to_errors() {
    assert!(matches!(decode_reply(bytes("ERROR TIMEOUT;")), Err(Error::Timeout)));
    assert!(matches!(decode_reply(bytes("ERROR NO_COMMAND;")), Err(Error::NoCommand)));
    assert!(matches!(decode_reply(bytes("ERROR UNKNOWN_COMMAND;")), Err(Error::UnknownCommand)));
    assert!(matches!(decode_reply(bytes("ERROR UNKNOWN_MODE;")), Err(Error::UnknownPinMode)));
    assert!(matches!(
        decode_reply(bytes("ERROR UNKNOWN_DIGITAL_VALUE;")),
        Err(Error::UnknownDigitalValue)
    ));
}

#[test]
fn unrecognised_error_code_is_unknown_error() {
    assert!(matches!(decode_reply(bytes("ERROR FOO;")), Err(Error::UnknownError)));
    assert!(matches!(decode_reply(bytes("ERROR;")), Err(Error::UnknownError)));
    assert!(matches!(decode_reply(bytes("ERROR timeout;")), Err(Error::UnknownError)));
}

#[test]
fn reply_without_ack_or_error_is_unknown_error() {
    assert!(matches!(decode_reply(bytes("NACK x;")), Err(Error::UnknownError)));
    assert!(matches!(decode_reply(bytes("hello")), Err(Error::UnknownError)));
    assert!(matches!(decode_reply(bytes("")), Err(Error::UnknownError)));
    assert!(matches!(decode_reply(vec![0u8; REPLY_CAPACITY]), Err(Error::UnknownError)));
    assert!(matches!(decode_reply(bytes("\0ACK H;")), Err(Error::UnknownError)));
}

#[test]
fn invalid_utf8_is_a_decoding_failure() {
    let mut b = bytes("ACK H;");
    b.push(0xff);
    assert!(matches!(decode_reply(b), Err(Error::Other(Failure::Utf8(_)))));
    assert!(matches!(
        decode_unit_reply(vec![0xc3, 0x28]),
        Err(Error::Other(Failure::Utf8(_)))
    ));
}

#[test]
fn unit_reply_outcomes() {
    assert!(decode_unit_reply(padded("ACK;")).is_ok());
    assert!(decode_unit_reply(bytes("ACK done;")).is_ok());
    assert!(matches!(decode_unit_reply(bytes("ERROR UNKNOWN_MODE;")), Err(Error::UnknownPinMode)));
}

#[test]
fn digital_reply_outcomes() {
    assert_eq!(decode_digital_reply(bytes("ACK L;")).unwrap(), DigitalValue::Low);
    assert_eq!(decode_digital_reply(padded("ACK H;")).unwrap(), DigitalValue::High);
    assert!(matches!(decode_digital_reply(bytes("ACK X;")), Err(Error::UnknownDigitalValue)));
    assert!(matches!(decode_digital_reply(bytes("ACK;")), Err(Error::UnknownDigitalValue)));
    assert!(matches!(decode_digital_reply(bytes("ERROR TIMEOUT;")), Err(Error::Timeout)));
}

#[test]
fn analog_reply_outcomes() {
    assert_eq!(decode_analog_reply(bytes("ACK 255;")).unwrap(), 255);
    assert_eq!(decode_analog_reply(padded("ACK 0;")).unwrap(), 0);
    assert_eq!(decode_analog_reply(bytes("ACK +7;")).unwrap(), 7);
    assert_eq!(decode_analog_reply(bytes("ACK 007;")).unwrap(), 7);
    assert!(matches!(decode_analog_reply(bytes("ACK xyz;")), Err(Error::Other(Failure::Parse(_)))));
    assert!(matches!(decode_analog_reply(bytes("ACK 256;")), Err(Error::Other(Failure::Parse(_)))));
    assert!(matches!(decode_analog_reply(bytes("ACK -1;")), Err(Error::Other(Failure::Parse(_)))));
    assert!(matches!(decode_analog_reply(bytes("ACK;")), Err(Error::Other(Failure::Parse(_)))));
    assert!(matches!(decode_analog_reply(bytes("ERROR NO_COMMAND;")), Err(Error::NoCommand)));
}

#[test]
fn pin_mode_ack_is_success_for_every_pin_and_mode() {
    let mut fw = FakeFirmware::new();
    for pin in [-128i8, -1, 0, 13, 127] {
        for mode in [PinMode::Input, PinMode::Output] {
            let cmd = pin_mode_command(pin, mode);
            assert!(cmd.starts_with(b"PM "));
            assert!(decode_unit_reply(fw.answer(&cmd)).is_ok());
        }
    }
}

#[test]
fn digital_write_then_read_returns_written_value() {
    let mut fw = FakeFirmware::new();
    for value in [DigitalValue::High, DigitalValue::Low] {
        let reply = fw.answer(&digital_write_command(13, value));
        assert!(decode_unit_reply(reply).is_ok());
        let reply = fw.answer(&digital_read_command(13));
        assert_eq!(decode_digital_reply(reply).unwrap(), value);
    }
}

#[test]
fn echo_returns_text() {
    let mut fw = FakeFirmware::new();
    for text in ["hello", "x", "", "a;b", "\u{e9}t\u{e9}"] {
        let reply = fw.answer(&echo_command(text));
        assert_eq!(decode_reply(reply).unwrap(), text);
    }
}

#[test]
fn tokens_parse_from_str() {
    assert_eq!("L".parse::<DigitalValue>(), Ok(DigitalValue::Low));
    assert_eq!("H".parse::<DigitalValue>(), Ok(DigitalValue::High));
    assert_eq!("X".parse::<DigitalValue>(), Err(()));
    assert_eq!(DigitalValue::from_token("h"), None);
    assert!(matches!("TIMEOUT".parse::<Error>(), Ok(Error::Timeout)));
    assert!(matches!("".parse::<Error>(), Ok(Error::UnknownError)));
    assert!(matches!(Error::from_code("UNKNOWN_MODE"), Error::UnknownPinMode));
}

#[test]
fn tokens_of_modes_and_values() {
    assert_eq!(PinMode::Input.token(), b'I');
    assert_eq!(PinMode::Output.token(), b'O');
    assert_eq!(DigitalValue::Low.token(), b'L');
    assert_eq!(DigitalValue::High.token(), b'H');
}

#[test]
fn lower_level_failures_become_other() {
    let io = std::io::Error::new(std::io::ErrorKind::TimedOut, "late");
    assert!(matches!(Error::from(io), Error::Other(Failure::Io(_))));
    let parse = "x".parse::<u8>().unwrap_err();
    assert!(matches!(Error::from(parse), Error::Other(Failure::Parse(_))));
    let utf8 = String::from_utf8(vec![0xff]).unwrap_err();
    assert!(matches!(Error::from(utf8), Error::Other(Failure::Utf8(_))));
}

#[test]
fn from_str_tables_are_exact() {
    for s in ["l", "h", "", "HIGH", " H", "H "] {
        assert_eq!(s.parse::<DigitalValue>(), Err(()));
    }
    for v in [DigitalValue::Low, DigitalValue::High] {
        let token = String::from_utf8(vec![v.token()]).unwrap();
        assert_eq!(token.parse::<DigitalValue>(), Ok(v));
    }
    assert!(matches!("NO_COMMAND".parse::<Error>(), Ok(Error::NoCommand)));
    assert!(matches!("UNKNOWN_COMMAND".parse::<Error>(), Ok(Error::UnknownCommand)));
    assert!(matches!("UNKNOWN_MODE".parse::<Error>(), Ok(Error::UnknownPinMode)));
    assert!(matches!("UNKNOWN_DIGITAL_VALUE".parse::<Error>(), Ok(Error::UnknownDigitalValue)));
    for s in ["FOO", "timeout", " TIMEOUT", "TIMEOUT;"] {
        assert!(matches!(s.parse::<Error>(), Ok(Error::UnknownError)));
    }
}

#[test]
fn analog_reply_accepts_every_byte_value() {
    for n in 0u16..=255 {
        let reply = padded(&format!("ACK {};", n));
        assert_eq!(decode_analog_reply(reply).unwrap() as u16, n);
    }
    assert_eq!(decode_analog_reply(bytes("ACK 0255;")).unwrap(), 255);
    assert!(matches!(decode_analog_reply(bytes("ACK +;")), Err(Error::Other(Failure::Parse(_)))));
}
