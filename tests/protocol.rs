use std::collections::VecDeque;
use std::io;

use microrpc::client::{check_call, infallible_result_of, result_of, split_flags, VERSION};
use microrpc::error::{INVALID_INFALLIBLE_RESULT, INVALID_RESULT, INVALID_TYPE};
use microrpc::text::decimal_text;
use microrpc::{Channel, Client, Error, Type, Value};

/// A channel that answers from a fixed script of bytes and records every
/// byte written to it.
struct Scripted {
    input: VecDeque<u8>,
    written: Vec<u8>,
}

impl Scripted {
    fn new(input: &[u8]) -> Self {
        Scripted { input: input.iter().copied().collect(), written: Vec::new() }
    }
}

impl Channel for Scripted {
    fn read_byte(&mut self) -> Result<u8, io::Error> {
        self.input
            .pop_front()
            .ok_or_else(|| io::Error::new(io::ErrorKind::UnexpectedEof, "script exhausted"))
    }

    fn write_bytes(&mut self, bytes: &[u8]) -> Result<(), io::Error> {
        self.written.extend_from_slice(bytes);
        Ok(())
    }
}

/// Version 0, then one procedure: returns u16, takes one u8.
const ONE_PROCEDURE: [u8; 8] = [0x00, 0x00, 0x00, 0x00, 0x01, 0x81, 0x01, 0x00];

fn script(parts: &[&[u8]]) -> Vec<u8> {
    parts.concat()
}

#[test]
fn value_round_trip_u8() {
    for x in [0u8, 7, 0x80, 0xff] {
        let v = Value::U8(x);
        let bytes = v.encode();
        assert_eq!(bytes, vec![x]);
        assert_eq!(Value::decode(Type::U8, &bytes), Some(v));
        assert_eq!(v.ty(), Type::U8);
    }
}

#[test]
fn value_round_trip_u16() {
    for x in [0u16, 42, 0x0102, 0xff00, 0xffff] {
        let v = Value::U16(x);
        let bytes = v.encode();
        assert_eq!(bytes.len(), 2);
        assert_eq!(Value::decode(Type::U16, &bytes), Some(v));
        assert_eq!(v.ty(), Type::U16);
    }
}

#[test]
fn u16_is_network_order() {
    assert_eq!(Value::U16(0x0102).encode(), vec![0x01, 0x02]);
    assert_eq!(Value::decode(Type::U16, &[0x00, 0x2a]), Some(Value::U16(42)));
    assert_eq!(Value::decode(Type::U16, &[0x12, 0x34]), Some(Value::U16(0x1234)));
}

#[test]
fn decode_rejects_wrong_length() {
    assert_eq!(Value::decode(Type::U8, &[]), None);
    assert_eq!(Value::decode(Type::U8, &[1, 2]), None);
    assert_eq!(Value::decode(Type::U16, &[1]), None);
}

#[test]
fn type_bytes() {
    assert_eq!(Type::from_byte(0x00).ok(), Some(Type::U8));
    assert_eq!(Type::from_byte(0x01).ok(), Some(Type::U16));
    assert!(matches!(Type::from_byte(0x02), Err(Error::ProtocolError { .. })));
    assert!(matches!(Type::from_byte(0xff), Err(Error::ProtocolError { .. })));
}

#[test]
fn type_names() {
    assert_eq!(Type::U8.name(), "u8");
    assert_eq!(Type::U16.name(), "u16");
}

#[test]
fn enumerates_one_procedure() {
    let mut client = Client::new(Scripted::new(&ONE_PROCEDURE));
    let procs = client.enumerate().unwrap();
    assert_eq!(procs.len(), 1);
    assert_eq!(procs[0].id(), 0);
    assert_eq!(procs[0].parameter_types(), &[Type::U8][..]);
    assert_eq!(procs[0].return_type(), Some(Type::U16));
    assert_eq!(client.channel().written, vec![0x00, 0x01]);
}

#[test]
fn enumerate_several_procedures() {
    // No return and no parameters; returns u8 and takes u16, u8.
    let input = script(&[&[0x00, 0x00, 0x00, 0x00, 0x02], &[0x00], &[0x82, 0x00, 0x01, 0x00]]);
    let mut client = Client::new(Scripted::new(&input));
    let procs = client.enumerate().unwrap();
    assert_eq!(procs.len(), 2);
    assert_eq!(procs[0].id(), 0);
    assert!(procs[0].parameter_types().is_empty());
    assert_eq!(procs[0].return_type(), None);
    assert_eq!(procs[1].id(), 1);
    assert_eq!(procs[1].parameter_types(), &[Type::U16, Type::U8][..]);
    assert_eq!(procs[1].return_type(), Some(Type::U8));
}

#[test]
fn enumerate_empty_table() {
    let mut client = Client::new(Scripted::new(&[0x00, 0x00, 0x00, 0x00, 0x00]));
    assert!(client.enumerate().unwrap().is_empty());
    assert!(matches!(client.call(0, &[]), Err(Error::ProcOutOfRange)));
}

#[test]
fn call_returns_value() {
    let input = script(&[&ONE_PROCEDURE, &[0x00, 0x00, 0x2a]]);
    let mut client = Client::new(Scripted::new(&input));
    let r = client.call(0, &[Value::U8(7)]).unwrap();
    assert_eq!(r, Some(Value::U16(42)));
    assert_eq!(client.channel().written, vec![0x00, 0x01, 0x02, 0x00, 0x00, 0x07]);
}

#[test]
fn call_sends_id_in_network_order() {
    // 0x0102 procedures with no parameters and no return value.
    let mut input = vec![0x00, 0x00, 0x00, 0x01, 0x02];
    input.extend(std::iter::repeat(0x00).take(0x0102));
    input.push(0x00);
    let mut client = Client::new(Scripted::new(&input));
    assert_eq!(client.call(0x0101, &[]).unwrap(), None);
    assert_eq!(client.channel().written, vec![0x00, 0x01, 0x02, 0x01, 0x01]);
}

#[test]
fn mismatched_argument_type_writes_nothing() {
    let mut client = Client::new(Scripted::new(&ONE_PROCEDURE));
    client.enumerate().unwrap();
    let before = client.channel().written.len();
    match client.call(0, &[Value::U16(5)]) {
        Err(Error::MismatchedArguments { index, expected, found }) => {
            assert_eq!(index, 0);
            assert_eq!(expected, Type::U8);
            assert_eq!(found, Type::U16);
        }
        other => panic!("unexpected result {:?}", other),
    }
    assert_eq!(client.channel().written.len(), before);
}

#[test]
fn procedures_is_memoized() {
    let mut client = Client::new(Scripted::new(&ONE_PROCEDURE));
    assert_eq!(client.procedures().unwrap().len(), 1);
    assert_eq!(client.procedures().unwrap().len(), 1);
    assert_eq!(client.channel().written, vec![0x00, 0x01]);
}

#[test]
fn enumerate_always_reruns_handshake() {
    let input = script(&[&ONE_PROCEDURE, &ONE_PROCEDURE]);
    let mut client = Client::new(Scripted::new(&input));
    client.procedures().unwrap();
    client.enumerate().unwrap();
    client.procedures().unwrap();
    assert_eq!(client.channel().written, vec![0x00, 0x01, 0x00, 0x01]);
}

#[test]
fn version_mismatch_installs_no_table() {
    let mut client = Client::new(Scripted::new(&[0x00, 0x03]));
    match client.enumerate() {
        Err(Error::MismatchedVersion { ours, theirs }) => {
            assert_eq!(ours, 0);
            assert_eq!(theirs, 3);
        }
        other => panic!("unexpected result {:?}", other.map(|p| p.len())),
    }
    assert_eq!(client.channel().written, vec![0x00]);
    // Nothing was cached: the next lookup starts the handshake again.
    assert!(matches!(client.procedures(), Err(Error::IoError(_))));
    assert_eq!(client.channel().written, vec![0x00, 0x00]);
}

#[test]
fn failed_enumeration_keeps_old_table() {
    // A good table, then a second enumeration whose parameter type is invalid.
    let input = script(&[&ONE_PROCEDURE, &[0x00, 0x00, 0x00, 0x00, 0x01, 0x81, 0x01, 0x07]]);
    let mut client = Client::new(Scripted::new(&input));
    client.enumerate().unwrap();
    assert!(matches!(client.enumerate(), Err(Error::ProtocolError { .. })));
    let procs = client.procedures().unwrap();
    assert_eq!(procs.len(), 1);
    assert_eq!(procs[0].return_type(), Some(Type::U16));
}

#[test]
fn infallible_request_failure_is_protocol_error() {
    let mut client = Client::new(Scripted::new(&[0x01]));
    assert!(matches!(client.enumerate(), Err(Error::ProtocolError { .. })));
    let mut client = Client::new(Scripted::new(&[0x00, 0x00, 0x05]));
    assert!(matches!(client.enumerate(), Err(Error::ProtocolError { .. })));
}

#[test]
fn invalid_type_byte_is_protocol_error() {
    let mut client = Client::new(Scripted::new(&[0x00, 0x00, 0x00, 0x00, 0x01, 0x80, 0x02]));
    assert!(matches!(client.enumerate(), Err(Error::ProtocolError { .. })));
}

#[test]
fn truncated_reply_is_io_error() {
    let mut client = Client::new(Scripted::new(&[0x00, 0x00, 0x00, 0x00]));
    assert!(matches!(client.enumerate(), Err(Error::IoError(_))));
}

#[test]
fn argument_count_mismatch_writes_nothing() {
    let mut client = Client::new(Scripted::new(&ONE_PROCEDURE));
    client.enumerate().unwrap();
    match client.call(0, &[]) {
        Err(Error::MismatchedArgumentCount { expected, found }) => {
            assert_eq!(expected, 1);
            assert_eq!(found, 0);
        }
        other => panic!("unexpected result {:?}", other),
    }
    // Too many arguments, the first of the wrong type: the count is reported.
    match client.call(0, &[Value::U16(1), Value::U8(2)]) {
        Err(Error::MismatchedArgumentCount { expected, found }) => {
            assert_eq!(expected, 1);
            assert_eq!(found, 2);
        }
        other => panic!("unexpected result {:?}", other),
    }
    assert_eq!(client.channel().written, vec![0x00, 0x01]);
}

#[test]
fn first_mismatched_argument_is_reported() {
    // One procedure taking u8, u16, u8.
    let input = [0x00, 0x00, 0x00, 0x00, 0x01, 0x03, 0x00, 0x01, 0x00];
    let mut client = Client::new(Scripted::new(&input));
    match client.call(0, &[Value::U8(1), Value::U8(2), Value::U16(3)]) {
        Err(Error::MismatchedArguments { index, expected, found }) => {
            assert_eq!(index, 1);
            assert_eq!(expected, Type::U16);
            assert_eq!(found, Type::U8);
        }
        other => panic!("unexpected result {:?}", other),
    }
    assert_eq!(client.channel().written, vec![0x00, 0x01]);
}

#[test]
fn check_call_verdicts() {
    let mut client = Client::new(Scripted::new(&ONE_PROCEDURE));
    let procs = client.procedures().unwrap();
    assert_eq!(check_call(procs, 0, &[Value::U8(1)]).ok(), Some(Some(Type::U16)));
    assert!(matches!(check_call(procs, 1, &[]), Err(Error::ProcOutOfRange)));
    assert!(matches!(
        check_call(procs, 0, &[Value::U16(1)]),
        Err(Error::MismatchedArguments { index: 0, expected: Type::U8, found: Type::U16 })
    ));
}

#[test]
fn out_of_range_id_writes_nothing() {
    let mut client = Client::new(Scripted::new(&ONE_PROCEDURE));
    client.enumerate().unwrap();
    assert!(matches!(client.call(1, &[Value::U8(7)]), Err(Error::ProcOutOfRange)));
    assert!(matches!(client.call(0xffff, &[]), Err(Error::ProcOutOfRange)));
    assert_eq!(client.channel().written, vec![0x00, 0x01]);
}

#[test]
fn server_generic_error() {
    let input = script(&[&ONE_PROCEDURE, &[0x01]]);
    let mut client = Client::new(Scripted::new(&input));
    assert!(matches!(client.call(0, &[Value::U8(7)]), Err(Error::GenericError)));
    assert_eq!(client.channel().written, vec![0x00, 0x01, 0x02, 0x00, 0x00, 0x07]);
}

#[test]
fn invalid_result_byte_is_protocol_error() {
    let input = script(&[&ONE_PROCEDURE, &[0x02]]);
    let mut client = Client::new(Scripted::new(&input));
    assert!(matches!(client.call(0, &[Value::U8(7)]), Err(Error::ProtocolError { .. })));
}

#[test]
fn call_without_return_value() {
    // One procedure taking u16 and returning nothing.
    let input = [0x00, 0x00, 0x00, 0x00, 0x01, 0x01, 0x01, 0x00];
    let mut client = Client::new(Scripted::new(&input));
    assert_eq!(client.call(0, &[Value::U16(0xbeef)]).unwrap(), None);
    assert_eq!(client.channel().written, vec![0x00, 0x01, 0x02, 0x00, 0x00, 0xbe, 0xef]);
}

#[test]
fn error_descriptions() {
    assert_eq!(Error::ProcOutOfRange.description(), "procedure id out of range");
    assert_eq!(Error::GenericError.description(), "generic µRPC error");
    assert_eq!(Error::ProtocolError { description: "invalid type" }.description(), "invalid type");
    assert_eq!(
        Error::MismatchedVersion { ours: 0, theirs: 1 }.description(),
        "mismatched µRPC version"
    );
}

#[test]
fn result_bytes() {
    assert!(result_of(0x00).is_ok());
    assert!(matches!(result_of(0x01), Err(Error::GenericError)));
    assert!(matches!(result_of(0x02), Err(Error::ProtocolError { .. })));
    assert!(matches!(result_of(0xff), Err(Error::ProtocolError { .. })));
    assert!(infallible_result_of(0x00).is_ok());
    assert!(matches!(infallible_result_of(0x01), Err(Error::ProtocolError { .. })));
}

#[test]
fn flags_split() {
    assert_eq!(split_flags(0x81), (true, 1));
    assert_eq!(split_flags(0x00), (false, 0));
    assert_eq!(split_flags(0x7f), (false, 127));
    assert_eq!(split_flags(0xff), (true, 127));
}

#[test]
fn protocol_version_constant() {
    assert_eq!(VERSION, 0);
}

fn protocol_description<T>(r: Result<T, Error>) -> &'static str {
    match r {
        Err(Error::ProtocolError { description }) => description,
        _ => panic!("expected a protocol error"),
    }
}

#[test]
fn protocol_error_descriptions() {
    assert_eq!(INVALID_TYPE, "invalid type");
    assert_eq!(INVALID_RESULT, "invalid result byte");
    assert_eq!(INVALID_INFALLIBLE_RESULT, "invalid result of infallible request");
    assert_eq!(protocol_description(Type::from_byte(2)), "invalid type");
    assert_eq!(protocol_description(result_of(2)), "invalid result byte");
    assert_eq!(protocol_description(infallible_result_of(1)), "invalid result of infallible request");
}

#[test]
fn enumeration_protocol_error_descriptions() {
    // A generic-failure byte after the version request is still a protocol violation.
    let mut client = Client::new(Scripted::new(&[0x01]));
    assert_eq!(protocol_description(client.enumerate()), "invalid result of infallible request");
    assert_eq!(client.channel().written, vec![0x00]);
    let mut client = Client::new(Scripted::new(&[0x00, 0x00, 0x02]));
    assert_eq!(protocol_description(client.enumerate()), "invalid result of infallible request");
    assert_eq!(client.channel().written, vec![0x00, 0x01]);
    let mut client = Client::new(Scripted::new(&[0x00, 0x00, 0x00, 0x00, 0x01, 0x01, 0x05]));
    assert_eq!(protocol_description(client.enumerate()), "invalid type");
    assert_eq!(client.channel().written, vec![0x00, 0x01]);
}

#[test]
fn call_protocol_error_description() {
    let input = script(&[&ONE_PROCEDURE, &[0x02]]);
    let mut client = Client::new(Scripted::new(&input));
    assert_eq!(protocol_description(client.call(0, &[Value::U8(7)])), "invalid result byte");
    assert_eq!(client.channel().written, vec![0x00, 0x01, 0x02, 0x00, 0x00, 0x07]);
}

#[test]
fn decimal_texts() {
    use_decimal(0, "0");
    use_decimal(7, "7");
    use_decimal(42, "42");
    use_decimal(100, "100");
    use_decimal(65535, "65535");
    use_decimal(u64::MAX, "18446744073709551615");
}

fn use_decimal(n: u64, expected: &str) {
    assert_eq!(decimal_text(n), expected);
}

#[test]
fn value_texts() {
    assert_eq!(Value::U8(7).text(), "7");
    assert_eq!(Value::U8(255).text(), "255");
    assert_eq!(Value::U16(42).text(), "42");
    assert_eq!(Value::U16(65535).text(), "65535");
}

#[test]
fn error_messages() {
    assert_eq!(Error::GenericError.message(), "generic µRPC error\n");
    assert_eq!(Error::ProcOutOfRange.message(), "procedure id out of range\n");
    assert_eq!(
        Error::MismatchedArgumentCount { expected: 1, found: 2 }.message(),
        "mismatched number of arguments (expected 1, got 2)\n"
    );
    assert_eq!(
        Error::MismatchedArguments { index: 0, expected: Type::U8, found: Type::U16 }.message(),
        "mismatched argument type for argument index 0 (expected u8, found u16)\n"
    );
    assert_eq!(
        Error::MismatchedArguments { index: 12, expected: Type::U16, found: Type::U8 }.message(),
        "mismatched argument type for argument index 12 (expected u16, found u8)\n"
    );
    assert_eq!(
        Error::MismatchedVersion { ours: 0, theirs: 3 }.message(),
        "mismatched µRPC version (this library implements version 0, the other endpoint implements 3)\n"
    );
    assert_eq!(
        Error::ProtocolError { description: "invalid type" }.message(),
        "protocol error: invalid type\n"
    );
    let io = Error::IoError(io::Error::new(io::ErrorKind::UnexpectedEof, "script exhausted"));
    assert_eq!(io.message(), "i/o error: script exhausted\n");
}

#[test]
#[allow(deprecated)]
fn io_error_access() {
    let e = Error::IoError(io::Error::new(io::ErrorKind::UnexpectedEof, "script exhausted"));
    assert_eq!(e.io_error().map(|io| io.kind()), Some(io::ErrorKind::UnexpectedEof));
    let inner = e.io_error().unwrap();
    assert_eq!(e.description(), std::error::Error::description(inner));
    assert!(Error::GenericError.io_error().is_none());
    assert!(Error::ProcOutOfRange.io_error().is_none());
}
