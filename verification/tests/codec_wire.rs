use bspwm_ipc::codec::{decode_response, encode_command, interpret_reply, BUFSIZ};
use bspwm_ipc::MessageError;

/// A command encodes as its whitespace tokens, each followed by one zero
/// byte; echoing the payload back and splitting the decoded text on the
/// zero terminator reproduces the original whitespace-split tokens.
#[test]
fn encode_token_round_trip_through_echo() {
    let command = "query  -T\t-n   5";
    let payload = encode_command(command).unwrap();
    // A fake peer that echoes: the reply is the payload itself.
    let decoded = decode_response(&payload).unwrap();
    let tokens: Vec<&str> = decoded.split('\u{0}').filter(|t| !t.is_empty()).collect();
    let expected: Vec<&str> = command.split_whitespace().collect();
    assert_eq!(tokens, expected);
}

#[test]
fn encode_single_token() {
    let payload = encode_command("wm").unwrap();
    assert_eq!(payload, b"wm\0".to_vec());
}

#[test]
fn encode_query_command_bytes() {
    let payload = encode_command("query -T -d 3").unwrap();
    assert_eq!(payload, b"query\0-T\0-d\x003\0".to_vec());
}

#[test]
fn encode_empty_and_blank_commands() {
    assert_eq!(encode_command("").unwrap(), Vec::<u8>::new());
    assert_eq!(encode_command(" \t  \n").unwrap(), Vec::<u8>::new());
}

#[test]
fn encode_collapses_whitespace_runs() {
    let payload = encode_command("  a   bb  ").unwrap();
    assert_eq!(payload, b"a\0bb\0".to_vec());
}

/// Tokens split on Unicode whitespace, not only ASCII: a no-break space
/// or an em space separates tokens like a plain space does.
#[test]
fn unicode_whitespace_separates_tokens() {
    assert_eq!(encode_command("a\u{A0}b").unwrap(), b"a\0b\0".to_vec());
    assert_eq!(encode_command("a\u{2003}\u{2003}b").unwrap(), b"a\0b\0".to_vec());
    assert_eq!(encode_command("\u{3000}a\u{3000}").unwrap(), b"a\0".to_vec());
}

/// A non-ASCII character inside a token goes out as its UTF-8 bytes.
#[test]
fn non_ascii_token_bytes_pass_through() {
    assert_eq!(
        encode_command("caf\u{E9}").unwrap(),
        vec![0x63, 0x61, 0x66, 0xC3, 0xA9, 0x00]
    );
}

/// A command whose encoding exceeds the transmission buffer capacity is
/// refused as `CommandTooLarge` before anything is written.
#[test]
fn oversized_command_is_refused() {
    let long = "x".repeat(BUFSIZ);
    assert_eq!(encode_command(&long), Err(MessageError::CommandTooLarge));
}

#[test]
fn largest_fitting_command_is_accepted() {
    // The single token plus its terminator exactly fills the buffer.
    let fitting = "x".repeat(BUFSIZ - 1);
    let payload = encode_command(&fitting).unwrap();
    assert_eq!(payload.len(), BUFSIZ);
}

/// An empty reply decodes to an empty success.
#[test]
fn empty_reply_is_empty_success() {
    assert_eq!(decode_response(&[]), Ok(String::new()));
}

/// A reply led by the failure sentinel decodes to a failure carrying the
/// remaining bytes; any other first byte is a success carrying all bytes.
#[test]
fn sentinel_decides_failure_or_success() {
    let failure = decode_response(b"\x07no such desktop");
    assert_eq!(failure, Err("no such desktop".to_string()));
    let success = decode_response(b"plain result");
    assert_eq!(success, Ok("plain result".to_string()));
    // Byte value seven only counts at the first position.
    let embedded = decode_response(b"a\x07b");
    assert_eq!(embedded, Ok("a\u{7}b".to_string()));
}

/// A failure reply surfaces as a status error carrying the manager's
/// message.
#[test]
fn failure_reply_becomes_status_error() {
    let reply = b"\x07bad argument";
    assert_eq!(
        interpret_reply(reply),
        Err(MessageError::Status("bad argument".to_string()))
    );
}

#[test]
fn successful_reply_passes_through() {
    assert_eq!(interpret_reply(b"ok then"), Ok("ok then".to_string()));
    assert_eq!(interpret_reply(&[]), Ok(String::new()));
}

/// Reply text is decoded permissively: invalid UTF-8 is replaced, not
/// rejected.
#[test]
fn invalid_utf8_reply_is_replaced_not_rejected() {
    let decoded = decode_response(&[0x61, 0xFF, 0x62]).unwrap();
    assert_eq!(decoded, "a\u{FFFD}b");
    let message = interpret_reply(&[0x07, 0xC3]).unwrap_err();
    assert_eq!(message, MessageError::Status("\u{FFFD}".to_string()));
}
