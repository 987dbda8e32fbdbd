use board_logic::command::{
    bytes_equal, classify_line, parse_command, read_command_byte, same_text, Command, LineStatus,
};
use board_logic::line_buffer::{LineBuffer, LINE_CAPACITY};

#[test]
fn command_line_is_collected_without_terminator() {
    let mut line = LineBuffer::new();
    for b in b"magnetometer" {
        assert_eq!(read_command_byte(&mut line, *b), LineStatus::Pending);
    }
    assert_eq!(read_command_byte(&mut line, b'\r'), LineStatus::Complete);
    assert_eq!(line.bytes(), b"magnetometer".to_vec());
    assert_eq!(classify_line(&line.take()), Some(Command::Magnetometer));
}

#[test]
fn command_line_overflow_drops_the_byte() {
    let mut line = LineBuffer::new();
    for _ in 0..LINE_CAPACITY {
        assert_eq!(read_command_byte(&mut line, b'q'), LineStatus::Pending);
    }
    assert_eq!(read_command_byte(&mut line, b'r'), LineStatus::Overflow);
    assert_eq!(line.bytes(), vec![b'q'; LINE_CAPACITY]);
    assert_eq!(classify_line(&line.bytes()), Some(Command::Unknown));
}

#[test]
fn terminator_on_full_line_completes() {
    let mut line = LineBuffer::new();
    for _ in 0..LINE_CAPACITY {
        read_command_byte(&mut line, b'q');
    }
    assert_eq!(read_command_byte(&mut line, b'\n'), LineStatus::Complete);
}

#[test]
fn commands_are_recognised() {
    assert_eq!(classify_line(b"accelerometer"), Some(Command::Accelerometer));
    assert_eq!(classify_line(b"magnetometer"), Some(Command::Magnetometer));
    assert_eq!(classify_line(b"  accelerometer \t"), Some(Command::Accelerometer));
    assert_eq!(classify_line(b"Accelerometer"), Some(Command::Unknown));
    assert_eq!(classify_line(b"accel"), Some(Command::Unknown));
    assert_eq!(classify_line(b""), Some(Command::Unknown));
    assert_eq!(classify_line(b"magnetometer x"), Some(Command::Unknown));
}

#[test]
fn invalid_text_is_not_classified() {
    assert_eq!(classify_line(&[0xff, 0xfe]), None);
    assert_eq!(classify_line(&[b'a', 0xc3]), None);
}

#[test]
fn unicode_white_space_is_trimmed() {
    assert_eq!(parse_command("\u{3000}magnetometer\u{00a0}"), Command::Magnetometer);
    assert_eq!(classify_line("\u{2003}accelerometer".as_bytes()), Some(Command::Accelerometer));
}

#[test]
fn equality_helpers() {
    assert!(bytes_equal(b"abc", b"abc"));
    assert!(!bytes_equal(b"abc", b"abd"));
    assert!(!bytes_equal(b"abc", b"ab"));
    assert!(same_text("h\u{e9}llo", "h\u{e9}llo"));
    assert!(!same_text("hello", "h\u{e9}llo"));
}

#[test]
fn padded_commands_are_recognised() {
    assert_eq!(parse_command("\t\r accelerometer\u{2028}\u{0b}"), Command::Accelerometer);
    assert_eq!(parse_command("\u{85}magnetometer\u{202f}"), Command::Magnetometer);
    assert_eq!(parse_command("magneto meter"), Command::Unknown);
    assert_eq!(parse_command("\u{200b}magnetometer"), Command::Unknown);
}
