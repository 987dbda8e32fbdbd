use board_logic::echo::{echo_byte, is_line_end, reversed, EchoReply};
use board_logic::line_buffer::{LineBuffer, LINE_CAPACITY};

fn feed(line: &mut LineBuffer, bytes: &[u8]) -> Vec<EchoReply> {
    bytes.iter().map(|b| echo_byte(line, *b)).collect()
}

#[test]
fn line_end_bytes() {
    assert!(is_line_end(b'\r'));
    assert!(is_line_end(b'\n'));
    assert!(!is_line_end(b'a'));
    assert!(!is_line_end(0));
}

#[test]
fn reversed_bytes() {
    assert_eq!(reversed(&vec![1, 2, 3]), vec![3, 2, 1]);
    assert_eq!(reversed(&vec![]), Vec::<u8>::new());
}

#[test]
fn line_buffer_push_take_clear() {
    let mut line = LineBuffer::new();
    assert_eq!(line.len(), 0);
    assert!(line.push(7));
    assert!(line.push(8));
    assert_eq!(line.bytes(), vec![7, 8]);
    assert_eq!(line.take(), vec![7, 8]);
    assert_eq!(line.len(), 0);
    for i in 0..LINE_CAPACITY {
        assert!(line.push(i as u8));
    }
    assert!(!line.push(99));
    assert_eq!(line.len(), LINE_CAPACITY);
    line.clear();
    assert_eq!(line.bytes(), Vec::<u8>::new());
}

#[test]
fn line_is_sent_back_reversed() {
    let mut line = LineBuffer::new();
    let replies = feed(&mut line, b"abc\r");
    assert!(matches!(replies[0], EchoReply::Waiting));
    assert!(matches!(replies[1], EchoReply::Waiting));
    assert!(matches!(replies[2], EchoReply::Waiting));
    match &replies[3] {
        EchoReply::Line(out) => assert_eq!(out.as_slice(), b"\rcba\n\r"),
        _ => panic!("expected a line"),
    }
    assert_eq!(line.len(), 0);
}

#[test]
fn line_feed_also_ends_a_line() {
    let mut line = LineBuffer::new();
    let replies = feed(&mut line, b"hi\n");
    match &replies[2] {
        EchoReply::Line(out) => assert_eq!(out.as_slice(), b"\nih\n\r"),
        _ => panic!("expected a line"),
    }
}

#[test]
fn empty_line_sends_terminator_only() {
    let mut line = LineBuffer::new();
    match echo_byte(&mut line, b'\r') {
        EchoReply::Line(out) => assert_eq!(out.as_slice(), b"\r\n\r"),
        _ => panic!("expected a line"),
    }
}

#[test]
fn line_of_full_capacity_is_echoed() {
    let mut line = LineBuffer::new();
    let mut input = vec![b'x'; LINE_CAPACITY - 1];
    input.push(b'\r');
    let replies = feed(&mut line, &input);
    match replies.last().unwrap() {
        EchoReply::Line(out) => {
            assert_eq!(out.len(), LINE_CAPACITY + 2);
            assert_eq!(out[0], b'\r');
            assert_eq!(&out[LINE_CAPACITY..], b"\n\r");
        }
        _ => panic!("expected a line"),
    }
}

#[test]
fn full_line_overflows_and_restarts() {
    let mut line = LineBuffer::new();
    let replies = feed(&mut line, &[b'a'; LINE_CAPACITY]);
    assert!(replies.iter().all(|r| matches!(r, EchoReply::Waiting)));
    assert!(matches!(echo_byte(&mut line, b'\r'), EchoReply::Overflow));
    assert_eq!(line.len(), 0);
    let replies = feed(&mut line, b"z\n");
    match &replies[1] {
        EchoReply::Line(out) => assert_eq!(out.as_slice(), b"\nz\n\r"),
        _ => panic!("expected a line"),
    }
}
