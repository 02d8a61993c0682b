use chat::connection::{Connection, Message};
use chat::wire::{ParseError, CR, HEADER_MESSAGE, HEADER_REQUEST, LF};

fn parse(window: &[u8], at: usize) -> (Result<Message, ParseError>, usize) {
    let mut cursor: usize = at;
    let frame = Connection::parse_message(window, &mut cursor);
    (frame, cursor)
}

#[test]
fn wire_constants_are_the_protocol_bytes() {
    assert_eq!(CR, b'\r');
    assert_eq!(LF, b'\n');
    assert_eq!(HEADER_REQUEST, b'$');
    assert_eq!(HEADER_MESSAGE, b'#');
}

#[test]
fn parses_register_request() {
    let (frame, cursor) = parse(b"$alice\r\n", 0);
    assert_eq!(frame, Ok(Message::Request("alice".to_string())));
    assert_eq!(cursor, 8);
}

#[test]
fn parses_chat_message() {
    let (frame, cursor) = parse(b"#hello\r\n", 0);
    assert_eq!(frame, Ok(Message::Message("hello".to_string())));
    assert_eq!(cursor, 8);
}

#[test]
fn parses_only_the_first_frame() {
    let (frame, cursor) = parse(b"$alice\r\nextra", 0);
    assert_eq!(frame, Ok(Message::Request("alice".to_string())));
    assert_eq!(cursor, 8);
}

#[test]
fn parses_two_frames_one_after_the_other() {
    let window = b"$alice\r\n#hi there\r\n";
    let (first, cursor) = parse(window, 0);
    assert_eq!(first, Ok(Message::Request("alice".to_string())));
    assert_eq!(cursor, 8);
    let (second, cursor) = parse(window, cursor);
    assert_eq!(second, Ok(Message::Message("hi there".to_string())));
    assert_eq!(cursor, window.len());
    let (third, cursor) = parse(window, cursor);
    assert_eq!(third, Err(ParseError::FrameIncomplete));
    assert_eq!(cursor, window.len());
}

#[test]
fn header_is_the_byte_under_the_cursor() {
    let (frame, cursor) = parse(b"$$#ab\r\n", 2);
    assert_eq!(frame, Ok(Message::Message("ab".to_string())));
    assert_eq!(cursor, 7);
    let (frame, cursor) = parse(b"#$ab\r\n", 1);
    assert_eq!(frame, Ok(Message::Request("ab".to_string())));
    assert_eq!(cursor, 6);
}

#[test]
fn empty_content_is_a_frame() {
    let (frame, cursor) = parse(b"#\r\n", 0);
    assert_eq!(frame, Ok(Message::Message(String::new())));
    assert_eq!(cursor, 3);
}

#[test]
fn content_ends_at_the_first_terminator() {
    let (frame, cursor) = parse(b"#a\r\nb\r\n", 0);
    assert_eq!(frame, Ok(Message::Message("a".to_string())));
    assert_eq!(cursor, 4);
}

#[test]
fn lone_cr_and_lone_lf_belong_to_the_content() {
    let (frame, cursor) = parse(b"#a\rb\nc\n\r\r\n", 0);
    assert_eq!(frame, Ok(Message::Message("a\rb\nc\n\r".to_string())));
    assert_eq!(cursor, 10);
}

#[test]
fn unexpected_header_is_rejected_with_its_byte() {
    let (frame, cursor) = parse(b"Zalice\r\n", 0);
    assert_eq!(frame, Err(ParseError::UnexpectedHeader(b'Z')));
    assert_eq!(cursor, 8);
    let (frame, _) = parse(b"\x00\r\n", 0);
    assert_eq!(frame, Err(ParseError::UnexpectedHeader(0)));
}

#[test]
fn missing_terminator_is_incomplete() {
    let (frame, cursor) = parse(b"$alice", 0);
    assert_eq!(frame, Err(ParseError::FrameIncomplete));
    assert_eq!(cursor, 1);
    let (frame, _) = parse(b"$alice\r", 0);
    assert_eq!(frame, Err(ParseError::FrameIncomplete));
    let (frame, _) = parse(b"$alice\n\r", 0);
    assert_eq!(frame, Err(ParseError::FrameIncomplete));
}

#[test]
fn missing_terminator_wins_over_an_unexpected_header() {
    let (frame, cursor) = parse(b"Zalice", 0);
    assert_eq!(frame, Err(ParseError::FrameIncomplete));
    assert_eq!(cursor, 1);
}

#[test]
fn terminator_before_the_cursor_does_not_count() {
    let (frame, cursor) = parse(b"\r\n#abc", 2);
    assert_eq!(frame, Err(ParseError::FrameIncomplete));
    assert_eq!(cursor, 3);
}

#[test]
fn header_cannot_be_part_of_the_terminator() {
    let (frame, cursor) = parse(b"\r\n", 0);
    assert_eq!(frame, Err(ParseError::FrameIncomplete));
    assert_eq!(cursor, 1);
}

#[test]
fn empty_window_is_incomplete() {
    let (frame, cursor) = parse(b"", 0);
    assert_eq!(frame, Err(ParseError::FrameIncomplete));
    assert_eq!(cursor, 0);
}

#[test]
fn cursor_at_or_behind_the_end_is_incomplete_and_stays() {
    let (frame, cursor) = parse(b"$a\r\n", 4);
    assert_eq!(frame, Err(ParseError::FrameIncomplete));
    assert_eq!(cursor, 4);
    let (frame, cursor) = parse(b"$a\r\n", 9);
    assert_eq!(frame, Err(ParseError::FrameIncomplete));
    assert_eq!(cursor, 9);
}

#[test]
fn invalid_utf8_is_rejected() {
    let (frame, cursor) = parse(b"$\xff\xfe\r\n", 0);
    assert_eq!(frame, Err(ParseError::InvalidEncoding));
    assert_eq!(cursor, 5);
    let (frame, _) = parse(b"#\xc3\r\n", 0);
    assert_eq!(frame, Err(ParseError::InvalidEncoding));
    let (frame, _) = parse(b"#\xed\xa0\x80\r\n", 0);
    assert_eq!(frame, Err(ParseError::InvalidEncoding));
    let (frame, _) = parse(b"#\xc0\x80\r\n", 0);
    assert_eq!(frame, Err(ParseError::InvalidEncoding));
}

#[test]
fn invalid_utf8_wins_over_an_unexpected_header() {
    let (frame, cursor) = parse(b"Z\xff\r\n", 0);
    assert_eq!(frame, Err(ParseError::InvalidEncoding));
    assert_eq!(cursor, 4);
}

#[test]
fn multibyte_content_is_decoded() {
    let (frame, cursor) = parse("#gr\u{fc}\u{df} \u{4e16}\u{754c} \u{1f600}\r\n".as_bytes(), 0);
    assert_eq!(frame, Ok(Message::Message("gr\u{fc}\u{df} \u{4e16}\u{754c} \u{1f600}".to_string())));
    assert_eq!(cursor, 21);
}

#[test]
fn written_frame_is_read_back() {
    let names = ["alice", "", "a b", "\u{e9}t\u{e9}", "x\ry\nz"];
    for name in names {
        let mut window: Vec<u8> = vec![b'<', b'>'];
        window.push(b'$');
        window.extend_from_slice(name.as_bytes());
        window.extend_from_slice(b"\r\n");
        window.extend_from_slice(b"#tail\r\n");
        let (frame, cursor) = parse(&window, 2);
        assert_eq!(frame, Ok(Message::Request(name.to_string())));
        assert_eq!(cursor, 2 + 1 + name.len() + 2);
    }
}
