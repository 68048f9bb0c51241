use lspedit::framing::{encode_frame, read_msg_text, FramingError, ReadOutcome};

fn body_of(r: ReadOutcome) -> (String, usize) {
    match r {
        ReadOutcome::Message { text, consumed } => (text, consumed),
        other => panic!("expected a frame, got {:?}", other),
    }
}

#[test]
fn encode_frame_writes_one_length_header() {
    let bytes = encode_frame("{\"id\":1}");
    assert_eq!(bytes, b"Content-Length: 8\r\n\r\n{\"id\":1}".to_vec());
}

#[test]
fn encode_frame_counts_bytes_not_chars() {
    let bytes = encode_frame("\u{e9}");
    assert_eq!(bytes, b"Content-Length: 2\r\n\r\n\xc3\xa9".to_vec());
}

#[test]
fn encode_frame_of_empty_body() {
    assert_eq!(encode_frame(""), b"Content-Length: 0\r\n\r\n".to_vec());
}

#[test]
fn frame_round_trip() {
    let text = "{\"jsonrpc\":\"2.0\",\"method\":\"exit\"}";
    let mut bytes = encode_frame(text);
    let frame_len = bytes.len();
    bytes.extend_from_slice(b"Content-Length: 2\r\n\r\n{}");
    let (body, consumed) = body_of(read_msg_text(&bytes, false));
    assert_eq!(body, text);
    assert_eq!(consumed, frame_len);
    let (second, used) = body_of(read_msg_text(&bytes[consumed..], true));
    assert_eq!(second, "{}");
    assert_eq!(used, bytes.len() - frame_len);
}

#[test]
fn header_name_ignores_case_and_other_headers_are_skipped() {
    let bytes = b"content-type: application/vscode-jsonrpc\r\nCONTENT-LENGTH: 2\r\n\r\n{}";
    let (body, consumed) = body_of(read_msg_text(bytes, false));
    assert_eq!(body, "{}");
    assert_eq!(consumed, bytes.len());
}

#[test]
fn last_length_header_wins() {
    let bytes = b"Content-Length: 5\r\nContent-Length: 2\r\n\r\n{}xyz";
    let (body, consumed) = body_of(read_msg_text(bytes, false));
    assert_eq!(body, "{}");
    assert_eq!(consumed, bytes.len() - 3);
}

#[test]
fn length_with_plus_sign_is_read() {
    let (body, _) = body_of(read_msg_text(b"Content-Length: +2\r\n\r\n{}", false));
    assert_eq!(body, "{}");
}

#[test]
fn missing_content_length_is_a_framing_error() {
    let r = read_msg_text(b"Content-Type: x\r\n\r\n{}", false);
    assert!(matches!(r, ReadOutcome::Failed(FramingError::MissingContentLength)));
}

#[test]
fn blank_line_alone_lacks_length() {
    let r = read_msg_text(b"\r\n{}", false);
    assert!(matches!(r, ReadOutcome::Failed(FramingError::MissingContentLength)));
}

#[test]
fn header_without_crlf_is_malformed() {
    let r = read_msg_text(b"Content-Length: 2\n\r\n{}", false);
    assert!(matches!(r, ReadOutcome::Failed(FramingError::MalformedHeader)));
}

#[test]
fn header_without_separator_is_malformed() {
    let r = read_msg_text(b"Content-Length 2\r\n\r\n{}", false);
    assert!(matches!(r, ReadOutcome::Failed(FramingError::MalformedHeader)));
}

#[test]
fn unterminated_header_at_end_of_stream_is_malformed() {
    let r = read_msg_text(b"Content-Length: 2", true);
    assert!(matches!(r, ReadOutcome::Failed(FramingError::MalformedHeader)));
}

#[test]
fn bad_length_values_are_refused() {
    for bytes in [
        &b"Content-Length: abc\r\n\r\n"[..],
        &b"Content-Length: -1\r\n\r\n"[..],
        &b"Content-Length: \r\n\r\n"[..],
        &b"Content-Length: +\r\n\r\n"[..],
        &b"Content-Length: 99999999999999999999999\r\n\r\n"[..],
    ] {
        let r = read_msg_text(bytes, false);
        assert!(matches!(r, ReadOutcome::Failed(FramingError::BadContentLength)));
    }
}

#[test]
fn body_that_is_not_utf8_is_refused() {
    let r = read_msg_text(b"Content-Length: 2\r\n\r\n\xff\xfe", false);
    assert!(matches!(r, ReadOutcome::Failed(FramingError::InvalidUtf8)));
}

#[test]
fn empty_stream_at_end_is_a_clean_end() {
    assert!(matches!(read_msg_text(b"", true), ReadOutcome::EndOfStream));
}

#[test]
fn end_after_headers_is_truncated() {
    let r = read_msg_text(b"Content-Length: 2\r\n", true);
    assert!(matches!(r, ReadOutcome::Failed(FramingError::Truncated)));
    let r = read_msg_text(b"Content-Length: 4\r\n\r\n{}", true);
    assert!(matches!(r, ReadOutcome::Failed(FramingError::Truncated)));
}

#[test]
fn partial_frames_need_more() {
    assert!(matches!(read_msg_text(b"", false), ReadOutcome::NeedMore));
    assert!(matches!(read_msg_text(b"Content-Len", false), ReadOutcome::NeedMore));
    assert!(matches!(read_msg_text(b"Content-Length: 4\r\n\r\n{}", false), ReadOutcome::NeedMore));
}
