use dap::frame::{check_separator, decode_content, encode_frame, parse_header_line};
use dap::{DeserializationError, ServerError};

#[test]
fn content_length_header_is_read() {
    assert_eq!(parse_header_line(b"Content-Length: 155\r\n").unwrap(), 155);
    assert_eq!(parse_header_line(b"Content-Length:0").unwrap(), 0);
    assert_eq!(parse_header_line(b"  Content-Length \t:  42  \r\n").unwrap(), 42);
}

#[test]
fn unknown_header_is_refused_by_name() {
    match parse_header_line(b"X-Custom: 1\r\n") {
        Err(ServerError::UnknownHeader { header }) => assert_eq!(header, "X-Custom"),
        other => panic!("unexpected {:?}", other),
    }
}

#[test]
fn header_without_colon_is_refused_with_its_line() {
    match parse_header_line(b"garbage\r\n") {
        Err(ServerError::HeaderParseError { line }) => assert!(line.contains("garbage")),
        other => panic!("unexpected {:?}", other),
    }
}

#[test]
fn header_value_must_be_a_byte_count() {
    for line in [
        &b"Content-Length: abc\r\n"[..],
        b"Content-Length: -1\r\n",
        b"Content-Length: \r\n",
        b"Content-Length: 1 2\r\n",
        b"Content-Length: 1:2\r\n",
        b"Content-Length: 99999999999999999999999\r\n",
    ] {
        match parse_header_line(line) {
            Err(ServerError::HeaderParseError { line: text }) => {
                assert_eq!(text.as_bytes(), line)
            }
            other => panic!("unexpected {:?}", other),
        }
    }
}

#[test]
fn largest_byte_count_is_accepted() {
    let line = format!("Content-Length: {}\r\n", usize::MAX);
    assert_eq!(parse_header_line(line.as_bytes()).unwrap(), usize::MAX);
    let line = format!("Content-Length: {}0\r\n", usize::MAX);
    assert!(matches!(
        parse_header_line(line.as_bytes()),
        Err(ServerError::HeaderParseError { .. })
    ));
}

#[test]
fn separator_must_be_crlf() {
    assert!(check_separator(b"\r\n").is_ok());
    for line in [&b"\n"[..], b"x\r\n", b"\r\n\r\n", b""] {
        match check_separator(line) {
            Err(ServerError::ProtocolError { reason, .. }) => {
                assert_eq!(reason, "expected separator")
            }
            other => panic!("unexpected {:?}", other),
        }
    }
}

#[test]
fn content_must_be_utf8() {
    assert_eq!(decode_content("{\"a\":\"é\"}".as_bytes()).unwrap(), "{\"a\":\"é\"}");
    assert!(matches!(
        decode_content(&[0x7b, 0xff, 0x7d]),
        Err(ServerError::ParseError(DeserializationError::DecodingError(_)))
    ));
}

#[test]
fn frame_is_header_separator_payload() {
    let framed = encode_frame(b"{\"seq\":1}");
    assert_eq!(framed, b"Content-Length: 9\r\n\r\n{\"seq\":1}\r\n".to_vec());
    assert_eq!(encode_frame(b""), b"Content-Length: 0\r\n\r\n\r\n".to_vec());
}

#[test]
fn content_length_counts_bytes_not_characters() {
    let payload = "{\"text\":\"héllo → 世界\"}";
    assert_eq!(payload.chars().count(), 21);
    let framed = encode_frame(payload.as_bytes());
    let expected = format!("Content-Length: {}\r\n\r\n{}\r\n", payload.len(), payload);
    assert_eq!(payload.len(), 28);
    assert_eq!(framed, expected.into_bytes());
}

#[test]
fn frame_reads_back_to_its_payload() {
    let payload = "{\"seq\":3,\"body\":\"line\\r\\nbreak ü\"}".as_bytes();
    let mut stream = encode_frame(payload);
    stream.extend_from_slice(b"Content-Length: 2\r\n");
    let header_end = stream.iter().position(|&b| b == b'\n').unwrap() + 1;
    let n = parse_header_line(&stream[..header_end]).unwrap();
    assert_eq!(n, payload.len());
    check_separator(&stream[header_end..header_end + 2]).unwrap();
    let start = header_end + 2;
    assert_eq!(&stream[start..start + n], payload);
    assert_eq!(&stream[start + n..start + n + 2], b"\r\n");
}
