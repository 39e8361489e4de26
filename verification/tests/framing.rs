use lsp_proxy::error::FramingError;
use lsp_proxy::framing::{
    classify_line, parse_number, push_decimal, FrameRead, HeaderLine, HeaderScan, LspFrameReader,
    LspFrameWriter,
};

#[test]
fn test_read_message() {
    let input = b"Content-Length: 46\r\n\r\n{\"jsonrpc\":\"2.0\",\"id\":1,\"method\":\"initialize\"}";
    let mut reader = LspFrameReader::new();
    reader.feed(&input[..]);
    match reader.read_message() {
        FrameRead::Frame(body) => {
            assert_eq!(body, b"{\"jsonrpc\":\"2.0\",\"id\":1,\"method\":\"initialize\"}".to_vec());
        }
        other => panic!("unexpected {:?}", other),
    }
    assert!(reader.buffer.is_empty());
}

#[test]
fn test_write_message() {
    let writer = LspFrameWriter::new(Vec::<u8>::new());
    let body = b"{\"jsonrpc\":\"2.0\",\"id\":1,\"method\":\"test\"}";
    let output = writer.write_message(body);
    assert!(output.starts_with(b"Content-Length: "));
    let mut expected = b"Content-Length: 40\r\n\r\n".to_vec();
    expected.extend_from_slice(body);
    assert_eq!(output, expected);
}

#[test]
fn written_frame_reads_back() {
    let writer = LspFrameWriter::new(());
    let body = b"{\"a\":\"\xc3\xa9\"}";
    let mut reader = LspFrameReader::new();
    reader.feed(&writer.write_message(body));
    reader.feed(&writer.write_message(b"{}"));
    assert!(matches!(reader.read_message(), FrameRead::Frame(b) if b == body.to_vec()));
    assert!(matches!(reader.read_message(), FrameRead::Frame(b) if b == b"{}".to_vec()));
    assert!(matches!(reader.read_message(), FrameRead::Incomplete));
}

#[test]
fn frame_in_pieces_is_incomplete_until_whole() {
    let mut reader = LspFrameReader::new();
    reader.feed(b"Content-Length: 5\r\n");
    assert!(matches!(reader.read_message(), FrameRead::Incomplete));
    reader.feed(b"\r\nab");
    assert!(matches!(reader.read_headers(), HeaderScan::Complete { content_length: 5, body_start: 21 }));
    assert!(matches!(reader.read_message(), FrameRead::Incomplete));
    reader.feed(b"cdeX");
    assert!(matches!(reader.read_message(), FrameRead::Frame(b) if b == b"abcde".to_vec()));
    assert_eq!(reader.buffer, b"X".to_vec());
}

#[test]
fn other_headers_are_ignored() {
    let mut reader = LspFrameReader::new();
    reader.feed(b"Content-Type: application/vscode-jsonrpc\r\nContent-Length: 2\r\n\r\n{}");
    assert!(matches!(reader.read_message(), FrameRead::Frame(b) if b == b"{}".to_vec()));
}

#[test]
fn missing_length_is_reported() {
    let mut reader = LspFrameReader::new();
    reader.feed(b"Content-Type: x\r\n\r\n{}");
    assert!(matches!(
        reader.read_message(),
        FrameRead::Malformed(FramingError::MissingContentLength)
    ));
}

#[test]
fn bad_length_is_reported() {
    let mut reader = LspFrameReader::new();
    reader.feed(b"Content-Length: abc\r\n\r\n{}");
    assert!(matches!(
        reader.read_message(),
        FrameRead::Malformed(FramingError::InvalidContentLength)
    ));
    let mut reader = LspFrameReader::new();
    reader.feed(b"Content-Length: 99999999999999999999999999\r\n\r\n");
    assert!(matches!(
        reader.read_headers(),
        HeaderScan::Malformed(FramingError::InvalidContentLength)
    ));
}

#[test]
fn header_prefix_is_case_sensitive() {
    assert_eq!(classify_line(b"content-length: 5\r\n"), HeaderLine::Other);
    assert_eq!(classify_line(b"Content-Length: 5\r\n"), HeaderLine::Length(5));
    assert_eq!(classify_line(b"Content-Length:5\r\n"), HeaderLine::Other);
    assert_eq!(classify_line(b"  Content-Length: +17  \r\n"), HeaderLine::Length(17));
    assert_eq!(classify_line(b"Content-Length: 1 2\r\n"), HeaderLine::BadLength);
    assert_eq!(classify_line(b"Content-Length: \r\n"), HeaderLine::Other);
    assert_eq!(classify_line(b"\r\n"), HeaderLine::End);
    assert_eq!(classify_line(b"\n"), HeaderLine::Other);
}

#[test]
fn numbers_parse_exactly() {
    assert_eq!(parse_number(b"0", 0, 1), Some(0));
    assert_eq!(parse_number(b"x123y", 1, 4), Some(123));
    assert_eq!(parse_number(b"+7", 0, 2), Some(7));
    assert_eq!(parse_number(b"+", 0, 1), None);
    assert_eq!(parse_number(b"", 0, 0), None);
    assert_eq!(parse_number(b"-1", 0, 2), None);
    assert_eq!(parse_number(b"18446744073709551615", 0, 20), Some(18446744073709551615));
    assert_eq!(parse_number(b"18446744073709551616", 0, 20), None);
}

#[test]
fn decimal_digits_round_trip() {
    for n in [0usize, 7, 10, 46, 1024, 987654321] {
        let mut out = b"n=".to_vec();
        push_decimal(&mut out, n);
        assert_eq!(out, format!("n={}", n).into_bytes());
        assert_eq!(parse_number(&out, 2, out.len()), Some(n));
    }
}
