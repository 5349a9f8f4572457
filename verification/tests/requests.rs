use esp32_drawer::buffer::RequestBuffer;
use esp32_drawer::reader::{headers_complete, ReadStep, RequestReader};
use esp32_drawer::request::{DecodeFailure, MAX_HEADERS};
use esp32_drawer::Request;

fn filled<const S: usize>(text: &[u8]) -> RequestBuffer<S> {
    let mut buffer = RequestBuffer::<S>::new();
    buffer.buffer_mut()[..text.len()].copy_from_slice(text);
    buffer
}

#[test]
fn new_request_has_nothing_set() {
    let request = Request::<64>::new();
    assert!(request.buffer.is_none());
    assert!(request.rb.is_none());
    assert_eq!(request.method, None);
    assert_eq!(request.path, None);
    assert_eq!(request.data, None);
    assert!(request.headers.iter().all(|header| header.is_none()));
    let other: Request<64> = Default::default();
    assert_eq!(other.method, None);
}

#[test]
fn set_request_buffer_binds_the_bytes() {
    let buffer = filled::<16>(b"GET / HTTP/1.1\r\n");
    let mut request = Request::<16>::new();
    request.set_request_buffer(&buffer);
    assert_eq!(request.rb, Some(&b"GET / HTTP/1.1\r\n"[..]));
    assert_eq!(request.method, None);
}

#[test]
fn parses_get_data_with_one_header() {
    let buffer = filled::<512>(b"GET /data HTTP/1.1\r\nHost: x\r\n\r\n");
    let mut request = Request::<512>::new();
    request.set_request_buffer(&buffer);
    assert_eq!(request.parse_request(), Ok(()));
    assert_eq!(request.method, Some("GET"));
    assert_eq!(request.path, Some("/data"));
    assert_eq!(request.headers[0], Some("Host: x"));
    assert!(request.headers[1..].iter().all(|header| header.is_none()));
    assert_eq!(request.data, None);
}

#[test]
fn parses_exact_text_without_padding() {
    let text = b"GET /data HTTP/1.1\r\nHost: x\r\n\r\n";
    let buffer = filled::<31>(text);
    let mut request = Request::<31>::new();
    request.set_request_buffer(&buffer);
    assert_eq!(request.parse_request(), Ok(()));
    assert_eq!(request.method, Some("GET"));
    assert_eq!(request.path, Some("/data"));
    assert_eq!(request.data, None);
}

#[test]
fn parses_body_and_trims_zero_padding() {
    let buffer = filled::<128>(b"POST /data HTTP/1.1\r\nA: 1\r\nB: 2\r\n\r\n[[1,2],[3,4]]");
    let mut request = Request::<128>::new();
    request.set_request_buffer(&buffer);
    assert_eq!(request.parse_request(), Ok(()));
    assert_eq!(request.method, Some("POST"));
    assert_eq!(request.path, Some("/data"));
    assert_eq!(request.headers[0], Some("A: 1"));
    assert_eq!(request.headers[1], Some("B: 2"));
    assert_eq!(request.headers[2], None);
    assert_eq!(request.data, Some("[[1,2],[3,4]]"));
}

#[test]
fn body_is_the_first_line_after_the_blank_line() {
    let buffer = filled::<64>(b"POST /x HTTP/1.1\r\n\r\n\0\0abc\0\r\nsecond\r\n");
    let mut request = Request::<64>::new();
    request.set_request_buffer(&buffer);
    assert_eq!(request.parse_request(), Ok(()));
    assert_eq!(request.headers[0], None);
    assert_eq!(request.data, Some("abc"));
}

#[test]
fn single_line_without_line_break_has_no_headers_and_no_body() {
    let buffer = filled::<9>(b"GET /data");
    assert!(!headers_complete(buffer.buffer()));
    let mut request = Request::<9>::new();
    request.set_request_buffer(&buffer);
    assert_eq!(request.parse_request(), Ok(()));
    assert_eq!(request.method, Some("GET"));
    assert_eq!(request.path, Some("/data"));
    assert!(request.headers.iter().all(|header| header.is_none()));
    assert_eq!(request.data, None);
}

#[test]
fn headers_without_blank_line_have_no_body() {
    let buffer = filled::<29>(b"GET /data HTTP/1.1\r\nHost: x\r\n");
    assert!(!headers_complete(buffer.buffer()));
    let mut request = Request::<29>::new();
    request.set_request_buffer(&buffer);
    assert_eq!(request.parse_request(), Ok(()));
    assert_eq!(request.headers[0], Some("Host: x"));
    assert_eq!(request.headers[1], None);
    assert_eq!(request.data, None);
}

#[test]
fn missing_tokens_are_unset() {
    let buffer = filled::<5>(b"\r\n\r\nx");
    let mut request = Request::<5>::new();
    request.set_request_buffer(&buffer);
    assert_eq!(request.parse_request(), Ok(()));
    assert_eq!(request.method, None);
    assert_eq!(request.path, None);
    assert_eq!(request.data, Some("x"));

    let buffer = filled::<6>(b"GET \r\n");
    let mut request = Request::<6>::new();
    request.set_request_buffer(&buffer);
    assert_eq!(request.parse_request(), Ok(()));
    assert_eq!(request.method, Some("GET"));
    assert_eq!(request.path, None);

    let buffer = filled::<7>(b" /a b\r\n");
    let mut request = Request::<7>::new();
    request.set_request_buffer(&buffer);
    assert_eq!(request.parse_request(), Ok(()));
    assert_eq!(request.method, None);
    assert_eq!(request.path, Some("/a"));
}

#[test]
fn empty_buffer_parses_to_nothing() {
    let buffer = RequestBuffer::<0>::new();
    let mut request = Request::<0>::new();
    request.set_request_buffer(&buffer);
    assert_eq!(request.parse_request(), Ok(()));
    assert_eq!(request.method, None);
    assert_eq!(request.path, None);
    assert_eq!(request.data, None);
}

#[test]
fn header_lines_beyond_the_cap_are_dropped() {
    let mut text = Vec::new();
    text.extend_from_slice(b"GET / HTTP/1.1\r\n");
    for i in 0..40 {
        text.extend_from_slice(format!("H{}: v\r\n", i).as_bytes());
    }
    text.extend_from_slice(b"\r\nbody");
    let buffer = filled::<512>(&text);
    let mut request = Request::<512>::new();
    request.set_request_buffer(&buffer);
    assert_eq!(request.parse_request(), Ok(()));
    assert_eq!(MAX_HEADERS, 32);
    for i in 0..MAX_HEADERS {
        let expected = format!("H{}: v", i);
        assert_eq!(request.headers[i], Some(expected.as_str()));
    }
    assert_eq!(request.data, Some("body"));
}

#[test]
fn parsing_again_resets_the_header_slots() {
    let first = filled::<64>(b"GET / HTTP/1.1\r\nA: 1\r\nB: 2\r\n\r\n");
    let second = filled::<64>(b"GET / HTTP/1.1\r\nC: 3\r\n\r\n");
    let mut request = Request::<64>::new();
    request.set_request_buffer(&first);
    request.parse_request().unwrap();
    assert_eq!(request.headers[1], Some("B: 2"));
    request.set_request_buffer(&second);
    request.parse_request().unwrap();
    assert_eq!(request.headers[0], Some("C: 3"));
    assert_eq!(request.headers[1], None);
}

#[test]
fn text_that_is_not_utf8_is_a_decode_failure() {
    let buffer = filled::<8>(&[b'G', b'E', b'T', b' ', 0xff, 0xfe, b'\r', b'\n']);
    let mut request = Request::<8>::new();
    request.set_request_buffer(&buffer);
    assert_eq!(request.parse_request(), Err(DecodeFailure::NotText));
    assert_eq!(request.method, None);
    assert_eq!(request.path, None);
    assert_eq!(request.data, None);
    assert_eq!(request.rb, Some(buffer.buffer()));
}

#[test]
fn multi_byte_text_is_parsed() {
    let buffer = filled::<32>("GET /caf\u{e9} HTTP/1.1\r\n\r\n\u{20ac}".as_bytes());
    let mut request = Request::<32>::new();
    request.set_request_buffer(&buffer);
    assert_eq!(request.parse_request(), Ok(()));
    assert_eq!(request.path, Some("/caf\u{e9}"));
    assert_eq!(request.data, Some("\u{20ac}"));
}

#[test]
fn parsing_without_a_buffer_is_reported() {
    let mut request = Request::<8>::new();
    assert_eq!(request.parse_request(), Err(DecodeFailure::NoBuffer));
    assert_eq!(request.method, None);
}

#[test]
fn headers_complete_finds_two_line_breaks() {
    assert!(headers_complete(b"GET / HTTP/1.1\r\n\r\n"));
    assert!(headers_complete(b"\r\n\r\n"));
    assert!(headers_complete(b"a\r\n\r\nbody"));
    assert!(!headers_complete(b"GET / HTTP/1.1\r\n\r"));
    assert!(!headers_complete(b"\r\n\n\r\n"));
    assert!(!headers_complete(b""));
}

#[test]
fn reader_accumulates_until_the_terminator() {
    let mut buffer = RequestBuffer::<64>::new();
    let mut reader = RequestReader::<64>::new();
    assert_eq!(reader.filled(), 0);

    let first = b"GET /data HT";
    {
        let free = reader.free_region(&mut buffer);
        assert_eq!(free.len(), 64);
        free[..first.len()].copy_from_slice(first);
    }
    assert_eq!(reader.advance(&buffer, first.len()), ReadStep::Continue);
    assert_eq!(reader.filled(), first.len());
    assert_eq!(reader.received(&buffer), &first[..]);

    let second = b"TP/1.1\r\n\r\nextra";
    {
        let free = reader.free_region(&mut buffer);
        assert_eq!(free.len(), 64 - first.len());
        free[..second.len()].copy_from_slice(second);
    }
    assert_eq!(reader.advance(&buffer, second.len()), ReadStep::Complete);
    assert_eq!(reader.received(&buffer), &b"GET /data HTTP/1.1\r\n\r\nextra"[..]);
}

#[test]
fn reader_reports_early_close() {
    let mut buffer = RequestBuffer::<16>::new();
    let mut reader = RequestReader::<16>::new();
    reader.free_region(&mut buffer)[..3].copy_from_slice(b"GET");
    assert_eq!(reader.advance(&buffer, 3), ReadStep::Continue);
    assert_eq!(reader.advance(&buffer, 0), ReadStep::ConnectionReset);
    assert_eq!(reader.filled(), 3);
}

#[test]
fn reader_does_not_look_behind_what_was_read() {
    let buffer = {
        let mut buffer = RequestBuffer::<16>::new();
        buffer.buffer_mut()[..8].copy_from_slice(b"ab\r\n\r\ncd");
        buffer
    };
    let mut reader = RequestReader::<16>::new();
    assert_eq!(reader.advance(&buffer, 5), ReadStep::Continue);
    assert_eq!(reader.advance(&buffer, 1), ReadStep::Complete);
    assert_eq!(reader.filled(), 6);
}

#[test]
fn reader_stops_counting_at_the_end_of_the_buffer() {
    let buffer = RequestBuffer::<4>::new();
    let mut reader = RequestReader::<4>::new();
    assert_eq!(reader.advance(&buffer, 3), ReadStep::Continue);
    assert_eq!(reader.advance(&buffer, 9), ReadStep::Continue);
    assert_eq!(reader.filled(), 4);
    let mut buffer = buffer;
    assert_eq!(reader.free_region(&mut buffer).len(), 0);
    let fresh: RequestReader<4> = Default::default();
    assert_eq!(fresh.filled(), 0);
}
