use esp32_drawer::buffer::{BufferFull, RequestBuffer, ResponseBuffer};

#[test]
fn request_buffer_starts_zeroed() {
    let buffer = RequestBuffer::<16>::new();
    assert_eq!(buffer.buffer(), &[0u8; 16][..]);
}

#[test]
fn request_buffer_is_filled_by_index() {
    let mut buffer = RequestBuffer::<8>::new();
    buffer.buffer_mut()[2] = 7;
    buffer.buffer_mut()[7] = 9;
    assert_eq!(buffer.buffer(), &[0, 0, 7, 0, 0, 0, 0, 9][..]);
    assert_eq!(buffer.buf[2], 7);
}

#[test]
fn write_up_to_capacity_succeeds() {
    for n in 0..=8usize {
        let mut buffer = ResponseBuffer::<8>::new();
        let bytes = vec![b'x'; n];
        assert_eq!(buffer.write(&bytes), Ok(()));
        assert_eq!(buffer.buffer().len(), n);
        assert_eq!(buffer.buffer(), &bytes[..]);
    }
}

#[test]
fn write_beyond_capacity_fails_and_leaves_buffer_empty() {
    let mut buffer = ResponseBuffer::<8>::new();
    assert_eq!(buffer.write(&[1u8; 9]), Err(BufferFull));
    assert_eq!(buffer.buffer().len(), 0);
}

#[test]
fn write_appends_or_leaves_untouched() {
    let mut buffer = ResponseBuffer::<5>::new();
    assert_eq!(buffer.write(b"abc"), Ok(()));
    assert_eq!(buffer.write(b"def"), Err(BufferFull));
    assert_eq!(buffer.buffer(), b"abc");
    assert_eq!(buffer.write(b"de"), Ok(()));
    assert_eq!(buffer.buffer(), b"abcde");
    assert_eq!(buffer.write(b""), Ok(()));
    assert_eq!(buffer.write(b"f"), Err(BufferFull));
    assert_eq!(buffer.buffer(), b"abcde");
    assert_eq!(buffer.len(), 5);
}

#[test]
fn write_str_appends_text_bytes() {
    let mut buffer = ResponseBuffer::<16>::new();
    assert_eq!(buffer.write_str("h\u{e9}"), Ok(()));
    assert_eq!(buffer.buffer(), &[b'h', 0xc3, 0xa9][..]);
    assert_eq!(buffer.write_str("0123456789abcd"), Err(BufferFull));
    assert_eq!(buffer.buffer().len(), 3);
}

#[test]
fn buffer_mut_changes_written_bytes_in_place() {
    let mut buffer = ResponseBuffer::<8>::new();
    buffer.write(b"abc").unwrap();
    assert_eq!(buffer.buffer_mut().len(), 3);
    buffer.buffer_mut()[1] = b'X';
    assert_eq!(buffer.buffer(), b"aXc");
}

#[test]
fn truncate_takes_back_the_tail() {
    let mut buffer = ResponseBuffer::<8>::new();
    buffer.write(b"abcdef").unwrap();
    buffer.truncate(7);
    assert_eq!(buffer.buffer(), b"abcdef");
    buffer.truncate(2);
    assert_eq!(buffer.buffer(), b"ab");
    buffer.write(b"xy").unwrap();
    assert_eq!(buffer.buffer(), b"abxy");
}

#[test]
fn default_buffers_are_fresh() {
    let request: RequestBuffer<4> = Default::default();
    assert_eq!(request.buffer(), &[0u8; 4][..]);
    let response: ResponseBuffer<4> = Default::default();
    assert!(response.buffer().is_empty());
}
