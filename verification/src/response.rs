//! Composing a response: status line, header lines, blank line. Each step
//! appends a whole line or nothing.

use crate::buffer::{append_if_fits, BufferFull, ResponseBuffer};
use crate::text::decimal;
use vstd::prelude::*;
use vstd::string::StringSliceAdditionalSpecFns;

verus! {

/// The status line for a status code this server sends; for any other code,
/// nothing.
pub open spec fn status_line(status_code: usize) -> Seq<u8> {
    if status_code == 200 {
        "HTTP/1.1 200 OK\r\n".spec_bytes()
    } else if status_code == 500 {
        "HTTP/1.1 500 Internal Server Error\r\n".spec_bytes()
    } else if status_code == 404 {
        "HTTP/1.1 404 Not Found\r\n".spec_bytes()
    } else {
        Seq::<u8>::empty()
    }
}

/// A header line: name, colon and space, value, line break.
pub open spec fn header_line(name: Seq<u8>, value: Seq<u8>) -> Seq<u8> {
    name + ": ".spec_bytes() + value + "\r\n".spec_bytes()
}

/// The header that every response of the control port carries.
pub open spec fn cors_header() -> Seq<u8> {
    "Access-Control-Allow-Origin: *\r\n".spec_bytes()
}

/// The blank line that ends the headers.
pub open spec fn blank_line_bytes() -> Seq<u8> {
    "\r\n".spec_bytes()
}

/// Appends the status line of `status_code`. A code other than 200, 404 and
/// 500 has no status line and leaves the buffer as it is.
pub fn write_response_status<const S: usize>(
    response_buffer: &mut ResponseBuffer<S>,
    status_code: usize,
) -> (r: Result<(), BufferFull>)
    ensures
        final(response_buffer)@ == append_if_fits(
            old(response_buffer)@,
            S as nat,
            status_line(status_code),
        ),
        r is Ok <==> old(response_buffer)@.len() + status_line(status_code).len() <= S,
{
    if status_code == 200 {
        response_buffer.write_str("HTTP/1.1 200 OK\r\n")
    } else if status_code == 500 {
        response_buffer.write_str("HTTP/1.1 500 Internal Server Error\r\n")
    } else if status_code == 404 {
        response_buffer.write_str("HTTP/1.1 404 Not Found\r\n")
    } else {
        // Nothing is written; asking for the length shows that it is within
        // the capacity.
        let _ = response_buffer.len();
        assert(old(response_buffer)@ + Seq::<u8>::empty() =~= old(response_buffer)@);
        Ok(())
    }
}

/// Appends the fixed header of the control port and then the blank line
/// that ends the headers, each if it fits. Reports `BufferFull` if either
/// did not.
pub fn write_response_headers<const S: usize>(response_buffer: &mut ResponseBuffer<S>) -> (r:
    Result<(), BufferFull>)
    ensures
        final(response_buffer)@ == append_if_fits(
            append_if_fits(old(response_buffer)@, S as nat, cors_header()),
            S as nat,
            blank_line_bytes(),
        ),
        r is Ok <==> old(response_buffer)@.len() + cors_header().len() + blank_line_bytes().len()
            <= S,
{
    let first = response_buffer.write_str("Access-Control-Allow-Origin: *\r\n");
    let second = response_buffer.write_str("\r\n");
    if first.is_err() {
        first
    } else {
        second
    }
}

/// Appends the blank line that ends the headers.
pub fn write_blank_line<const S: usize>(response_buffer: &mut ResponseBuffer<S>) -> (r: Result<
    (),
    BufferFull,
>)
    ensures
        final(response_buffer)@ == append_if_fits(
            old(response_buffer)@,
            S as nat,
            blank_line_bytes(),
        ),
        r is Ok <==> old(response_buffer)@.len() + blank_line_bytes().len() <= S,
{
    response_buffer.write_str("\r\n")
}

/// Appends the decimal numeral of `n`, digit by digit. Where the buffer
/// fills up, the digits written so far stay.
fn write_decimal<const S: usize>(response_buffer: &mut ResponseBuffer<S>, n: usize) -> (r: Result<
    (),
    BufferFull,
>)
    ensures
        r is Ok <==> old(response_buffer)@.len() + decimal(n as nat).len() <= S,
        r is Ok ==> final(response_buffer)@ == old(response_buffer)@ + decimal(n as nat),
        r is Err ==> final(response_buffer)@.len() >= old(response_buffer)@.len(),
        r is Err ==> final(response_buffer)@.subrange(0, old(response_buffer)@.len() as int) == old(
            response_buffer,
        )@,
    decreases n,
{
    if n >= 10 {
        match write_decimal(response_buffer, n / 10) {
            Ok(()) => {},
            Err(e) => {
                return Err(e);
            },
        }
    }
    let digit: [u8; 1] = [48 + (n % 10) as u8];
    let r = response_buffer.write(digit.as_slice());
    proof {
        assert(digit@ =~= seq![(48 + (n as nat) % 10) as u8]);
        if r is Ok {
            assert(response_buffer@ =~= old(response_buffer)@ + decimal(n as nat));
        } else {
            assert(response_buffer@.subrange(0, old(response_buffer)@.len() as int) =~= old(
                response_buffer,
            )@);
        }
    }
    r
}

/// Appends the header line `name: value`, or nothing if it does not fit.
pub fn write_header<const S: usize>(
    response_buffer: &mut ResponseBuffer<S>,
    name: &str,
    value: &str,
) -> (r: Result<(), BufferFull>)
    ensures
        final(response_buffer)@ == append_if_fits(
            old(response_buffer)@,
            S as nat,
            header_line(name.spec_bytes(), value.spec_bytes()),
        ),
        r is Ok <==> old(response_buffer)@.len() + header_line(
            name.spec_bytes(),
            value.spec_bytes(),
        ).len() <= S,
{
    let mark = response_buffer.len();
    let mut r = response_buffer.write_str(name);
    if r.is_ok() {
        r = response_buffer.write_str(": ");
    }
    if r.is_ok() {
        r = response_buffer.write_str(value);
    }
    if r.is_ok() {
        r = response_buffer.write_str("\r\n");
    }
    if r.is_err() {
        response_buffer.truncate(mark);
        assert(response_buffer@ =~= old(response_buffer)@);
    } else {
        assert(response_buffer@ =~= old(response_buffer)@ + header_line(
            name.spec_bytes(),
            value.spec_bytes(),
        ));
    }
    r
}

/// Appends the header line `Content-Length: length`, with `length` in
/// decimal, or nothing if it does not fit.
pub fn write_content_length<const S: usize>(
    response_buffer: &mut ResponseBuffer<S>,
    length: usize,
) -> (r: Result<(), BufferFull>)
    ensures
        final(response_buffer)@ == append_if_fits(
            old(response_buffer)@,
            S as nat,
            header_line("Content-Length".spec_bytes(), decimal(length as nat)),
        ),
        r is Ok <==> old(response_buffer)@.len() + header_line(
            "Content-Length".spec_bytes(),
            decimal(length as nat),
        ).len() <= S,
{
    let mark = response_buffer.len();
    let mut r = response_buffer.write_str("Content-Length");
    if r.is_ok() {
        r = response_buffer.write_str(": ");
    }
    if r.is_ok() {
        r = write_decimal(response_buffer, length);
    }
    if r.is_ok() {
        r = response_buffer.write_str("\r\n");
    }
    if r.is_err() {
        response_buffer.truncate(mark);
        assert(response_buffer@ =~= old(response_buffer)@);
    } else {
        assert(response_buffer@ =~= old(response_buffer)@ + header_line(
            "Content-Length".spec_bytes(),
            decimal(length as nat),
        ));
    }
    r
}

} // verus!
