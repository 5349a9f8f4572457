//! Single-pass parsing of a request out of a receive buffer: request line,
//! header lines and body, as slices of the buffer.

use crate::buffer::RequestBuffer;
use crate::text::{
    contains, crlf, find, find_from, lemma_find_from_is_first, lemma_split_pieces_are_text,
    lemma_trim_nul_is_text, occurs_at, optional_bytes, space, split, split_from, terminator,
    trim_nul, trim_nul_bytes,
};
use vstd::prelude::*;
use vstd::string::StringSliceAdditionalSpecFns;
use vstd::utf8::valid_utf8;

verus! {

/// How many header lines a parsed request keeps; further ones are read past
/// and not stored.
pub const MAX_HEADERS: usize = 32;

/// Why a request was not parsed.
#[derive(Clone, Copy, Debug, PartialEq, Eq, Structural)]
pub enum DecodeFailure {
    /// No buffer was set to parse from.
    NoBuffer,
    /// The buffer does not hold well-formed UTF-8 text.
    NotText,
}

/// What a request text says, field by field. A field that is missing or
/// empty is `None`.
pub struct ParsedRequest {
    /// First token of the request line.
    pub method: Option<Seq<u8>>,
    /// Second token of the request line.
    pub path: Option<Seq<u8>>,
    /// One slot per header line that is kept, in the order of the text.
    pub headers: Seq<Option<Seq<u8>>>,
    /// The line after the blank line, without NUL padding.
    pub data: Option<Seq<u8>>,
}

/// A field that holds something, or `None` for an empty one.
pub open spec fn present(field: Seq<u8>) -> Option<Seq<u8>> {
    if field.len() > 0 {
        Some(field)
    } else {
        None
    }
}

/// The lines of a request text: its pieces between line breaks.
pub open spec fn request_lines(text: Seq<u8>) -> Seq<Seq<u8>> {
    split(text, crlf())
}

/// The tokens of the request line: the pieces of the first line between
/// single spaces.
pub open spec fn request_tokens(text: Seq<u8>) -> Seq<Seq<u8>> {
    split(request_lines(text)[0], space())
}

/// The method: the first token of the request line.
pub open spec fn request_method(text: Seq<u8>) -> Option<Seq<u8>> {
    present(request_tokens(text)[0])
}

/// The path: the second token of the request line.
pub open spec fn request_path(text: Seq<u8>) -> Option<Seq<u8>> {
    let tokens = request_tokens(text);
    if tokens.len() > 1 {
        present(tokens[1])
    } else {
        None
    }
}

/// Index of the first empty line among `lines` at or after `from`, or the
/// number of lines where there is none.
pub open spec fn blank_line(lines: Seq<Seq<u8>>, from: int) -> int
    decreases lines.len() - from,
{
    if from >= lines.len() {
        lines.len() as int
    } else if lines[from].len() == 0 {
        from
    } else {
        blank_line(lines, from + 1)
    }
}

/// The header lines: the lines after the request line, up to the first
/// empty one.
pub open spec fn header_lines(text: Seq<u8>) -> Seq<Seq<u8>> {
    let lines = request_lines(text);
    lines.subrange(1, blank_line(lines, 1))
}

/// The body: the line after the blank line that ends the headers, without
/// the NUL bytes at its ends.
pub open spec fn request_body(text: Seq<u8>) -> Option<Seq<u8>> {
    let lines = request_lines(text);
    let blank = blank_line(lines, 1);
    if blank + 1 < lines.len() {
        present(trim_nul(lines[blank + 1]))
    } else {
        None
    }
}

/// Where `blank_line` finds an empty line, it is one, and it does not lie
/// before `from`.
pub proof fn lemma_blank_line_is_empty(lines: Seq<Seq<u8>>, from: int)
    requires
        0 <= from,
    ensures
        from <= blank_line(lines, from) || lines.len() <= blank_line(lines, from),
        blank_line(lines, from) < lines.len() ==> lines[blank_line(lines, from)].len() == 0,
    decreases lines.len() - from,
{
    if from < lines.len() && lines[from].len() != 0 {
        lemma_blank_line_is_empty(lines, from + 1);
    }
}

/// Among the lines of `text` from offset `from` on, an empty line that is
/// followed by another one and preceded by a line break shows that `text`
/// holds two line breaks in a row.
proof fn lemma_empty_line_between_breaks(text: Seq<u8>, from: int, index: int)
    requires
        0 <= from <= text.len(),
        0 <= index,
        index + 1 < split_from(text, crlf(), from).len(),
        split_from(text, crlf(), from)[index].len() == 0,
        index >= 1 || occurs_at(text, crlf(), from - 2),
    ensures
        contains(text, terminator()),
    decreases index,
{
    let lines = split_from(text, crlf(), from);
    lemma_find_from_is_first(text, crlf(), from);
    match find_from(text, crlf(), from) {
        Some(at) => {
            let rest = split_from(text, crlf(), at + 2);
            assert(lines == seq![text.subrange(from, at)] + rest);
            if index == 0 {
                assert(at == from);
                let first = text.subrange(from - 2, from);
                let second = text.subrange(from, from + 2);
                assert(first[0] == 13 && first[1] == 10);
                assert(second[0] == 13 && second[1] == 10);
                assert(text.subrange(from - 2, from - 2 + 4) =~= terminator());
                assert(occurs_at(text, terminator(), from - 2));
            } else {
                assert(lines[index] == rest[index - 1]);
                lemma_empty_line_between_breaks(text, at + 2, index - 1);
            }
        },
        None => {
            assert(lines.len() == 1);
        },
    }
}

/// A text without two line breaks in a row has no body.
pub proof fn lemma_no_terminator_no_body(text: Seq<u8>)
    requires
        !contains(text, terminator()),
    ensures
        request_body(text) is None,
{
    let lines = request_lines(text);
    let blank = blank_line(lines, 1);
    lemma_blank_line_is_empty(lines, 1);
    if blank + 1 < lines.len() {
        lemma_empty_line_between_breaks(text, 0, blank);
    }
}

/// What parsing `text` yields: the first `MAX_HEADERS` header lines are
/// kept, each in the slot of its position.
pub open spec fn parse(text: Seq<u8>) -> ParsedRequest {
    ParsedRequest {
        method: request_method(text),
        path: request_path(text),
        headers: Seq::new(
            MAX_HEADERS as nat,
            |i: int|
                if i < header_lines(text).len() {
                    Some(header_lines(text)[i])
                } else {
                    None
                },
        ),
        data: request_body(text),
    }
}

/// The bytes of a field that is set.
pub open spec fn field_bytes(field: Option<&str>) -> Option<Seq<u8>> {
    match field {
        Some(text) => Some(text.spec_bytes()),
        None => None,
    }
}

/// A request whose fields are slices of the buffer it was parsed from.
#[derive(Clone, Copy)]
pub struct Request<'a, const S: usize> {
    /// The buffer that was set.
    pub buffer: Option<&'a RequestBuffer<S>>,
    /// The bytes of that buffer: what `parse_request` reads.
    pub rb: Option<&'a [u8]>,
    /// First token of the request line.
    pub method: Option<&'a str>,
    /// Second token of the request line.
    pub path: Option<&'a str>,
    /// The header lines that were kept, from slot 0 on.
    pub headers: [Option<&'a str>; 32],
    /// The body.
    pub data: Option<&'a str>,
}

impl<'a, const S: usize> View for Request<'a, S> {
    type V = ParsedRequest;

    open spec fn view(&self) -> ParsedRequest {
        ParsedRequest {
            method: field_bytes(self.method),
            path: field_bytes(self.path),
            headers: Seq::new(MAX_HEADERS as nat, |i: int| field_bytes(self.headers[i])),
            data: field_bytes(self.data),
        }
    }
}

/// `core::str::from_utf8`: the string slice over `bytes`. There is one
/// exactly where the bytes are well-formed UTF-8, and its bytes are those.
#[verifier::external_body]
fn as_text<'a>(bytes: &'a [u8]) -> (r: Option<&'a str>)
    ensures
        r is Some <==> valid_utf8(bytes@),
        r matches Some(text) ==> text.spec_bytes() == bytes@,
{
    core::str::from_utf8(bytes).ok()
}

/// The string slice over bytes that are known to be text.
fn text_of<'a>(bytes: &'a [u8]) -> (r: &'a str)
    requires
        valid_utf8(bytes@),
    ensures
        r.spec_bytes() == bytes@,
{
    match as_text(bytes) {
        Some(text) => text,
        None => {
            proof {
                assert(false);
            }
            ""
        },
    }
}

/// The piece of `text` that starts at `from` and ends before the next
/// `separator`, and the offset behind that separator if there is one.
fn piece<'a>(text: &'a [u8], separator: &[u8], from: usize) -> (r: (&'a [u8], Option<usize>))
    requires
        from <= text@.len(),
        separator@.len() > 0,
    ensures
        split_from(text@, separator@, from as int) == seq![r.0@] + (match r.1 {
            Some(next) => split_from(text@, separator@, next as int),
            None => Seq::<Seq<u8>>::empty(),
        }),
        r.1 matches Some(next) ==> from < next <= text@.len(),
{
    proof {
        lemma_find_from_is_first(text@, separator@, from as int);
    }
    let end = text.len();
    match find(text, separator, from) {
        Some(at) => {
            assert(occurs_at(text@, separator@, at as int));
            let head = vstd::slice::slice_subrange(text, from, at);
            (head, Some(at + separator.len()))
        },
        None => {
            let rest = vstd::slice::slice_subrange(text, from, end);
            assert(split_from(text@, separator@, from as int) =~= seq![rest@] + Seq::<
                Seq<u8>,
            >::empty());
            (rest, None)
        },
    }
}

/// `field` as text, if it holds anything.
fn non_empty<'a>(field: &'a [u8]) -> (r: Option<&'a str>)
    requires
        valid_utf8(field@),
    ensures
        field_bytes(r) == present(field@),
{
    if field.len() > 0 {
        Some(text_of(field))
    } else {
        None
    }
}

impl<'a, const S: usize> Request<'a, S> {
    /// The bytes that `parse_request` reads: those of the buffer that was
    /// set, if one was.
    pub open spec fn source(&self) -> Option<Seq<u8>> {
        optional_bytes(self.rb)
    }

    /// The buffer that was set, if one was.
    pub open spec fn bound(&self) -> Option<&'a RequestBuffer<S>> {
        self.buffer
    }

    /// A request with no buffer and every field unset.
    pub fn new() -> (r: Self)
        ensures
            r.source() is None,
            r.bound() is None,
            r.method is None,
            r.path is None,
            r.data is None,
            forall|i: int| 0 <= i < MAX_HEADERS ==> r.headers[i] is None,
    {
        Self { buffer: None, rb: None, method: None, path: None, headers: [None; 32], data: None }
    }

    /// Sets the buffer to parse from. The fields stay as they are until
    /// `parse_request` is called.
    pub fn set_request_buffer(&mut self, buffer: &'a RequestBuffer<S>)
        ensures
            final(self).bound() == Some(buffer),
            final(self).source() == Some(buffer@),
            final(self).method == old(self).method,
            final(self).path == old(self).path,
            final(self).headers == old(self).headers,
            final(self).data == old(self).data,
    {
        self.buffer = Some(buffer);
        self.set_buffer();
    }

    fn set_buffer(&mut self)
        requires
            old(self).bound() is Some,
        ensures
            final(self).bound() == old(self).bound(),
            final(self).source() == Some(old(self).bound()->0@),
            final(self).method == old(self).method,
            final(self).path == old(self).path,
            final(self).headers == old(self).headers,
            final(self).data == old(self).data,
    {
        match self.buffer {
            Some(buffer) => {
                self.rb = Some(buffer.buffer());
            },
            None => {},
        }
    }

    /// Parses the buffer that was set, in one pass from left to right.
    ///
    /// The request line is split at single spaces into method and path. The
    /// lines after it are header lines up to the first empty line; the first
    /// `MAX_HEADERS` of them are kept. The line after the empty line is the
    /// body, without the NUL bytes that pad it. A field that is missing or
    /// empty comes out unset.
    ///
    /// Without a buffer, or where the buffer is not UTF-8 text, nothing is
    /// changed and the failure is reported.
    pub fn parse_request(&mut self) -> (r: Result<(), DecodeFailure>)
        ensures
            final(self).source() == old(self).source(),
            final(self).bound() == old(self).bound(),
            match old(self).source() {
                None => (r matches Err(DecodeFailure::NoBuffer)) && *final(self) == *old(self),
                Some(text) => if valid_utf8(text) {
                    r is Ok && final(self)@ == parse(text)
                } else {
                    (r matches Err(DecodeFailure::NotText)) && *final(self) == *old(self)
                },
            },
    {
        let text = match self.rb {
            Some(text) => text,
            None => {
                return Err(DecodeFailure::NoBuffer);
            },
        };
        if as_text(text).is_none() {
            return Err(DecodeFailure::NotText);
        }
        let line_break: [u8; 2] = [13, 10];
        let blank: [u8; 1] = [32];
        assert(line_break@ =~= crlf());
        assert(blank@ =~= space());
        let ghost lines = request_lines(text@);

        proof {
            lemma_split_pieces_are_text(text@, crlf(), 0);
        }
        let (first, after_first) = piece(text, line_break.as_slice(), 0);
        assert(lines[0] == first@);
        proof {
            lemma_split_pieces_are_text(first@, space(), 0);
        }
        let ghost tokens = request_tokens(text@);
        let (method, after_method) = piece(first, blank.as_slice(), 0);
        assert(tokens[0] == method@);
        let path = match after_method {
            Some(at) => {
                let (token, _) = piece(first, blank.as_slice(), at);
                assert(tokens[1] == token@);
                non_empty(token)
            },
            None => None,
        };
        assert(field_bytes(path) == request_path(text@));

        let mut headers: [Option<&'a str>; 32] = [None; 32];
        let mut data: Option<&'a str> = None;
        let mut count: usize = 0;
        let mut more = after_first.is_some();
        let mut at: usize = match after_first {
            Some(start) => start,
            None => 0,
        };
        let ghost mut index: int = 1;
        while more
            invariant
                lines == request_lines(text@),
                line_break@ == crlf(),
                forall|i: int| 0 <= i < lines.len() ==> valid_utf8(#[trigger] lines[i]),
                1 <= index <= lines.len(),
                at <= text@.len(),
                more ==> split_from(text@, crlf(), at as int) == lines.subrange(
                    index,
                    lines.len() as int,
                ),
                more ==> blank_line(lines, 1) == blank_line(lines, index),
                more ==> data is None,
                !more ==> blank_line(lines, 1) == index,
                !more ==> field_bytes(data) == request_body(text@),
                count <= MAX_HEADERS,
                count <= index - 1,
                count < MAX_HEADERS ==> count == index - 1,
                forall|i: int|
                    0 <= i < count ==> field_bytes(#[trigger] headers[i]) == Some(lines[1 + i]),
                forall|i: int| count <= i < MAX_HEADERS ==> (#[trigger] headers[i]) is None,
            decreases (if more { 1int } else { 0int }), text@.len() - at,
        {
            let (line, following) = piece(text, line_break.as_slice(), at);
            let ghost rest = lines.subrange(index, lines.len() as int);
            assert(rest == split_from(text@, crlf(), at as int));
            assert(rest.len() >= 1);
            assert(rest.len() == lines.len() - index);
            assert(rest[0] == line@);
            assert(index < lines.len());
            assert(lines[index] == line@);
            if line.len() == 0 {
                more = false;
                assert(blank_line(lines, index) == index);
                match following {
                    Some(start) => {
                        let (body, _) = piece(text, line_break.as_slice(), start);
                        assert(rest.subrange(1, rest.len() as int)[0] == body@);
                        assert(index + 1 < lines.len());
                        assert(lines[index + 1] == body@);
                        proof {
                            lemma_trim_nul_is_text(body@);
                        }
                        data = non_empty(trim_nul_bytes(body));
                    },
                    None => {
                        assert(rest.len() == 1);
                    },
                }
            } else {
                assert(blank_line(lines, index) == blank_line(lines, index + 1));
                if count < MAX_HEADERS {
                    headers[count] = Some(text_of(line));
                    count += 1;
                }
                match following {
                    Some(start) => {
                        assert(split_from(text@, crlf(), start as int) =~= rest.subrange(
                            1,
                            rest.len() as int,
                        ));
                        assert(rest.subrange(1, rest.len() as int) =~= lines.subrange(
                            index + 1,
                            lines.len() as int,
                        ));
                        at = start;
                    },
                    None => {
                        assert(rest.len() == 1);
                        assert(blank_line(lines, index + 1) == lines.len());
                        more = false;
                    },
                }
                proof {
                    index = index + 1;
                }
            }
        }
        assert(field_bytes(data) == request_body(text@));
        self.method = non_empty(method);
        self.path = path;
        self.headers = headers;
        self.data = data;
        assert(self@.headers =~= parse(text@).headers);
        Ok(())
    }
}

impl<'a, const S: usize> Default for Request<'a, S> {
    fn default() -> (r: Self)
        ensures
            r.source() is None,
            r.bound() is None,
            r.method is None,
            r.path is None,
            r.data is None,
            forall|i: int| 0 <= i < MAX_HEADERS ==> r.headers[i] is None,
    {
        Self::new()
    }
}

} // verus!
