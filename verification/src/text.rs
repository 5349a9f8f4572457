//! Searching, splitting and trimming of byte text, and decimal numerals.
//!
//! Everything here is stated over `Seq<u8>`. Request text is UTF-8, in
//! which the delimiters used (space, CR, LF, NUL) are single bytes that occur
//! nowhere inside a longer character. So cutting at them cuts between
//! characters, and what is cut out of text is text again.

use vstd::prelude::*;
use vstd::utf8::{
    is_char_boundary, is_char_boundary_iff_not_is_continuation_byte,
    is_char_boundary_start_end_of_seq, is_continuation_byte, length_of_first_scalar,
    pop_first_scalar, valid_utf8, valid_utf8_split,
};

verus! {

/// Carriage return, line feed: the line break of the wire format.
pub open spec fn crlf() -> Seq<u8> {
    seq![13u8, 10u8]
}

/// A single space: the separator of the tokens of a request line.
pub open spec fn space() -> Seq<u8> {
    seq![32u8]
}

/// Two line breaks in a row: the end of the headers.
pub open spec fn terminator() -> Seq<u8> {
    seq![13u8, 10u8, 13u8, 10u8]
}

/// The bytes of a byte text that may be absent.
pub open spec fn optional_bytes(bytes: Option<&[u8]>) -> Option<Seq<u8>> {
    match bytes {
        Some(bytes) => Some(bytes@),
        None => None,
    }
}

/// `pattern` stands in `text` at offset `at`.
pub open spec fn occurs_at(text: Seq<u8>, pattern: Seq<u8>, at: int) -> bool {
    &&& 0 <= at
    &&& at + pattern.len() <= text.len()
    &&& text.subrange(at, at + pattern.len()) == pattern
}

/// `pattern` stands somewhere in `text`.
pub open spec fn contains(text: Seq<u8>, pattern: Seq<u8>) -> bool {
    exists|at: int| occurs_at(text, pattern, at)
}

/// Offset of the first occurrence of `pattern` in `text` that starts at or
/// after `from`.
pub open spec fn find_from(text: Seq<u8>, pattern: Seq<u8>, from: int) -> Option<int>
    decreases text.len() + 1 - from,
{
    if from < 0 || from + pattern.len() > text.len() {
        None
    } else if occurs_at(text, pattern, from) {
        Some(from)
    } else {
        find_from(text, pattern, from + 1)
    }
}

/// What `find_from` returns is an occurrence with none before it, and it
/// returns `None` only where there is none at all.
pub proof fn lemma_find_from_is_first(text: Seq<u8>, pattern: Seq<u8>, from: int)
    requires
        0 <= from,
    ensures
        match find_from(text, pattern, from) {
            Some(at) => {
                &&& from <= at
                &&& occurs_at(text, pattern, at)
                &&& forall|j: int| from <= j < at ==> !occurs_at(text, pattern, j)
            },
            None => forall|j: int| from <= j ==> !occurs_at(text, pattern, j),
        },
    decreases text.len() + 1 - from,
{
    if from + pattern.len() > text.len() {
    } else if occurs_at(text, pattern, from) {
    } else {
        lemma_find_from_is_first(text, pattern, from + 1);
    }
}

/// The pieces of `text` from offset `from` on that lie between occurrences
/// of a non-empty `separator`, taken from left to right without overlap.
/// There is always at least one piece; text that ends in a separator ends in
/// an empty piece.
pub open spec fn split_from(text: Seq<u8>, separator: Seq<u8>, from: int) -> Seq<Seq<u8>>
    decreases text.len() - from,
{
    match find_from(text, separator, from) {
        Some(at) => if from <= at && at + separator.len() <= text.len() && separator.len() > 0 {
            seq![text.subrange(from, at)] + split_from(text, separator, at + separator.len())
        } else {
            seq![text.subrange(from, text.len() as int)]
        },
        None => seq![text.subrange(from, text.len() as int)],
    }
}

/// All pieces of `text` between occurrences of `separator`.
pub open spec fn split(text: Seq<u8>, separator: Seq<u8>) -> Seq<Seq<u8>> {
    split_from(text, separator, 0)
}

/// The pieces put together again, with `separator` between them.
pub open spec fn joined(pieces: Seq<Seq<u8>>, separator: Seq<u8>) -> Seq<u8>
    decreases pieces.len(),
{
    if pieces.len() == 0 {
        Seq::<u8>::empty()
    } else if pieces.len() == 1 {
        pieces[0]
    } else {
        pieces[0] + separator + joined(pieces.subrange(1, pieces.len() as int), separator)
    }
}

/// Splitting loses nothing and leaves no separator behind: the pieces,
/// joined by the separator, are the text again, and no piece holds the
/// separator.
pub proof fn lemma_split_joins_back(text: Seq<u8>, separator: Seq<u8>, from: int)
    requires
        0 <= from <= text.len(),
        separator.len() > 0,
    ensures
        split_from(text, separator, from).len() >= 1,
        joined(split_from(text, separator, from), separator) == text.subrange(
            from,
            text.len() as int,
        ),
        forall|i: int|
            0 <= i < split_from(text, separator, from).len() ==> !contains(
                #[trigger] split_from(text, separator, from)[i],
                separator,
            ),
    decreases text.len() - from,
{
    let pieces = split_from(text, separator, from);
    let end = text.len() as int;
    lemma_find_from_is_first(text, separator, from);
    match find_from(text, separator, from) {
        Some(at) => {
            let next = at + separator.len();
            let rest = split_from(text, separator, next);
            let head = text.subrange(from, at);
            lemma_split_joins_back(text, separator, next);
            assert(pieces == seq![head] + rest);
            assert(pieces.subrange(1, pieces.len() as int) =~= rest);
            assert(text.subrange(at, next) == separator);
            assert(head + separator + text.subrange(next, end) =~= text.subrange(from, end));
            assert forall|i: int| 0 <= i < pieces.len() implies !contains(
                #[trigger] pieces[i],
                separator,
            ) by {
                if i == 0 {
                    assert forall|j: int| !occurs_at(head, separator, j) by {
                        if occurs_at(head, separator, j) {
                            assert(head.subrange(j, j + separator.len()) =~= text.subrange(
                                from + j,
                                from + j + separator.len(),
                            ));
                            assert(occurs_at(text, separator, from + j));
                        }
                    }
                } else {
                    assert(pieces[i] == rest[i - 1]);
                }
            }
        },
        None => {
            let tail = text.subrange(from, end);
            assert(pieces == seq![tail]);
            assert forall|j: int| !occurs_at(tail, separator, j) by {
                if occurs_at(tail, separator, j) {
                    assert(tail.subrange(j, j + separator.len()) =~= text.subrange(
                        from + j,
                        from + j + separator.len(),
                    ));
                    assert(occurs_at(text, separator, from + j));
                }
            }
        },
    }
}

/// A byte below 128: a character of its own in UTF-8.
pub open spec fn is_ascii_byte(byte: u8) -> bool {
    byte < 128
}

/// In UTF-8 text, a character starts behind every ASCII byte.
pub proof fn lemma_boundary_after_ascii(text: Seq<u8>, at: int)
    requires
        valid_utf8(text),
        0 <= at < text.len(),
        is_ascii_byte(text[at]),
    ensures
        is_char_boundary(text, at),
        is_char_boundary(text, at + 1),
    decreases text.len(),
{
    is_char_boundary_iff_not_is_continuation_byte(text, at);
    reveal_with_fuel(is_char_boundary, 2);
    reveal_with_fuel(valid_utf8, 2);
    if at == 0 {
        assert(length_of_first_scalar(text) == 1);
    } else {
        let rest = pop_first_scalar(text);
        let width = length_of_first_scalar(text);
        assert(at >= width);
        assert(rest[at - width] == text[at]);
        lemma_boundary_after_ascii(rest, at - width);
    }
}

/// A stretch of UTF-8 text that starts at the start or behind an ASCII
/// byte, and ends at the end or before an ASCII byte, is UTF-8 text.
pub proof fn lemma_stretch_is_text(text: Seq<u8>, from: int, to: int)
    requires
        valid_utf8(text),
        0 <= from <= to <= text.len(),
        from == 0 || is_ascii_byte(text[from - 1]),
        to == text.len() || is_ascii_byte(text[to]),
    ensures
        valid_utf8(text.subrange(from, to)),
{
    let end = text.len() as int;
    is_char_boundary_start_end_of_seq(text);
    if from > 0 {
        lemma_boundary_after_ascii(text, from - 1);
    }
    valid_utf8_split(text, from);
    let tail = text.subrange(from, end);
    is_char_boundary_start_end_of_seq(tail);
    if to < end {
        assert(tail[to - from] == text[to]);
        lemma_boundary_after_ascii(tail, to - from);
    }
    valid_utf8_split(tail, to - from);
    assert(tail.subrange(0, to - from) =~= text.subrange(from, to));
}

/// Splitting UTF-8 text at a separator that starts and ends with an ASCII
/// byte gives pieces that are UTF-8 text.
pub proof fn lemma_split_pieces_are_text(text: Seq<u8>, separator: Seq<u8>, from: int)
    requires
        valid_utf8(text),
        0 <= from <= text.len(),
        from == 0 || is_ascii_byte(text[from - 1]),
        separator.len() > 0,
        is_ascii_byte(separator[0]),
        is_ascii_byte(separator[separator.len() - 1]),
    ensures
        forall|i: int|
            0 <= i < split_from(text, separator, from).len() ==> valid_utf8(
                #[trigger] split_from(text, separator, from)[i],
            ),
    decreases text.len() - from,
{
    let pieces = split_from(text, separator, from);
    lemma_find_from_is_first(text, separator, from);
    match find_from(text, separator, from) {
        Some(at) => {
            let next = at + separator.len();
            let rest = split_from(text, separator, next);
            let found = text.subrange(at, next);
            assert(found[0] == separator[0]);
            assert(found[separator.len() - 1] == separator[separator.len() - 1]);
            lemma_stretch_is_text(text, from, at);
            lemma_split_pieces_are_text(text, separator, next);
            assert(pieces == seq![text.subrange(from, at)] + rest);
            assert forall|i: int| 0 <= i < pieces.len() implies valid_utf8(#[trigger] pieces[i]) by {
                if i > 0 {
                    assert(pieces[i] == rest[i - 1]);
                }
            }
        },
        None => {
            lemma_stretch_is_text(text, from, text.len() as int);
        },
    }
}

/// Trimming the NUL bytes off UTF-8 text leaves UTF-8 text.
pub proof fn lemma_trim_nul_is_text(text: Seq<u8>)
    requires
        valid_utf8(text),
    ensures
        valid_utf8(trim_start_nul(text)),
        valid_utf8(trim_end_nul(text)),
        valid_utf8(trim_nul(text)),
{
    lemma_trim_start_nul_is_text(text);
    lemma_trim_end_nul_is_text(text);
    lemma_trim_end_nul_is_text(trim_start_nul(text));
}

proof fn lemma_trim_start_nul_is_text(text: Seq<u8>)
    requires
        valid_utf8(text),
    ensures
        valid_utf8(trim_start_nul(text)),
    decreases text.len(),
{
    if text.len() > 0 && text[0] == 0 {
        lemma_stretch_is_text(text, 1, text.len() as int);
        lemma_trim_start_nul_is_text(text.subrange(1, text.len() as int));
    }
}

proof fn lemma_trim_end_nul_is_text(text: Seq<u8>)
    requires
        valid_utf8(text),
    ensures
        valid_utf8(trim_end_nul(text)),
    decreases text.len(),
{
    if text.len() > 0 && text[text.len() - 1] == 0 {
        lemma_stretch_is_text(text, 0, text.len() - 1);
        lemma_trim_end_nul_is_text(text.subrange(0, text.len() - 1));
    }
}

/// `text` without the NUL bytes it starts with.
pub open spec fn trim_start_nul(text: Seq<u8>) -> Seq<u8>
    decreases text.len(),
{
    if text.len() > 0 && text[0] == 0 {
        trim_start_nul(text.subrange(1, text.len() as int))
    } else {
        text
    }
}

/// `text` without the NUL bytes it ends with.
pub open spec fn trim_end_nul(text: Seq<u8>) -> Seq<u8>
    decreases text.len(),
{
    if text.len() > 0 && text[text.len() - 1] == 0 {
        trim_end_nul(text.subrange(0, text.len() - 1))
    } else {
        text
    }
}

/// `text` without the NUL bytes at either end: what is left of a field that
/// was read out of a zero-padded buffer.
pub open spec fn trim_nul(text: Seq<u8>) -> Seq<u8> {
    trim_end_nul(trim_start_nul(text))
}

/// The decimal numeral of `n` in ASCII digits, without leading zeros.
pub open spec fn decimal(n: nat) -> Seq<u8>
    decreases n,
{
    if n < 10 {
        seq![(48 + n) as u8]
    } else {
        decimal(n / 10).push((48 + n % 10) as u8)
    }
}

/// The number that a decimal numeral stands for.
pub open spec fn decimal_value(digits: Seq<u8>) -> nat
    decreases digits.len(),
{
    if digits.len() == 0 {
        0
    } else {
        decimal_value(digits.drop_last()) * 10 + (digits.last() - 48) as nat
    }
}

/// The decimal numeral of a number is made of digits, has no leading zero
/// unless the number is zero, and stands for the number.
pub proof fn lemma_decimal_reads_back(n: nat)
    ensures
        decimal(n).len() >= 1,
        forall|i: int| 0 <= i < decimal(n).len() ==> 48 <= #[trigger] decimal(n)[i] <= 57,
        n > 0 ==> decimal(n)[0] != 48,
        decimal_value(decimal(n)) == n,
    decreases n,
{
    if n < 10 {
        let digits = decimal(n);
        assert(digits.drop_last() =~= Seq::<u8>::empty());
        assert(decimal_value(digits.drop_last()) == 0);
    } else {
        let front = decimal(n / 10);
        let last = (48 + n % 10) as u8;
        lemma_decimal_reads_back(n / 10);
        assert(decimal(n) == front.push(last));
        assert(front.push(last).drop_last() =~= front);
        assert(front.push(last)[0] == front[0]);
    }
}

/// Whether `pattern` stands in `text` at offset `at`.
pub fn occurs(text: &[u8], pattern: &[u8], at: usize) -> (b: bool)
    ensures
        b == occurs_at(text@, pattern@, at as int),
{
    let n = text.len();
    let m = pattern.len();
    if m > n || at > n - m {
        return false;
    }
    let mut j: usize = 0;
    while j < m
        invariant
            j <= m,
            m == pattern@.len(),
            n == text@.len(),
            at + m <= n,
            forall|k: int| 0 <= k < j ==> text@[at + k] == pattern@[k],
        decreases m - j,
    {
        if text[at + j] != pattern[j] {
            assert(text@.subrange(at as int, at + m)[j as int] != pattern@[j as int]);
            return false;
        }
        j += 1;
    }
    assert(text@.subrange(at as int, at + m) =~= pattern@);
    true
}

/// Whether two byte texts are the same.
pub fn same_bytes(left: &[u8], right: &[u8]) -> (b: bool)
    ensures
        b == (left@ == right@),
{
    if left.len() != right.len() {
        return false;
    }
    let b = occurs(left, right, 0);
    assert(left@.subrange(0, left@.len() as int) =~= left@);
    b
}

/// Offset of the first occurrence of `pattern` in `text` at or after `from`.
pub fn find(text: &[u8], pattern: &[u8], from: usize) -> (r: Option<usize>)
    ensures
        match r {
            Some(at) => find_from(text@, pattern@, from as int) == Some(at as int),
            None => find_from(text@, pattern@, from as int) is None,
        },
{
    let n = text.len();
    let m = pattern.len();
    if m > n || from > n - m {
        return None;
    }
    if m == 0 {
        assert(text@.subrange(from as int, from as int) =~= pattern@);
        return Some(from);
    }
    let last = n - m;
    let mut i = from;
    while i <= last
        invariant
            from <= i <= last + 1,
            0 < m <= n,
            last == n - m,
            m == pattern@.len(),
            n == text@.len(),
            find_from(text@, pattern@, from as int) == find_from(text@, pattern@, i as int),
        decreases last + 1 - i,
    {
        if occurs(text, pattern, i) {
            return Some(i);
        }
        i += 1;
    }
    None
}

/// `text` without the NUL bytes at either end.
pub fn trim_nul_bytes<'a>(text: &'a [u8]) -> (r: &'a [u8])
    ensures
        r@ == trim_nul(text@),
{
    let n = text.len();
    let mut a: usize = 0;
    assert(text@.subrange(0, n as int) =~= text@);
    while a < n && text[a] == 0
        invariant
            a <= n,
            n == text@.len(),
            trim_start_nul(text@) == trim_start_nul(text@.subrange(a as int, n as int)),
        decreases n - a,
    {
        assert(text@.subrange(a as int, n as int).subrange(1, n - a) =~= text@.subrange(
            a + 1,
            n as int,
        ));
        a += 1;
    }
    let mut b = n;
    while b > a && text[b - 1] == 0
        invariant
            a <= b <= n,
            n == text@.len(),
            trim_start_nul(text@) == text@.subrange(a as int, n as int),
            trim_nul(text@) == trim_end_nul(text@.subrange(a as int, b as int)),
        decreases b,
    {
        assert(text@.subrange(a as int, b as int).subrange(0, b - a - 1) =~= text@.subrange(
            a as int,
            b - 1,
        ));
        b -= 1;
    }
    vstd::slice::slice_subrange(text, a, b)
}

} // verus!
