//! The JSON coordinate lists of the control port, encoded and decoded by
//! `serde_json_core`.
//!
//! What the encoder writes and what the decoder accepts is not spelled out
//! here: each has a name, and the calls are trusted to return what the names
//! stand for. Incoming positions are read as 32-bit numbers, the width of
//! the device's addresses, so that a text is accepted or rejected alike
//! wherever this runs.

use vstd::prelude::*;

verus! {

/// The JSON text that `serde_json_core` writes for a list of positions.
pub uninterp spec fn json_of_coordinates(coordinates: Seq<(usize, usize)>) -> Seq<u8>;

/// The list of optional positions that `serde_json_core` reads out of a
/// JSON text, or `None` where it rejects the text or the list is longer
/// than the 256 entries that are read.
pub uninterp spec fn coordinates_of_json(text: Seq<u8>) -> Option<Seq<Option<(u32, u32)>>>;

/// `serde_json_core::to_slice` on a slice of pairs: it writes the JSON text
/// of the list to the front of `out` and returns its length, or fails where
/// `out` is too short for the text. The length of `out` stays.
#[verifier::external_body]
pub(crate) fn encode_coordinates(coordinates: &[(usize, usize)], out: &mut [u8]) -> (r: Option<
    usize,
>)
    ensures
        final(out)@.len() == old(out)@.len(),
        match r {
            Some(n) => {
                &&& n == json_of_coordinates(coordinates@).len()
                &&& n <= final(out)@.len()
                &&& final(out)@.subrange(0, n as int) == json_of_coordinates(coordinates@)
            },
            None => json_of_coordinates(coordinates@).len() > old(out)@.len(),
        },
{
    serde_json_core::to_slice(coordinates, out).ok()
}

/// `serde_json_core::from_slice` for a list of at most 256 optional pairs
/// of `u32`, read into `serde_json_core`'s own bounded vector: the entries
/// it reads out of `text` and their number, or `None` where it rejects the
/// text. The entries stand at the front of the array that comes back, in
/// their order.
#[verifier::external_body]
pub(crate) fn decode_coordinates(text: &[u8]) -> (r: Option<([Option<(u32, u32)>; 256], usize)>)
    ensures
        match r {
            Some((slots, n)) => n <= 256 && coordinates_of_json(text@) == Some(
                slots@.take(n as int),
            ),
            None => coordinates_of_json(text@) is None,
        },
{
    let list = serde_json_core::from_slice::<
        serde_json_core::heapless::Vec<Option<(u32, u32)>, 256>,
    >(text).ok()?.0;
    let mut slots = [None; 256];
    slots[..list.len()].copy_from_slice(&list);
    Some((slots, list.len()))
}

} // verus!
