//! The control port: from a parsed request to the new grid, the response
//! and the update for the renderer.

use crate::buffer::{append_if_fits, ResponseBuffer};
use crate::grid::{
    capped, cleared, empty_cells, lemma_cleared_lists_nothing, lemma_marked_all_off_grid,
    marked_all, occupied_cells, Coordinate, Coordinates, GridState, COLUMNS, MAX_COORDINATES,
    ROWS,
};
use crate::json::{coordinates_of_json, decode_coordinates, encode_coordinates, json_of_coordinates};
use crate::request::{field_bytes, ParsedRequest, Request};
use crate::response::{
    blank_line_bytes, cors_header, header_line, status_line, write_content_length, write_header,
    write_response_headers, write_response_status,
};
use crate::signal::{update_view, ScreenSignal, ScreenUpdate};
use crate::text::{decimal, optional_bytes, same_bytes};
use vstd::prelude::*;
use vstd::string::StringSliceAdditionalSpecFns;

verus! {

/// Room for the JSON text of a listing before it goes into the response.
pub const JSON_CAPACITY: usize = 2048;

/// What a request asks for.
#[derive(Clone, Copy, Debug, PartialEq, Eq, Structural)]
pub enum Route {
    /// `GET /data`: list the occupied cells.
    ListData,
    /// `POST /data`: mark the cells of the batch in the body.
    PostData,
    /// `POST /clear`: empty the grid.
    Clear,
    /// Anything else.
    NotFound,
}

/// The route of a method and a path, by literal match.
pub open spec fn route_of(method: Option<Seq<u8>>, path: Option<Seq<u8>>) -> Route {
    if method == Some("GET".spec_bytes()) {
        if path == Some("/data".spec_bytes()) {
            Route::ListData
        } else {
            Route::NotFound
        }
    } else if method == Some("POST".spec_bytes()) {
        if path == Some("/data".spec_bytes()) {
            Route::PostData
        } else if path == Some("/clear".spec_bytes()) {
            Route::Clear
        } else {
            Route::NotFound
        }
    } else {
        Route::NotFound
    }
}

/// Whether `field` is set to exactly `text`.
fn field_is(field: Option<&str>, text: &str) -> (b: bool)
    ensures
        b == (field_bytes(field) == Some(text.spec_bytes())),
{
    match field {
        Some(held) => same_bytes(held.as_bytes(), text.as_bytes()),
        None => false,
    }
}

/// The route of a method and a path.
pub fn route(method: Option<&str>, path: Option<&str>) -> (r: Route)
    ensures
        r == route_of(field_bytes(method), field_bytes(path)),
{
    if field_is(method, "GET") {
        if field_is(path, "/data") {
            Route::ListData
        } else {
            Route::NotFound
        }
    } else if field_is(method, "POST") {
        if field_is(path, "/data") {
            Route::PostData
        } else if field_is(path, "/clear") {
            Route::Clear
        } else {
            Route::NotFound
        }
    } else {
        Route::NotFound
    }
}

/// A response without a body: status line, the fixed header, blank line,
/// each appended if it fits.
pub open spec fn plain_response(held: Seq<u8>, capacity: nat, status_code: usize) -> Seq<u8> {
    append_if_fits(
        append_if_fits(
            append_if_fits(held, capacity, status_line(status_code)),
            capacity,
            cors_header(),
        ),
        capacity,
        blank_line_bytes(),
    )
}

/// The response to a listing: with the JSON text as its body where there
/// is one, and status 500 without a body where encoding failed. Each line
/// and the body is appended if it fits.
pub open spec fn listing_response(held: Seq<u8>, capacity: nat, encoded: Option<Seq<u8>>) -> Seq<
    u8,
> {
    match encoded {
        Some(json) => {
            let with_status = append_if_fits(held, capacity, status_line(200));
            let with_type = append_if_fits(
                with_status,
                capacity,
                header_line("Content-Type".spec_bytes(), "application/json".spec_bytes()),
            );
            let with_length = append_if_fits(
                with_type,
                capacity,
                header_line("Content-Length".spec_bytes(), decimal(json.len())),
            );
            let with_headers = append_if_fits(
                append_if_fits(with_length, capacity, cors_header()),
                capacity,
                blank_line_bytes(),
            );
            append_if_fits(with_headers, capacity, json)
        },
        None => plain_response(held, capacity, 500),
    }
}

/// Appends a response without a body.
pub fn respond_plain<const S: usize>(response: &mut ResponseBuffer<S>, status_code: usize)
    ensures
        final(response)@ == plain_response(old(response)@, S as nat, status_code),
{
    let _ = write_response_status(response, status_code);
    let _ = write_response_headers(response);
}

/// Appends the response to a listing, given the JSON text of the listing
/// or `None` where encoding it failed.
pub fn respond_with_listing<const S: usize>(
    response: &mut ResponseBuffer<S>,
    encoded: Option<&[u8]>,
)
    ensures
        final(response)@ == listing_response(old(response)@, S as nat, optional_bytes(encoded)),
{
    match encoded {
        Some(json) => {
            let _ = write_response_status(response, 200);
            let _ = write_header(response, "Content-Type", "application/json");
            let _ = write_content_length(response, json.len());
            let _ = write_response_headers(response);
            let _ = response.write(json);
        },
        None => {
            respond_plain(response, 500);
        },
    }
}

/// A decoded entry as a position on the grid; an entry off the grid is
/// dropped.
pub open spec fn validated(entry: Option<(u32, u32)>) -> Option<Coordinate> {
    match entry {
        Some((row, column)) => if row < ROWS && column < COLUMNS {
            Some((row as usize, column as usize))
        } else {
            None
        },
        None => None,
    }
}

/// The batch made of a decoded list: its entries in their slots, the other
/// slots empty.
pub open spec fn batch_of(list: Seq<Option<(u32, u32)>>) -> Seq<Option<Coordinate>> {
    Seq::new(
        MAX_COORDINATES as nat,
        |i: int|
            if i < list.len() {
                validated(list[i])
            } else {
                None
            },
    )
}

/// The batch that a decoding outcome stands for: none where decoding failed
/// or gave more entries than a batch holds.
pub open spec fn accepted_batch(decoded: Option<Seq<Option<(u32, u32)>>>) -> Option<
    Seq<Option<Coordinate>>,
> {
    match decoded {
        Some(list) => if list.len() <= MAX_COORDINATES {
            Some(batch_of(list))
        } else {
            None
        },
        None => None,
    }
}

/// The view of a decoding outcome.
pub open spec fn decoded_view(decoded: Option<&[Option<(u32, u32)>]>) -> Option<
    Seq<Option<(u32, u32)>>,
> {
    match decoded {
        Some(list) => Some(list@),
        None => None,
    }
}

/// The grid and the update after a batch was posted: with a batch, its
/// positions are marked and it is passed on; without one, nothing happens.
pub open spec fn posted(cells: Seq<Seq<u8>>, batch: Option<Seq<Option<Coordinate>>>) -> (
    Seq<Seq<u8>>,
    Option<ScreenUpdate>,
) {
    match batch {
        Some(slots) => (marked_all(cells, slots), Some(ScreenUpdate::Replace(slots))),
        None => (cells, None),
    }
}

/// A decoded entry as a position on the grid.
fn validate(entry: Option<(u32, u32)>) -> (r: Option<Coordinate>)
    ensures
        r == validated(entry),
{
    match entry {
        Some((row, column)) => {
            let coordinate = (row as usize, column as usize);
            if coordinate.0 < ROWS && coordinate.1 < COLUMNS {
                Some(coordinate)
            } else {
                None
            }
        },
        None => None,
    }
}

/// Marks the batch that a decoding outcome stands for and returns the
/// update for the renderer. Where there is no batch the grid stays as it is
/// and there is no update.
pub fn apply_update(grid: &mut GridState, decoded: Option<&[Option<(u32, u32)>]>) -> (update:
    Option<ScreenSignal>)
    ensures
        (final(grid)@, update_view(update)) == posted(
            old(grid)@,
            accepted_batch(decoded_view(decoded)),
        ),
{
    let list = match decoded {
        Some(list) => list,
        None => {
            return None;
        },
    };
    let n = list.len();
    if n > MAX_COORDINATES {
        return None;
    }
    let mut batch: Coordinates = [None; 256];
    let mut i: usize = 0;
    while i < n
        invariant
            i <= n <= MAX_COORDINATES,
            n == list@.len(),
            forall|k: int| 0 <= k < i ==> (#[trigger] batch@[k]) == validated(list@[k]),
            forall|k: int| i <= k < MAX_COORDINATES ==> (#[trigger] batch@[k]) is None,
        decreases n - i,
    {
        batch[i] = validate(list[i]);
        i += 1;
    }
    assert(batch@ =~= batch_of(list@));
    grid.apply(&batch);
    Some(ScreenSignal::Coordinate(batch))
}

/// The outcome of encoding the listing of a grid: its JSON text, or `None`
/// where that text is longer than `JSON_CAPACITY`.
pub open spec fn encoded_listing(cells: Seq<Seq<u8>>) -> Option<Seq<u8>> {
    let json = json_of_coordinates(capped(occupied_cells(cells)));
    if json.len() <= JSON_CAPACITY {
        Some(json)
    } else {
        None
    }
}

/// The body of a request as text; a request without one has the empty text.
pub open spec fn body_text(data: Option<Seq<u8>>) -> Seq<u8> {
    match data {
        Some(text) => text,
        None => Seq::<u8>::empty(),
    }
}

/// What handling a request leaves behind.
pub struct Outcome {
    /// The grid.
    pub cells: Seq<Seq<u8>>,
    /// What the response buffer holds.
    pub response: Seq<u8>,
    /// The update for the renderer, if there is one.
    pub update: Option<ScreenUpdate>,
}

/// What handling `request` makes of a grid and a response buffer.
///
/// `GET /data` leaves the grid and answers with the listing. `POST /data`
/// marks the batch in the body and passes it on; a body that does not
/// decode changes nothing, and either way the answer is 200. `POST /clear`
/// empties the grid and tells the renderer to. Anything else is answered
/// with 404.
pub open spec fn handled(
    cells: Seq<Seq<u8>>,
    held: Seq<u8>,
    capacity: nat,
    request: ParsedRequest,
) -> Outcome {
    match route_of(request.method, request.path) {
        Route::ListData => Outcome {
            cells,
            response: listing_response(held, capacity, encoded_listing(cells)),
            update: None,
        },
        Route::PostData => {
            let after = posted(
                cells,
                accepted_batch(coordinates_of_json(body_text(request.data))),
            );
            Outcome {
                cells: after.0,
                response: plain_response(held, capacity, 200),
                update: after.1,
            }
        },
        Route::Clear => Outcome {
            cells: cleared(cells),
            response: plain_response(held, capacity, 200),
            update: Some(ScreenUpdate::Clear),
        },
        Route::NotFound => Outcome {
            cells,
            response: plain_response(held, capacity, 404),
            update: None,
        },
    }
}

/// Handles one request: changes the grid, appends the response and returns
/// the update to publish to the renderer, if any.
pub fn handle_request<'a, const N: usize, const S: usize>(
    grid: &mut GridState,
    request: &Request<'a, N>,
    response: &mut ResponseBuffer<S>,
) -> (update: Option<ScreenSignal>)
    ensures
        (Outcome {
            cells: final(grid)@,
            response: final(response)@,
            update: update_view(update),
        }) == handled(old(grid)@, old(response)@, S as nat, request@),
{
    match route(request.method, request.path) {
        Route::ListData => {
            let coordinates = grid.occupied();
            let mut json: [u8; 2048] = [0u8; 2048];
            match encode_coordinates(coordinates.as_slice(), &mut json) {
                Some(n) => {
                    respond_with_listing(response, Some(vstd::slice::slice_subrange(
                        json.as_slice(),
                        0,
                        n,
                    )));
                },
                None => {
                    respond_with_listing(response, None);
                },
            }
            None
        },
        Route::PostData => {
            let empty: [u8; 0] = [];
            let body: &[u8] = match request.data {
                Some(text) => text.as_bytes(),
                None => empty.as_slice(),
            };
            assert(body@ =~= body_text(request@.data));
            let update = match decode_coordinates(body) {
                Some((slots, n)) => apply_update(
                    grid,
                    Some(vstd::slice::slice_subrange(slots.as_slice(), 0, n)),
                ),
                None => apply_update(grid, None),
            };
            respond_plain(response, 200);
            update
        },
        Route::Clear => {
            grid.clear();
            respond_plain(response, 200);
            Some(ScreenSignal::Clear)
        },
        Route::NotFound => {
            respond_plain(response, 404);
            None
        },
    }
}

/// After `POST /clear`, `GET /data` lists no position: its response is
/// that for the JSON text of the empty list.
pub proof fn lemma_clear_then_list(
    cells: Seq<Seq<u8>>,
    held: Seq<u8>,
    capacity: nat,
    clear: ParsedRequest,
    list: ParsedRequest,
)
    requires
        route_of(clear.method, clear.path) == Route::Clear,
        route_of(list.method, list.path) == Route::ListData,
    ensures
        ({
            let after = handled(cells, held, capacity, clear);
            let json = json_of_coordinates(Seq::<Coordinate>::empty());
            &&& capped(occupied_cells(after.cells)) == Seq::<Coordinate>::empty()
            &&& handled(after.cells, held, capacity, list).response == listing_response(
                held,
                capacity,
                if json.len() <= JSON_CAPACITY {
                    Some(json)
                } else {
                    None
                },
            )
            &&& handled(after.cells, held, capacity, list).cells == empty_cells()
        }),
{
    lemma_cleared_lists_nothing(cells);
}

/// Clearing twice in a row leaves the same grid as clearing once.
pub proof fn lemma_clear_request_twice(
    cells: Seq<Seq<u8>>,
    held: Seq<u8>,
    capacity: nat,
    clear: ParsedRequest,
)
    requires
        route_of(clear.method, clear.path) == Route::Clear,
    ensures
        handled(handled(cells, held, capacity, clear).cells, held, capacity, clear).cells
            == handled(cells, held, capacity, clear).cells,
{
}

/// Positions off the grid are dropped: a posted list whose entries all lie
/// off the grid leaves the grid, and with it every later listing, as it was.
pub proof fn lemma_post_off_grid(cells: Seq<Seq<u8>>, list: Seq<Option<(u32, u32)>>)
    requires
        forall|i: int| 0 <= i < list.len() ==> validated(#[trigger] list[i]) is None,
    ensures
        posted(cells, accepted_batch(Some(list))).0 == cells,
        occupied_cells(posted(cells, accepted_batch(Some(list))).0) == occupied_cells(cells),
{
    if list.len() <= MAX_COORDINATES {
        lemma_marked_all_off_grid(cells, batch_of(list));
    }
}

} // verus!
