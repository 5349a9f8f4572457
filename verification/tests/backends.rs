use esp32_drawer::backend::{
    apply_update, handle_request, respond_plain, respond_with_listing, route, Route,
    JSON_CAPACITY,
};
use esp32_drawer::buffer::{RequestBuffer, ResponseBuffer};
use esp32_drawer::grid::{GridState, MAX_COORDINATES};
use esp32_drawer::{Request, ScreenSignal};

const HEAD_200: &str = "HTTP/1.1 200 OK\r\nAccess-Control-Allow-Origin: *\r\n\r\n";
const HEAD_404: &str = "HTTP/1.1 404 Not Found\r\nAccess-Control-Allow-Origin: *\r\n\r\n";
const HEAD_500: &str =
    "HTTP/1.1 500 Internal Server Error\r\nAccess-Control-Allow-Origin: *\r\n\r\n";

fn listing(json: &str) -> String {
    format!(
        "HTTP/1.1 200 OK\r\nContent-Type: application/json\r\nContent-Length: {}\r\n\
         Access-Control-Allow-Origin: *\r\n\r\n{}",
        json.len(),
        json
    )
}

fn exchange(grid: &mut GridState, text: &str) -> (String, Option<ScreenSignal>) {
    let mut buffer = RequestBuffer::<512>::new();
    buffer.buffer_mut()[..text.len()].copy_from_slice(text.as_bytes());
    let mut request = Request::<512>::new();
    request.set_request_buffer(&buffer);
    request.parse_request().unwrap();
    let mut response = ResponseBuffer::<1024>::new();
    let update = handle_request(grid, &request, &mut response);
    (String::from_utf8(response.buffer().to_vec()).unwrap(), update)
}

fn post(body: &str) -> String {
    format!("POST /data HTTP/1.1\r\nContent-Type: application/json\r\n\r\n{}", body)
}

const GET_DATA: &str = "GET /data HTTP/1.1\r\nHost: x\r\n\r\n";
const POST_CLEAR: &str = "POST /clear HTTP/1.1\r\nHost: x\r\n\r\n";

#[test]
fn routes_are_matched_literally() {
    assert_eq!(route(Some("GET"), Some("/data")), Route::ListData);
    assert_eq!(route(Some("POST"), Some("/data")), Route::PostData);
    assert_eq!(route(Some("POST"), Some("/clear")), Route::Clear);
    assert_eq!(route(Some("GET"), Some("/clear")), Route::NotFound);
    assert_eq!(route(Some("GET"), Some("/data/")), Route::NotFound);
    assert_eq!(route(Some("get"), Some("/data")), Route::NotFound);
    assert_eq!(route(Some("PUT"), Some("/data")), Route::NotFound);
    assert_eq!(route(None, Some("/data")), Route::NotFound);
    assert_eq!(route(Some("GET"), None), Route::NotFound);
    assert_eq!(route(None, None), Route::NotFound);
}

#[test]
fn get_data_on_a_fresh_grid_lists_nothing() {
    let mut grid = GridState::new();
    let (response, update) = exchange(&mut grid, GET_DATA);
    assert_eq!(response, listing("[]"));
    assert_eq!(update, None);
}

#[test]
fn post_clear_then_get_data_returns_empty_list() {
    let mut grid = GridState::new();
    grid.mark((1, 2));
    grid.mark((40, 70));
    let (response, update) = exchange(&mut grid, POST_CLEAR);
    assert_eq!(response, HEAD_200);
    assert_eq!(update, Some(ScreenSignal::Clear));
    let (response, update) = exchange(&mut grid, GET_DATA);
    assert_eq!(response, listing("[]"));
    assert_eq!(update, None);
}

#[test]
fn post_data_then_get_data_returns_the_same_list() {
    let mut grid = GridState::new();
    let (response, update) = exchange(&mut grid, &post("[[1,2],[3,4]]"));
    assert_eq!(response, HEAD_200);
    let mut expected = [None; MAX_COORDINATES];
    expected[0] = Some((1, 2));
    expected[1] = Some((3, 4));
    assert_eq!(update, Some(ScreenSignal::Coordinate(expected)));
    let (response, _) = exchange(&mut grid, GET_DATA);
    assert_eq!(response, listing("[[1,2],[3,4]]"));
    assert!(response.ends_with("Content-Length: 13\r\nAccess-Control-Allow-Origin: *\r\n\r\n[[1,2],[3,4]]"));
}

#[test]
fn get_data_lists_in_row_major_order() {
    let mut grid = GridState::new();
    exchange(&mut grid, &post("[[3,4],[1,2],[3,0],[1,2]]"));
    let (response, _) = exchange(&mut grid, GET_DATA);
    assert_eq!(response, listing("[[1,2],[3,0],[3,4]]"));
}

#[test]
fn post_data_accumulates_over_requests() {
    let mut grid = GridState::new();
    exchange(&mut grid, &post("[[10,20]]"));
    exchange(&mut grid, &post(" [ [63, 79] , null ] "));
    let (response, _) = exchange(&mut grid, GET_DATA);
    assert_eq!(response, listing("[[10,20],[63,79]]"));
}

#[test]
fn coordinates_off_the_grid_are_dropped() {
    let mut grid = GridState::new();
    let (response, update) = exchange(&mut grid, &post("[[64,0],[1,1],[0,80],[4000000000,5]]"));
    assert_eq!(response, HEAD_200);
    let mut expected = [None; MAX_COORDINATES];
    expected[1] = Some((1, 1));
    assert_eq!(update, Some(ScreenSignal::Coordinate(expected)));
    let (response, _) = exchange(&mut grid, GET_DATA);
    assert_eq!(response, listing("[[1,1]]"));
}

#[test]
fn nulls_are_empty_slots() {
    let mut grid = GridState::new();
    let (_, update) = exchange(&mut grid, &post("[null,[2,3],null]"));
    let mut expected = [None; MAX_COORDINATES];
    expected[1] = Some((2, 3));
    assert_eq!(update, Some(ScreenSignal::Coordinate(expected)));
    assert_eq!(grid.occupied().as_slice(), &[(2, 3)]);
}

#[test]
fn empty_list_is_an_empty_batch() {
    let mut grid = GridState::new();
    let (response, update) = exchange(&mut grid, &post("[]"));
    assert_eq!(response, HEAD_200);
    assert_eq!(update, Some(ScreenSignal::Coordinate([None; MAX_COORDINATES])));
    assert!(grid.occupied().as_slice().is_empty());
}

#[test]
fn body_that_does_not_decode_is_answered_with_200_and_changes_nothing() {
    for body in [
        "",
        "[[1,2]",
        "[[1,2],]",
        "[[1,2,3]]",
        "[[1]]",
        "[[-1,2]]",
        "[[1.5,2]]",
        "[[5000000000,1]]",
        "{\"coords\":[[1,2]]}",
        "[[1,2]] x",
        "nonsense",
    ] {
        let mut grid = GridState::new();
        grid.mark((9, 9));
        let (response, update) = exchange(&mut grid, &post(body));
        assert_eq!(response, HEAD_200, "body {:?}", body);
        assert_eq!(update, None, "body {:?}", body);
        assert_eq!(grid.occupied().as_slice(), &[(9, 9)], "body {:?}", body);
    }
}

#[test]
fn unknown_routes_are_answered_with_404() {
    for text in [
        "GET / HTTP/1.1\r\n\r\n",
        "GET /clear HTTP/1.1\r\n\r\n",
        "POST /other HTTP/1.1\r\n\r\n[[1,2]]",
        "DELETE /data HTTP/1.1\r\n\r\n",
        "GET\r\n\r\n",
        "\r\n\r\n",
    ] {
        let mut grid = GridState::new();
        grid.mark((9, 9));
        let (response, update) = exchange(&mut grid, text);
        assert_eq!(response, HEAD_404, "request {:?}", text);
        assert_eq!(update, None);
        assert_eq!(grid.occupied().as_slice(), &[(9, 9)]);
    }
}

#[test]
fn clearing_twice_leaves_the_grid_of_clearing_once() {
    let mut once = GridState::new();
    once.mark((5, 6));
    let mut twice = once.clone();
    exchange(&mut once, POST_CLEAR);
    exchange(&mut twice, POST_CLEAR);
    exchange(&mut twice, POST_CLEAR);
    assert_eq!(once, twice);
    assert_eq!(exchange(&mut twice, GET_DATA).0, listing("[]"));
}

#[test]
fn batch_with_too_many_entries_is_not_accepted() {
    let mut grid = GridState::new();
    let too_many = vec![Some((1u32, 1u32)); MAX_COORDINATES + 1];
    assert_eq!(apply_update(&mut grid, Some(&too_many)), None);
    assert!(grid.occupied().as_slice().is_empty());

    let full = vec![Some((2u32, 2u32)); MAX_COORDINATES];
    assert_eq!(
        apply_update(&mut grid, Some(&full)),
        Some(ScreenSignal::Coordinate([Some((2, 2)); MAX_COORDINATES]))
    );
    assert_eq!(grid.occupied().as_slice(), &[(2, 2)]);
    assert_eq!(apply_update(&mut grid, None), None);
    assert_eq!(grid.occupied().as_slice(), &[(2, 2)]);
}

#[test]
fn listing_that_does_not_fit_the_response_loses_its_body() {
    let mut grid = GridState::new();
    for row in 0..4 {
        for column in 0..80 {
            grid.mark((row + 60, column));
        }
    }
    let (response, _) = exchange(&mut grid, GET_DATA);
    let list = grid.occupied();
    let listed = list.as_slice();
    let json = format!(
        "[{}]",
        listed.iter().map(|c| format!("[{},{}]", c.0, c.1)).collect::<Vec<_>>().join(",")
    );
    assert!(json.len() <= JSON_CAPACITY && json.len() > 1024);
    assert_eq!(
        response,
        format!(
            "HTTP/1.1 200 OK\r\nContent-Type: application/json\r\nContent-Length: {}\r\n\
             Access-Control-Allow-Origin: *\r\n\r\n",
            json.len()
        )
    );
}

#[test]
fn failed_encoding_is_answered_with_500() {
    let mut response = ResponseBuffer::<128>::new();
    respond_with_listing(&mut response, None);
    assert_eq!(response.buffer(), HEAD_500.as_bytes());

    let mut response = ResponseBuffer::<128>::new();
    respond_with_listing(&mut response, Some(b"[[0,0]]"));
    assert_eq!(response.buffer(), listing("[[0,0]]").as_bytes());
}

#[test]
fn plain_response_writes_what_fits() {
    let mut response = ResponseBuffer::<20>::new();
    respond_plain(&mut response, 200);
    assert_eq!(response.buffer(), b"HTTP/1.1 200 OK\r\n\r\n");
    let mut response = ResponseBuffer::<64>::new();
    respond_plain(&mut response, 404);
    assert_eq!(response.buffer(), HEAD_404.as_bytes());
}
