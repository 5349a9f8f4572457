use esp32_drawer::connection::{
    action, step, Action, ConnectionState, DrainStep, CONTROL_LINGER_MS, STATIC_LINGER_MS,
};
use esp32_drawer::grid::MAX_COORDINATES;
use esp32_drawer::screen::{block, drawing, Block, Drawing, CELL_SIZE};
use esp32_drawer::signal::UpdateSignal;
use esp32_drawer::web::{path_to_file, serve_static, Assets, WebServeFile};
use esp32_drawer::buffer::ResponseBuffer;
use esp32_drawer::ScreenSignal;

fn batch_signal(coordinates: &[(usize, usize)]) -> ScreenSignal {
    let mut slots = [None; MAX_COORDINATES];
    for (slot, coordinate) in slots.iter_mut().zip(coordinates) {
        *slot = Some(*coordinate);
    }
    ScreenSignal::Coordinate(slots)
}

#[test]
fn new_signal_is_empty() {
    let mut signal = UpdateSignal::new();
    assert!(!signal.signaled());
    assert_eq!(signal.try_take(), None);
    assert!(!UpdateSignal::default().signaled());
}

#[test]
fn second_update_overwrites_the_first() {
    let mut signal = UpdateSignal::new();
    signal.signal(batch_signal(&[(1, 2)]));
    signal.signal(ScreenSignal::Clear);
    assert!(signal.signaled());
    assert_eq!(signal.try_take(), Some(ScreenSignal::Clear));
    assert_eq!(signal.try_take(), None);

    signal.signal(ScreenSignal::Clear);
    signal.signal(batch_signal(&[(3, 4)]));
    assert_eq!(signal.try_take(), Some(batch_signal(&[(3, 4)])));
    assert!(!signal.signaled());
}

#[test]
fn update_is_taken_at_most_once() {
    let mut signal = UpdateSignal::new();
    signal.signal(ScreenSignal::Clear);
    assert_eq!(signal.try_take(), Some(ScreenSignal::Clear));
    assert_eq!(signal.try_take(), None);
}

#[test]
fn reset_drops_the_pending_update() {
    let mut signal = UpdateSignal::new();
    signal.signal(ScreenSignal::Clear);
    signal.reset();
    assert!(!signal.signaled());
    assert_eq!(signal.try_take(), None);
}

#[test]
fn block_covers_two_by_two_pixels() {
    assert_eq!(CELL_SIZE, 2);
    assert_eq!(block((0, 0)), Some(Block { x: 0, y: 0, width: 2, height: 2 }));
    assert_eq!(block((3, 5)), Some(Block { x: 10, y: 6, width: 2, height: 2 }));
    assert_eq!(block((63, 79)), Some(Block { x: 158, y: 126, width: 2, height: 2 }));
    assert_eq!(block((64, 0)), None);
    assert_eq!(block((0, 80)), None);
    assert_eq!(block((usize::MAX, usize::MAX)), None);
}

#[test]
fn drawing_of_a_batch_fills_its_blocks_in_order() {
    let mut slots = [None; MAX_COORDINATES];
    slots[0] = Some((1, 2));
    slots[3] = Some((64, 2));
    slots[7] = Some((0, 0));
    slots[255] = Some((63, 79));
    let mut expected = [None; MAX_COORDINATES];
    expected[0] = Some(Block { x: 4, y: 2, width: 2, height: 2 });
    expected[7] = Some(Block { x: 0, y: 0, width: 2, height: 2 });
    expected[255] = Some(Block { x: 158, y: 126, width: 2, height: 2 });
    assert_eq!(drawing(&ScreenSignal::Coordinate(slots)), Drawing::Fill(expected));
    assert_eq!(drawing(&batch_signal(&[])), Drawing::Fill([None; MAX_COORDINATES]));
}

#[test]
fn drawing_of_clear_wipes_the_screen() {
    assert_eq!(drawing(&ScreenSignal::Clear), Drawing::Clear);
}

const ASSETS: Assets<'static> = Assets { index: b"<html></html>", stylesheet: b"body{}" };

#[test]
fn paths_name_the_two_files() {
    match path_to_file(&ASSETS, "/") {
        WebServeFile::File(contents, content_type) => {
            assert_eq!(contents, b"<html></html>");
            assert_eq!(content_type, "text/html");
        }
        WebServeFile::NotFound => panic!("the index page is served at /"),
    }
    match path_to_file(&ASSETS, "/css/style.css") {
        WebServeFile::File(contents, content_type) => {
            assert_eq!(contents, b"body{}");
            assert_eq!(content_type, "text/css");
        }
        WebServeFile::NotFound => panic!("the style sheet is served at /css/style.css"),
    }
    assert!(matches!(path_to_file(&ASSETS, ""), WebServeFile::NotFound));
    assert!(matches!(path_to_file(&ASSETS, "/index.html"), WebServeFile::NotFound));
    assert!(matches!(path_to_file(&ASSETS, "/css/"), WebServeFile::NotFound));
}

#[test]
fn static_files_are_served_with_type_and_length() {
    let mut response = ResponseBuffer::<512>::new();
    let body = serve_static(&ASSETS, Some("GET"), Some("/"), &mut response);
    assert_eq!(body, Some(&b"<html></html>"[..]));
    assert_eq!(
        response.buffer(),
        &b"HTTP/1.1 200 OK\r\nContent-Type: text/html\r\nContent-Length: 13\r\n\r\n"[..]
    );

    let mut response = ResponseBuffer::<512>::new();
    let body = serve_static(&ASSETS, Some("GET"), Some("/css/style.css"), &mut response);
    assert_eq!(body, Some(&b"body{}"[..]));
    assert_eq!(
        response.buffer(),
        &b"HTTP/1.1 200 OK\r\nContent-Type: text/css\r\nContent-Length: 6\r\n\r\n"[..]
    );
}

#[test]
fn other_static_requests_are_answered_with_404() {
    for (method, path) in [
        (Some("GET"), Some("/nothing")),
        (Some("POST"), Some("/")),
        (Some("GET"), None),
        (None, Some("/")),
        (None, None),
    ] {
        let mut response = ResponseBuffer::<512>::new();
        assert_eq!(serve_static(&ASSETS, method, path, &mut response), None);
        assert_eq!(response.buffer(), &b"HTTP/1.1 404 Not Found\r\n\r\n"[..]);
    }
}

#[test]
fn connection_runs_through_its_states_in_order() {
    let mut state = ConnectionState::Listening;
    let mut actions = Vec::new();
    for _ in 0..12 {
        actions.push(action(state, CONTROL_LINGER_MS));
        state = step(state, true);
    }
    assert_eq!(
        actions,
        vec![
            Action::Accept,
            Action::Prepare,
            Action::Read,
            Action::Dispatch,
            Action::SendHead,
            Action::SendBody,
            Action::Flush,
            Action::Wait(50),
            Action::Close,
            Action::Wait(50),
            Action::Abort,
            Action::Listen,
        ]
    );
    assert_eq!(state, ConnectionState::Listening);
}

#[test]
fn failures_lead_to_closing_without_a_response() {
    let closing = ConnectionState::Draining(DrainStep::Flush);
    assert_eq!(step(ConnectionState::Listening, false), closing);
    assert_eq!(step(ConnectionState::Reading, false), closing);
    assert_eq!(step(ConnectionState::Dispatched, false), closing);
    assert_eq!(step(ConnectionState::Responding, false), closing);
    assert_eq!(step(ConnectionState::Accepted, false), ConnectionState::Reading);
    assert_eq!(step(ConnectionState::Parsed, false), ConnectionState::Dispatched);
}

#[test]
fn closing_goes_through_all_its_steps_whatever_happens() {
    for ok in [true, false] {
        let mut state = ConnectionState::Draining(DrainStep::Flush);
        let mut actions = Vec::new();
        while state != ConnectionState::Closed {
            actions.push(action(state, STATIC_LINGER_MS));
            state = step(state, ok);
        }
        assert_eq!(
            actions,
            vec![Action::Flush, Action::Wait(500), Action::Close, Action::Wait(500), Action::Abort]
        );
        assert_eq!(step(state, ok), ConnectionState::Listening);
    }
}
