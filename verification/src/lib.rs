//! The logic of a small drawing device that is driven over an HTTP-like
//! control port and mirrors what it is told onto a local display.
//!
//! - [`buffer`]: fixed-capacity buffers to receive into and compose in.
//! - [`reader`]: reading a request until the end of its headers.
//! - [`request`]: parsing a request out of a buffer in one pass.
//! - [`response`]: composing status line and headers.
//! - [`grid`]: the grid of drawn cells.
//! - [`backend`]: the control port, from request to grid, response and update.
//! - [`web`]: the static content port.
//! - [`signal`]: the update for the renderer and the slot it travels through.
//! - [`screen`]: what the renderer draws for an update.
//! - [`connection`]: the life of a connection from accept to abort.
//! - [`json`]: JSON coordinate lists, through `serde_json_core`.
//! - [`text`]: searching, splitting and trimming byte text.
//!
//! Nothing here touches a socket, a timer or a display: the callers do, and
//! hand over plain bytes and outcomes.

pub mod backend;
pub mod buffer;
pub mod connection;
pub mod grid;
pub mod json;
pub mod reader;
pub mod request;
pub mod response;
pub mod screen;
pub mod signal;
pub mod text;
pub mod web;

pub use grid::Coordinates;
pub use request::Request;
pub use response::{write_response_headers, write_response_status};
pub use signal::ScreenSignal;
