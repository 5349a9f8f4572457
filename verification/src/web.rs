//! The static content port: which file a path names, and the head of the
//! response that serves it.

use crate::buffer::{append_if_fits, ResponseBuffer};
use crate::request::field_bytes;
use crate::response::{
    blank_line_bytes, header_line, status_line, write_blank_line, write_content_length,
    write_header, write_response_status,
};
use crate::text::{decimal, optional_bytes, same_bytes};
use vstd::prelude::*;
use vstd::string::StringSliceAdditionalSpecFns;

verus! {

/// The files that the static content port serves.
#[derive(Clone, Copy)]
pub struct Assets<'a> {
    /// The page served at `/`.
    pub index: &'a [u8],
    /// The style sheet served at `/css/style.css`.
    pub stylesheet: &'a [u8],
}

/// What a path names: a file with its content type, or nothing.
#[derive(Clone, Copy, Debug)]
pub enum WebServeFile<'a> {
    /// The bytes of a file and its content type.
    File(&'a [u8], &'a str),
    /// No such file.
    NotFound,
}

/// What a path names, as bytes and content type.
pub open spec fn file_of(index: Seq<u8>, stylesheet: Seq<u8>, path: Seq<u8>) -> Option<
    (Seq<u8>, Seq<u8>),
> {
    if path == "/".spec_bytes() {
        Some((index, "text/html".spec_bytes()))
    } else if path == "/css/style.css".spec_bytes() {
        Some((stylesheet, "text/css".spec_bytes()))
    } else {
        None
    }
}

/// The view of a served file.
pub open spec fn served(file: WebServeFile<'_>) -> Option<(Seq<u8>, Seq<u8>)> {
    match file {
        WebServeFile::File(contents, content_type) => Some((contents@, content_type.spec_bytes())),
        WebServeFile::NotFound => None,
    }
}

/// The file that `path` names, by literal match.
pub fn path_to_file<'a>(assets: &Assets<'a>, path: &str) -> (r: WebServeFile<'a>)
    ensures
        served(r) == file_of(assets.index@, assets.stylesheet@, path.spec_bytes()),
{
    if same_bytes(path.as_bytes(), "/".as_bytes()) {
        WebServeFile::File(assets.index, "text/html")
    } else if same_bytes(path.as_bytes(), "/css/style.css".as_bytes()) {
        WebServeFile::File(assets.stylesheet, "text/css")
    } else {
        WebServeFile::NotFound
    }
}

/// The file that a request is answered with: the one its path names, for
/// a `GET` with a path.
pub open spec fn requested_file(
    index: Seq<u8>,
    stylesheet: Seq<u8>,
    method: Option<Seq<u8>>,
    path: Option<Seq<u8>>,
) -> Option<(Seq<u8>, Seq<u8>)> {
    if method == Some("GET".spec_bytes()) && path is Some {
        file_of(index, stylesheet, path->0)
    } else {
        None
    }
}

/// The head of the response of the static content port: for a file, status
/// 200 with its type and length; otherwise status 404. Each line is appended
/// if it fits.
pub open spec fn static_response(held: Seq<u8>, capacity: nat, file: Option<(Seq<u8>, Seq<u8>)>) -> Seq<
    u8,
> {
    match file {
        Some((contents, content_type)) => {
            let with_status = append_if_fits(held, capacity, status_line(200));
            let with_type = append_if_fits(
                with_status,
                capacity,
                header_line("Content-Type".spec_bytes(), content_type),
            );
            let with_length = append_if_fits(
                with_type,
                capacity,
                header_line("Content-Length".spec_bytes(), decimal(contents.len())),
            );
            append_if_fits(with_length, capacity, blank_line_bytes())
        },
        None => append_if_fits(
            append_if_fits(held, capacity, status_line(404)),
            capacity,
            blank_line_bytes(),
        ),
    }
}

/// Appends the head of the response to a request of the static content
/// port and returns the bytes of the file to send after it, if the request
/// names one.
pub fn serve_static<'a, const S: usize>(
    assets: &Assets<'a>,
    method: Option<&str>,
    path: Option<&str>,
    response: &mut ResponseBuffer<S>,
) -> (body: Option<&'a [u8]>)
    ensures
        final(response)@ == static_response(
            old(response)@,
            S as nat,
            requested_file(
                assets.index@,
                assets.stylesheet@,
                field_bytes(method),
                field_bytes(path),
            ),
        ),
        optional_bytes(body) == match requested_file(
            assets.index@,
            assets.stylesheet@,
            field_bytes(method),
            field_bytes(path),
        ) {
            Some((contents, _)) => Some(contents),
            None => None,
        },
{
    let file = match (method, path) {
        (Some(method), Some(path)) => if same_bytes(method.as_bytes(), "GET".as_bytes()) {
            path_to_file(assets, path)
        } else {
            WebServeFile::NotFound
        },
        _ => WebServeFile::NotFound,
    };
    match file {
        WebServeFile::File(contents, content_type) => {
            let _ = write_response_status(response, 200);
            let _ = write_header(response, "Content-Type", content_type);
            let _ = write_content_length(response, contents.len());
            let _ = write_blank_line(response);
            Some(contents)
        },
        WebServeFile::NotFound => {
            let _ = write_response_status(response, 404);
            let _ = write_blank_line(response);
            None
        },
    }
}

} // verus!
