//! A small HTTP command-line client: building a request from command
//! arguments and rendering the response for a terminal.



mod cli;
mod render;
mod request;





pub use cli::{build_request, Get, Opts, Post, Request, SubCmd};
pub use render::{
    body_kind, body_lines, header_line, header_line_with, kind_for_mime, status_line,
    status_line_with, BodyKind, RenderError,
};
pub use request::{build_body, parse_url, parse_url_param, ParseError, UrlKV};
