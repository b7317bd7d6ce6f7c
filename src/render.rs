use crate::request::{append, strings_view};
use colored::Colorize;
use syntect::easy::HighlightLines;
use syntect::highlighting::ThemeSet;
use syntect::parsing::SyntaxSet;
use syntect::util::{as_24_bit_terminal_escaped, LinesWithEndings};
use vstd::prelude::*;

verus! {

/// How a response body is shown, chosen by its declared content type.
#[derive(Debug, Clone, Copy, PartialEq, Eq, Structural)]
pub enum BodyKind {
    /// `application/json`: syntax-highlighted, line by line.
    Highlighted,
    /// Any other content type: the text as a quoted, escaped string.
    Quoted,
    /// No content type at all: the text as it is.
    Raw,
}

/// Why a response could not be rendered.
#[derive(Debug, Clone)]
pub enum RenderError {
    /// The `Content-Type` header holds no valid MIME type; it carries the
    /// header's text.
    InvalidContentType(String),
}

/// The text of the MIME type that `mime` parses from a header value, if any.
pub uninterp spec fn mime_text_of(s: Seq<char>) -> Option<Seq<char>>;

/// The lines that the highlighter makes of a JSON text: each one coloured
/// with terminal escape codes.
pub uninterp spec fn highlighted_lines_of(s: Seq<char>) -> Seq<Seq<char>>;

/// The quoted, escaped form of a text (`{:?}` of a `str`).
pub uninterp spec fn debug_quoted_of(s: Seq<char>) -> Seq<char>;

/// Relies on `<mime::Mime as FromStr>::from_str` and `Mime::as_ref`: the
/// parsed MIME type's text, or `None` where the value is no MIME type.
#[verifier::external_body]
fn parse_mime(s: &str) -> (r: Option<String>)
    ensures
        r is None <==> mime_text_of(s@) is None,
        r matches Some(m) ==> mime_text_of(s@) == Some(m@),
{
    s.parse::<mime::Mime>().ok().map(|m| m.as_ref().to_string())
}

/// Relies on syntect: highlights the text line by line (lines keep their
/// endings) with the bundled grammar for `rs` and the bundled
/// `base16-eighties.dark` theme, and escapes each line for a 24-bit terminal.
/// Both are part of syntect's default sets, so the lookups cannot fail.
#[verifier::external_body]
fn highlight_text(text: &str) -> (r: Vec<String>)
    ensures
        strings_view(r@) == highlighted_lines_of(text@),
{
    let ps = SyntaxSet::load_defaults_newlines();
    let ts = ThemeSet::load_defaults();
    let syntax = ps.find_syntax_by_extension("rs").unwrap();
    let mut h = HighlightLines::new(syntax, &ts.themes["base16-eighties.dark"]);
    LinesWithEndings::from(text).map(|line| as_24_bit_terminal_escaped(&h.highlight(line, &ps)[..], true)).collect()
}

/// Relies on `<str as Debug>::fmt`: the text between double quotes, with
/// quotes, backslashes and control characters escaped.
#[verifier::external_body]
fn debug_quoted(s: &str) -> (r: String)
    ensures
        r@ == debug_quoted_of(s@),
        r@.len() >= 2,
        r@[0] == '"',
        r@.last() == '"',
{
    format!("{:?}", s)
}

/// Relies on colored's `red`: the text in red where the terminal and the
/// environment allow colour, else the text alone.
#[verifier::external_body]
fn paint_red(s: &str) -> (r: String) {
    s.red().to_string()
}

/// Relies on colored's `green`: the text in green where the terminal and the
/// environment allow colour, else the text alone.
#[verifier::external_body]
fn paint_green(s: &str) -> (r: String) {
    s.green().to_string()
}

/// The body kind for a header whose value parsed to `parsed`.
pub open spec fn kind_for_parsed(header: Seq<char>, parsed: Option<Seq<char>>) -> Result<
    BodyKind,
    Seq<char>,
> {
    match parsed {
        None => Err(header),
        Some(m) => if m == "application/json"@ {
            Ok(BodyKind::Highlighted)
        } else {
            Ok(BodyKind::Quoted)
        },
    }
}

pub open spec fn kind_view(r: Result<BodyKind, RenderError>) -> Result<BodyKind, Seq<char>> {
    match r {
        Ok(k) => Ok(k),
        Err(RenderError::InvalidContentType(h)) => Err(h@),
    }
}

/// Chooses how to show the body from a `Content-Type` header value and what
/// `mime` made of it: exactly `application/json` is highlighted, any other
/// MIME type is quoted, and a value that is no MIME type is an error.
pub fn kind_for_mime(header: &str, parsed: Option<String>) -> (r: Result<BodyKind, RenderError>)
    ensures
        kind_view(r) == kind_for_parsed(
            header@,
            match parsed {
                Some(m) => Some(m@),
                None => None,
            },
        ),
{
    match parsed {
        None => Err(RenderError::InvalidContentType(header.to_string())),
        Some(m) => {
            let json = "application/json".to_string();
            if m == json {
                Ok(BodyKind::Highlighted)
            } else {
                Ok(BodyKind::Quoted)
            }
        },
    }
}

/// Chooses how to show the body from the response's `Content-Type` header,
/// `None` where it has none.
pub fn body_kind(content_type: Option<&str>) -> (r: Result<BodyKind, RenderError>)
    ensures
        content_type is None ==> r == Ok::<BodyKind, RenderError>(BodyKind::Raw),
        content_type matches Some(h) ==> kind_view(r) == kind_for_parsed(h@, mime_text_of(h@)),
{
    match content_type {
        None => Ok(BodyKind::Raw),
        Some(h) => kind_for_mime(h, parse_mime(h)),
    }
}

/// The sequence that resets the terminal's style.
pub open spec fn reset_code() -> Seq<char> {
    "\x1b[0m"@
}

/// The lines printed for a body of the given kind.
pub open spec fn body_lines_of(kind: BodyKind, body: Seq<char>) -> Seq<Seq<char>> {
    match kind {
        BodyKind::Highlighted => highlighted_lines_of(body).push(reset_code()),
        BodyKind::Quoted => seq![debug_quoted_of(body)],
        BodyKind::Raw => seq![body],
    }
}

/// The lines to print for the body text, each to be followed by a newline.
pub fn body_lines(kind: BodyKind, body: &str) -> (r: Vec<String>)
    ensures
        strings_view(r@) == body_lines_of(kind, body@),
{
    match kind {
        BodyKind::Highlighted => {
            let mut lines = highlight_text(body);
            let ghost before = lines@;
            lines.push("\x1b[0m".to_string());
            assert(strings_view(lines@) =~= strings_view(before).push(reset_code()));
            lines
        },
        BodyKind::Quoted => {
            let q = debug_quoted(body);
            let lines = vec![q];
            assert(strings_view(lines@) =~= seq![debug_quoted_of(body@)]);
            lines
        },
        BodyKind::Raw => {
            let lines = vec![body.to_string()];
            assert(strings_view(lines@) =~= seq![body@]);
            lines
        },
    }
}

/// The status line for a protocol version and an already styled status:
/// both, a space between them, and an empty line after.
pub fn status_line_with(version: &str, painted_status: &str) -> (r: String)
    ensures
        r@ == version@ + seq![' '] + painted_status@ + seq!['\n'],
{
    let mut line = version.to_string();
    append(&mut line, " ");
    append(&mut line, painted_status);
    append(&mut line, "\n");
    proof {
        reveal_strlit(" ");
        reveal_strlit("\n");
    }
    line
}

/// The status line, with the status in red where the terminal allows it.
pub fn status_line(version: &str, status: &str) -> (r: String)
    ensures
        exists|p: Seq<char>| r@ == version@ + seq![' '] + p + seq!['\n'],
{
    let painted = paint_red(status);
    status_line_with(version, &painted)
}

/// A header line for an already styled name and the value as shown.
pub fn header_line_with(painted_name: &str, shown_value: &str) -> (r: String)
    ensures
        r@ == painted_name@ + seq![':', ' '] + shown_value@,
{
    let mut line = painted_name.to_string();
    append(&mut line, ": ");
    append(&mut line, shown_value);
    proof {
        reveal_strlit(": ");
    }
    line
}

/// A header line, with the name in green where the terminal allows it.
pub fn header_line(name: &str, shown_value: &str) -> (r: String)
    ensures
        exists|p: Seq<char>| r@ == p + seq![':', ' '] + shown_value@,
{
    let painted = paint_green(name);
    header_line_with(&painted, shown_value)
}

} // verus!
