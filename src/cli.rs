use crate::request::{
    body_map, build_body, entries_are, entries_view, pairs_view, UrlKV,
};
use vstd::prelude::*;

verus! {

/// The parsed command line.
#[derive(Debug, Clone)]
pub struct Opts {
    /// Print debug information.
    pub debug: bool,
    /// The request to fire.
    pub sub_cmd: SubCmd,
}

/// The two commands.
#[derive(Debug, Clone)]
pub enum SubCmd {
    Get(Get),
    Post(Post),
}

/// Fire a GET request at a URL.
#[derive(Debug, Clone)]
pub struct Get {
    pub url: String,
}

/// Fire a POST request at a URL, with a JSON body built from `key=value`
/// pairs.
#[derive(Debug, Clone)]
pub struct Post {
    pub url: String,
    pub body: Vec<UrlKV>,
}

/// The outbound request: a GET carries no body, a POST carries the body's
/// entries, each key once.
#[derive(Debug, Clone)]
pub enum Request {
    Get { url: String },
    Post { url: String, body: Vec<(String, String)> },
}

/// Turns a command into the request it fires: the URL is kept, and a POST's
/// pairs become its body, the last pair winning for a repeated key.
pub fn build_request(cmd: &SubCmd) -> (r: Request)
    ensures
        cmd matches SubCmd::Get(g) ==> r matches Request::Get { url } && url@ == g.url@,
        cmd matches SubCmd::Post(p) ==> r matches Request::Post { url, body } && url@ == p.url@
            && entries_are(entries_view(body@), body_map(pairs_view(p.body@))),
{
    match cmd {
        SubCmd::Get(g) => Request::Get { url: g.url.clone() },
        SubCmd::Post(p) => Request::Post { url: p.url.clone(), body: build_body(&p.body) },
    }
}

} // verus!
