//! A minimal HTTP/1.0 server library: request framing and parsing, a typed header model,
//! response serialization, request handling, and the decisions of connection dispatch and of
//! the worker pool's job queue.
use vstd::prelude::*;

pub mod decimal;
pub mod file;
pub mod http10;
pub mod http_server;
pub mod middleware;
pub mod text;
pub mod threadpool;
pub mod util;

verus! {

/// Process-wide server settings, read-only once the server starts.
#[derive(Debug, PartialEq)]
pub struct Opts {
    /// port to bind to
    pub port: u16,
    /// address to bind to
    pub bind: String,
    /// directory to serve
    pub directory: String,
    /// protocol written in status lines
    pub protocol: String,
    /// credentials for basic authentication, if it is required
    pub auth: Option<Auth>,
    /// compression level for gzip and deflate (0-9)
    pub ratio: u32,
}

/// Credentials that basic authentication accepts.
#[derive(Debug, PartialEq)]
pub struct Auth {
    pub username: String,
    pub password: String,
}

impl Default for Opts {
    fn default() -> (r: Opts)
        ensures
            r.port == 8080,
            r.bind@ == "127.0.0.1"@,
            r.directory@ == "./"@,
            r.protocol@ == "HTTP/1.0"@,
            r.auth is None,
            r.ratio == 6,
    {
        Opts {
            port: 8080,
            bind: String::from_str("127.0.0.1"),
            directory: String::from_str("./"),
            protocol: String::from_str("HTTP/1.0"),
            auth: None,
            ratio: 6,
        }
    }
}

} // verus!
