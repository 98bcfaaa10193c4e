//! A pool of free proxies: the rules by which proxy-list pages are read, the
//! way proxies are checked, kept and served from Redis, and the schedule of
//! the background crawl and verification.
pub mod cache;
pub mod crawling;
pub mod glob;
pub mod html;
pub mod ip_cache;
pub mod model;
pub mod task;
pub mod text;

pub use cache::LiveKeyCache;

use vstd::prelude::*;

verus! {

/// The current time in milliseconds since the Unix epoch
/// (`SystemTime::now().duration_since(UNIX_EPOCH)`, as `u64`); 0 should the
/// clock stand before the epoch. Nothing is stated of the value.
#[verifier::external_body]
pub fn now_millis() -> u64 {
    match std::time::SystemTime::now().duration_since(std::time::UNIX_EPOCH) {
        Ok(d) => d.as_millis() as u64,
        Err(_) => 0,
    }
}

/// The body of every answer of the HTTP service: `code` 0 with `data` on
/// success, or an error code and message without data.
pub struct Resp<T> {
    pub code: i32,
    pub msg: String,
    pub data: Option<T>,
}

impl<T> Resp<T> {
    /// A successful answer carrying `data`.
    pub fn success(data: T) -> (r: Self)
        ensures
            r.code == 0,
            r.msg@.len() == 0,
            r.data == Some(data),
    {
        Resp { code: 0, msg: String::new(), data: Some(data) }
    }

    /// An error answer with `code` and `msg`.
    pub fn error(code: i32, msg: &str) -> (r: Self)
        ensures
            r.code == code,
            r.msg@ == msg@,
            r.data is None,
    {
        Resp { code, msg: String::from_str(msg), data: None }
    }
}

} // verus!
pub mod laws;
