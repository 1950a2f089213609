//! What the HTTP surface decides for the engine: which endpoint a path names,
//! and the status and text of each kind of answer.

use crate::error::MultihookResult;
use vstd::prelude::*;

verus! {

pub const STATUS_OK: u16 = 200;

pub const STATUS_NOT_FOUND: u16 = 404;

pub const STATUS_METHOD_NOT_ALLOWED: u16 = 405;

pub const STATUS_SERVER_ERROR: u16 = 500;

/// The route key that a request path names: the path without its leading `/`.
pub open spec fn route_key_spec(path: Seq<char>) -> Seq<char> {
    if path.len() > 0 && path[0] == '/' {
        path.skip(1)
    } else {
        path
    }
}

pub fn route_key(path: &str) -> (r: String)
    ensures
        r@ == route_key_spec(path@),
{
    let n = path.unicode_len();
    if n > 0 && path.get_char(0) == '/' {
        String::from_str(path.substring_char(1, n))
    } else {
        String::from_str(path)
    }
}

/// The text of the answer to a request whose hook ran (or, detached, was launched).
pub fn executed_message(point: &str) -> (r: String)
    ensures
        r@ == "Hook '"@ + point@ + "' executed."@,
{
    String::from_str("Hook '").concat(point).concat("' executed.")
}

/// The status of the answer to a request that reached an endpoint: success or
/// a server error; a failed signature check is a server error too.
pub fn status_for(result: &MultihookResult<()>) -> (r: u16)
    ensures
        result is Ok ==> r == STATUS_OK,
        result is Err ==> r == STATUS_SERVER_ERROR,
{
    match result {
        Ok(()) => STATUS_OK,
        Err(_) => STATUS_SERVER_ERROR,
    }
}

} // verus!
