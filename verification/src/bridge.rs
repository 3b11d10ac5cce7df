//! Routing for the localhost bridge that accepts URLs from a browser.
//!
//! The bridge answers a CORS preflight for `/add`, accepts a posted URL
//! on `/add`, and rejects everything else. The socket, the request
//! bodies and the JSON in them belong to the host process; the decision
//! of what to answer is made here.

use vstd::prelude::*;
use vstd::utf8::encode_utf8;
use crate::category::bs;

verus! {

/// The request method, as far as the bridge distinguishes.
pub enum BridgeMethod {
    Options,
    Post,
    Other,
}

/// What to answer, and whether the body carries a URL to accept.
pub struct BridgePlan {
    /// Response status code.
    pub status: u16,
    /// Response body text.
    pub body: String,
    /// Whether to attach the permissive CORS headers.
    pub cors: bool,
    /// Whether to read the request body as an added URL.
    pub accept_url: bool,
}

/// Decide the bridge's answer: a preflight for `/add` gets 204 with CORS
/// headers, a post to `/add` gets 200 `OK` and has its body read, and
/// anything else gets 404 `Not Found`.
pub fn route_bridge(method: BridgeMethod, path: &str) -> (r: BridgePlan)
    ensures
        method is Options && encode_utf8(path@) == bs("/add"@) ==> r.status == 204 && r.body@
            == ""@ && r.cors && !r.accept_url,
        method is Post && encode_utf8(path@) == bs("/add"@) ==> r.status == 200 && r.body@
            == "OK"@ && r.cors && r.accept_url,
        !((method is Options || method is Post) && encode_utf8(path@) == bs("/add"@))
            ==> r.status == 404 && r.body@ == "Not Found"@ && !r.cors && !r.accept_url,
{
    let is_add = crate::category::eq_bytes(path.as_bytes(), "/add".as_bytes());
    match method {
        BridgeMethod::Options => {
            if is_add {
                return BridgePlan { status: 204, body: "".to_owned(), cors: true, accept_url: false };
            }
        },
        BridgeMethod::Post => {
            if is_add {
                return BridgePlan { status: 200, body: "OK".to_owned(), cors: true, accept_url: true };
            }
        },
        BridgeMethod::Other => {},
    }
    BridgePlan { status: 404, body: "Not Found".to_owned(), cors: false, accept_url: false }
}

} // verus!
