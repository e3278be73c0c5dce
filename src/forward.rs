//! The local forwarder's decisions: how an envelope becomes a request to the
//! local origin. Sending it happens outside this crate.
use vstd::prelude::*;

use crate::endpoint::{forward_url, Endpoint};
use crate::envelope::{header_seq, rebuild_version, HttpVersion, RequestMessage};

verus! {

/// A request to replay against the local origin.
#[derive(Clone, Debug)]
pub struct ForwardRequest {
    /// The local origin followed by the envelope's request target.
    pub url: String,
    pub method: String,
    pub version: HttpVersion,
    /// The envelope's headers, in order, duplicates kept.
    pub headers: Vec<(String, String)>,
    /// The body, or `None` for an empty one.
    pub body: Option<Vec<u8>>,
}

/// The request that replays `req` against the local origin `local`: the
/// origin with its path and query replaced by the request target, the same
/// method, headers and body, and the version that the wire code stands for.
/// An envelope whose version code is outside the table gives `None`.
pub fn forward_request(req: RequestMessage, local: &Endpoint) -> (r: Option<ForwardRequest>)
    ensures
        r is Some <==> req.version.recognised(),
        r matches Some(f) ==> {
            &&& f.url@ == local.origin_view() + req.fullpath@
            &&& f.method@ == req.method@
            &&& Some(f.version) == rebuild_version(req.version.0)
            &&& header_seq(f.headers@) == req.header_view()
            &&& req.body@.len() == 0 ==> f.body is None
            &&& req.body@.len() > 0 ==> (f.body matches Some(b) && b@ == req.body@)
        },
{
    let version = match req.version.to_http() {
        Some(v) => v,
        None => return None,
    };
    let url = forward_url(local, req.fullpath.as_str());
    let body = if req.body.len() == 0 {
        None
    } else {
        Some(req.body)
    };
    Some(ForwardRequest { url, method: req.method, version, headers: req.headers, body })
}

} // verus!
