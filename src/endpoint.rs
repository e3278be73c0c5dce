//! The two origins a client works with: the remote relay server, reached
//! over WebSocket, and the local origin that receives the forwarded requests.
use vstd::prelude::*;

use crate::text::{concat3, str_eq};

verus! {

/// A URL of a special scheme, as the parts that the relay reads and writes:
/// `scheme://authority path[?query]`.
#[derive(Clone, Debug)]
pub struct Endpoint {
    /// The scheme, in lower case.
    pub scheme: String,
    /// The user information, host and port.
    pub authority: String,
    /// The path, beginning with `/`.
    pub path: String,
    /// The query, without its `?`.
    pub query: Option<String>,
}

/// The path that the relay server serves its WebSocket endpoint on.
pub const SUBSCRIBE_PATH: &'static str = "/__hookhub__/";

/// Why a URL was refused.
#[derive(Clone, Copy, Debug, PartialEq, Eq, Structural)]
pub enum UrlError {
    /// The remote URL's scheme is neither `ws` nor `wss`.
    RemoteScheme,
    /// The local URL's scheme is neither `http` nor `https`.
    LocalScheme,
}

impl UrlError {
    /// The diagnostic of the refusal.
    pub fn message(&self) -> (r: String)
        ensures
            r@ == match self {
                UrlError::RemoteScheme => "remote must use ws or wss scheme"@,
                UrlError::LocalScheme => "local must use http or https scheme"@,
            },
    {
        match self {
            UrlError::RemoteScheme => String::from_str("remote must use ws or wss scheme"),
            UrlError::LocalScheme => String::from_str("local must use http or https scheme"),
        }
    }
}

/// A WebSocket scheme.
pub open spec fn is_ws_scheme(s: Seq<char>) -> bool {
    s == "ws"@ || s == "wss"@
}

/// An HTTP scheme.
pub open spec fn is_http_scheme(s: Seq<char>) -> bool {
    s == "http"@ || s == "https"@
}

impl Endpoint {
    /// Everything before the path: `scheme://authority`.
    pub open spec fn origin_view(&self) -> Seq<char> {
        self.scheme@ + "://"@ + self.authority@
    }

    /// The whole URL as text.
    pub open spec fn view_text(&self) -> Seq<char> {
        match self.query {
            Some(q) => self.origin_view() + self.path@ + "?"@ + q@,
            None => self.origin_view() + self.path@,
        }
    }

    /// A copy of the URL.
    pub fn duplicate(&self) -> (r: Endpoint)
        ensures
            r == *self,
    {
        let query = match &self.query {
            Some(q) => Some(q.clone()),
            None => None,
        };
        Endpoint {
            scheme: self.scheme.clone(),
            authority: self.authority.clone(),
            path: self.path.clone(),
            query,
        }
    }

    /// Everything before the path: `scheme://authority`.
    pub fn origin(&self) -> (r: String)
        ensures
            r@ == self.origin_view(),
    {
        concat3(self.scheme.as_str(), "://", self.authority.as_str())
    }

    /// The whole URL as text.
    pub fn as_text(&self) -> (r: String)
        ensures
            r@ == self.view_text(),
    {
        let mut s = self.origin();
        s.append(self.path.as_str());
        match &self.query {
            Some(q) => {
                s.append("?");
                s.append(q.as_str());
            },
            None => {},
        }
        s
    }
}

/// The URL that a forwarded request is sent to: the local origin with its
/// path and query replaced by the envelope's request target, verbatim.
pub fn forward_url(local: &Endpoint, fullpath: &str) -> (r: String)
    ensures
        r@ == local.origin_view() + fullpath@,
{
    let mut s = local.origin();
    s.append(fullpath);
    s
}

fn is_ws_scheme_exec(s: &str) -> (r: bool)
    ensures
        r == is_ws_scheme(s@),
{
    str_eq(s, "ws") || str_eq(s, "wss")
}

fn is_http_scheme_exec(s: &str) -> (r: bool)
    ensures
        r == is_http_scheme(s@),
{
    str_eq(s, "http") || str_eq(s, "https")
}

/// Readies the remote URL: its scheme must be `ws` or `wss`, and its path is
/// set to the WebSocket endpoint's. A refused URL is left as it was.
pub fn prepare_remote_url(remote: &mut Endpoint) -> (r: Result<(), UrlError>)
    ensures
        !is_ws_scheme(old(remote).scheme@) ==> r == Err::<(), UrlError>(UrlError::RemoteScheme)
            && *final(remote) == *old(remote),
        is_ws_scheme(old(remote).scheme@) ==> r is Ok && final(remote).path@ == SUBSCRIBE_PATH@
            && final(remote).scheme == old(remote).scheme && final(remote).authority == old(
            remote,
        ).authority && final(remote).query == old(remote).query,
{
    if !is_ws_scheme_exec(remote.scheme.as_str()) {
        return Err(UrlError::RemoteScheme);
    }
    remote.path = String::from_str(SUBSCRIBE_PATH);
    Ok(())
}

/// Readies the local URL: its scheme must be `http` or `https`, and its path
/// is set to `/`. A refused URL is left as it was.
pub fn prepare_local_url(local: &mut Endpoint) -> (r: Result<(), UrlError>)
    ensures
        !is_http_scheme(old(local).scheme@) ==> r == Err::<(), UrlError>(UrlError::LocalScheme)
            && *final(local) == *old(local),
        is_http_scheme(old(local).scheme@) ==> r is Ok && final(local).path@ == "/"@
            && final(local).scheme == old(local).scheme && final(local).authority == old(
            local,
        ).authority && final(local).query == old(local).query,
{
    if !is_http_scheme_exec(local.scheme.as_str()) {
        return Err(UrlError::LocalScheme);
    }
    local.path = String::from_str("/");
    Ok(())
}

} // verus!
