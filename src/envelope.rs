//! The request envelope: the one entity that travels from server to client.
use vstd::prelude::*;

verus! {

/// The HTTP protocol versions that the relay distinguishes.
#[derive(Clone, Copy, Debug, PartialEq, Eq, Structural)]
pub enum HttpVersion {
    Http09,
    Http10,
    Http11,
    Http2,
    Http3,
}

/// The wire code of an HTTP version, as carried in an envelope.
#[derive(Clone, Copy, Debug, PartialEq, Eq, Structural)]
pub struct Version(pub u32);

/// The code that a captured request of version `v` is given.
/// HTTP/1.1 and HTTP/2 share code 2; code 4 is never produced.
pub open spec fn capture_code(v: HttpVersion) -> u32 {
    match v {
        HttpVersion::Http09 => 0,
        HttpVersion::Http10 => 1,
        HttpVersion::Http11 => 2,
        HttpVersion::Http2 => 2,
        HttpVersion::Http3 => 3,
    }
}

/// The version that a forwarded request is given for wire code `code`,
/// or `None` for a code outside the table.
pub open spec fn rebuild_version(code: u32) -> Option<HttpVersion> {
    if code == 0 {
        Some(HttpVersion::Http09)
    } else if code == 1 {
        Some(HttpVersion::Http10)
    } else if code == 2 {
        Some(HttpVersion::Http11)
    } else if code == 3 {
        Some(HttpVersion::Http2)
    } else if code == 4 {
        Some(HttpVersion::Http3)
    } else {
        None
    }
}

impl From<HttpVersion> for Version {
    fn from(v: HttpVersion) -> (r: Version)
        ensures
            r.0 == capture_code(v),
    {
        match v {
            HttpVersion::Http09 => Version(0),
            HttpVersion::Http10 => Version(1),
            HttpVersion::Http11 => Version(2),
            HttpVersion::Http2 => Version(2),
            HttpVersion::Http3 => Version(3),
        }
    }
}

impl vstd::std_specs::convert::FromSpecImpl<HttpVersion> for Version {
    open spec fn obeys_from_spec() -> bool {
        true
    }

    open spec fn from_spec(v: HttpVersion) -> Version {
        Version(capture_code(v))
    }
}

impl Version {
    /// Whether the code is one of the table's five.
    pub open spec fn recognised(self) -> bool {
        self.0 <= 4
    }

    /// The HTTP version to forward a request with, `None` for an
    /// unrecognised code.
    pub fn to_http(&self) -> (r: Option<HttpVersion>)
        ensures
            r == rebuild_version(self.0),
            r is Some <==> self.recognised(),
    {
        match self.0 {
            0 => Some(HttpVersion::Http09),
            1 => Some(HttpVersion::Http10),
            2 => Some(HttpVersion::Http11),
            3 => Some(HttpVersion::Http2),
            4 => Some(HttpVersion::Http3),
            _ => None,
        }
    }
}

/// Capturing a version and forwarding it again keeps HTTP/0.9, 1.0 and 1.1,
/// turns HTTP/2 into HTTP/1.1 and HTTP/3 into HTTP/2.
pub proof fn lemma_version_capture_then_rebuild(v: HttpVersion)
    ensures
        rebuild_version(capture_code(v)) == Some(match v {
            HttpVersion::Http2 => HttpVersion::Http11,
            HttpVersion::Http3 => HttpVersion::Http2,
            _ => v,
        }),
{
}

/// A captured HTTP request, as it travels from server to client.
#[derive(Clone, Debug)]
pub struct RequestMessage {
    pub method: String,
    pub fullpath: String,
    pub version: Version,
    pub headers: Vec<(String, String)>,
    pub body: Vec<u8>,
}

/// Header pairs as pairs of character sequences.
pub open spec fn header_seq(headers: Seq<(String, String)>) -> Seq<(Seq<char>, Seq<char>)> {
    headers.map_values(|h: (String, String)| (h.0@, h.1@))
}

/// A character of an HTTP token (RFC 9110 `tchar`).
pub open spec fn is_token_char(c: char) -> bool {
    ('a' <= c && c <= 'z') || ('A' <= c && c <= 'Z') || ('0' <= c && c <= '9') || c == '!'
        || c == '#' || c == '$' || c == '%' || c == '&' || c == '\'' || c == '*' || c == '+'
        || c == '-' || c == '.' || c == '^' || c == '_' || c == '`' || c == '|' || c == '~'
}

/// A method is a non-empty token.
pub open spec fn is_method(s: Seq<char>) -> bool {
    s.len() > 0 && forall|i: int| 0 <= i < s.len() ==> is_token_char(#[trigger] s[i])
}

/// A request target in origin form: it begins with `/`.
pub open spec fn is_fullpath(s: Seq<char>) -> bool {
    s.len() > 0 && s[0] == '/'
}

/// `c` is `t`, or an ASCII upper case letter whose lower case is `t`.
pub open spec fn char_lowers_to(c: char, t: char) -> bool {
    c == t || ('A' <= c && c <= 'Z' && c as u32 + 32 == t as u32)
}

/// `s` made ASCII lower case is `t`.
pub open spec fn lowers_to(s: Seq<char>, t: Seq<char>) -> bool {
    s.len() == t.len() && forall|i: int| 0 <= i < s.len() ==> char_lowers_to(#[trigger] s[i], t[i])
}

/// The header names that capture strips: `host`, `origin` and `connection`,
/// in any ASCII letter case.
pub open spec fn is_stripped_name(name: Seq<char>) -> bool {
    lowers_to(name, seq!['h', 'o', 's', 't']) || lowers_to(name, seq!['o', 'r', 'i', 'g', 'i', 'n'])
        || lowers_to(name, seq!['c', 'o', 'n', 'n', 'e', 'c', 't', 'i', 'o', 'n'])
}

/// Whether a header pair is kept by capture.
pub open spec fn keeps_header(h: (Seq<char>, Seq<char>)) -> bool {
    !is_stripped_name(h.0)
}

/// The headers that a captured envelope carries: those given, in order, with
/// duplicates, without the stripped names.
pub open spec fn captured_headers(headers: Seq<(Seq<char>, Seq<char>)>) -> Seq<(Seq<char>, Seq<char>)> {
    headers.filter(|h: (Seq<char>, Seq<char>)| keeps_header(h))
}

impl RequestMessage {
    pub open spec fn header_view(&self) -> Seq<(Seq<char>, Seq<char>)> {
        header_seq(self.headers@)
    }

    /// The invariants of an envelope.
    pub open spec fn wf(&self) -> bool {
        &&& is_method(self.method@)
        &&& is_fullpath(self.fullpath@)
        &&& self.version.recognised()
        &&& forall|i: int|
            0 <= i < self.headers@.len() ==> !is_stripped_name(#[trigger] self.headers@[i].0@)
    }
}

/// Why a request could not be captured.
#[derive(Clone, Copy, Debug, PartialEq, Eq, Structural)]
pub enum CaptureError {
    /// The method is not a non-empty token.
    InvalidMethod,
    /// The request target does not begin with `/`.
    InvalidTarget,
}

fn lowers_to_exec(s: &str, t: &str) -> (r: bool)
    ensures
        r == lowers_to(s@, t@),
{
    let n = s.unicode_len();
    if n != t.unicode_len() {
        return false;
    }
    let mut i: usize = 0;
    while i < n
        invariant
            n == s@.len(),
            n == t@.len(),
            i <= n,
            forall|j: int| 0 <= j < i ==> char_lowers_to(#[trigger] s@[j], t@[j]),
        decreases n - i,
    {
        let c = s.get_char(i);
        let d = t.get_char(i);
        if !(c == d || ('A' <= c && c <= 'Z' && c as u32 + 32 == d as u32)) {
            return false;
        }
        i = i + 1;
    }
    true
}

/// Whether capture strips a header of this name.
pub fn is_stripped_header(name: &str) -> (r: bool)
    ensures
        r == is_stripped_name(name@),
{
    proof {
        reveal_strlit("host");
        reveal_strlit("origin");
        reveal_strlit("connection");
    }
    lowers_to_exec(name, "host") || lowers_to_exec(name, "origin") || lowers_to_exec(
        name,
        "connection",
    )
}

/// The headers that a captured envelope carries: every pair whose name is not
/// stripped, in the order given, duplicates kept.
pub fn filter_headers(headers: &Vec<(String, String)>) -> (r: Vec<(String, String)>)
    ensures
        header_seq(r@) == captured_headers(header_seq(headers@)),
{
    let mut out: Vec<(String, String)> = Vec::new();
    let mut i: usize = 0;
    while i < headers.len()
        invariant
            i <= headers@.len(),
            header_seq(out@) == captured_headers(header_seq(headers@.take(i as int))),
        decreases headers@.len() - i,
    {
        let ghost before = header_seq(headers@.take(i as int));
        proof {
            assert(header_seq(headers@.take(i + 1)) =~= before.push(
                (headers@[i as int].0@, headers@[i as int].1@),
            ));
            before.lemma_filter_push(
                (headers@[i as int].0@, headers@[i as int].1@),
                |h: (Seq<char>, Seq<char>)| keeps_header(h),
            );
        }
        let h = &headers[i];
        if !is_stripped_header(h.0.as_str()) {
            let ghost prev = out@;
            out.push((h.0.clone(), h.1.clone()));
            proof {
                assert(header_seq(out@) =~= header_seq(prev).push((h.0@, h.1@)));
            }
        }
        i = i + 1;
    }
    proof {
        assert(headers@.take(headers@.len() as int) =~= headers@);
    }
    out
}

/// Whether `s` is a non-empty token.
pub fn is_method_str(s: &str) -> (r: bool)
    ensures
        r == is_method(s@),
{
    let n = s.unicode_len();
    if n == 0 {
        return false;
    }
    let mut i: usize = 0;
    while i < n
        invariant
            n == s@.len(),
            i <= n,
            forall|j: int| 0 <= j < i ==> is_token_char(#[trigger] s@[j]),
        decreases n - i,
    {
        let c = s.get_char(i);
        let ok = ('a' <= c && c <= 'z') || ('A' <= c && c <= 'Z') || ('0' <= c && c <= '9') || c
            == '!' || c == '#' || c == '$' || c == '%' || c == '&' || c == '\'' || c == '*' || c
            == '+' || c == '-' || c == '.' || c == '^' || c == '_' || c == '`' || c == '|' || c
            == '~';
        if !ok {
            return false;
        }
        i = i + 1;
    }
    true
}

/// Whether `s` begins with `/`.
pub fn is_fullpath_str(s: &str) -> (r: bool)
    ensures
        r == is_fullpath(s@),
{
    s.unicode_len() > 0 && s.get_char(0) == '/'
}

/// The elements of the captured headers are exactly the given ones that are
/// kept, and none of them has a stripped name.
pub proof fn lemma_captured_headers(headers: Seq<(Seq<char>, Seq<char>)>)
    ensures
        forall|i: int|
            0 <= i < captured_headers(headers).len() ==> !is_stripped_name(
                #[trigger] captured_headers(headers)[i].0,
            ),
        forall|h: (Seq<char>, Seq<char>)|
            #[trigger] captured_headers(headers).contains(h) <==> headers.contains(h) && !is_stripped_name(h.0),
        captured_headers(headers).len() <= headers.len(),
{
    let p = |h: (Seq<char>, Seq<char>)| keeps_header(h);
    assert forall|i: int| 0 <= i < captured_headers(headers).len() implies !is_stripped_name(
        #[trigger] captured_headers(headers)[i].0,
    ) by {
        headers.lemma_filter_pred(p, i);
    }
    assert forall|h: (Seq<char>, Seq<char>)| #[trigger]
        captured_headers(headers).contains(h) <==> headers.contains(h) && !is_stripped_name(h.0) by {
        if headers.contains(h) && !is_stripped_name(h.0) {
            let j = choose|j: int| 0 <= j < headers.len() && headers[j] == h;
            headers.lemma_filter_contains(p, j);
        }
        if captured_headers(headers).contains(h) {
            headers.lemma_filter_contains_rev(p, h);
            let i = choose|i: int|
                0 <= i < captured_headers(headers).len() && captured_headers(headers)[i] == h;
            headers.lemma_filter_pred(p, i);
        }
    }
    headers.lemma_filter_len(p);
}

/// Builds the envelope of an inbound request: the method, the request target
/// as received, the version's wire code, the headers without the stripped
/// names in their order, and the body.
pub fn capture(
    method: String,
    fullpath: String,
    version: HttpVersion,
    headers: &Vec<(String, String)>,
    body: Vec<u8>,
) -> (r: Result<RequestMessage, CaptureError>)
    ensures
        !is_method(method@) ==> r == Err::<RequestMessage, CaptureError>(
            CaptureError::InvalidMethod,
        ),
        is_method(method@) && !is_fullpath(fullpath@) ==> r == Err::<RequestMessage, CaptureError>(
            CaptureError::InvalidTarget,
        ),
        is_method(method@) && is_fullpath(fullpath@) ==> r is Ok,
        r matches Ok(m) ==> {
            &&& m.method@ == method@
            &&& m.fullpath@ == fullpath@
            &&& m.version.0 == capture_code(version)
            &&& m.header_view() == captured_headers(header_seq(headers@))
            &&& m.body@ == body@
            &&& m.wf()
        },
{
    if !is_method_str(method.as_str()) {
        return Err(CaptureError::InvalidMethod);
    }
    if !is_fullpath_str(fullpath.as_str()) {
        return Err(CaptureError::InvalidTarget);
    }
    let kept = filter_headers(headers);
    let m = RequestMessage { method, fullpath, version: Version::from(version), headers: kept, body };
    proof {
        lemma_captured_headers(header_seq(headers@));
        assert forall|i: int| 0 <= i < m.headers@.len() implies !is_stripped_name(
            #[trigger] m.headers@[i].0@,
        ) by {
            assert(m.header_view()[i].0 == m.headers@[i].0@);
        }
    }
    Ok(m)
}

} // verus!
