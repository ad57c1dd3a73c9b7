use vstd::prelude::*;
use vstd::string::*;
use vstd::utf8::encode_utf8;
use crate::args::same_text;

verus! {

#[verifier::external_type_specification]
#[verifier::external_body]
#[verifier::reject_recursive_types(T)]
pub struct ExRequest<T>(http::Request<T>);

/// What the head of a request is made of.
pub struct RequestParts {
    pub method: String,
    pub host: Option<String>,
    /// The path and query as sent on the request line.
    pub target: Option<String>,
    /// Header names and values; a value is `None` when it is not visible ASCII.
    pub headers: Vec<(String, Option<String>)>,
}

/// Why a request head could not be written.
#[derive(Clone, Copy, Debug, PartialEq, Eq)]
pub enum HeadError {
    /// The URL names no host.
    MissingHost,
    /// The URL has no path.
    MissingPath,
    /// A header value holds a byte that is not visible ASCII.
    InvalidHeaderValue,
}

/// The header lines, each preceded by a line break.
pub open spec fn header_lines(hs: Seq<(String, Option<String>)>) -> Seq<char>
    decreases hs.len(),
{
    if hs.len() == 0 {
        Seq::empty()
    } else {
        header_lines(hs.drop_last()) + "\r\n"@ + hs.last().0@ + ": "@ + hs.last().1->Some_0@
    }
}

/// Whether every header value is visible ASCII.
pub open spec fn headers_printable(hs: Seq<(String, Option<String>)>) -> bool {
    forall|i: int| 0 <= i < hs.len() ==> (#[trigger] hs[i]).1 is Some
}

/// The value of the `Host` header: the host, after the credentials when there are some.
pub open spec fn host_field(host: Seq<char>, auth: Option<String>) -> Seq<char> {
    match auth {
        Some(a) => a@ + "@"@ + host,
        None => host,
    }
}

/// The text of a request head, without the line break that ends it.
pub open spec fn head_text(
    method: Seq<char>,
    target: Seq<char>,
    host: Seq<char>,
    headers: Seq<(String, Option<String>)>,
) -> Seq<char> {
    method + " "@ + target + " HTTP/1.1\r\nHost: "@ + host
        + "\r\nUser-Agent: Bust/0.0.1\r\nConnection: Close"@ + header_lines(headers)
}

/// The head of the request, in bytes, or why it cannot be written.
pub open spec fn head_result(parts: RequestParts, auth: Option<String>) -> Result<Seq<u8>, HeadError> {
    if parts.host is None {
        Err(HeadError::MissingHost)
    } else if parts.target is None {
        Err(HeadError::MissingPath)
    } else if !headers_printable(parts.headers@) {
        Err(HeadError::InvalidHeaderValue)
    } else {
        Ok(
            encode_utf8(
                head_text(
                    parts.method@,
                    parts.target->Some_0@,
                    host_field(parts.host->Some_0@, auth),
                    parts.headers@,
                ),
            ),
        )
    }
}

/// Whether an executable result carries the same value as a spec one.
pub open spec fn agrees(r: Result<Vec<u8>, HeadError>, s: Result<Seq<u8>, HeadError>) -> bool {
    match r {
        Ok(b) => s == Ok::<Seq<u8>, HeadError>(b@),
        Err(e) => s == Err::<Seq<u8>, HeadError>(e),
    }
}

/// Writes the request line and headers: method, target and protocol, the
/// host (with credentials if given), a fixed user agent, `Connection: Close`
/// and every header of the request.
pub fn head_bytes(parts: &RequestParts, auth: &Option<String>) -> (r: Result<Vec<u8>, HeadError>)
    ensures
        agrees(r, head_result(*parts, *auth)),
{
    let host = match &parts.host {
        Some(h) => h,
        None => return Err(HeadError::MissingHost),
    };
    let target = match &parts.target {
        Some(t) => t,
        None => return Err(HeadError::MissingPath),
    };
    let mut text = String::from_str(parts.method.as_str());
    text.append(" ");
    text.append(target.as_str());
    text.append(" HTTP/1.1\r\nHost: ");
    match auth {
        Some(a) => {
            text.append(a.as_str());
            text.append("@");
        },
        None => {},
    }
    text.append(host.as_str());
    text.append("\r\nUser-Agent: Bust/0.0.1\r\nConnection: Close");
    let ghost prefix = parts.method@ + " "@ + target@ + " HTTP/1.1\r\nHost: "@ + host_field(host@, *auth)
        + "\r\nUser-Agent: Bust/0.0.1\r\nConnection: Close"@;
    assert(text@ =~= prefix);
    let hs = &parts.headers;
    let mut i: usize = 0;
    while i < hs.len()
        invariant
            0 <= i <= hs@.len(),
            hs@ == parts.headers@,
            parts.host is Some,
            parts.target is Some,
            prefix == parts.method@ + " "@ + parts.target->Some_0@ + " HTTP/1.1\r\nHost: "@
                + host_field(parts.host->Some_0@, *auth)
                + "\r\nUser-Agent: Bust/0.0.1\r\nConnection: Close"@,
            text@ == prefix + header_lines(hs@.subrange(0, i as int)),
            forall|j: int| 0 <= j < i ==> (#[trigger] hs@[j]).1 is Some,
        decreases hs@.len() - i,
    {
        let (name, value) = &hs[i];
        match value {
            Some(v) => {
                let ghost before = text@;
                text.append("\r\n");
                text.append(name.as_str());
                text.append(": ");
                text.append(v.as_str());
                assert(hs@.subrange(0, i + 1).drop_last() =~= hs@.subrange(0, i as int));
                assert(text@ =~= prefix + header_lines(hs@.subrange(0, i + 1)));
            },
            None => {
                assert(!headers_printable(hs@));
                return Err(HeadError::InvalidHeaderValue);
            },
        }
        i = i + 1;
    }
    assert(hs@.subrange(0, hs@.len() as int) =~= hs@);
    assert(headers_printable(hs@));
    let s = text.as_str();
    let bytes = s.as_bytes_vec();
    assert(bytes@ == encode_utf8(text@));
    Ok(bytes)
}

/// The port a URL scheme implies when the URL names none: 80 for `http`,
/// 443 for `https`; no other scheme is supported.
pub open spec fn scheme_port(scheme: Seq<char>) -> Option<u16> {
    if scheme == "http"@ {
        Some(80u16)
    } else if scheme == "https"@ {
        Some(443u16)
    } else {
        None
    }
}

/// The port a URL scheme implies, or `None` for an unsupported scheme.
pub fn default_port(scheme: &str) -> (r: Option<u16>)
    ensures
        r == scheme_port(scheme@),
{
    if same_text(scheme, "http") {
        Some(80)
    } else if same_text(scheme, "https") {
        Some(443)
    } else {
        None
    }
}

/// Relies on `Request::method` and `Method::as_str`.
#[verifier::external_body]
fn method_of<T>(req: &http::Request<T>) -> (r: String) {
    req.method().as_str().to_string()
}

/// Relies on `Request::uri` and `Uri::host`.
#[verifier::external_body]
fn host_of<T>(req: &http::Request<T>) -> (r: Option<String>) {
    req.uri().host().map(|h| h.to_string())
}

/// Relies on `Uri::path_and_query` and the `Display` of `PathAndQuery`,
/// which writes `/` for an empty path.
#[verifier::external_body]
fn target_of<T>(req: &http::Request<T>) -> (r: Option<String>) {
    req.uri().path_and_query().map(|p| p.to_string())
}

/// Relies on `Request::headers`, `HeaderName::as_str` and
/// `HeaderValue::to_str`, which fails unless the value is visible ASCII.
#[verifier::external_body]
fn headers_of<T>(req: &http::Request<T>) -> (r: Vec<(String, Option<String>)>) {
    let mut out = Vec::new();
    for (k, v) in req.headers() {
        out.push((k.as_str().to_string(), v.to_str().ok().map(|s| s.to_string())));
    }
    out
}

/// The parts of the request that its head is written from.
pub fn request_parts<T>(req: &http::Request<T>) -> (r: RequestParts) {
    RequestParts {
        method: method_of(req),
        host: host_of(req),
        target: target_of(req),
        headers: headers_of(req),
    }
}

/// The head of an HTTP/1.1 request for `req`, as `head_bytes` writes it
/// from the request's method, host, path and headers.
pub fn http_string<T>(req: &http::Request<T>, auth: Option<String>) -> (r: Result<Vec<u8>, HeadError>)
    ensures
        exists|p: RequestParts| agrees(r, #[trigger] head_result(p, auth)),
{
    let parts = request_parts(req);
    let r = head_bytes(&parts, &auth);
    assert(agrees(r, head_result(parts, auth)));
    r
}

} // verus!
