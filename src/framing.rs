use vstd::prelude::*;
use vstd::string::*;
use vstd::utf8::encode_utf8;

verus! {

/// What is sent after the request head.
#[derive(Debug)]
pub enum Body {
    /// A multipart upload: the part's opening boundary and headers, the
    /// file's contents, and the closing boundary.
    File(Vec<u8>, Vec<u8>, Vec<u8>),
    /// Raw request data.
    Simple(Vec<u8>),
    Empty,
}

/// Decimal digits of `n`, in ASCII, most significant first.
pub open spec fn decimal(n: nat) -> Seq<u8>
    decreases n,
{
    if n < 10 {
        seq![(48 + n) as u8]
    } else {
        decimal(n / 10).push((48 + n % 10) as u8)
    }
}

/// The decimal digits of `n`, in ASCII.
pub fn decimal_bytes(n: usize) -> (r: Vec<u8>)
    ensures
        r@ == decimal(n as nat),
    decreases n,
{
    if n < 10 {
        let mut v: Vec<u8> = Vec::new();
        v.push(48u8 + n as u8);
        assert(v@ =~= decimal(n as nat));
        v
    } else {
        let mut v = decimal_bytes(n / 10);
        v.push(48u8 + (n % 10) as u8);
        v
    }
}

/// Appends the bytes of `b` to `out`.
fn append_bytes(out: &mut Vec<u8>, b: &[u8])
    ensures
        final(out)@ == old(out)@ + b@,
{
    out.extend_from_slice(b);
    assert(out@ =~= old(out)@ + b@);
}

/// The bytes written after the request head: a content-length header and
/// the body, or just the end of the head when there is no body. A file
/// body sent in plaintext is followed by one more line break.
pub open spec fn body_bytes(body: Body, tls: bool) -> Seq<u8> {
    match body {
        Body::File(head, contents, end) => encode_utf8("\r\ncontent-length: "@) + decimal(
            (head@.len() + contents@.len() + end@.len()) as nat,
        ) + encode_utf8("\r\n\r\n"@) + head@ + contents@ + end@ + (if tls {
            Seq::empty()
        } else {
            encode_utf8("\r\n"@)
        }),
        Body::Simple(data) => encode_utf8("\r\ncontent-length: "@) + decimal(data@.len()) + encode_utf8(
            "\r\n\r\n"@,
        ) + data@,
        Body::Empty => encode_utf8("\r\n\r\n \r\n"@),
    }
}

/// Whether the body's content length fits in a `usize`.
pub open spec fn body_length_fits(body: Body) -> bool {
    match body {
        Body::File(head, contents, end) => head@.len() + contents@.len() + end@.len() <= usize::MAX,
        _ => true,
    }
}

/// Whether the body's content length fits in a `usize`.
pub fn body_fits(body: &Body) -> (r: bool)
    ensures
        r == body_length_fits(*body),
{
    match body {
        Body::File(head, contents, end) => {
            head.len() as u128 + contents.len() as u128 + end.len() as u128 <= usize::MAX as u128
        },
        _ => true,
    }
}

/// Every byte that one request sends: the head, then the body framed by
/// `body_bytes`.
pub fn request_bytes(head: &[u8], body: &Body, tls: bool) -> (r: Vec<u8>)
    requires
        body_length_fits(*body),
    ensures
        r@ == head@ + body_bytes(*body, tls),
{
    let mut out: Vec<u8> = Vec::new();
    append_bytes(&mut out, head);
    match body {
        Body::File(first, contents, end) => {
            append_bytes(&mut out, "\r\ncontent-length: ".as_bytes());
            let digits = decimal_bytes(first.len() + contents.len() + end.len());
            append_bytes(&mut out, digits.as_slice());
            append_bytes(&mut out, "\r\n\r\n".as_bytes());
            append_bytes(&mut out, first.as_slice());
            append_bytes(&mut out, contents.as_slice());
            append_bytes(&mut out, end.as_slice());
            if !tls {
                append_bytes(&mut out, "\r\n".as_bytes());
            }
        },
        Body::Simple(data) => {
            append_bytes(&mut out, "\r\ncontent-length: ".as_bytes());
            let digits = decimal_bytes(data.len());
            append_bytes(&mut out, digits.as_slice());
            append_bytes(&mut out, "\r\n\r\n".as_bytes());
            append_bytes(&mut out, data.as_slice());
        },
        Body::Empty => {
            append_bytes(&mut out, "\r\n\r\n \r\n".as_bytes());
        },
    }
    assert(out@ =~= head@ + body_bytes(*body, tls));
    out
}

/// The opening of a multipart form part that carries a file.
pub open spec fn form_start(
    boundary: Seq<char>,
    field: Seq<char>,
    file_name: Seq<char>,
    content_type: Seq<char>,
) -> Seq<char> {
    "--"@ + boundary + "\r\nContent-Disposition: form-data; name=\""@ + field + "\"; filename=\""@
        + file_name + "\"\r\nContent-Type: "@ + content_type + "\r\n\r\n"@
}

/// The closing boundary of a multipart body.
pub open spec fn form_end(boundary: Seq<char>) -> Seq<char> {
    "\r\n--"@ + boundary + "--\r\n"@
}

/// The bytes that go before and after a file's contents in a multipart body.
pub fn form_bounds(boundary: &str, field: &str, file_name: &str, content_type: &str) -> (r: (
    Vec<u8>,
    Vec<u8>,
))
    ensures
        r.0@ == encode_utf8(form_start(boundary@, field@, file_name@, content_type@)),
        r.1@ == encode_utf8(form_end(boundary@)),
{
    let mut start = String::from_str("--");
    start.append(boundary);
    start.append("\r\nContent-Disposition: form-data; name=\"");
    start.append(field);
    start.append("\"; filename=\"");
    start.append(file_name);
    start.append("\"\r\nContent-Type: ");
    start.append(content_type);
    start.append("\r\n\r\n");
    let mut end = String::from_str("\r\n--");
    end.append(boundary);
    end.append("--\r\n");
    assert(start@ =~= form_start(boundary@, field@, file_name@, content_type@));
    assert(end@ =~= form_end(boundary@));
    (start.as_str().as_bytes_vec(), end.as_str().as_bytes_vec())
}

/// Why the parts of a file upload could not be built.
#[derive(Clone, Copy, Debug, PartialEq, Eq)]
pub enum PartError {
    /// The path names no file.
    NoFileName,
}

/// Relies on `Path::file_name` and `OsStr::to_str`: the last component of
/// the path, when it is a file name in UTF-8.
#[verifier::external_body]
fn file_name_of(path: &str) -> (r: Option<String>) {
    std::path::Path::new(path).file_name().and_then(|n| n.to_str()).map(|n| n.to_string())
}

/// Relies on `mime_guess::from_path` and `MimeGuess::first`: the media type
/// that the path's extension suggests, if it has a known one.
#[verifier::external_body]
fn guess_mime(path: &str) -> (r: Option<String>) {
    mime_guess::from_path(path).first().map(|m| m.to_string())
}

/// Relies on `mime::TEXT_PLAIN`, which displays as `text/plain`.
#[verifier::external_body]
fn text_plain() -> (r: String)
    ensures
        r@ == "text/plain"@,
{
    mime::TEXT_PLAIN.to_string()
}

/// The media type written for a file: the guessed one, or plain text when
/// nothing was guessed.
pub open spec fn media_type(guessed: Option<String>) -> Seq<char> {
    match guessed {
        Some(kind) => kind@,
        None => "text/plain"@,
    }
}

/// The multipart bounds for a file whose name is `name` (`None` when the
/// path names no file) and whose guessed media type is `guessed`.
pub open spec fn file_part_result(
    boundary: Seq<char>,
    field: Seq<char>,
    name: Option<String>,
    guessed: Option<String>,
) -> Result<(Seq<u8>, Seq<u8>), PartError> {
    match name {
        Some(n) => Ok(
            (
                encode_utf8(form_start(boundary, field, n@, media_type(guessed))),
                encode_utf8(form_end(boundary)),
            ),
        ),
        None => Err(PartError::NoFileName),
    }
}

/// Whether an executable result carries the same bytes as a spec one.
pub open spec fn same_parts(
    r: Result<(Vec<u8>, Vec<u8>), PartError>,
    s: Result<(Seq<u8>, Seq<u8>), PartError>,
) -> bool {
    match r {
        Ok((start, end)) => s == Ok::<(Seq<u8>, Seq<u8>), PartError>((start@, end@)),
        Err(e) => s == Err::<(Seq<u8>, Seq<u8>), PartError>(e),
    }
}

/// The bytes before and after a file's contents in a multipart body, from
/// the file's name and its guessed media type (plain text when none was
/// guessed); an error when there is no file name.
pub fn file_part_from(boundary: &str, field: &str, name: Option<String>, guessed: Option<String>) -> (r:
    Result<(Vec<u8>, Vec<u8>), PartError>)
    ensures
        same_parts(r, file_part_result(boundary@, field@, name, guessed)),
        r is Ok <==> name is Some,
{
    let name = match name {
        Some(name) => name,
        None => return Err(PartError::NoFileName),
    };
    let kind = match guessed {
        Some(kind) => kind,
        None => text_plain(),
    };
    let r = form_bounds(boundary, field, name.as_str(), kind.as_str());
    Ok(r)
}

/// The bytes before and after the contents of the file at `path` in a
/// multipart body: `file_part_from` applied to the path's file name and the
/// media type its extension suggests.
pub fn file_part_bounds(boundary: &str, field: &str, path: &str) -> (r: Result<(Vec<u8>, Vec<u8>), PartError>)
    ensures
        exists|name: Option<String>, guessed: Option<String>|
            same_parts(r, #[trigger] file_part_result(boundary@, field@, name, guessed)),
{
    let name = file_name_of(path);
    let guessed = guess_mime(path);
    let ghost (n, g) = (name, guessed);
    let r = file_part_from(boundary, field, name, guessed);
    assert(same_parts(r, file_part_result(boundary@, field@, n, g)));
    r
}

} // verus!
