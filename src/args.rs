use vstd::prelude::*;
use vstd::string::*;
use vstd::utf8::encode_utf8;

verus! {

/// A `key=value` argument.
#[derive(Debug, PartialEq, Eq)]
pub struct ValuePair {
    pub key: String,
    pub value: String,
}

/// `s` holds exactly one `=`, at index `i`.
pub open spec fn splits_at(s: Seq<char>, i: int) -> bool {
    &&& 0 <= i < s.len()
    &&& s[i] == '='
    &&& forall|j: int| 0 <= j < s.len() && j != i ==> s[j] != '='
}

/// The text before and after the only `=` of `s`, if it has exactly one.
pub open spec fn pair_of(s: Seq<char>) -> Option<(Seq<char>, Seq<char>)> {
    if exists|i: int| splits_at(s, i) {
        let i = choose|i: int| splits_at(s, i);
        Some((s.subrange(0, i), s.subrange(i + 1, s.len() as int)))
    } else {
        None
    }
}

impl ValuePair {
    /// Splits `key=value` at its only `=`; any other number of `=` is an error.
    pub fn parse(s: &str) -> (r: Result<ValuePair, String>)
        ensures
            r is Ok <==> pair_of(s@) is Some,
            r matches Ok(p) ==> pair_of(s@) == Some((p.key@, p.value@)),
    {
        let n = s.unicode_len();
        let mut first: usize = 0;
        let mut count: usize = 0;
        let mut i: usize = 0;
        while i < n
            invariant
                n == s@.len(),
                0 <= i <= n,
                count <= 2,
                count == 0 ==> forall|j: int| 0 <= j < i ==> s@[j] != '=',
                count == 1 ==> first < i && s@[first as int] == '=' && forall|j: int|
                    0 <= j < i && j != first ==> s@[j] != '=',
                count == 2 ==> !(exists|k: int| splits_at(s@, k)),
                count == 2 ==> first < i && s@[first as int] == '=',
            decreases n - i,
        {
            if s.get_char(i) == '=' {
                if count == 0 {
                    first = i;
                    count = 1;
                } else if count == 1 {
                    assert(!(exists|k: int| splits_at(s@, k))) by {
                        assert forall|k: int| !splits_at(s@, k) by {
                            if k == first as int {
                                assert(s@[i as int] == '=');
                            } else {
                                assert(s@[first as int] == '=');
                            }
                        }
                    }
                    count = 2;
                }
            }
            i = i + 1;
        }
        if count != 1 {
            if count == 0 {
                assert(!(exists|k: int| splits_at(s@, k)));
            }
            return Err(String::from_str("invalid argument should be in form of key=value"));
        }
        assert(splits_at(s@, first as int));
        let key = s.substring_char(0, first);
        let value = s.substring_char(first + 1, n);
        Ok(ValuePair { key: key.to_owned(), value: value.to_owned() })
    }
}

impl core::str::FromStr for ValuePair {
    type Err = String;

    fn from_str(s: &str) -> Result<ValuePair, String> {
        ValuePair::parse(s)
    }
}

/// An HTTP method named on the command line.
#[derive(Clone, Copy, Debug, PartialEq, Eq)]
pub enum Method {
    POST,
    GET,
    PUT,
    PATCH,
    DELETE,
    OPTION,
}

/// The method that a lower-case name selects; unknown names select `GET`.
pub open spec fn method_named(s: Seq<char>) -> Method {
    if s == "post"@ {
        Method::POST
    } else if s == "put"@ {
        Method::PUT
    } else if s == "delete"@ {
        Method::DELETE
    } else if s == "option"@ {
        Method::OPTION
    } else if s == "patch"@ {
        Method::PATCH
    } else {
        Method::GET
    }
}

/// The upper-case name of a method.
pub open spec fn method_text(m: Method) -> Seq<char> {
    match m {
        Method::PATCH => "PATCH"@,
        Method::POST => "POST"@,
        Method::DELETE => "DELETE"@,
        Method::PUT => "PUT"@,
        Method::OPTION => "OPTION"@,
        Method::GET => "GET"@,
    }
}

/// What `str::to_lowercase` makes of a string.
pub uninterp spec fn lower_of(s: Seq<char>) -> Seq<char>;

/// Relies on `str::to_lowercase`: the result depends on the characters alone.
#[verifier::external_body]
fn lowercase(s: &str) -> (r: String)
    ensures
        r@ == lower_of(s@),
{
    s.to_lowercase()
}

/// Whether two strings hold the same characters.
pub(crate) fn same_text(a: &str, b: &str) -> (r: bool)
    ensures
        r == (a@ == b@),
{
    let n = a.unicode_len();
    if n != b.unicode_len() {
        return false;
    }
    let mut i: usize = 0;
    while i < n
        invariant
            n == a@.len(),
            n == b@.len(),
            0 <= i <= n,
            forall|j: int| 0 <= j < i ==> a@[j] == b@[j],
        decreases n - i,
    {
        if a.get_char(i) != b.get_char(i) {
            return false;
        }
        i = i + 1;
    }
    assert(a@ =~= b@);
    true
}

impl Method {
    /// The method that a lower-case name selects; unknown names select `GET`.
    pub fn from_lowercase(s: &str) -> (r: Method)
        ensures
            r == method_named(s@),
    {
        if same_text(s, "post") {
            Method::POST
        } else if same_text(s, "put") {
            Method::PUT
        } else if same_text(s, "delete") {
            Method::DELETE
        } else if same_text(s, "option") {
            Method::OPTION
        } else if same_text(s, "patch") {
            Method::PATCH
        } else {
            Method::GET
        }
    }

    /// The method named by `s` in any case; unknown names select `GET`.
    pub fn parse(s: &str) -> (r: Method)
        ensures
            r == method_named(lower_of(s@)),
    {
        let lower = lowercase(s);
        Method::from_lowercase(lower.as_str())
    }

    /// The upper-case name of the method.
    pub fn to_string(&self) -> (r: String)
        ensures
            r@ == method_text(*self),
    {
        match self {
            Method::PATCH => String::from_str("PATCH"),
            Method::POST => String::from_str("POST"),
            Method::DELETE => String::from_str("DELETE"),
            Method::PUT => String::from_str("PUT"),
            Method::OPTION => String::from_str("OPTION"),
            Method::GET => String::from_str("GET"),
        }
    }
}

impl core::str::FromStr for Method {
    type Err = String;

    fn from_str(s: &str) -> Result<Method, String> {
        Ok(Method::parse(s))
    }
}

#[verifier::external_type_specification]
#[verifier::external_body]
pub struct ExHeaderName(http::header::HeaderName);

#[verifier::external_type_specification]
#[verifier::external_body]
pub struct ExHeaderValue(http::header::HeaderValue);

/// A header given on the command line.
#[derive(Debug, PartialEq)]
pub struct Header {
    pub key: http::header::HeaderName,
    pub value: http::header::HeaderValue,
}

/// Whether a byte may stand in a header name: a token character of
/// HTTP/1.1 (upper-case letters are accepted and lowered), or `"`.
pub open spec fn header_name_byte(b: u8) -> bool {
    ||| 33 <= b <= 39
    ||| b == 42
    ||| b == 43
    ||| b == 45
    ||| b == 46
    ||| 48 <= b <= 57
    ||| 65 <= b <= 90
    ||| 94 <= b <= 122
    ||| b == 124
    ||| b == 126
}

/// Whether a header name is accepted: between 1 and 65535 UTF-8 bytes, each
/// of them a header name byte.
pub open spec fn header_name_accepts(name: Seq<char>) -> bool {
    let b = encode_utf8(name);
    &&& 1 <= b.len() <= 65535
    &&& forall|i: int| 0 <= i < b.len() ==> header_name_byte(#[trigger] b[i])
}

/// Whether a byte may stand in a header value: visible ASCII, space, tab
/// or any byte above 127.
pub open spec fn header_value_byte(b: u8) -> bool {
    (b >= 32 && b != 127) || b == 9
}

/// Whether every UTF-8 byte of `s` may stand in a header value.
pub open spec fn header_value_accepts(s: Seq<char>) -> bool {
    forall|i: int| 0 <= i < encode_utf8(s).len() ==> header_value_byte(#[trigger] encode_utf8(s)[i])
}

/// Relies on `HeaderName::from_bytes`, which accepts 1 to 65535 bytes that
/// its character table maps to a non-zero value; its error is turned into
/// its message.
#[verifier::external_body]
fn header_name(key: &str) -> (r: Result<http::header::HeaderName, String>)
    ensures
        r is Ok <==> header_name_accepts(key@),
{
    http::header::HeaderName::from_bytes(key.as_bytes()).map_err(|e| e.to_string())
}

/// Relies on `HeaderValue::from_str`, which accepts a string when every
/// byte is visible ASCII, space, tab or above 127; its error is turned into
/// its message.
#[verifier::external_body]
fn header_value(value: &str) -> (r: Result<http::header::HeaderValue, String>)
    ensures
        r is Ok <==> header_value_accepts(value@),
{
    http::header::HeaderValue::from_str(value).map_err(|e| e.to_string())
}

impl Header {
    /// Parses `name=value` into a header: exactly one `=`, a name that
    /// `HeaderName` accepts and a value that `HeaderValue` accepts.
    pub fn parse(s: &str) -> (r: Result<Header, String>)
        ensures
            r is Ok <==> (pair_of(s@) matches Some((k, v)) && header_name_accepts(k)
                && header_value_accepts(v)),
    {
        let pair = match ValuePair::parse(s) {
            Ok(p) => p,
            Err(_) => {
                return Err(String::from_str("invalid argument should be in  form of key=value"));
            },
        };
        let key = match header_name(pair.key.as_str()) {
            Ok(k) => k,
            Err(e) => return Err(e),
        };
        let value = match header_value(pair.value.as_str()) {
            Ok(v) => v,
            Err(e) => return Err(e),
        };
        Ok(Header { key, value })
    }
}

impl core::str::FromStr for Header {
    type Err = String;

    fn from_str(s: &str) -> Result<Header, String> {
        Header::parse(s)
    }
}

} // verus!
