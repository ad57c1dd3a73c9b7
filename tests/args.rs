use bust::args::{Header, Method, ValuePair};
use std::str::FromStr;

#[test]
fn value_pair_splits_at_the_only_equals_sign() {
    let p = ValuePair::from_str("files=text.txt").unwrap();
    assert_eq!(p, ValuePair { key: "files".to_owned(), value: "text.txt".to_owned() });
    let p = ValuePair::parse("=").unwrap();
    assert_eq!((p.key.as_str(), p.value.as_str()), ("", ""));
    let p = ValuePair::parse("ключ=значение").unwrap();
    assert_eq!((p.key.as_str(), p.value.as_str()), ("ключ", "значение"));
}

#[test]
fn value_pair_rejects_other_shapes() {
    for s in ["", "novalue", "a=b=c", "=="] {
        assert_eq!(
            ValuePair::parse(s).unwrap_err(),
            "invalid argument should be in form of key=value"
        );
    }
}

#[test]
fn method_names_in_any_case() {
    assert_eq!(Method::parse("PoSt"), Method::POST);
    assert_eq!(Method::parse("PUT"), Method::PUT);
    assert_eq!(Method::parse("delete"), Method::DELETE);
    assert_eq!(Method::parse("Option"), Method::OPTION);
    assert_eq!(Method::parse("PATCH"), Method::PATCH);
    assert_eq!(Method::parse("get"), Method::GET);
    assert_eq!(Method::from_str("HEAD").unwrap(), Method::GET);
    assert_eq!(Method::from_lowercase("post"), Method::POST);
    assert_eq!(Method::from_lowercase("POST"), Method::GET);
}

#[test]
fn method_names() {
    assert_eq!(Method::POST.to_string(), "POST");
    assert_eq!(Method::GET.to_string(), "GET");
    assert_eq!(Method::PUT.to_string(), "PUT");
    assert_eq!(Method::PATCH.to_string(), "PATCH");
    assert_eq!(Method::DELETE.to_string(), "DELETE");
    assert_eq!(Method::OPTION.to_string(), "OPTION");
}

#[test]
fn header_from_argument() {
    let h = Header::from_str("content-type=application/json").unwrap();
    assert_eq!(
        h,
        Header {
            key: http::header::HeaderName::from_bytes(b"content-type").unwrap(),
            value: http::header::HeaderValue::from_str("application/json").unwrap()
        }
    );
    let h = Header::parse("X-Trace=a b\tc").unwrap();
    assert_eq!(h.key.as_str(), "x-trace");
}

#[test]
fn header_errors() {
    assert_eq!(Header::parse("novalue").unwrap_err(), "invalid argument should be in  form of key=value");
    assert_eq!(Header::parse("bad name=x").unwrap_err(), "invalid HTTP header name");
    assert_eq!(Header::parse("=x").unwrap_err(), "invalid HTTP header name");
    assert_eq!(Header::parse("k=a\u{7f}b").unwrap_err(), "failed to parse header value");
    assert_eq!(Header::parse("k=a\nb").unwrap_err(), "failed to parse header value");
}

#[test]
fn header_name_edges() {
    assert!(Header::parse("a\"b=x").is_ok());
    assert!(Header::parse("Content-Type=x").is_ok());
    assert!(Header::parse("a:b=x").is_err());
    assert!(Header::parse("ä=x").is_err());
    let longest = format!("{}=x", "a".repeat(65535));
    assert!(Header::parse(&longest).is_ok());
    let too_long = format!("{}=x", "a".repeat(65536));
    assert_eq!(Header::parse(&too_long).unwrap_err(), "invalid HTTP header name");
}
