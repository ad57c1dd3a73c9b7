use bust::framing::{body_fits, decimal_bytes, file_part_bounds, file_part_from, form_bounds, request_bytes, Body, PartError};
use std::str;

#[test]
fn decimal_digits() {
    assert_eq!(decimal_bytes(0), b"0".to_vec());
    assert_eq!(decimal_bytes(7), b"7".to_vec());
    assert_eq!(decimal_bytes(1234), b"1234".to_vec());
    assert_eq!(decimal_bytes(usize::MAX), usize::MAX.to_string().into_bytes());
}

#[test]
fn request_without_body() {
    let out = request_bytes(b"GET / HTTP/1.1", &Body::Empty, false);
    assert_eq!(out, b"GET / HTTP/1.1\r\n\r\n \r\n".to_vec());
    assert_eq!(request_bytes(b"H", &Body::Empty, true), b"H\r\n\r\n \r\n".to_vec());
}

#[test]
fn request_with_data() {
    let out = request_bytes(b"POST / HTTP/1.1", &Body::Simple(b"test data".to_vec()), true);
    assert_eq!(str::from_utf8(&out).unwrap(), "POST / HTTP/1.1\r\ncontent-length: 9\r\n\r\ntest data");
}

#[test]
fn request_with_file() {
    let body = Body::File(b"<".to_vec(), b"hello there!".to_vec(), b">".to_vec());
    let plain = request_bytes(b"P", &body, false);
    assert_eq!(str::from_utf8(&plain).unwrap(), "P\r\ncontent-length: 14\r\n\r\n<hello there!>\r\n");
    let tls = request_bytes(b"P", &body, true);
    assert_eq!(str::from_utf8(&tls).unwrap(), "P\r\ncontent-length: 14\r\n\r\n<hello there!>");
}

#[test]
fn multipart_bounds() {
    let (start, end) = form_bounds("key", "files", "test_file.txt", "text/plain");
    assert_eq!(str::from_utf8(&start).unwrap(),"--key\r\nContent-Disposition: form-data; name=\"files\"; filename=\"test_file.txt\"\r\nContent-Type: text/plain\r\n\r\n");
    assert_eq!(str::from_utf8(&end).unwrap(), "\r\n--key--\r\n");
}

#[test]
fn multipart_bounds_from_a_path() {
    let (start, end) = file_part_bounds("key", "files", "./test_file.txt").unwrap();
    assert_eq!(str::from_utf8(&start).unwrap(),"--key\r\nContent-Disposition: form-data; name=\"files\"; filename=\"test_file.txt\"\r\nContent-Type: text/plain\r\n\r\n");
    assert_eq!(str::from_utf8(&end).unwrap(), "\r\n--key--\r\n");
    let (start, _) = file_part_bounds("b", "f", "dir/data.json").unwrap();
    assert_eq!(str::from_utf8(&start).unwrap(),"--b\r\nContent-Disposition: form-data; name=\"f\"; filename=\"data.json\"\r\nContent-Type: application/json\r\n\r\n");
    let (start, _) = file_part_bounds("b", "f", "blob.unknownext").unwrap();
    assert!(str::from_utf8(&start).unwrap().ends_with("filename=\"blob.unknownext\"\r\nContent-Type: text/plain\r\n\r\n"));
}

#[test]
fn path_without_file_name() {
    assert_eq!(file_part_bounds("b", "f", "..").unwrap_err(), PartError::NoFileName);
    assert_eq!(file_part_bounds("b", "f", "/").unwrap_err(), PartError::NoFileName);
}

#[test]
fn ordinary_bodies_fit() {
    assert!(body_fits(&Body::Empty));
    assert!(body_fits(&Body::Simple(vec![1, 2, 3])));
    assert!(body_fits(&Body::File(vec![1], vec![2; 1000], vec![3])));
}

#[test]
fn file_part_from_each_case() {
    let (start, end) = file_part_from("key", "files", Some("a.csv".to_string()), Some("text/csv".to_string())).unwrap();
    assert_eq!(str::from_utf8(&start).unwrap(),"--key\r\nContent-Disposition: form-data; name=\"files\"; filename=\"a.csv\"\r\nContent-Type: text/csv\r\n\r\n");
    assert_eq!(str::from_utf8(&end).unwrap(), "\r\n--key--\r\n");
    let (start, _) = file_part_from("k", "f", Some("blob".to_string()), None).unwrap();
    assert_eq!(str::from_utf8(&start).unwrap(),"--k\r\nContent-Disposition: form-data; name=\"f\"; filename=\"blob\"\r\nContent-Type: text/plain\r\n\r\n");
    assert_eq!(file_part_from("k", "f", None, Some("text/csv".to_string())).unwrap_err(), PartError::NoFileName);
    assert_eq!(file_part_from("k", "f", None, None).unwrap_err(), PartError::NoFileName);
}
