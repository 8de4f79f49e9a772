use proxy_fs::error::Error;
use proxy_fs::request::{range_request, read_request, whole_request, Request};

#[test]
fn every_operation_is_told_apart() {
    let mut r: &[u8] = &whole_request(1, "/a");
    assert!(matches!(read_request(&mut r), Ok(Request::Stat { path }) if path == "/a"));
    let mut r: &[u8] = &whole_request(2, "/a");
    assert!(matches!(read_request(&mut r), Ok(Request::Read { path }) if path == "/a"));
    let mut r: &[u8] = &whole_request(3, "/a");
    assert!(matches!(read_request(&mut r), Ok(Request::ReadDir { path }) if path == "/a"));
    let mut r: &[u8] = &whole_request(4, "/a");
    assert!(matches!(read_request(&mut r), Ok(Request::ReadLink { path }) if path == "/a"));
    let mut r: &[u8] = &range_request("/a", 1 << 33, 9);
    assert!(matches!(
        read_request(&mut r),
        Ok(Request::ReadRange { path, offset: 0x2_0000_0000, size: 9 }) if path == "/a"
    ));
    for op in [0, 6, 255] {
        let mut r: &[u8] = &whole_request(op, "/a");
        assert!(matches!(
            read_request(&mut r),
            Ok(Request::Unknown { op: o, path }) if o == op && path == "/a"
        ));
    }
}

#[test]
fn requests_on_a_stream_are_read_in_their_order() {
    let mut stream = whole_request(1, "/x");
    stream.extend(range_request("/y", 3, 4));
    stream.extend(whole_request(4, ""));
    let mut r: &[u8] = &stream;
    assert!(matches!(read_request(&mut r), Ok(Request::Stat { path }) if path == "/x"));
    assert!(matches!(
        read_request(&mut r),
        Ok(Request::ReadRange { path, offset: 3, size: 4 }) if path == "/y"
    ));
    assert!(matches!(read_request(&mut r), Ok(Request::ReadLink { path }) if path.is_empty()));
    assert!(matches!(read_request(&mut r), Err(Error::UnexpectedEof)));
}

#[test]
fn every_part_of_a_request_is_needed() {
    let bytes = range_request("/file", 7, 8);
    for n in 0..bytes.len() {
        let mut r = &bytes[..n];
        assert!(matches!(read_request(&mut r), Err(Error::UnexpectedEof)));
    }
}

#[test]
fn a_request_with_a_bad_path_is_no_request() {
    let mut r: &[u8] = &[1, 1, 0, 0, 0, 0xff];
    assert!(matches!(read_request(&mut r), Err(Error::InvalidData)));
}
