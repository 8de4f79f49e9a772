use proxy_fs::error::Error;
use proxy_fs::inbox::Inbox;
use proxy_fs::reply::{write_data_reply, write_dir_reply, write_range_reply, write_stat_reply};
use proxy_fs::request::{range_request, whole_request, Request};
use proxy_fs::wire::StatResponse;

#[test]
fn a_request_that_arrives_byte_by_byte_is_taken_once_complete() {
    let bytes = range_request("/a/b", 5, 6);
    let mut inbox = Inbox::new();
    for i in 0..bytes.len() {
        assert!(inbox.next_request().is_none());
        inbox.receive(&bytes[i..i + 1]);
    }
    assert!(matches!(
        inbox.next_request(),
        Some(Ok(Request::ReadRange { path, offset: 5, size: 6 })) if path == "/a/b"
    ));
    assert!(inbox.next_request().is_none());
}

#[test]
fn bytes_behind_a_request_stay_pending() {
    let mut bytes = whole_request(1, "/x");
    bytes.extend(&whole_request(2, "/y")[..4]);
    let mut inbox = Inbox::new();
    inbox.receive(&bytes);
    assert!(matches!(inbox.next_request(), Some(Ok(Request::Stat { path })) if path == "/x"));
    assert!(inbox.next_request().is_none());
    inbox.receive(&whole_request(2, "/y")[4..]);
    assert!(matches!(inbox.next_request(), Some(Ok(Request::Read { path })) if path == "/y"));
}

#[test]
fn a_bad_path_is_reported_as_soon_as_it_is_there() {
    let mut inbox = Inbox::new();
    inbox.receive(&[5, 1, 0, 0, 0, 0x80]);
    assert!(matches!(inbox.next_request(), Some(Err(Error::InvalidData))));
}

#[test]
fn replies_that_arrive_in_pieces_are_taken_once_complete() {
    let st = StatResponse { mode: 1, size: 2, uid: 3, gid: 4, mtime: 5, nlink: 6, ino: 7 };
    let entries = vec![("name".to_string(), 3)];
    let mut inbox = Inbox::new();
    let bytes = write_stat_reply(&st);
    inbox.receive(&bytes[..20]);
    assert!(inbox.next_stat_reply().is_none());
    inbox.receive(&bytes[20..]);
    assert_eq!(inbox.next_stat_reply(), Some(Ok(Some(st))));
    let bytes = write_range_reply(b"range");
    inbox.receive(&bytes[..5]);
    assert!(inbox.next_block_reply().is_none());
    inbox.receive(&bytes[5..]);
    assert_eq!(inbox.next_block_reply(), Some(Ok(Some(b"range".to_vec()))));
    let bytes = write_data_reply(b"data");
    inbox.receive(&bytes[..8]);
    assert!(inbox.next_data_reply().is_none());
    inbox.receive(&bytes[8..]);
    assert_eq!(inbox.next_data_reply(), Some(Ok(Some(b"data".to_vec()))));
    let bytes = write_dir_reply(&entries);
    inbox.receive(&bytes[..10]);
    assert!(inbox.next_dir_reply().is_none());
    inbox.receive(&bytes[10..]);
    assert_eq!(inbox.next_dir_reply(), Some(Ok(Some(entries))));
    inbox.receive(&[1]);
    assert_eq!(inbox.next_stat_reply(), Some(Ok(None)));
}
