use proxy_fs::reply::{read_block_reply, read_data_reply, read_dir_reply, read_stat_reply};
use proxy_fs::request::{range_request, whole_request, Request};
use proxy_fs::server::{
    collect_entries, entry_type, handle_read, handle_readdir, handle_readlink, handle_stat,
    DirItem, Failure, FileKind, Metadata, RangeRead, ReadOutcome, Session, Turn,
};
use proxy_fs::wire::{StatResponse, S_IFDIR, S_IFLNK, S_IFREG};

fn metadata(mtime: i64) -> Metadata {
    Metadata { mode: 0o100600, size: 12, uid: 1, gid: 2, mtime, nlink: 3, ino: 4 }
}

#[test]
fn a_stat_is_answered_with_the_metadata() {
    let answer = handle_stat(&Ok(metadata(99)));
    let mut r: &[u8] = &answer;
    assert_eq!(
        read_stat_reply(&mut r),
        Ok(Some(StatResponse {
            mode: 0o100600,
            size: 12,
            uid: 1,
            gid: 2,
            mtime: 99,
            nlink: 3,
            ino: 4,
        }))
    );
    assert!(r.is_empty());
}

#[test]
fn a_time_before_the_epoch_goes_in_twos_complement() {
    let answer = handle_stat(&Ok(metadata(-1)));
    let mut r: &[u8] = &answer;
    assert_eq!(read_stat_reply(&mut r).unwrap().unwrap().mtime, u64::MAX);
    let answer = handle_stat(&Ok(metadata(i64::MIN)));
    let mut r: &[u8] = &answer;
    assert_eq!(read_stat_reply(&mut r).unwrap().unwrap().mtime, 1 << 63);
}

#[test]
fn failures_are_answered_with_their_status() {
    assert_eq!(handle_stat(&Err(Failure::NotFound)), vec![1]);
    assert_eq!(handle_stat(&Err(Failure::PermissionDenied)), vec![2]);
    assert_eq!(handle_stat(&Err(Failure::Other)), vec![255]);
    assert_eq!(handle_read(&Err(Failure::NotFound)), vec![1]);
    assert_eq!(handle_read(&Err(Failure::PermissionDenied)), vec![255]);
    assert_eq!(handle_read(&Err(Failure::Other)), vec![255]);
    assert_eq!(handle_readdir(&Err(Failure::NotFound)), vec![1]);
    assert_eq!(handle_readdir(&Err(Failure::PermissionDenied)), vec![255]);
    assert_eq!(handle_readlink(&Err(Failure::NotFound)), vec![1]);
    assert_eq!(handle_readlink(&Err(Failure::PermissionDenied)), vec![255]);
}

#[test]
fn contents_and_targets_reach_the_client() {
    let answer = handle_read(&Ok(b"contents".to_vec()));
    let mut r: &[u8] = &answer;
    assert_eq!(read_data_reply(&mut r), Ok(Some(b"contents".to_vec())));
    let answer = handle_readlink(&Ok(b"../x".to_vec()));
    let mut r: &[u8] = &answer;
    assert_eq!(read_block_reply(&mut r), Ok(Some(b"../x".to_vec())));
}

#[test]
fn a_listing_holds_what_could_be_read() {
    assert_eq!(entry_type(Some(FileKind::Directory)), S_IFDIR);
    assert_eq!(entry_type(Some(FileKind::Symlink)), S_IFLNK);
    assert_eq!(entry_type(Some(FileKind::Other)), S_IFREG);
    assert_eq!(entry_type(None), S_IFREG);
    let items = vec![
        Some(DirItem { name: b"d".to_vec(), kind: Some(FileKind::Directory) }),
        None,
        Some(DirItem { name: b"l".to_vec(), kind: Some(FileKind::Symlink) }),
        Some(DirItem { name: b"u".to_vec(), kind: None }),
    ];
    let expected = vec![
        ("d".to_string(), S_IFDIR),
        ("l".to_string(), S_IFLNK),
        ("u".to_string(), S_IFREG),
    ];
    assert_eq!(collect_entries(&items), expected);
    let answer = handle_readdir(&Ok(items));
    let mut r: &[u8] = &answer;
    assert_eq!(read_dir_reply(&mut r), Ok(Some(expected)));
}

#[test]
fn names_and_targets_that_are_no_valid_text_are_replaced() {
    let items = vec![
        Some(DirItem { name: vec![b'a', 0xff], kind: None }),
        Some(DirItem { name: vec![0xc3, 0xa9], kind: None }),
    ];
    let expected = vec![("a\u{fffd}".to_string(), S_IFREG), ("\u{e9}".to_string(), S_IFREG)];
    assert_eq!(collect_entries(&items), expected);
    let mut bytes = vec![0, 4, 0, 0, 0, b'a'];
    bytes.extend("\u{fffd}".as_bytes());
    assert_eq!(handle_readlink(&Ok(vec![b'a', 0xff])), bytes);
}

#[test]
fn a_range_read_of_a_missing_file_is_answered() {
    assert!(matches!(
        RangeRead::handle_read_range(Err(Failure::NotFound), 0, 1),
        RangeRead::Reply { bytes } if bytes == [1]
    ));
    assert!(matches!(
        RangeRead::handle_read_range(Err(Failure::PermissionDenied), 0, 1),
        RangeRead::Reply { bytes } if bytes == [255]
    ));
    assert!(matches!(RangeRead::handle_read_range(Ok(None), 0, 1), RangeRead::Failed));
}

#[test]
fn a_range_behind_the_end_is_empty() {
    assert!(matches!(
        RangeRead::handle_read_range(Ok(Some(10)), 10, 5),
        RangeRead::Reply { bytes } if bytes == [0, 0, 0, 0, 0]
    ));
}

#[test]
fn a_range_read_collects_what_the_file_gives() {
    let read = RangeRead::handle_read_range(Ok(Some(10)), 4, 100);
    assert!(matches!(read, RangeRead::Seek { offset: 4, want: 6 }));
    let read = read.on_seek(true);
    assert_eq!(read.wanted(), 6);
    let read = read.on_read(ReadOutcome::Bytes(vec![1, 2]));
    assert_eq!(read.wanted(), 4);
    let read = read.on_read(ReadOutcome::Interrupted);
    assert_eq!(read.wanted(), 4);
    let read = read.on_read(ReadOutcome::Bytes(vec![3, 4, 5, 6]));
    assert_eq!(read.wanted(), 0);
    assert!(matches!(
        read,
        RangeRead::Reply { bytes } if bytes == [0, 6, 0, 0, 0, 1, 2, 3, 4, 5, 6]
    ));
}

#[test]
fn a_range_read_ends_with_the_file() {
    let read = RangeRead::handle_read_range(Ok(Some(10)), 0, 4).on_seek(true);
    let read = read.on_read(ReadOutcome::Bytes(vec![9]));
    let read = read.on_read(ReadOutcome::Bytes(Vec::new()));
    assert!(matches!(read, RangeRead::Reply { bytes } if bytes == [0, 1, 0, 0, 0, 9]));
}

#[test]
fn a_range_read_of_no_bytes_reads_nothing() {
    let read = RangeRead::handle_read_range(Ok(Some(10)), 0, 0);
    assert!(matches!(read, RangeRead::Seek { offset: 0, want: 0 }));
    assert!(matches!(read.on_seek(true), RangeRead::Reply { bytes } if bytes == [0; 5]));
}

#[test]
fn a_range_read_that_fails_has_no_answer() {
    let read = RangeRead::handle_read_range(Ok(Some(10)), 0, 4);
    assert!(matches!(read.on_seek(false), RangeRead::Failed));
    let read = RangeRead::handle_read_range(Ok(Some(10)), 0, 4).on_seek(true);
    assert!(matches!(read.on_read(ReadOutcome::Failed), RangeRead::Failed));
}

#[test]
fn a_session_serves_requests_in_their_order() {
    let mut session = Session::new();
    assert!(matches!(session.handle_client(), Turn::Await));
    let mut bytes = whole_request(1, "/a");
    bytes.extend(whole_request(77, "/b"));
    bytes.extend(range_request("/c", 1, 2));
    session.receive(&bytes);
    assert!(matches!(
        session.handle_client(),
        Turn::Perform(Request::Stat { path }) if path == "/a"
    ));
    session.answered(true);
    assert!(matches!(session.handle_client(), Turn::Refuse(bytes) if bytes == [255]));
    assert!(matches!(
        session.handle_client(),
        Turn::Perform(Request::ReadRange { path, offset: 1, size: 2 }) if path == "/c"
    ));
    session.answered(true);
    assert!(matches!(session.handle_client(), Turn::Await));
    session.disconnected();
    assert!(matches!(session.handle_client(), Turn::Hangup));
}

#[test]
fn a_request_that_was_not_answered_ends_the_session() {
    let mut session = Session::new();
    let mut bytes = whole_request(2, "/a");
    bytes.extend(whole_request(1, "/b"));
    session.receive(&bytes);
    assert!(matches!(session.handle_client(), Turn::Perform(_)));
    session.answered(false);
    assert!(matches!(session.handle_client(), Turn::Hangup));
    session.answered(true);
    assert!(matches!(session.handle_client(), Turn::Hangup));
}

#[test]
fn a_bad_path_ends_the_session() {
    let mut session = Session::new();
    session.receive(&[1, 1, 0, 0, 0, 0xfe]);
    session.receive(&whole_request(1, "/b"));
    assert!(matches!(session.handle_client(), Turn::Hangup));
    assert!(matches!(session.handle_client(), Turn::Hangup));
}

#[test]
fn requests_before_a_broken_one_are_served() {
    for tail in [&[1, 9, 0][..], &[1, 1, 0, 0, 0, 0xff][..]] {
        let mut session = Session::new();
        session.receive(&whole_request(1, "/a"));
        session.receive(&whole_request(9, "/b"));
        session.receive(tail);
        assert!(matches!(session.handle_client(), Turn::Perform(Request::Stat { .. })));
        session.answered(true);
        assert!(matches!(session.handle_client(), Turn::Refuse(bytes) if bytes == [255]));
        assert!(matches!(session.handle_client(), Turn::Await | Turn::Hangup));
    }
}

#[test]
fn a_session_does_not_care_how_bytes_arrive() {
    let mut bytes = whole_request(3, "/dir");
    bytes.extend(whole_request(4, "/link"));
    let mut session = Session::new();
    let mut served = Vec::new();
    for b in bytes {
        session.receive(&[b]);
        if let Turn::Perform(req) = session.handle_client() {
            served.push(req);
            session.answered(true);
        }
    }
    assert_eq!(served.len(), 2);
    assert!(matches!(&served[0], Request::ReadDir { path } if path == "/dir"));
    assert!(matches!(&served[1], Request::ReadLink { path } if path == "/link"));
}
