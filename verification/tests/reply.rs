use proxy_fs::error::Error;
use proxy_fs::reply::{
    read_block_reply, read_data_reply, read_dir_reply, read_entry, read_stat_reply,
    write_data_reply, write_dir_reply, write_link_reply, write_range_reply, write_stat_reply,
    write_status_reply,
};
use proxy_fs::wire::{StatResponse, S_IFDIR, S_IFREG};

fn metadata() -> StatResponse {
    StatResponse { mode: 1, size: 2, uid: 3, gid: 4, mtime: 5, nlink: 6, ino: 7 }
}

#[test]
fn replies_have_their_layout() {
    assert_eq!(write_status_reply(255), vec![255]);
    assert_eq!(write_data_reply(b"ab"), vec![0, 2, 0, 0, 0, 0, 0, 0, 0, b'a', b'b']);
    assert_eq!(write_range_reply(b"ab"), vec![0, 2, 0, 0, 0, b'a', b'b']);
    assert_eq!(write_link_reply("t"), vec![0, 1, 0, 0, 0, b't']);
    let entries = vec![("d".to_string(), S_IFDIR)];
    assert_eq!(
        write_dir_reply(&entries),
        vec![0, 1, 0, 0, 0, 1, 0, 0, 0, b'd', 0, 0x40, 0, 0]
    );
    let reply = write_stat_reply(&metadata());
    assert_eq!(reply.len(), 45);
    assert_eq!(&reply[..5], &[0, 1, 0, 0, 0]);
}

#[test]
fn replies_are_read_back() {
    let mut bytes = write_stat_reply(&metadata());
    bytes.extend(write_data_reply(b"data"));
    bytes.extend(write_range_reply(b""));
    bytes.extend(write_link_reply("/target"));
    let entries = vec![("a".to_string(), S_IFREG), ("\u{e9}".to_string(), S_IFDIR)];
    bytes.extend(write_dir_reply(&entries));
    let mut r: &[u8] = &bytes;
    assert_eq!(read_stat_reply(&mut r), Ok(Some(metadata())));
    assert_eq!(read_data_reply(&mut r), Ok(Some(b"data".to_vec())));
    assert_eq!(read_block_reply(&mut r), Ok(Some(Vec::new())));
    assert_eq!(read_block_reply(&mut r), Ok(Some(b"/target".to_vec())));
    assert_eq!(read_dir_reply(&mut r), Ok(Some(entries)));
    assert!(r.is_empty());
}

#[test]
fn a_failure_is_one_byte() {
    for status in [1, 2, 255] {
        let bytes = [status, 9];
        let mut r: &[u8] = &bytes;
        assert_eq!(read_stat_reply(&mut r), Ok(None));
        assert_eq!(r, &[9]);
        let mut r: &[u8] = &bytes;
        assert_eq!(read_data_reply(&mut r), Ok(None));
        assert_eq!(r, &[9]);
        let mut r: &[u8] = &bytes;
        assert_eq!(read_block_reply(&mut r), Ok(None));
        assert_eq!(r, &[9]);
        let mut r: &[u8] = &bytes;
        assert_eq!(read_dir_reply(&mut r), Ok(None));
        assert_eq!(r, &[9]);
    }
}

#[test]
fn a_reply_that_ends_early_is_an_error() {
    let data = write_data_reply(b"0123456789");
    for n in 0..data.len() {
        let mut r = &data[..n];
        assert_eq!(read_data_reply(&mut r), Err(Error::UnexpectedEof));
        assert!(r.is_empty());
    }
    let dir = write_dir_reply(&vec![("one".to_string(), 1), ("two".to_string(), 2)]);
    for n in 0..dir.len() {
        let mut r = &dir[..n];
        assert_eq!(read_dir_reply(&mut r), Err(Error::UnexpectedEof));
    }
}

#[test]
fn a_length_beyond_the_data_is_an_error() {
    let mut bytes = vec![0];
    bytes.extend(u64::MAX.to_le_bytes());
    bytes.extend(b"few");
    let mut r: &[u8] = &bytes;
    assert_eq!(read_data_reply(&mut r), Err(Error::UnexpectedEof));
    assert!(r.is_empty());
}

#[test]
fn a_name_that_is_no_valid_text_is_replaced() {
    let mut r: &[u8] = &[3, 0, 0, 0, b'a', 0xff, b'b', 8, 0, 0, 0];
    assert_eq!(read_entry(&mut r), Ok(("a\u{fffd}b".to_string(), 8)));
    let mut r: &[u8] = &[2, 0, 0, 0, 0xc3, 0xa9, 8, 0, 0, 0];
    assert_eq!(read_entry(&mut r), Ok(("\u{e9}".to_string(), 8)));
}
