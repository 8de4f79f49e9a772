use proxy_fs::error::Error;
use proxy_fs::wire::{
    read_block, read_bytes, read_path, read_u32, read_u64, read_u8, truncate32, write_bytes,
    write_op, write_op_range, write_text, write_u32, write_u64, write_u8, StatResponse, OP_READ,
    OP_READDIR, OP_READLINK, OP_READ_RANGE, OP_STAT, STATUS_EACCES, STATUS_ENOENT, STATUS_ERROR,
    STATUS_OK, S_IFDIR, S_IFLNK, S_IFREG,
};

fn sample() -> StatResponse {
    StatResponse {
        mode: 0o100644,
        size: 0x0102030405060708,
        uid: 1000,
        gid: 100,
        mtime: u64::MAX,
        nlink: 2,
        ino: 77,
    }
}

#[test]
fn constants_have_their_wire_values() {
    assert_eq!([OP_STAT, OP_READ, OP_READDIR, OP_READLINK, OP_READ_RANGE], [1, 2, 3, 4, 5]);
    assert_eq!([STATUS_OK, STATUS_ENOENT, STATUS_EACCES, STATUS_ERROR], [0, 1, 2, 255]);
    assert_eq!([S_IFDIR, S_IFREG, S_IFLNK], [0x4000, 0x8000, 0xa000]);
}

#[test]
fn numbers_are_little_endian() {
    let mut w = Vec::new();
    write_u8(&mut w, 0xab);
    write_u32(&mut w, 0x01020304);
    write_u64(&mut w, 0x1112131415161718);
    assert_eq!(
        w,
        vec![0xab, 4, 3, 2, 1, 0x18, 0x17, 0x16, 0x15, 0x14, 0x13, 0x12, 0x11]
    );
}

#[test]
fn numbers_are_read_back() {
    for v in [0, 1, 255, 256, 65535, 65536, 16777216, u32::MAX] {
        let mut w = Vec::new();
        write_u32(&mut w, v);
        w.push(9);
        let mut r: &[u8] = &w;
        assert_eq!(read_u32(&mut r), Ok(v));
        assert_eq!(r, &[9]);
    }
    for v in [0, 255, u32::MAX as u64, 1 << 32, (1 << 40) + 3, u64::MAX] {
        let mut w = Vec::new();
        write_u64(&mut w, v);
        assert_eq!(w, v.to_le_bytes());
        let mut r: &[u8] = &w;
        assert_eq!(read_u64(&mut r), Ok(v));
        assert!(r.is_empty());
    }
    let mut r: &[u8] = &[7, 8];
    assert_eq!(read_u8(&mut r), Ok(7));
    assert_eq!(r, &[8]);
}

#[test]
fn a_number_that_was_read_is_written_back() {
    let bytes = [0xde, 0xad, 0xbe, 0xef, 0x01, 0x02, 0x03, 0x04];
    let mut r: &[u8] = &bytes;
    let mut w = Vec::new();
    write_u64(&mut w, read_u64(&mut r).unwrap());
    assert_eq!(w, bytes);
    let mut r: &[u8] = &bytes;
    let mut w = Vec::new();
    write_u32(&mut w, read_u32(&mut r).unwrap());
    assert_eq!(w, &bytes[..4]);
}

#[test]
fn too_few_bytes_drain_the_reader() {
    let mut r: &[u8] = &[];
    assert_eq!(read_u8(&mut r), Err(Error::UnexpectedEof));
    let mut r: &[u8] = &[1, 2, 3];
    assert_eq!(read_u32(&mut r), Err(Error::UnexpectedEof));
    assert!(r.is_empty());
    let mut r: &[u8] = &[1, 2, 3, 4, 5, 6, 7];
    assert_eq!(read_u64(&mut r), Err(Error::UnexpectedEof));
    assert!(r.is_empty());
    let mut r: &[u8] = &[1, 2];
    assert_eq!(read_bytes(&mut r, 3), Err(Error::UnexpectedEof));
    assert!(r.is_empty());
}

#[test]
fn a_request_is_its_op_and_its_path() {
    let mut w = Vec::new();
    write_op(&mut w, OP_STAT, "/a\u{e9}");
    assert_eq!(w, vec![1, 4, 0, 0, 0, b'/', b'a', 0xc3, 0xa9]);
}

#[test]
fn a_range_request_adds_its_range() {
    let mut w = vec![0xff];
    write_op_range(&mut w, "/", 0x0201, 0x0403);
    assert_eq!(
        w,
        vec![0xff, 5, 1, 0, 0, 0, b'/', 1, 2, 0, 0, 0, 0, 0, 0, 3, 4, 0, 0]
    );
}

#[test]
fn a_path_is_read_back() {
    for path in ["", "/", "/usr/lib/\u{1f980}.rs"] {
        let mut w = Vec::new();
        write_text(&mut w, path);
        w.push(1);
        let mut r: &[u8] = &w;
        assert_eq!(read_path(&mut r), Ok(path.to_string()));
        assert_eq!(r, &[1]);
    }
}

#[test]
fn a_path_must_be_valid_text() {
    let mut r: &[u8] = &[2, 0, 0, 0, 0xc3, 0x28, 9];
    assert_eq!(read_path(&mut r), Err(Error::InvalidData));
    assert_eq!(r, &[9]);
    let mut r: &[u8] = &[2, 0, 0, 0, b'a'];
    assert_eq!(read_path(&mut r), Err(Error::UnexpectedEof));
    assert!(r.is_empty());
    let mut r: &[u8] = &[2, 0, 0];
    assert_eq!(read_path(&mut r), Err(Error::UnexpectedEof));
}

#[test]
fn a_block_is_read_back() {
    let mut w = Vec::new();
    write_u32(&mut w, truncate32(3));
    write_bytes(&mut w, &[0, 255, 7]);
    w.push(4);
    let mut r: &[u8] = &w;
    assert_eq!(read_block(&mut r), Ok(&[0u8, 255, 7][..]));
    assert_eq!(r, &[4]);
}

#[test]
fn a_length_is_cut_to_32_bits() {
    assert_eq!(truncate32(0), 0);
    assert_eq!(truncate32(u32::MAX as usize), u32::MAX);
    assert_eq!(truncate32((1usize << 32) + 5), 5);
}

#[test]
fn metadata_takes_44_bytes() {
    let mut w = Vec::new();
    sample().write_to(&mut w);
    assert_eq!(w.len(), 44);
    assert_eq!(&w[..4], &[0xa4, 0x81, 0, 0]);
    assert_eq!(&w[4..12], &[8, 7, 6, 5, 4, 3, 2, 1]);
    assert_eq!(&w[12..16], &[0xe8, 3, 0, 0]);
    assert_eq!(&w[16..20], &[100, 0, 0, 0]);
    assert_eq!(&w[20..28], &[255; 8]);
    assert_eq!(&w[28..36], &[2, 0, 0, 0, 0, 0, 0, 0]);
    assert_eq!(&w[36..], &[77, 0, 0, 0, 0, 0, 0, 0]);
}

#[test]
fn metadata_is_read_back() {
    let mut w = Vec::new();
    sample().write_to(&mut w);
    w.extend_from_slice(b"more");
    let mut r: &[u8] = &w;
    assert_eq!(StatResponse::read_from(&mut r), Ok(sample()));
    assert_eq!(r, b"more");
    for n in 0..44 {
        let mut r = &w[..n];
        assert_eq!(StatResponse::read_from(&mut r), Err(Error::UnexpectedEof));
        assert!(r.is_empty());
    }
}
