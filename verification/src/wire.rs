//! The wire format: integers are little-endian, a path is its length and its UTF-8 bytes.
//!
//! A request is `[op: u8][path_len: u32][path bytes]`; a range read adds
//! `[offset: u64][size: u32]`. What a response holds depends on the operation.
//!
//! Writers append to a byte vector. Readers take their bytes off the front of a slice; a reader
//! that finds too few bytes drains the slice, as a stream is drained that ends early.

use vstd::prelude::*;
use vstd::slice::slice_subrange;
use vstd::utf8::{decode_utf8, encode_utf8, valid_utf8};

use crate::error::Error;
use crate::text::text_of;

verus! {

pub const OP_STAT: u8 = 1;

pub const OP_READ: u8 = 2;

pub const OP_READDIR: u8 = 3;

pub const OP_READLINK: u8 = 4;

pub const OP_READ_RANGE: u8 = 5;

pub const STATUS_OK: u8 = 0;

pub const STATUS_ENOENT: u8 = 1;

pub const STATUS_EACCES: u8 = 2;

pub const STATUS_ERROR: u8 = 255;

/// Directory, as in the file type bits of a Linux mode.
pub const S_IFDIR: u32 = 0o040000;

/// Regular file.
pub const S_IFREG: u32 = 0o100000;

/// Symbolic link.
pub const S_IFLNK: u32 = 0o120000;

/// The four bytes of `v`, least significant first.
pub open spec fn le32(v: u32) -> Seq<u8> {
    Seq::new(
        4,
        |i: int|
            if i == 0 {
                (v % 256) as u8
            } else if i == 1 {
                (v / 256 % 256) as u8
            } else if i == 2 {
                (v / 65536 % 256) as u8
            } else {
                (v / 16777216 % 256) as u8
            },
    )
}

/// The eight bytes of `v`, least significant first.
pub open spec fn le64(v: u64) -> Seq<u8> {
    le32((v % 4294967296) as u32) + le32((v / 4294967296) as u32)
}

/// The number whose four bytes, least significant first, begin `s`.
pub open spec fn u32_at(s: Seq<u8>) -> u32 {
    (s[0] + 256 * s[1] + 65536 * s[2] + 16777216 * s[3]) as u32
}

/// The number whose eight bytes, least significant first, begin `s`.
pub open spec fn u64_at(s: Seq<u8>) -> u64 {
    (u32_at(s) + 4294967296 * u32_at(s.skip(4))) as u64
}

/// The low 32 bits of a length.
pub open spec fn low32(n: nat) -> u32 {
    (n % 4294967296) as u32
}

/// What a reader of `n` raw bytes makes of `s`: its result, and the bytes left over.
pub open spec fn parse_bytes(s: Seq<u8>, n: nat) -> (Result<Seq<u8>, Error>, Seq<u8>) {
    if s.len() >= n {
        (Ok(s.take(n as int)), s.skip(n as int))
    } else {
        (Err(Error::UnexpectedEof), Seq::empty())
    }
}

/// What `read_u8` makes of `s`.
pub open spec fn parse_u8(s: Seq<u8>) -> (Result<u8, Error>, Seq<u8>) {
    if s.len() >= 1 {
        (Ok(s[0]), s.skip(1))
    } else {
        (Err(Error::UnexpectedEof), Seq::empty())
    }
}

/// What `read_u32` makes of `s`.
pub open spec fn parse_u32(s: Seq<u8>) -> (Result<u32, Error>, Seq<u8>) {
    if s.len() >= 4 {
        (Ok(u32_at(s)), s.skip(4))
    } else {
        (Err(Error::UnexpectedEof), Seq::empty())
    }
}

/// What `read_u64` makes of `s`.
pub open spec fn parse_u64(s: Seq<u8>) -> (Result<u64, Error>, Seq<u8>) {
    if s.len() >= 8 {
        (Ok(u64_at(s)), s.skip(8))
    } else {
        (Err(Error::UnexpectedEof), Seq::empty())
    }
}

/// Takes `n` bytes off the front of `r`.
pub fn read_bytes<'a>(r: &mut &'a [u8], n: usize) -> (res: Result<&'a [u8], Error>)
    ensures
        res matches Ok(b) ==> parse_bytes(old(r)@, n as nat) == (
            Ok::<Seq<u8>, Error>(b@),
            final(r)@,
        ),
        res matches Err(e) ==> parse_bytes(old(r)@, n as nat) == (
            Err::<Seq<u8>, Error>(e),
            final(r)@,
        ),
{
    let all: &'a [u8] = *r;
    if n <= all.len() {
        *r = slice_subrange(all, n, all.len());
        let head = slice_subrange(all, 0, n);
        assert(head@ =~= all@.take(n as int));
        assert(r@ =~= all@.skip(n as int));
        Ok(head)
    } else {
        *r = slice_subrange(all, all.len(), all.len());
        assert(r@ =~= Seq::<u8>::empty());
        Err(Error::UnexpectedEof)
    }
}

/// Appends one byte.
pub fn write_u8(w: &mut Vec<u8>, v: u8)
    ensures
        final(w)@ == old(w)@.push(v),
{
    w.push(v);
}

/// Appends the four bytes of `v`.
pub fn write_u32(w: &mut Vec<u8>, v: u32)
    ensures
        final(w)@ == old(w)@ + le32(v),
{
    w.push((v % 256) as u8);
    w.push((v / 256 % 256) as u8);
    w.push((v / 65536 % 256) as u8);
    w.push((v / 16777216 % 256) as u8);
    assert(w@ =~= old(w)@ + le32(v));
}

/// Appends the eight bytes of `v`.
pub fn write_u64(w: &mut Vec<u8>, v: u64)
    ensures
        final(w)@ == old(w)@ + le64(v),
{
    write_u32(w, (v % 4294967296) as u32);
    write_u32(w, (v / 4294967296) as u32);
    assert(w@ =~= old(w)@ + le64(v));
}

/// Takes one byte off the front of `r`.
pub fn read_u8(r: &mut &[u8]) -> (res: Result<u8, Error>)
    ensures
        (res, final(r)@) == parse_u8(old(r)@),
{
    match read_bytes(r, 1) {
        Ok(b) => Ok(b[0]),
        Err(e) => Err(e),
    }
}

/// Takes four bytes off the front of `r`.
pub fn read_u32(r: &mut &[u8]) -> (res: Result<u32, Error>)
    ensures
        (res, final(r)@) == parse_u32(old(r)@),
{
    match read_bytes(r, 4) {
        Ok(b) => Ok(
            b[0] as u32 + 256 * b[1] as u32 + 65536 * b[2] as u32 + 16777216 * b[3] as u32,
        ),
        Err(e) => Err(e),
    }
}

/// Takes eight bytes off the front of `r`.
pub fn read_u64(r: &mut &[u8]) -> (res: Result<u64, Error>)
    ensures
        (res, final(r)@) == parse_u64(old(r)@),
{
    let ghost all = r@;
    match read_bytes(r, 8) {
        Ok(b) => {
            let lo: u32 = b[0] as u32 + 256 * b[1] as u32 + 65536 * b[2] as u32 + 16777216
                * b[3] as u32;
            let hi: u32 = b[4] as u32 + 256 * b[5] as u32 + 65536 * b[6] as u32 + 16777216
                * b[7] as u32;
            assert(lo == u32_at(all));
            assert(hi == u32_at(all.skip(4)));
            Ok(lo as u64 + 4294967296 * hi as u64)
        },
        Err(e) => Err(e),
    }
}

/// The low 32 bits of `n`.
pub fn truncate32(n: usize) -> (res: u32)
    ensures
        res == low32(n as nat),
{
    (n as u64 % 4294967296) as u32
}

/// Appends raw bytes.
pub fn write_bytes(w: &mut Vec<u8>, bytes: &[u8])
    ensures
        final(w)@ == old(w)@ + bytes@,
{
    w.extend_from_slice(bytes);
    assert(w@ =~= old(w)@ + bytes@);
}

/// A text on the wire: the length of its UTF-8 encoding, cut to 32 bits, and the encoding.
pub open spec fn text_bytes(text: Seq<char>) -> Seq<u8> {
    le32(low32(encode_utf8(text).len())) + encode_utf8(text)
}

/// The request of operation `op` on `path`.
pub open spec fn op_bytes(op: u8, path: Seq<char>) -> Seq<u8> {
    seq![op] + text_bytes(path)
}

/// The request for `size` bytes of `path` from `offset` on.
pub open spec fn op_range_bytes(path: Seq<char>, offset: u64, size: u32) -> Seq<u8> {
    op_bytes(OP_READ_RANGE, path) + le64(offset) + le32(size)
}

/// Appends a text and its length.
pub fn write_text(w: &mut Vec<u8>, text: &str)
    ensures
        final(w)@ == old(w)@ + text_bytes(text@),
{
    let bytes = text.as_bytes();
    write_u32(w, truncate32(bytes.len()));
    write_bytes(w, bytes);
    assert(w@ =~= old(w)@ + text_bytes(text@));
}

/// Appends a request: `[op][path_len: u32][path bytes]`.
pub fn write_op(w: &mut Vec<u8>, op: u8, path: &str)
    ensures
        final(w)@ == old(w)@ + op_bytes(op, path@),
{
    write_u8(w, op);
    write_text(w, path);
    assert(w@ =~= old(w)@ + op_bytes(op, path@));
}

/// Appends a range-read request: `[op][path_len: u32][path bytes][offset: u64][size: u32]`.
pub fn write_op_range(w: &mut Vec<u8>, path: &str, offset: u64, size: u32)
    ensures
        final(w)@ == old(w)@ + op_range_bytes(path@, offset, size),
{
    write_op(w, OP_READ_RANGE, path);
    write_u64(w, offset);
    write_u32(w, size);
    assert(w@ =~= old(w)@ + op_range_bytes(path@, offset, size));
}

/// What a reader of a length and that many raw bytes makes of `s`.
pub open spec fn parse_block(s: Seq<u8>) -> (Result<Seq<u8>, Error>, Seq<u8>) {
    match parse_u32(s) {
        (Ok(len), rest) => parse_bytes(rest, len as nat),
        (Err(e), rest) => (Err(e), rest),
    }
}

/// What `read_path` makes of `s`.
pub open spec fn parse_path(s: Seq<u8>) -> (Result<Seq<char>, Error>, Seq<u8>) {
    match parse_block(s) {
        (Ok(bytes), rest) => if valid_utf8(bytes) {
            (Ok(decode_utf8(bytes)), rest)
        } else {
            (Err(Error::InvalidData), rest)
        },
        (Err(e), rest) => (Err(e), rest),
    }
}

/// Takes a length and that many raw bytes off the front of `r`.
pub fn read_block<'a>(r: &mut &'a [u8]) -> (res: Result<&'a [u8], Error>)
    ensures
        res matches Ok(b) ==> parse_block(old(r)@) == (Ok::<Seq<u8>, Error>(b@), final(r)@),
        res matches Err(e) ==> parse_block(old(r)@) == (Err::<Seq<u8>, Error>(e), final(r)@),
{
    let len: u32 = read_u32(r)?;
    read_bytes(r, len as usize)
}

/// Takes a path off the front of `r`.
pub fn read_path(r: &mut &[u8]) -> (res: Result<String, Error>)
    ensures
        res matches Ok(path) ==> parse_path(old(r)@) == (Ok::<Seq<char>, Error>(path@), final(r)@),
        res matches Err(e) ==> parse_path(old(r)@) == (Err::<Seq<char>, Error>(e), final(r)@),
{
    let bytes = read_block(r)?;
    match text_of(bytes) {
        Some(path) => Ok(path),
        None => Err(Error::InvalidData),
    }
}

/// What a file's metadata tells a client.
#[derive(Debug, Clone, Copy, PartialEq, Eq, Structural)]
pub struct StatResponse {
    pub mode: u32,
    pub size: u64,
    pub uid: u32,
    pub gid: u32,
    pub mtime: u64,
    pub nlink: u64,
    pub ino: u64,
}

/// The metadata on the wire.
pub open spec fn stat_bytes(st: StatResponse) -> Seq<u8> {
    le32(st.mode) + le64(st.size) + le32(st.uid) + le32(st.gid) + le64(st.mtime) + le64(st.nlink)
        + le64(st.ino)
}

/// What `StatResponse::read_from` makes of `s`.
pub open spec fn parse_stat(s: Seq<u8>) -> (Result<StatResponse, Error>, Seq<u8>) {
    if s.len() >= 44 {
        (
            Ok(
                StatResponse {
                    mode: u32_at(s),
                    size: u64_at(s.skip(4)),
                    uid: u32_at(s.skip(12)),
                    gid: u32_at(s.skip(16)),
                    mtime: u64_at(s.skip(20)),
                    nlink: u64_at(s.skip(28)),
                    ino: u64_at(s.skip(36)),
                },
            ),
            s.skip(44),
        )
    } else {
        (Err(Error::UnexpectedEof), Seq::empty())
    }
}

impl StatResponse {
    /// Appends the metadata.
    pub fn write_to(&self, w: &mut Vec<u8>)
        ensures
            final(w)@ == old(w)@ + stat_bytes(*self),
    {
        write_u32(w, self.mode);
        write_u64(w, self.size);
        write_u32(w, self.uid);
        write_u32(w, self.gid);
        write_u64(w, self.mtime);
        write_u64(w, self.nlink);
        write_u64(w, self.ino);
        assert(w@ =~= old(w)@ + stat_bytes(*self));
    }

    /// Takes the metadata off the front of `r`.
    pub fn read_from(r: &mut &[u8]) -> (res: Result<Self, Error>)
        ensures
            (res, final(r)@) == parse_stat(old(r)@),
    {
        let ghost all = r@;
        let mode: u32 = read_u32(r)?;
        let size: u64 = read_u64(r)?;
        assert(r@ =~= all.skip(12));
        let uid: u32 = read_u32(r)?;
        assert(r@ =~= all.skip(16));
        let gid: u32 = read_u32(r)?;
        assert(r@ =~= all.skip(20));
        let mtime: u64 = read_u64(r)?;
        assert(r@ =~= all.skip(28));
        let nlink: u64 = read_u64(r)?;
        assert(r@ =~= all.skip(36));
        let ino: u64 = read_u64(r)?;
        assert(r@ =~= all.skip(44));
        Ok(StatResponse { mode, size, uid, gid, mtime, nlink, ino })
    }
}

} // verus!
