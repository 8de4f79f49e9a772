//! What holds of the wire format as a whole: reading gives back what was written, whatever
//! follows it, and a reader's result does not depend on how the bytes arrive.

use vstd::prelude::*;
use vstd::utf8::{
    encode_utf8, encode_utf8_decode_utf8, encode_utf8_valid_utf8, valid_utf8,
};

use crate::error::Error;
use crate::wire::{
    le32, le64, low32, op_bytes, op_range_bytes, parse_block, parse_bytes, parse_path, parse_stat,
    parse_u32, parse_u64, parse_u8, stat_bytes, text_bytes, u32_at, u64_at, StatResponse,
};

verus! {

/// Reading a byte gives back the byte that was written.
pub proof fn law_u8_round_trip(v: u8, rest: Seq<u8>)
    ensures
        parse_u8(seq![v] + rest) == (Ok::<u8, Error>(v), rest),
{
    assert((seq![v] + rest).skip(1) =~= rest);
}

/// Reading a 32-bit number gives back the number that was written.
pub proof fn law_u32_round_trip(v: u32, rest: Seq<u8>)
    ensures
        parse_u32(le32(v) + rest) == (Ok::<u32, Error>(v), rest),
{
    let s = le32(v) + rest;
    assert(s.skip(4) =~= rest);
    assert(s[0] == v % 256);
    assert(s[1] == v / 256 % 256);
    assert(s[2] == v / 65536 % 256);
    assert(s[3] == v / 16777216 % 256);
}

/// How two halves laid end to end come apart again.
proof fn lemma_halves(a: Seq<u8>, b: Seq<u8>, rest: Seq<u8>)
    requires
        a.len() == 4,
        b.len() == 4,
    ensures
        (a + b + rest).len() >= 8,
        a + b + rest == a + (b + rest),
        (a + b + rest).skip(4) == b + rest,
        (a + b + rest).skip(8) == rest,
{
    assert(a + b + rest =~= a + (b + rest));
    assert((a + b + rest).skip(4) =~= b + rest);
    assert((a + b + rest).skip(8) =~= rest);
}

/// Reading a 64-bit number gives back the number that was written.
pub proof fn law_u64_round_trip(v: u64, rest: Seq<u8>)
    ensures
        parse_u64(le64(v) + rest) == (Ok::<u64, Error>(v), rest),
{
    let lo = (v % 4294967296) as u32;
    let hi = (v / 4294967296) as u32;
    let s = le64(v) + rest;
    lemma_halves(le32(lo), le32(hi), rest);
    assert(u32_at(s) == lo) by {
        law_u32_round_trip(lo, le32(hi) + rest);
    }
    assert(u32_at(s.skip(4)) == hi) by {
        law_u32_round_trip(hi, rest);
    }
    assert(lo + 4294967296 * hi == v);
}

/// A number below two to the power of 32 comes apart into the bytes it is made of.
proof fn lemma_digits(a: u8, b: u8, c: u8, d: u8)
    ensures
        ({
            let v = a + 256 * b + 65536 * c + 16777216 * d;
            &&& 0 <= v < 4294967296
            &&& v % 256 == a
            &&& v / 256 % 256 == b
            &&& v / 65536 % 256 == c
            &&& v / 16777216 % 256 == d
        }),
{
}

/// Writing the number that was read gives back the four bytes it was read from.
#[verifier::spinoff_prover]
pub proof fn law_u32_rewrite(s: Seq<u8>)
    requires
        s.len() >= 4,
    ensures
        le32(u32_at(s)) == s.take(4),
{
    lemma_digits(s[0], s[1], s[2], s[3]);
    assert(le32(u32_at(s)) =~= s.take(4));
}

/// Writing the number that was read gives back the eight bytes it was read from.
pub proof fn law_u64_rewrite(s: Seq<u8>)
    requires
        s.len() >= 8,
    ensures
        le64(u64_at(s)) == s.take(8),
{
    law_u32_rewrite(s);
    law_u32_rewrite(s.skip(4));
    lemma_whole(u32_at(s), u32_at(s.skip(4)));
    lemma_take_halves(s);
}

/// A number below two to the power of 64 comes apart into its halves.
proof fn lemma_whole(lo: u32, hi: u32)
    ensures
        ({
            let v = (lo + 4294967296 * hi) as u64;
            &&& (v % 4294967296) as u32 == lo
            &&& (v / 4294967296) as u32 == hi
        }),
{
}

proof fn lemma_take_halves(s: Seq<u8>)
    requires
        s.len() >= 8,
    ensures
        s.take(4) + s.skip(4).take(4) == s.take(8),
{
    assert(s.take(4) + s.skip(4).take(4) =~= s.take(8));
}

/// Reading raw bytes gives back the bytes that were written.
pub proof fn law_bytes_round_trip(bytes: Seq<u8>, rest: Seq<u8>)
    ensures
        parse_bytes(bytes + rest, bytes.len()) == (Ok::<Seq<u8>, Error>(bytes), rest),
{
    assert((bytes + rest).take(bytes.len() as int) =~= bytes);
    assert((bytes + rest).skip(bytes.len() as int) =~= rest);
}

/// Reading a block gives back the bytes that were written behind their length.
pub proof fn law_block_round_trip(bytes: Seq<u8>, rest: Seq<u8>)
    requires
        bytes.len() < 0x1_0000_0000,
    ensures
        parse_block(le32(low32(bytes.len())) + bytes + rest) == (
            Ok::<Seq<u8>, Error>(bytes),
            rest,
        ),
{
    let len = low32(bytes.len());
    assert(le32(len) + bytes + rest =~= le32(len) + (bytes + rest));
    law_u32_round_trip(len, bytes + rest);
    law_bytes_round_trip(bytes, rest);
}

/// Reading a path gives back the path that was written, where its length fits the length field.
pub proof fn law_path_round_trip(path: Seq<char>, rest: Seq<u8>)
    requires
        encode_utf8(path).len() < 0x1_0000_0000,
    ensures
        parse_path(text_bytes(path) + rest) == (Ok::<Seq<char>, Error>(path), rest),
{
    law_block_round_trip(encode_utf8(path), rest);
    encode_utf8_valid_utf8(path);
    encode_utf8_decode_utf8(path);
}

/// How seven pieces laid end to end come apart again.
proof fn lemma_pieces(
    a: Seq<u8>,
    b: Seq<u8>,
    c: Seq<u8>,
    d: Seq<u8>,
    e: Seq<u8>,
    f: Seq<u8>,
    g: Seq<u8>,
    rest: Seq<u8>,
)
    requires
        a.len() == 4,
        b.len() == 8,
        c.len() == 4,
        d.len() == 4,
        e.len() == 8,
        f.len() == 8,
        g.len() == 8,
    ensures
        ({
            let s = a + b + c + d + e + f + g + rest;
            &&& s.len() >= 44
            &&& s == a + s.skip(4)
            &&& s.skip(4) == b + s.skip(12)
            &&& s.skip(12) == c + s.skip(16)
            &&& s.skip(16) == d + s.skip(20)
            &&& s.skip(20) == e + s.skip(28)
            &&& s.skip(28) == f + s.skip(36)
            &&& s.skip(36) == g + s.skip(44)
            &&& s.skip(44) == rest
        }),
{
    let s = a + b + c + d + e + f + g + rest;
    assert(s =~= a + s.skip(4));
    assert(s.skip(4) =~= b + s.skip(12));
    assert(s.skip(12) =~= c + s.skip(16));
    assert(s.skip(16) =~= d + s.skip(20));
    assert(s.skip(20) =~= e + s.skip(28));
    assert(s.skip(28) =~= f + s.skip(36));
    assert(s.skip(36) =~= g + s.skip(44));
    assert(s.skip(44) =~= rest);
}

/// `s` begins with the four bytes of `v`.
#[verifier::opaque]
pub open spec fn begins32(s: Seq<u8>, v: u32) -> bool {
    u32_at(s) == v
}

/// `s` begins with the eight bytes of `v`.
#[verifier::opaque]
pub open spec fn begins64(s: Seq<u8>, v: u64) -> bool {
    u64_at(s) == v
}

pub proof fn lemma_begins32(s: Seq<u8>, v: u32, tail: Seq<u8>)
    requires
        s == le32(v) + tail,
    ensures
        begins32(s, v),
{
    reveal(begins32);
    law_u32_round_trip(v, tail);
}

pub proof fn lemma_begins64(s: Seq<u8>, v: u64, tail: Seq<u8>)
    requires
        s == le64(v) + tail,
    ensures
        begins64(s, v),
{
    reveal(begins64);
    law_u64_round_trip(v, tail);
}

/// What the parts of the metadata say of the whole.
proof fn lemma_stat_parts(s: Seq<u8>, st: StatResponse)
    requires
        s.len() >= 44,
        begins32(s, st.mode),
        begins64(s.skip(4), st.size),
        begins32(s.skip(12), st.uid),
        begins32(s.skip(16), st.gid),
        begins64(s.skip(20), st.mtime),
        begins64(s.skip(28), st.nlink),
        begins64(s.skip(36), st.ino),
    ensures
        parse_stat(s) == (Ok::<StatResponse, Error>(st), s.skip(44)),
{
    reveal(begins32);
    reveal(begins64);
}

/// Reading metadata gives back the metadata that was written.
pub proof fn law_stat_round_trip(st: StatResponse, rest: Seq<u8>)
    ensures
        parse_stat(stat_bytes(st) + rest) == (Ok::<StatResponse, Error>(st), rest),
{
    let s = stat_bytes(st) + rest;
    lemma_pieces(
        le32(st.mode),
        le64(st.size),
        le32(st.uid),
        le32(st.gid),
        le64(st.mtime),
        le64(st.nlink),
        le64(st.ino),
        rest,
    );
    lemma_begins32(s, st.mode, s.skip(4));
    lemma_begins64(s.skip(4), st.size, s.skip(12));
    lemma_begins32(s.skip(12), st.uid, s.skip(16));
    lemma_begins32(s.skip(16), st.gid, s.skip(20));
    lemma_begins64(s.skip(20), st.mtime, s.skip(28));
    lemma_begins64(s.skip(28), st.nlink, s.skip(36));
    lemma_begins64(s.skip(36), st.ino, s.skip(44));
    lemma_stat_parts(s, st);
}

/// A reader that has enough bytes gives the same number when more follow, and leaves those over.
pub proof fn law_u32_extends(s: Seq<u8>, more: Seq<u8>)
    requires
        parse_u32(s).0 is Ok,
    ensures
        parse_u32(s + more) == (parse_u32(s).0, parse_u32(s).1 + more),
{
    assert((s + more).skip(4) =~= s.skip(4) + more);
}

/// The same of a 64-bit number.
pub proof fn law_u64_extends(s: Seq<u8>, more: Seq<u8>)
    requires
        parse_u64(s).0 is Ok,
    ensures
        parse_u64(s + more) == (parse_u64(s).0, parse_u64(s).1 + more),
{
    assert((s + more).skip(8) =~= s.skip(8) + more);
}

/// The same of raw bytes.
pub proof fn law_bytes_extend(s: Seq<u8>, n: nat, more: Seq<u8>)
    requires
        parse_bytes(s, n).0 is Ok,
    ensures
        parse_bytes(s + more, n) == (parse_bytes(s, n).0, parse_bytes(s, n).1 + more),
{
    assert((s + more).take(n as int) =~= s.take(n as int));
    assert((s + more).skip(n as int) =~= s.skip(n as int) + more);
}

/// The same of a block.
pub proof fn law_block_extends(s: Seq<u8>, more: Seq<u8>)
    requires
        parse_block(s).0 is Ok,
    ensures
        parse_block(s + more) == (parse_block(s).0, parse_block(s).1 + more),
{
    law_u32_extends(s, more);
    law_bytes_extend(parse_u32(s).1, parse_u32(s).0->Ok_0 as nat, more);
}

/// A path reader that has enough bytes gives the same path, or the same complaint about the
/// text, when more bytes follow, and leaves those over.
pub proof fn law_path_extends(s: Seq<u8>, more: Seq<u8>)
    requires
        parse_path(s).0 != Err::<Seq<char>, Error>(Error::UnexpectedEof),
    ensures
        parse_path(s + more) == (parse_path(s).0, parse_path(s).1 + more),
{
    law_block_extends(s, more);
}

/// The same of metadata.
pub proof fn law_stat_extends(s: Seq<u8>, more: Seq<u8>)
    requires
        parse_stat(s).0 is Ok,
    ensures
        parse_stat(s + more) == (parse_stat(s).0, parse_stat(s).1 + more),
{
    let t = s + more;
    assert(t.skip(44) =~= s.skip(44) + more);
    assert forall|k: int| 0 <= k <= 36 implies #[trigger] t.skip(k) == s.skip(k) + more by {
        assert(t.skip(k) =~= s.skip(k) + more);
    }
    assert(u64_at(t.skip(4)) == u64_at(s.skip(4))) by {
        law_u64_extends(s.skip(4), more);
    }
    assert(u64_at(t.skip(20)) == u64_at(s.skip(20))) by {
        law_u64_extends(s.skip(20), more);
    }
    assert(u64_at(t.skip(28)) == u64_at(s.skip(28))) by {
        law_u64_extends(s.skip(28), more);
    }
    assert(u64_at(t.skip(36)) == u64_at(s.skip(36))) by {
        law_u64_extends(s.skip(36), more);
    }
}

/// Requests on different paths or of different operations differ on the wire.
pub proof fn law_op_injective(op1: u8, path1: Seq<char>, op2: u8, path2: Seq<char>)
    requires
        encode_utf8(path1).len() < 0x1_0000_0000,
        encode_utf8(path2).len() < 0x1_0000_0000,
        op_bytes(op1, path1) == op_bytes(op2, path2),
    ensures
        op1 == op2,
        path1 == path2,
{
    let e = Seq::<u8>::empty();
    assert(op_bytes(op1, path1)[0] == op1);
    assert(op_bytes(op2, path2)[0] == op2);
    assert(op_bytes(op1, path1).skip(1) =~= text_bytes(path1) + e);
    assert(op_bytes(op2, path2).skip(1) =~= text_bytes(path2) + e);
    law_path_round_trip(path1, e);
    law_path_round_trip(path2, e);
}

/// A 32-bit number is the sum of its bytes, the first counted once and each of the others 256
/// times as much as the one before it.
pub proof fn law_u32_is_its_bytes(v: u32)
    ensures
        le32(v).len() == 4,
        le32(v)[0] + 256 * le32(v)[1] + 65536 * le32(v)[2] + 16777216 * le32(v)[3] == v,
{
}

/// A 64-bit number is the sum of its bytes in the same way.
pub proof fn law_u64_is_its_bytes(v: u64)
    ensures
        le64(v).len() == 8,
        le64(v)[0] + 256 * le64(v)[1] + 65536 * le64(v)[2] + 16777216 * le64(v)[3] + 4294967296 * (
        le64(v)[4] + 256 * le64(v)[5] + 65536 * le64(v)[6] + 16777216 * le64(v)[7]) == v,
{
    let lo = (v % 4294967296) as u32;
    let hi = (v / 4294967296) as u32;
    law_u32_is_its_bytes(lo);
    law_u32_is_its_bytes(hi);
    lemma_two_fours(le32(lo), le32(hi));
    assert(lo + 4294967296 * hi == v);
}

proof fn lemma_two_fours(a: Seq<u8>, b: Seq<u8>)
    requires
        a.len() == 4,
        b.len() == 4,
    ensures
        (a + b).len() == 8,
        (a + b)[0] == a[0] && (a + b)[1] == a[1] && (a + b)[2] == a[2] && (a + b)[3] == a[3],
        (a + b)[4] == b[0] && (a + b)[5] == b[1] && (a + b)[6] == b[2] && (a + b)[7] == b[3],
{
}

/// The number that is read off four bytes is the sum of the bytes.
pub proof fn law_u32_at_sums_the_bytes(s: Seq<u8>)
    requires
        s.len() >= 4,
    ensures
        u32_at(s) == s[0] + 256 * s[1] + 65536 * s[2] + 16777216 * s[3],
{
    lemma_digits(s[0], s[1], s[2], s[3]);
}

/// The number that is read off eight bytes is the sum of the bytes.
pub proof fn law_u64_at_sums_the_bytes(s: Seq<u8>)
    requires
        s.len() >= 8,
    ensures
        u64_at(s) == s[0] + 256 * s[1] + 65536 * s[2] + 16777216 * s[3] + 4294967296 * (s[4] + 256
            * s[5] + 65536 * s[6] + 16777216 * s[7]),
{
    law_u32_at_sums_the_bytes(s);
    law_u32_at_sums_the_bytes(s.skip(4));
    lemma_whole(u32_at(s), u32_at(s.skip(4)));
}

/// A length is cut by a multiple of two to the power of 32, and not at all where it fits.
pub proof fn law_length_is_cut(n: nat)
    ensures
        (n - low32(n)) % 4294967296 == 0,
        n < 4294967296 ==> low32(n) == n,
{
}

/// Too few bytes are no value, whatever they are, and none of them is left.
pub proof fn law_short_input_is_no_value(s: Seq<u8>, n: nat)
    ensures
        s.len() < 1 ==> parse_u8(s) == (Err::<u8, Error>(Error::UnexpectedEof), Seq::<u8>::empty()),
        s.len() < 4 ==> parse_u32(s) == (
            Err::<u32, Error>(Error::UnexpectedEof),
            Seq::<u8>::empty(),
        ),
        s.len() < 8 ==> parse_u64(s) == (
            Err::<u64, Error>(Error::UnexpectedEof),
            Seq::<u8>::empty(),
        ),
        s.len() < n ==> parse_bytes(s, n) == (
            Err::<Seq<u8>, Error>(Error::UnexpectedEof),
            Seq::<u8>::empty(),
        ),
        s.len() < 44 ==> parse_stat(s) == (
            Err::<StatResponse, Error>(Error::UnexpectedEof),
            Seq::<u8>::empty(),
        ),
{
}

/// A block that announces more bytes than follow is no block, and no path either.
pub proof fn law_short_block_is_no_block(n: u32, bytes: Seq<u8>)
    requires
        bytes.len() < n,
    ensures
        parse_block(le32(n) + bytes) == (
            Err::<Seq<u8>, Error>(Error::UnexpectedEof),
            Seq::<u8>::empty(),
        ),
        parse_path(le32(n) + bytes) == (
            Err::<Seq<char>, Error>(Error::UnexpectedEof),
            Seq::<u8>::empty(),
        ),
{
    law_u32_round_trip(n, bytes);
}

/// A path must be valid text: other bytes are refused, and what follows them is left over.
pub proof fn law_bad_path_is_refused(bytes: Seq<u8>, rest: Seq<u8>)
    requires
        bytes.len() < 0x1_0000_0000,
        !valid_utf8(bytes),
    ensures
        parse_path(le32(bytes.len() as u32) + bytes + rest) == (
            Err::<Seq<char>, Error>(Error::InvalidData),
            rest,
        ),
{
    assert(low32(bytes.len()) == bytes.len() as u32);
    law_block_round_trip(bytes, rest);
}

/// How a byte, a number and what follows them come apart again.
pub proof fn lemma_tagged(tag: u8, number: Seq<u8>, body: Seq<u8>)
    ensures
        ({
            let s = seq![tag] + number + body;
            &&& s.len() == 1 + number.len() + body.len()
            &&& s[0] == tag
            &&& s.skip(1) == number + body
            &&& s.skip(1 + number.len() as int) == body
        }),
{
    let s = seq![tag] + number + body;
    assert(s.skip(1) =~= number + body);
    assert(s.skip(1 + number.len() as int) =~= body);
}

/// A request holds the operation in its first byte, the length of the path in the next four, and
/// behind them the path.
pub proof fn law_request_layout(op: u8, path: Seq<char>)
    requires
        encode_utf8(path).len() < 0x1_0000_0000,
    ensures
        op_bytes(op, path).len() == 5 + encode_utf8(path).len(),
        op_bytes(op, path)[0] == op,
        u32_at(op_bytes(op, path).skip(1)) == encode_utf8(path).len(),
        op_bytes(op, path).skip(5) == encode_utf8(path),
{
    let body = encode_utf8(path);
    let number = le32(low32(body.len()));
    lemma_tagged(op, number, body);
    assert(op_bytes(op, path) =~= seq![op] + number + body);
    lemma_u32_first(op_bytes(op, path).skip(1), low32(body.len()), body);
}

/// The number that four bytes at the front hold.
pub proof fn lemma_u32_first(s: Seq<u8>, v: u32, tail: Seq<u8>)
    requires
        s == le32(v) + tail,
    ensures
        u32_at(s) == v,
{
    law_u32_round_trip(v, tail);
}

/// The number that eight bytes at the front hold.
pub proof fn lemma_u64_first(s: Seq<u8>, v: u64, tail: Seq<u8>)
    requires
        s == le64(v) + tail,
    ensures
        u64_at(s) == v,
{
    law_u64_round_trip(v, tail);
}

proof fn lemma_range_tail(front: Seq<u8>, offset: Seq<u8>, size: Seq<u8>)
    requires
        offset.len() == 8,
        size.len() == 4,
    ensures
        ({
            let s = front + offset + size;
            let n = front.len() as int;
            &&& s.len() == n + 12
            &&& s.take(n) == front
            &&& s.skip(n) == offset + size
            &&& s.skip(n + 8) == size + Seq::empty()
        }),
{
    let s = front + offset + size;
    let n = front.len() as int;
    assert(s.take(n) =~= front);
    assert(s.skip(n) =~= offset + size);
    assert(s.skip(n + 8) =~= size + Seq::empty());
}

/// A range request is the request of operation 5 for the path, and behind it eight bytes of
/// offset and four of size.
pub proof fn law_range_request_layout(path: Seq<char>, offset: u64, size: u32)
    ensures
        ({
            let s = op_range_bytes(path, offset, size);
            let n = op_bytes(5, path).len() as int;
            &&& s.len() == n + 12
            &&& s.take(n) == op_bytes(5, path)
            &&& u64_at(s.skip(n)) == offset
            &&& u32_at(s.skip(n + 8)) == size
        }),
{
    let s = op_range_bytes(path, offset, size);
    let front = op_bytes(5, path);
    let n = front.len() as int;
    lemma_range_tail(front, le64(offset), le32(size));
    lemma_u64_first(s.skip(n), offset, le32(size));
    lemma_u32_first(s.skip(n + 8), size, Seq::empty());
}

/// What the parts of the metadata say of the whole, part by part.
proof fn lemma_stat_fields(s: Seq<u8>, st: StatResponse)
    requires
        begins32(s, st.mode),
        begins64(s.skip(4), st.size),
        begins32(s.skip(12), st.uid),
        begins32(s.skip(16), st.gid),
        begins64(s.skip(20), st.mtime),
        begins64(s.skip(28), st.nlink),
        begins64(s.skip(36), st.ino),
    ensures
        u32_at(s) == st.mode,
        u64_at(s.skip(4)) == st.size,
        u32_at(s.skip(12)) == st.uid,
        u32_at(s.skip(16)) == st.gid,
        u64_at(s.skip(20)) == st.mtime,
        u64_at(s.skip(28)) == st.nlink,
        u64_at(s.skip(36)) == st.ino,
{
    reveal(begins32);
    reveal(begins64);
}

/// Metadata takes 44 bytes: the mode stands first, then the size, the owner, the group, the time
/// of last modification, the number of links and the inode number.
pub proof fn law_stat_layout(st: StatResponse)
    ensures
        stat_bytes(st).len() == 44,
        u32_at(stat_bytes(st)) == st.mode,
        u64_at(stat_bytes(st).skip(4)) == st.size,
        u32_at(stat_bytes(st).skip(12)) == st.uid,
        u32_at(stat_bytes(st).skip(16)) == st.gid,
        u64_at(stat_bytes(st).skip(20)) == st.mtime,
        u64_at(stat_bytes(st).skip(28)) == st.nlink,
        u64_at(stat_bytes(st).skip(36)) == st.ino,
{
    let e = Seq::<u8>::empty();
    let s = stat_bytes(st);
    lemma_no_rest(s);
    lemma_pieces(
        le32(st.mode),
        le64(st.size),
        le32(st.uid),
        le32(st.gid),
        le64(st.mtime),
        le64(st.nlink),
        le64(st.ino),
        e,
    );
    lemma_begins32(s, st.mode, s.skip(4));
    lemma_begins64(s.skip(4), st.size, s.skip(12));
    lemma_begins32(s.skip(12), st.uid, s.skip(16));
    lemma_begins32(s.skip(16), st.gid, s.skip(20));
    lemma_begins64(s.skip(20), st.mtime, s.skip(28));
    lemma_begins64(s.skip(28), st.nlink, s.skip(36));
    lemma_begins64(s.skip(36), st.ino, s.skip(44));
    lemma_stat_fields(s, st);
}

/// Nothing laid behind a piece leaves it as it is.
pub proof fn lemma_no_rest(s: Seq<u8>)
    ensures
        s + Seq::<u8>::empty() == s,
{
    assert(s + Seq::<u8>::empty() =~= s);
}

} // verus!
