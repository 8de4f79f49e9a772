//! The requests that a client sends and a server reads.

use vstd::prelude::*;
use vstd::utf8::{encode_utf8, valid_utf8};

use crate::error::Error;
use crate::wire::{
    le32, le64, op_bytes, op_range_bytes, parse_path, parse_u32, parse_u64, parse_u8, read_path,
    read_u32, read_u64, read_u8, text_bytes, u32_at, u64_at, write_op, write_op_range, OP_READ,
    OP_READDIR, OP_READLINK, OP_READ_RANGE, OP_STAT,
};
use crate::wire_laws::{
    law_bad_path_is_refused, law_path_extends, law_path_round_trip, law_range_request_layout,
    law_u32_extends, law_u32_round_trip, law_u64_extends,
    law_u64_round_trip, law_u8_round_trip,
};

verus! {

/// A request as the server understands it.
#[derive(Debug)]
pub enum Request {
    Stat { path: String },
    Read { path: String },
    ReadDir { path: String },
    ReadLink { path: String },
    ReadRange { path: String, offset: u64, size: u32 },
    Unknown { op: u8, path: String },
}

/// The meaning of a request: an operation on a path, and the range where one is asked for.
pub enum Asked {
    Whole { op: u8, path: Seq<char> },
    Range { path: Seq<char>, offset: u64, size: u32 },
}

impl View for Request {
    type V = Asked;

    open spec fn view(&self) -> Asked {
        match *self {
            Request::Stat { path } => Asked::Whole { op: OP_STAT, path: path@ },
            Request::Read { path } => Asked::Whole { op: OP_READ, path: path@ },
            Request::ReadDir { path } => Asked::Whole { op: OP_READDIR, path: path@ },
            Request::ReadLink { path } => Asked::Whole { op: OP_READLINK, path: path@ },
            Request::ReadRange { path, offset, size } => Asked::Range { path: path@, offset, size },
            Request::Unknown { op, path } => Asked::Whole { op, path: path@ },
        }
    }
}

/// Whether the server knows the operation.
pub open spec fn known_op(op: u8) -> bool {
    OP_STAT <= op <= OP_READ_RANGE
}

impl Request {
    /// A request of an operation the server knows is never of the unknown kind.
    pub open spec fn classified(&self) -> bool {
        *self matches Request::Unknown { op, .. } ==> !known_op(op)
    }
}

impl Asked {
    /// Whether the server knows the operation.
    pub open spec fn is_known(&self) -> bool {
        *self matches Asked::Whole { op, .. } ==> known_op(op)
    }

    pub open spec fn path(&self) -> Seq<char> {
        match *self {
            Asked::Whole { path, .. } => path,
            Asked::Range { path, .. } => path,
        }
    }

    /// The request on the wire.
    pub open spec fn bytes(&self) -> Seq<u8> {
        match *self {
            Asked::Whole { op, path } => op_bytes(op, path),
            Asked::Range { path, offset, size } => op_range_bytes(path, offset, size),
        }
    }

    /// Whether the wire can carry the request: the path fits its length field, and a range read
    /// has its range.
    pub open spec fn sendable(&self) -> bool {
        &&& encode_utf8(self.path()).len() < 0x1_0000_0000
        &&& *self matches Asked::Whole { op, .. } ==> op != OP_READ_RANGE
    }
}

/// What `read_request` makes of `s`: its result, and the bytes left over.
pub open spec fn parse_request(s: Seq<u8>) -> (Result<Asked, Error>, Seq<u8>) {
    match parse_u8(s) {
        (Ok(op), s1) => match parse_path(s1) {
            (Ok(path), s2) => if op != OP_READ_RANGE {
                (Ok(Asked::Whole { op, path }), s2)
            } else {
                match parse_u64(s2) {
                    (Ok(offset), s3) => match parse_u32(s3) {
                        (Ok(size), s4) => (Ok(Asked::Range { path, offset, size }), s4),
                        (Err(e), s4) => (Err(e), s4),
                    },
                    (Err(e), s3) => (Err(e), s3),
                }
            },
            (Err(e), s2) => (Err(e), s2),
        },
        (Err(e), s1) => (Err(e), s1),
    }
}

/// Takes a request off the front of `r`.
pub fn read_request(r: &mut &[u8]) -> (res: Result<Request, Error>)
    ensures
        res matches Ok(req) ==> {
            &&& req.classified()
            &&& parse_request(old(r)@) == (Ok::<Asked, Error>(req@), final(r)@)
        },
        res matches Err(e) ==> parse_request(old(r)@) == (Err::<Asked, Error>(e), final(r)@),
{
    let op: u8 = read_u8(r)?;
    let path = read_path(r)?;
    if op == OP_STAT {
        Ok(Request::Stat { path })
    } else if op == OP_READ {
        Ok(Request::Read { path })
    } else if op == OP_READDIR {
        Ok(Request::ReadDir { path })
    } else if op == OP_READLINK {
        Ok(Request::ReadLink { path })
    } else if op == OP_READ_RANGE {
        let offset: u64 = read_u64(r)?;
        let size: u32 = read_u32(r)?;
        Ok(Request::ReadRange { path, offset, size })
    } else {
        Ok(Request::Unknown { op, path })
    }
}

/// The bytes of a request that names a whole path.
pub fn whole_request(op: u8, path: &str) -> (res: Vec<u8>)
    ensures
        res@ == (Asked::Whole { op, path: path@ }).bytes(),
{
    let mut w: Vec<u8> = Vec::new();
    write_op(&mut w, op, path);
    assert(w@ =~= op_bytes(op, path@));
    w
}

/// The bytes of a range-read request.
pub fn range_request(path: &str, offset: u64, size: u32) -> (res: Vec<u8>)
    ensures
        res@ == (Asked::Range { path: path@, offset, size }).bytes(),
{
    let mut w: Vec<u8> = Vec::new();
    write_op_range(&mut w, path, offset, size);
    assert(w@ =~= op_range_bytes(path@, offset, size));
    w
}

/// The server understands every request as the client meant it, whatever follows it.
pub proof fn law_request_round_trip(asked: Asked, rest: Seq<u8>)
    requires
        asked.sendable(),
    ensures
        parse_request(asked.bytes() + rest) == (Ok::<Asked, Error>(asked), rest),
{
    match asked {
        Asked::Whole { op, path } => {
            let t = text_bytes(path) + rest;
            assert(asked.bytes() + rest =~= seq![op] + t);
            law_u8_round_trip(op, t);
            law_path_round_trip(path, rest);
        },
        Asked::Range { path, offset, size } => {
            let t2 = le32(size) + rest;
            let t1 = le64(offset) + t2;
            let t = text_bytes(path) + t1;
            assert(asked.bytes() + rest =~= seq![OP_READ_RANGE] + t);
            law_u8_round_trip(OP_READ_RANGE, t);
            law_path_round_trip(path, t1);
            law_u64_round_trip(offset, t2);
            law_u32_round_trip(size, rest);
        },
    }
}

/// What the server makes of a request does not change when more bytes arrive: those are left
/// over for the next request.
pub proof fn law_request_extends(s: Seq<u8>, more: Seq<u8>)
    requires
        parse_request(s).0 != Err::<Asked, Error>(Error::UnexpectedEof),
    ensures
        parse_request(s + more) == (parse_request(s).0, parse_request(s).1 + more),
{
    assert((s + more).skip(1) =~= s.skip(1) + more);
    let s1 = s.skip(1);
    law_path_extends(s1, more);
    if parse_path(s1).0 is Ok && s[0] == OP_READ_RANGE {
        let s2 = parse_path(s1).1;
        law_u64_extends(s2, more);
        law_u32_extends(parse_u64(s2).1, more);
    }
}

/// The requests on a stream, one after the other.
pub open spec fn stream_bytes(asked: Seq<Asked>) -> Seq<u8>
    decreases asked.len(),
{
    if asked.len() == 0 {
        Seq::empty()
    } else {
        asked[0].bytes() + stream_bytes(asked.drop_first())
    }
}

/// The requests that a server reads off a stream until it cannot read another.
pub open spec fn parse_stream(s: Seq<u8>) -> Seq<Asked>
    decreases s.len(),
    when parse_request(s).0 is Ok ==> parse_request(s).1.len() < s.len()
{
    match parse_request(s) {
        (Ok(asked), rest) => seq![asked] + parse_stream(rest),
        (Err(_), _) => Seq::empty(),
    }
}

/// The first request on a stream is read first, and the others as from a stream of their own.
proof fn lemma_stream_first(first: Asked, rest: Seq<u8>)
    requires
        first.sendable(),
    ensures
        parse_stream(first.bytes() + rest) == seq![first] + parse_stream(rest),
{
    law_request_round_trip(first, rest);
    assert(first.bytes().len() > 0);
    assert((first.bytes() + rest).len() > rest.len());
}

/// A server reads off a stream exactly the requests that were written to it, in their order.
pub proof fn law_stream_round_trip(asked: Seq<Asked>)
    requires
        forall|i: int| 0 <= i < asked.len() ==> (#[trigger] asked[i]).sendable(),
    ensures
        parse_stream(stream_bytes(asked)) == asked,
    decreases asked.len(),
{
    if asked.len() > 0 {
        let tail = asked.drop_first();
        law_stream_round_trip(tail);
        lemma_stream_first(asked[0], stream_bytes(tail));
        assert(seq![asked[0]] + tail =~= asked);
    } else {
        assert(stream_bytes(asked) =~= Seq::empty());
    }
}

/// Each request means its own operation, on the path and the range that it holds.
pub proof fn law_request_meaning(req: Request)
    ensures
        match req {
            Request::Stat { path } => req@ == (Asked::Whole { op: 1, path: path@ }),
            Request::Read { path } => req@ == (Asked::Whole { op: 2, path: path@ }),
            Request::ReadDir { path } => req@ == (Asked::Whole { op: 3, path: path@ }),
            Request::ReadLink { path } => req@ == (Asked::Whole { op: 4, path: path@ }),
            Request::ReadRange { path, offset, size } => req@ == (Asked::Range {
                path: path@,
                offset,
                size,
            }),
            Request::Unknown { op, path } => req@ == (Asked::Whole { op, path: path@ }),
        },
{
}

/// The server knows the operations from 1 to 5 and no others, on whatever path.
pub proof fn law_known_operations(asked: Asked)
    ensures
        asked.is_known() <==> match asked {
            Asked::Whole { op, .. } => op == 1 || op == 2 || op == 3 || op == 4 || op == 5,
            Asked::Range { .. } => true,
        },
{
}

/// A request that is cut off anywhere is no request yet.
pub proof fn law_cut_request_is_awaited(asked: Asked, n: int)
    requires
        asked.sendable(),
        0 <= n < asked.bytes().len(),
    ensures
        parse_request(asked.bytes().take(n)).0 == Err::<Asked, Error>(Error::UnexpectedEof),
{
    let s = asked.bytes().take(n);
    let more = asked.bytes().skip(n);
    assert(s + more =~= asked.bytes() + Seq::<u8>::empty());
    law_request_round_trip(asked, Seq::empty());
    if parse_request(s).0 != Err::<Asked, Error>(Error::UnexpectedEof) {
        law_request_extends(s, more);
        assert((parse_request(s).1 + more).len() == parse_request(s).1.len() + more.len());
    }
}

/// A request whose path is no valid text is refused, whatever its operation.
pub proof fn law_request_with_a_bad_path_is_refused(op: u8, path: Seq<u8>, rest: Seq<u8>)
    requires
        path.len() < 0x1_0000_0000,
        !valid_utf8(path),
    ensures
        parse_request(seq![op] + le32(path.len() as u32) + path + rest) == (
            Err::<Asked, Error>(Error::InvalidData),
            rest,
        ),
{
    let t = le32(path.len() as u32) + path + rest;
    assert(seq![op] + le32(path.len() as u32) + path + rest =~= seq![op] + t);
    law_u8_round_trip(op, t);
    law_bad_path_is_refused(path, rest);
}

/// A request on the wire is told by its bytes: the operation, or 5 for a range, and the path; a
/// range adds its offset and its size.
pub proof fn law_request_bytes(asked: Asked)
    ensures
        match asked {
            Asked::Whole { op, path } => asked.bytes() == op_bytes(op, path),
            Asked::Range { path, offset, size } => {
                let n = op_bytes(5, path).len() as int;
                &&& asked.bytes().len() == n + 12
                &&& asked.bytes().take(n) == op_bytes(5, path)
                &&& u64_at(asked.bytes().skip(n)) == offset
                &&& u32_at(asked.bytes().skip(n + 8)) == size
            },
        },
{
    if let Asked::Range { path, offset, size } = asked {
        law_range_request_layout(path, offset, size);
    }
}

} // verus!
