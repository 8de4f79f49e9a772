//! The receiving end of a connection: bytes arrive in pieces of any size, messages are taken off
//! the front once they are complete.

use vstd::prelude::*;
use vstd::slice::slice_to_vec;

use crate::error::Error;
use crate::reply::{
    block_result, listing_result, parse_block_reply, parse_data_reply, parse_dir_reply,
    parse_stat_reply, read_block_reply, read_data_reply, read_dir_reply, read_stat_reply,
};
use crate::reply_laws::{
    law_block_reply_extends, law_data_reply_extends, law_dir_reply_extends,
    law_dir_reply_runs_short, law_stat_reply_extends,
};
use crate::request::{
    law_cut_request_is_awaited, law_request_extends, law_request_round_trip, parse_request,
    read_request, Asked, Request,
};
use crate::wire::{write_bytes, StatResponse};

verus! {

/// Bytes that have arrived and belong to no message yet.
#[derive(Debug)]
pub struct Inbox {
    pending: Vec<u8>,
}

impl View for Inbox {
    type V = Seq<u8>;

    closed spec fn view(&self) -> Seq<u8> {
        self.pending@
    }
}

/// What taking a message off `pending` gives, where a reader makes `parsed` of `pending`: nothing
/// as long as bytes are missing, else the reader's result; and the bytes that are then pending.
pub open spec fn taken<T>(pending: Seq<u8>, parsed: (Result<T, Error>, Seq<u8>)) -> (
    Option<Result<T, Error>>,
    Seq<u8>,
) {
    if parsed.0 == Err::<T, Error>(Error::UnexpectedEof) {
        (None, pending)
    } else {
        (Some(parsed.0), parsed.1)
    }
}

/// The request that a result holds.
pub open spec fn asked_result(res: Result<Request, Error>) -> Result<Asked, Error> {
    match res {
        Ok(req) => Ok(req@),
        Err(e) => Err(e),
    }
}

impl Inbox {
    /// An inbox in which nothing has arrived.
    pub fn new() -> (res: Self)
        ensures
            res@ == Seq::<u8>::empty(),
    {
        Inbox { pending: Vec::new() }
    }

    /// Takes in bytes that have arrived.
    pub fn receive(&mut self, bytes: &[u8])
        ensures
            final(self)@ == old(self)@ + bytes@,
    {
        write_bytes(&mut self.pending, bytes);
    }

    /// Takes a request off the front, once it is complete.
    pub fn next_request(&mut self) -> (res: Option<Result<Request, Error>>)
        ensures
            (
                match res {
                    Some(r) => Some(asked_result(r)),
                    None => None,
                },
                final(self)@,
            ) == taken(old(self)@, parse_request(old(self)@)),
            res matches Some(Ok(req)) ==> req.classified(),
    {
        let mut r = self.pending.as_slice();
        let res = read_request(&mut r);
        match res {
            Err(Error::UnexpectedEof) => None,
            _ => {
                let rest = slice_to_vec(r);
                self.pending = rest;
                Some(res)
            },
        }
    }

    /// Takes the response to a STAT off the front, once it is complete.
    pub fn next_stat_reply(&mut self) -> (res: Option<Result<Option<StatResponse>, Error>>)
        ensures
            (res, final(self)@) == taken(old(self)@, parse_stat_reply(old(self)@)),
    {
        let mut r = self.pending.as_slice();
        let res = read_stat_reply(&mut r);
        match res {
            Err(Error::UnexpectedEof) => None,
            _ => {
                let rest = slice_to_vec(r);
                self.pending = rest;
                Some(res)
            },
        }
    }

    /// Takes the response to a range read or a READLINK off the front, once it is complete.
    pub fn next_block_reply(&mut self) -> (res: Option<Result<Option<Vec<u8>>, Error>>)
        ensures
            (
                match res {
                    Some(r) => Some(block_result(r)),
                    None => None,
                },
                final(self)@,
            ) == taken(old(self)@, parse_block_reply(old(self)@)),
    {
        let mut r = self.pending.as_slice();
        let res = read_block_reply(&mut r);
        match res {
            Err(Error::UnexpectedEof) => None,
            _ => {
                let rest = slice_to_vec(r);
                self.pending = rest;
                Some(res)
            },
        }
    }

    /// Takes the response to a READ off the front, once it is complete.
    pub fn next_data_reply(&mut self) -> (res: Option<Result<Option<Vec<u8>>, Error>>)
        ensures
            (
                match res {
                    Some(r) => Some(block_result(r)),
                    None => None,
                },
                final(self)@,
            ) == taken(old(self)@, parse_data_reply(old(self)@)),
    {
        let mut r = self.pending.as_slice();
        let res = read_data_reply(&mut r);
        match res {
            Err(Error::UnexpectedEof) => None,
            _ => {
                let rest = slice_to_vec(r);
                self.pending = rest;
                Some(res)
            },
        }
    }

    /// Takes the response to a READDIR off the front, once it is complete.
    pub fn next_dir_reply(&mut self) -> (res: Option<Result<Option<Vec<(String, u32)>>, Error>>)
        ensures
            (
                match res {
                    Some(r) => Some(listing_result(r)),
                    None => None,
                },
                final(self)@,
            ) == taken(old(self)@, parse_dir_reply(old(self)@)),
    {
        let mut r = self.pending.as_slice();
        let res = read_dir_reply(&mut r);
        match res {
            Err(Error::UnexpectedEof) => None,
            _ => {
                let rest = slice_to_vec(r);
                self.pending = rest;
                Some(res)
            },
        }
    }
}

/// What is taken off an inbox does not depend on how the bytes arrive: a request that can be
/// taken now is the same request once more bytes are there, and those stay pending.
pub proof fn law_request_arrival(pending: Seq<u8>, more: Seq<u8>)
    requires
        taken(pending, parse_request(pending)).0 is Some,
    ensures
        taken(pending + more, parse_request(pending + more)) == (
            taken(pending, parse_request(pending)).0,
            taken(pending, parse_request(pending)).1 + more,
        ),
{
    law_request_extends(pending, more);
}

/// The same of the response to a STAT.
pub proof fn law_stat_reply_arrival(pending: Seq<u8>, more: Seq<u8>)
    requires
        taken(pending, parse_stat_reply(pending)).0 is Some,
    ensures
        taken(pending + more, parse_stat_reply(pending + more)) == (
            taken(pending, parse_stat_reply(pending)).0,
            taken(pending, parse_stat_reply(pending)).1 + more,
        ),
{
    law_stat_reply_extends(pending, more);
}

/// The same of the response to a range read or a READLINK.
pub proof fn law_block_reply_arrival(pending: Seq<u8>, more: Seq<u8>)
    requires
        taken(pending, parse_block_reply(pending)).0 is Some,
    ensures
        taken(pending + more, parse_block_reply(pending + more)) == (
            taken(pending, parse_block_reply(pending)).0,
            taken(pending, parse_block_reply(pending)).1 + more,
        ),
{
    law_block_reply_extends(pending, more);
}

/// The same of the response to a READ.
pub proof fn law_data_reply_arrival(pending: Seq<u8>, more: Seq<u8>)
    requires
        taken(pending, parse_data_reply(pending)).0 is Some,
    ensures
        taken(pending + more, parse_data_reply(pending + more)) == (
            taken(pending, parse_data_reply(pending)).0,
            taken(pending, parse_data_reply(pending)).1 + more,
        ),
{
    law_data_reply_extends(pending, more);
}

/// The same of the response to a READDIR.
pub proof fn law_dir_reply_arrival(pending: Seq<u8>, more: Seq<u8>)
    requires
        taken(pending, parse_dir_reply(pending)).0 is Some,
    ensures
        taken(pending + more, parse_dir_reply(pending + more)) == (
            taken(pending, parse_dir_reply(pending)).0,
            taken(pending, parse_dir_reply(pending)).1 + more,
        ),
{
    law_dir_reply_runs_short(pending);
    law_dir_reply_extends(pending, more);
}

/// A message is taken once it is complete and not before: until then nothing is taken, and all
/// bytes stay pending.
pub proof fn law_request_is_taken_once_complete(asked: Asked, n: int, rest: Seq<u8>)
    requires
        asked.sendable(),
        0 <= n < asked.bytes().len(),
    ensures
        ({
            let part = asked.bytes().take(n);
            taken(part, parse_request(part)) == (None::<Result<Asked, Error>>, part)
        }),
        ({
            let all = asked.bytes() + rest;
            taken(all, parse_request(all)) == (Some(Ok::<Asked, Error>(asked)), rest)
        }),
{
    law_cut_request_is_awaited(asked, n);
    law_request_round_trip(asked, rest);
}

/// Whatever a reader makes of the pending bytes: they all stay where bytes are missing, else the
/// reader's result is taken and what it left over stays.
pub proof fn law_taking<T>(pending: Seq<u8>, res: Result<T, Error>, left: Seq<u8>)
    ensures
        taken(pending, (res, left)).0 is None <==> res matches Err(Error::UnexpectedEof),
        taken(pending, (res, left)).0 is None ==> taken(pending, (res, left)).1 == pending,
        taken(pending, (res, left)).0 matches Some(r) ==> r == res && taken(
            pending,
            (res, left),
        ).1 == left,
{
}

/// A request that was read is handed on as it is.
pub proof fn law_asked_result(res: Result<Request, Error>)
    ensures
        res matches Ok(req) ==> asked_result(res) == Ok::<Asked, Error>(req@),
        res matches Err(e) ==> asked_result(res) == Err::<Asked, Error>(e),
{
}

} // verus!
