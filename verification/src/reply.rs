//! The responses that a server sends and a client reads. A response begins with a status; what
//! follows the status `STATUS_OK` depends on the operation, and nothing follows another status.

use vstd::prelude::*;
use vstd::slice::slice_to_vec;

use crate::error::Error;
use crate::text::{lossy_text, name_text};
use crate::wire::{
    le32, le64, low32, parse_block, parse_bytes, parse_stat, parse_u32, parse_u64, parse_u8,
    read_block, read_bytes, read_u32, read_u64, read_u8, stat_bytes, text_bytes, truncate32,
    write_bytes, write_text, write_u32, write_u64, write_u8, StatResponse, STATUS_OK,
};

verus! {

/// A directory entry as a client gets it: its name and the file type bits of its mode.
pub type Listing = Seq<(Seq<char>, u32)>;

/// The listing that a vector of names and types holds.
pub open spec fn listing(entries: Seq<(String, u32)>) -> Listing {
    entries.map_values(|e: (String, u32)| (e.0@, e.1))
}

/// The response to a STAT: the metadata.
pub open spec fn stat_reply(st: StatResponse) -> Seq<u8> {
    seq![STATUS_OK] + stat_bytes(st)
}

/// The response to a READ: the length of the file, and its contents.
pub open spec fn data_reply(data: Seq<u8>) -> Seq<u8> {
    seq![STATUS_OK] + le64(data.len() as u64) + data
}

/// The response to a range read: the number of bytes read, and the bytes.
pub open spec fn range_reply(data: Seq<u8>) -> Seq<u8> {
    seq![STATUS_OK] + le32(low32(data.len())) + data
}

/// The response to a READLINK: the length of the link's target, and the target.
pub open spec fn link_reply(target: Seq<char>) -> Seq<u8> {
    seq![STATUS_OK] + text_bytes(target)
}

/// One directory entry on the wire.
pub open spec fn entry_bytes(entry: (Seq<char>, u32)) -> Seq<u8> {
    text_bytes(entry.0) + le32(entry.1)
}

/// Directory entries on the wire, one after the other.
pub open spec fn entries_bytes(entries: Listing) -> Seq<u8>
    decreases entries.len(),
{
    if entries.len() == 0 {
        Seq::empty()
    } else {
        entries_bytes(entries.drop_last()) + entry_bytes(entries.last())
    }
}

/// The response to a READDIR: the number of entries, and the entries.
pub open spec fn dir_reply(entries: Listing) -> Seq<u8> {
    seq![STATUS_OK] + le32(low32(entries.len())) + entries_bytes(entries)
}

/// A response that holds a status alone.
pub fn write_status_reply(status: u8) -> (res: Vec<u8>)
    ensures
        res@ == seq![status],
{
    let mut w: Vec<u8> = Vec::new();
    write_u8(&mut w, status);
    assert(w@ =~= seq![status]);
    w
}

/// The response to a STAT that succeeded.
pub fn write_stat_reply(st: &StatResponse) -> (res: Vec<u8>)
    ensures
        res@ == stat_reply(*st),
{
    let mut w = write_status_reply(STATUS_OK);
    st.write_to(&mut w);
    w
}

/// The response to a READ that succeeded.
pub fn write_data_reply(data: &[u8]) -> (res: Vec<u8>)
    ensures
        res@ == data_reply(data@),
{
    let mut w = write_status_reply(STATUS_OK);
    write_u64(&mut w, data.len() as u64);
    write_bytes(&mut w, data);
    w
}

/// The response to a range read that succeeded.
pub fn write_range_reply(data: &[u8]) -> (res: Vec<u8>)
    ensures
        res@ == range_reply(data@),
{
    let mut w = write_status_reply(STATUS_OK);
    write_u32(&mut w, truncate32(data.len()));
    write_bytes(&mut w, data);
    w
}

/// The response to a READLINK that succeeded.
pub fn write_link_reply(target: &str) -> (res: Vec<u8>)
    ensures
        res@ == link_reply(target@),
{
    let mut w = write_status_reply(STATUS_OK);
    write_text(&mut w, target);
    w
}

/// The response to a READDIR that succeeded.
pub fn write_dir_reply(entries: &Vec<(String, u32)>) -> (res: Vec<u8>)
    ensures
        res@ == dir_reply(listing(entries@)),
{
    let mut w = write_status_reply(STATUS_OK);
    write_u32(&mut w, truncate32(entries.len()));
    let ghost head = w@;
    let ghost all = listing(entries@);
    let mut i: usize = 0;
    assert(w@ =~= head + entries_bytes(all.take(0)));
    while i < entries.len()
        invariant
            i <= entries@.len(),
            all == listing(entries@),
            w@ == head + entries_bytes(all.take(i as int)),
        decreases entries@.len() - i,
    {
        write_text(&mut w, entries[i].0.as_str());
        write_u32(&mut w, entries[i].1);
        assert(all.take(i + 1).drop_last() =~= all.take(i as int));
        assert(w@ =~= head + entries_bytes(all.take(i + 1)));
        i += 1;
    }
    assert(all.take(i as int) =~= all);
    w
}

/// What `read_stat_reply` makes of `s`: metadata, or nothing where the status is not
/// `STATUS_OK`; and the bytes left over.
pub open spec fn parse_stat_reply(s: Seq<u8>) -> (Result<Option<StatResponse>, Error>, Seq<u8>) {
    match parse_u8(s) {
        (Ok(status), s1) => if status != STATUS_OK {
            (Ok(None), s1)
        } else {
            match parse_stat(s1) {
                (Ok(st), s2) => (Ok(Some(st)), s2),
                (Err(e), s2) => (Err(e), s2),
            }
        },
        (Err(e), s1) => (Err(e), s1),
    }
}

/// What `read_block_reply` makes of `s`.
pub open spec fn parse_block_reply(s: Seq<u8>) -> (Result<Option<Seq<u8>>, Error>, Seq<u8>) {
    match parse_u8(s) {
        (Ok(status), s1) => if status != STATUS_OK {
            (Ok(None), s1)
        } else {
            match parse_block(s1) {
                (Ok(data), s2) => (Ok(Some(data)), s2),
                (Err(e), s2) => (Err(e), s2),
            }
        },
        (Err(e), s1) => (Err(e), s1),
    }
}

/// What `read_data_reply` makes of `s`.
pub open spec fn parse_data_reply(s: Seq<u8>) -> (Result<Option<Seq<u8>>, Error>, Seq<u8>) {
    match parse_u8(s) {
        (Ok(status), s1) => if status != STATUS_OK {
            (Ok(None), s1)
        } else {
            match parse_u64(s1) {
                (Ok(len), s2) => match parse_bytes(s2, len as nat) {
                    (Ok(data), s3) => (Ok(Some(data)), s3),
                    (Err(e), s3) => (Err(e), s3),
                },
                (Err(e), s2) => (Err(e), s2),
            }
        },
        (Err(e), s1) => (Err(e), s1),
    }
}

/// What a reader of one directory entry makes of `s`.
pub open spec fn parse_entry(s: Seq<u8>) -> (Result<(Seq<char>, u32), Error>, Seq<u8>) {
    match parse_block(s) {
        (Ok(name), s1) => match parse_u32(s1) {
            (Ok(ftype), s2) => (Ok((name_text(name), ftype)), s2),
            (Err(e), s2) => (Err(e), s2),
        },
        (Err(e), s1) => (Err(e), s1),
    }
}

/// What a reader of `n` directory entries makes of `s`.
pub open spec fn parse_entries(s: Seq<u8>, n: nat) -> (Result<Listing, Error>, Seq<u8>)
    decreases n,
{
    if n == 0 {
        (Ok(Seq::empty()), s)
    } else {
        match parse_entry(s) {
            (Ok(entry), s1) => after_entry(entry, parse_entries(s1, (n - 1) as nat)),
            (Err(e), s1) => (Err(e), s1),
        }
    }
}

/// The result of reading entries, with one more entry in front.
pub open spec fn after_entry(
    entry: (Seq<char>, u32),
    p: (Result<Listing, Error>, Seq<u8>),
) -> (Result<Listing, Error>, Seq<u8>) {
    after_entries(seq![entry], p)
}

/// The result of reading entries, with more entries in front.
pub open spec fn after_entries(
    front: Listing,
    p: (Result<Listing, Error>, Seq<u8>),
) -> (Result<Listing, Error>, Seq<u8>) {
    match p {
        (Ok(entries), s) => (Ok(front + entries), s),
        (Err(e), s) => (Err(e), s),
    }
}

/// What `read_dir_reply` makes of `s`.
pub open spec fn parse_dir_reply(s: Seq<u8>) -> (Result<Option<Listing>, Error>, Seq<u8>) {
    match parse_u8(s) {
        (Ok(status), s1) => if status != STATUS_OK {
            (Ok(None), s1)
        } else {
            match parse_u32(s1) {
                (Ok(count), s2) => match parse_entries(s2, count as nat) {
                    (Ok(entries), s3) => (Ok(Some(entries)), s3),
                    (Err(e), s3) => (Err(e), s3),
                },
                (Err(e), s2) => (Err(e), s2),
            }
        },
        (Err(e), s1) => (Err(e), s1),
    }
}

/// Takes the response to a STAT off the front of `r`.
pub fn read_stat_reply(r: &mut &[u8]) -> (res: Result<Option<StatResponse>, Error>)
    ensures
        (res, final(r)@) == parse_stat_reply(old(r)@),
{
    let status: u8 = read_u8(r)?;
    if status != STATUS_OK {
        return Ok(None);
    }
    let st = StatResponse::read_from(r)?;
    Ok(Some(st))
}

/// The bytes that a result holds.
pub open spec fn block_result(res: Result<Option<Vec<u8>>, Error>) -> Result<
    Option<Seq<u8>>,
    Error,
> {
    match res {
        Ok(Some(data)) => Ok(Some(data@)),
        Ok(None) => Ok(None),
        Err(e) => Err(e),
    }
}

/// The listing that a result holds.
pub open spec fn listing_result(res: Result<Option<Vec<(String, u32)>>, Error>) -> Result<
    Option<Listing>,
    Error,
> {
    match res {
        Ok(Some(entries)) => Ok(Some(listing(entries@))),
        Ok(None) => Ok(None),
        Err(e) => Err(e),
    }
}

/// Takes the response to a range read or a READLINK off the front of `r`.
pub fn read_block_reply(r: &mut &[u8]) -> (res: Result<Option<Vec<u8>>, Error>)
    ensures
        (block_result(res), final(r)@) == parse_block_reply(old(r)@),
{
    let status: u8 = read_u8(r)?;
    if status != STATUS_OK {
        return Ok(None);
    }
    let data = read_block(r)?;
    Ok(Some(slice_to_vec(data)))
}

/// Takes the response to a READ off the front of `r`.
pub fn read_data_reply(r: &mut &[u8]) -> (res: Result<Option<Vec<u8>>, Error>)
    ensures
        (block_result(res), final(r)@) == parse_data_reply(old(r)@),
{
    let status: u8 = read_u8(r)?;
    if status != STATUS_OK {
        return Ok(None);
    }
    let len: u64 = read_u64(r)?;
    let have: usize = r.len();
    if (have as u64) < len {
        let _ = read_bytes(r, have);
        assert(r@ =~= Seq::<u8>::empty());
        return Err(Error::UnexpectedEof);
    }
    let data = read_bytes(r, len as usize)?;
    Ok(Some(slice_to_vec(data)))
}

/// Takes one directory entry off the front of `r`. Bytes of a name that are no valid UTF-8 are
/// replaced.
pub fn read_entry(r: &mut &[u8]) -> (res: Result<(String, u32), Error>)
    ensures
        res matches Ok(entry) ==> parse_entry(old(r)@) == (
            Ok::<(Seq<char>, u32), Error>((entry.0@, entry.1)),
            final(r)@,
        ),
        res matches Err(e) ==> parse_entry(old(r)@) == (
            Err::<(Seq<char>, u32), Error>(e),
            final(r)@,
        ),
{
    let name = read_block(r)?;
    let ftype: u32 = read_u32(r)?;
    Ok((lossy_text(name), ftype))
}

/// Takes the response to a READDIR off the front of `r`.
pub fn read_dir_reply(r: &mut &[u8]) -> (res: Result<Option<Vec<(String, u32)>>, Error>)
    ensures
        (listing_result(res), final(r)@) == parse_dir_reply(old(r)@),
{
    let status: u8 = read_u8(r)?;
    if status != STATUS_OK {
        return Ok(None);
    }
    let count: u32 = read_u32(r)?;
    let ghost body = r@;
    let mut entries: Vec<(String, u32)> = Vec::new();
    let mut i: u32 = 0;
    proof {
        let p = parse_entries(body, count as nat);
        assert(listing(entries@) =~= Seq::empty());
        if let (Ok(l), _) = p {
            assert(listing(entries@) + l =~= l);
        }
    }
    while i < count
        invariant
            i <= count,
            parse_entries(body, count as nat) == after_entries(
                listing(entries@),
                parse_entries(r@, (count - i) as nat),
            ),
            parse_dir_reply(old(r)@) == (match parse_entries(body, count as nat) {
                (Ok(l), s3) => (Ok::<Option<Listing>, Error>(Some(l)), s3),
                (Err(e), s3) => (Err::<Option<Listing>, Error>(e), s3),
            }),
        decreases count - i,
    {
        let ghost before = listing(entries@);
        let ghost s = r@;
        let entry = read_entry(r)?;
        entries.push(entry);
        proof {
            let v = (entry.0@, entry.1);
            assert(listing(entries@) =~= before.push(v));
            let p = parse_entries(r@, (count - i - 1) as nat);
            if let (Ok(l), _) = p {
                assert(before + (seq![v] + l) =~= before.push(v) + l);
            }
        }
        i += 1;
    }
    proof {
        assert(listing(entries@) + Seq::<(Seq<char>, u32)>::empty() =~= listing(entries@));
    }
    Ok(Some(entries))
}

} // verus!
