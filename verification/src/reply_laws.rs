//! What holds of the responses as a whole: a client reads what the server sent, whatever follows
//! it, and its result does not depend on how the bytes arrive.

use vstd::prelude::*;
use vstd::utf8::{encode_utf8, encode_utf8_decode_utf8, encode_utf8_valid_utf8};

use crate::error::Error;
use crate::reply::{
    block_result, data_reply, dir_reply, entries_bytes, entry_bytes, link_reply, listing,
    listing_result, parse_block_reply, parse_data_reply, parse_dir_reply, parse_entries,
    parse_entry, parse_stat_reply, range_reply, stat_reply, Listing,
};
use crate::text::name_text;
use crate::wire::{
    le32, le64, low32, parse_block, parse_u32, parse_u64, parse_u8, stat_bytes, u32_at, u64_at,
    StatResponse, STATUS_OK,
};
use crate::wire_laws::{
    law_block_extends, law_block_round_trip, law_bytes_extend, law_bytes_round_trip,
    law_stat_extends, law_stat_layout, law_stat_round_trip, law_u32_extends, law_u32_round_trip,
    law_u64_extends, law_u64_round_trip, law_u8_round_trip, lemma_tagged, lemma_u32_first,
    lemma_u64_first,
};

verus! {

/// The client reads the metadata that the server sent.
pub proof fn law_stat_reply_round_trip(st: StatResponse, rest: Seq<u8>)
    ensures
        parse_stat_reply(stat_reply(st) + rest) == (
            Ok::<Option<StatResponse>, Error>(Some(st)),
            rest,
        ),
{
    let t = stat_bytes(st) + rest;
    assert(stat_reply(st) + rest =~= seq![STATUS_OK] + t);
    law_u8_round_trip(STATUS_OK, t);
    law_stat_round_trip(st, rest);
}

/// The client reads the contents that the server sent.
pub proof fn law_data_reply_round_trip(data: Seq<u8>, rest: Seq<u8>)
    requires
        data.len() <= u64::MAX,
    ensures
        parse_data_reply(data_reply(data) + rest) == (Ok::<Option<Seq<u8>>, Error>(Some(data)), rest),
{
    let t2 = data + rest;
    let t1 = le64(data.len() as u64) + t2;
    assert(data_reply(data) + rest =~= seq![STATUS_OK] + t1);
    law_u8_round_trip(STATUS_OK, t1);
    law_u64_round_trip(data.len() as u64, t2);
    law_bytes_round_trip(data, rest);
}

/// The client reads the bytes of a range that the server sent.
pub proof fn law_range_reply_round_trip(data: Seq<u8>, rest: Seq<u8>)
    requires
        data.len() < 0x1_0000_0000,
    ensures
        parse_block_reply(range_reply(data) + rest) == (
            Ok::<Option<Seq<u8>>, Error>(Some(data)),
            rest,
        ),
{
    let t = le32(low32(data.len())) + data + rest;
    assert(range_reply(data) + rest =~= seq![STATUS_OK] + t);
    law_u8_round_trip(STATUS_OK, t);
    law_block_round_trip(data, rest);
}

/// The client reads the encoding of the link target that the server sent.
pub proof fn law_link_reply_round_trip(target: Seq<char>, rest: Seq<u8>)
    requires
        encode_utf8(target).len() < 0x1_0000_0000,
    ensures
        parse_block_reply(link_reply(target) + rest) == (
            Ok::<Option<Seq<u8>>, Error>(Some(encode_utf8(target))),
            rest,
        ),
{
    let bytes = encode_utf8(target);
    let t = le32(low32(bytes.len())) + bytes + rest;
    assert(link_reply(target) + rest =~= seq![STATUS_OK] + t);
    law_u8_round_trip(STATUS_OK, t);
    law_block_round_trip(bytes, rest);
}

/// Whether the wire can carry the entries: their number and the length of each name fit the
/// length fields.
pub open spec fn sendable_listing(entries: Listing) -> bool {
    &&& entries.len() < 0x1_0000_0000
    &&& forall|i: int|
        0 <= i < entries.len() ==> encode_utf8((#[trigger] entries[i]).0).len() < 0x1_0000_0000
}

/// One entry is read back.
proof fn lemma_entry_round_trip(entry: (Seq<char>, u32), rest: Seq<u8>)
    requires
        encode_utf8(entry.0).len() < 0x1_0000_0000,
    ensures
        parse_entry(entry_bytes(entry) + rest) == (Ok::<(Seq<char>, u32), Error>(entry), rest),
{
    let bytes = encode_utf8(entry.0);
    let t = le32(entry.1) + rest;
    assert(entry_bytes(entry) + rest =~= le32(low32(bytes.len())) + bytes + t);
    law_block_round_trip(bytes, t);
    law_u32_round_trip(entry.1, rest);
    encode_utf8_valid_utf8(entry.0);
    encode_utf8_decode_utf8(entry.0);
}

/// The first entry stands first on the wire.
proof fn lemma_entries_first(entries: Listing)
    requires
        entries.len() > 0,
    ensures
        entries_bytes(entries) == entry_bytes(entries[0]) + entries_bytes(entries.drop_first()),
    decreases entries.len(),
{
    let tail = entries.drop_first();
    if entries.len() == 1 {
        assert(entries.drop_last() =~= Seq::empty());
        assert(tail =~= Seq::empty());
        assert(entries_bytes(entries) =~= entry_bytes(entries[0]) + entries_bytes(tail));
    } else {
        lemma_entries_first(entries.drop_last());
        assert(entries.drop_last().drop_first() =~= tail.drop_last());
        assert(entries_bytes(entries) =~= entry_bytes(entries[0]) + entries_bytes(tail));
    }
}

/// All entries are read back.
proof fn lemma_entries_round_trip(entries: Listing, rest: Seq<u8>)
    requires
        forall|i: int|
            0 <= i < entries.len() ==> encode_utf8((#[trigger] entries[i]).0).len() < 0x1_0000_0000,
    ensures
        parse_entries(entries_bytes(entries) + rest, entries.len()) == (
            Ok::<Listing, Error>(entries),
            rest,
        ),
    decreases entries.len(),
{
    if entries.len() == 0 {
        assert(entries_bytes(entries) + rest =~= rest);
        assert(entries =~= Seq::empty());
    } else {
        let tail = entries.drop_first();
        let t = entries_bytes(tail) + rest;
        lemma_entries_first(entries);
        assert(entries_bytes(entries) + rest =~= entry_bytes(entries[0]) + t);
        lemma_entry_round_trip(entries[0], t);
        lemma_entries_round_trip(tail, rest);
        assert(seq![entries[0]] + tail =~= entries);
    }
}

/// The client reads the directory entries that the server sent, in their order.
#[verifier::spinoff_prover]
pub proof fn law_dir_reply_round_trip(entries: Listing, rest: Seq<u8>)
    requires
        sendable_listing(entries),
    ensures
        parse_dir_reply(dir_reply(entries) + rest) == (
            Ok::<Option<Listing>, Error>(Some(entries)),
            rest,
        ),
{
    let count = low32(entries.len());
    let body = entries_bytes(entries);
    lemma_entries_round_trip(entries, rest);
    lemma_counted(count, body, rest);
}

/// A count behind a status is read back, and leaves what it counts.
#[verifier::spinoff_prover]
proof fn lemma_counted(count: u32, body: Seq<u8>, rest: Seq<u8>)
    ensures
        ({
            let s = seq![STATUS_OK] + le32(count) + body + rest;
            &&& parse_u8(s).0 == Ok::<u8, Error>(STATUS_OK)
            &&& parse_u32(parse_u8(s).1) == (Ok::<u32, Error>(count), body + rest)
        }),
{
    let s = seq![STATUS_OK] + le32(count) + body + rest;
    let t = le32(count) + (body + rest);
    assert(s =~= seq![STATUS_OK] + t);
    law_u8_round_trip(STATUS_OK, t);
    law_u32_round_trip(count, body + rest);
}

/// A status other than `STATUS_OK` is the whole response, whatever was asked for.
pub proof fn law_failure_is_one_byte(status: u8, rest: Seq<u8>)
    requires
        status != STATUS_OK,
    ensures
        parse_stat_reply(seq![status] + rest) == (Ok::<Option<StatResponse>, Error>(None), rest),
        parse_block_reply(seq![status] + rest) == (Ok::<Option<Seq<u8>>, Error>(None), rest),
        parse_data_reply(seq![status] + rest) == (Ok::<Option<Seq<u8>>, Error>(None), rest),
        parse_dir_reply(seq![status] + rest) == (Ok::<Option<Listing>, Error>(None), rest),
{
    law_u8_round_trip(status, rest);
}

/// What the client makes of a STAT response does not change when more bytes arrive.
pub proof fn law_stat_reply_extends(s: Seq<u8>, more: Seq<u8>)
    requires
        parse_stat_reply(s).0 is Ok,
    ensures
        parse_stat_reply(s + more) == (parse_stat_reply(s).0, parse_stat_reply(s).1 + more),
{
    assert((s + more).skip(1) =~= s.skip(1) + more);
    if s[0] == STATUS_OK {
        law_stat_extends(s.skip(1), more);
    }
}

/// The same of the response to a range read or a READLINK.
pub proof fn law_block_reply_extends(s: Seq<u8>, more: Seq<u8>)
    requires
        parse_block_reply(s).0 is Ok,
    ensures
        parse_block_reply(s + more) == (parse_block_reply(s).0, parse_block_reply(s).1 + more),
{
    assert((s + more).skip(1) =~= s.skip(1) + more);
    if s[0] == STATUS_OK {
        law_block_extends(s.skip(1), more);
    }
}

/// The same of the response to a READ.
pub proof fn law_data_reply_extends(s: Seq<u8>, more: Seq<u8>)
    requires
        parse_data_reply(s).0 is Ok,
    ensures
        parse_data_reply(s + more) == (parse_data_reply(s).0, parse_data_reply(s).1 + more),
{
    assert((s + more).skip(1) =~= s.skip(1) + more);
    if s[0] == STATUS_OK {
        let s1 = s.skip(1);
        law_u64_extends(s1, more);
        law_bytes_extend(parse_u64(s1).1, parse_u64(s1).0->Ok_0 as nat, more);
    }
}

proof fn lemma_entries_extend(s: Seq<u8>, n: nat, more: Seq<u8>)
    requires
        parse_entries(s, n).0 is Ok,
    ensures
        parse_entries(s + more, n) == (parse_entries(s, n).0, parse_entries(s, n).1 + more),
    decreases n,
{
    if n > 0 {
        law_block_extends(s, more);
        law_u32_extends(parse_block(s).1, more);
        lemma_entries_extend(parse_entry(s).1, (n - 1) as nat, more);
    }
}

/// The same of the response to a READDIR.
pub proof fn law_dir_reply_extends(s: Seq<u8>, more: Seq<u8>)
    requires
        parse_dir_reply(s).0 is Ok,
    ensures
        parse_dir_reply(s + more) == (parse_dir_reply(s).0, parse_dir_reply(s).1 + more),
{
    assert((s + more).skip(1) =~= s.skip(1) + more);
    if s[0] == STATUS_OK {
        let s1 = s.skip(1);
        law_u32_extends(s1, more);
        lemma_entries_extend(parse_u32(s1).1, parse_u32(s1).0->Ok_0 as nat, more);
    }
}

proof fn lemma_entries_run_short(s: Seq<u8>, n: nat)
    ensures
        parse_entries(s, n).0 matches Err(e) ==> e == Error::UnexpectedEof,
    decreases n,
{
    if n > 0 {
        lemma_entries_run_short(parse_entry(s).1, (n - 1) as nat);
    }
}

/// The only way in which a directory listing cannot be read is that bytes are missing.
pub proof fn law_dir_reply_runs_short(s: Seq<u8>)
    ensures
        parse_dir_reply(s).0 matches Err(e) ==> e == Error::UnexpectedEof,
{
    if let (Ok(_), s1) = parse_u8(s) {
        if let (Ok(count), s2) = parse_u32(s1) {
            lemma_entries_run_short(s2, count as nat);
        }
    }
}

/// The response to a STAT is the status 0 and the metadata.
pub proof fn law_stat_reply_layout(st: StatResponse)
    ensures
        stat_reply(st).len() == 45,
        stat_reply(st)[0] == 0,
        stat_reply(st).skip(1) == stat_bytes(st),
{
    assert(stat_reply(st).skip(1) =~= stat_bytes(st));
    law_stat_layout(st);
}

/// The response to a READ is the status 0, eight bytes of length, and the contents.
pub proof fn law_data_reply_layout(data: Seq<u8>)
    requires
        data.len() <= u64::MAX,
    ensures
        data_reply(data).len() == 9 + data.len(),
        data_reply(data)[0] == 0,
        u64_at(data_reply(data).skip(1)) == data.len(),
        data_reply(data).skip(9) == data,
{
    lemma_tagged(STATUS_OK, le64(data.len() as u64), data);
    lemma_u64_first(data_reply(data).skip(1), data.len() as u64, data);
}

/// The response to a range read is the status 0, four bytes of length, and the bytes.
pub proof fn law_range_reply_layout(data: Seq<u8>)
    requires
        data.len() < 0x1_0000_0000,
    ensures
        range_reply(data).len() == 5 + data.len(),
        range_reply(data)[0] == 0,
        u32_at(range_reply(data).skip(1)) == data.len(),
        range_reply(data).skip(5) == data,
{
    lemma_tagged(STATUS_OK, le32(low32(data.len())), data);
    lemma_u32_first(range_reply(data).skip(1), low32(data.len()), data);
}

/// The response to a READLINK is the status 0, four bytes of length, and the target.
pub proof fn law_link_reply_layout(target: Seq<char>)
    requires
        encode_utf8(target).len() < 0x1_0000_0000,
    ensures
        link_reply(target).len() == 5 + encode_utf8(target).len(),
        link_reply(target)[0] == 0,
        u32_at(link_reply(target).skip(1)) == encode_utf8(target).len(),
        link_reply(target).skip(5) == encode_utf8(target),
{
    let bytes = encode_utf8(target);
    lemma_tagged(STATUS_OK, le32(low32(bytes.len())), bytes);
    assert(link_reply(target) =~= seq![STATUS_OK] + le32(low32(bytes.len())) + bytes);
    lemma_u32_first(link_reply(target).skip(1), low32(bytes.len()), bytes);
}

proof fn lemma_entry_pieces(len: Seq<u8>, name: Seq<u8>, ftype: Seq<u8>)
    requires
        len.len() == 4,
        ftype.len() == 4,
    ensures
        ({
            let s = len + name + ftype;
            &&& s.len() == 8 + name.len()
            &&& s == len + (name + ftype)
            &&& s.subrange(4, 4 + name.len() as int) == name
            &&& s.skip(4 + name.len() as int) == ftype + Seq::empty()
        }),
{
    let s = len + name + ftype;
    assert(s =~= len + (name + ftype));
    assert(s.subrange(4, 4 + name.len() as int) =~= name);
    assert(s.skip(4 + name.len() as int) =~= ftype + Seq::empty());
}

/// A directory entry is four bytes of length, the name, and four bytes of type.
pub proof fn law_entry_layout(entry: (Seq<char>, u32))
    requires
        encode_utf8(entry.0).len() < 0x1_0000_0000,
    ensures
        ({
            let s = entry_bytes(entry);
            let n = encode_utf8(entry.0).len() as int;
            &&& s.len() == 8 + n
            &&& u32_at(s) == n
            &&& s.subrange(4, 4 + n) == encode_utf8(entry.0)
            &&& u32_at(s.skip(4 + n)) == entry.1
        }),
{
    let s = entry_bytes(entry);
    let name = encode_utf8(entry.0);
    lemma_entry_pieces(le32(low32(name.len())), name, le32(entry.1));
    lemma_u32_first(s, low32(name.len()), name + le32(entry.1));
    lemma_u32_first(s.skip(4 + name.len() as int), entry.1, Seq::empty());
}

/// The response to a READDIR is the status 0, four bytes of count, and the entries one after the
/// other, the first entry first.
pub proof fn law_dir_reply_layout(entries: Listing)
    requires
        entries.len() < 0x1_0000_0000,
    ensures
        dir_reply(entries)[0] == 0,
        u32_at(dir_reply(entries).skip(1)) == entries.len(),
        dir_reply(entries).skip(5) == entries_bytes(entries),
        entries.len() == 0 ==> entries_bytes(entries) == Seq::<u8>::empty(),
        entries.len() > 0 ==> entries_bytes(entries) == entry_bytes(entries[0]) + entries_bytes(
            entries.drop_first(),
        ),
{
    let body = entries_bytes(entries);
    lemma_tagged(STATUS_OK, le32(low32(entries.len())), body);
    lemma_u32_first(dir_reply(entries).skip(1), low32(entries.len()), body);
    if entries.len() > 0 {
        lemma_entries_first(entries);
    }
}

/// A listing holds one entry for each pair, in their order.
pub proof fn law_listing_is_the_pairs(entries: Seq<(String, u32)>)
    ensures
        listing(entries).len() == entries.len(),
        forall|i: int|
            0 <= i < entries.len() ==> (#[trigger] listing(entries)[i]).0 == entries[i].0@
                && listing(entries)[i].1 == entries[i].1,
{
}

/// Directory entries on the wire, with names that may be any bytes.
pub open spec fn raw_entries(entries: Seq<(Seq<u8>, u32)>) -> Seq<u8>
    decreases entries.len(),
{
    if entries.len() == 0 {
        Seq::empty()
    } else {
        le32(entries[0].0.len() as u32) + entries[0].0 + le32(entries[0].1) + raw_entries(
            entries.drop_first(),
        )
    }
}

/// Whether each name fits its length field.
pub open spec fn names_fit(entries: Seq<(Seq<u8>, u32)>) -> bool {
    forall|i: int| 0 <= i < entries.len() ==> (#[trigger] entries[i]).0.len() < 0x1_0000_0000
}

/// A client reads any entry: its type, and the text that its name is taken for.
pub proof fn law_any_entry_is_read(name: Seq<u8>, ftype: u32, rest: Seq<u8>)
    requires
        name.len() < 0x1_0000_0000,
    ensures
        parse_entry(le32(name.len() as u32) + name + le32(ftype) + rest) == (
            Ok::<(Seq<char>, u32), Error>((name_text(name), ftype)),
            rest,
        ),
{
    let len = le32(name.len() as u32);
    assert(low32(name.len()) == name.len() as u32);
    lemma_concat(len + name, le32(ftype), rest);
    law_block_round_trip(name, le32(ftype) + rest);
    law_u32_round_trip(ftype, rest);
}

proof fn lemma_concat(a: Seq<u8>, b: Seq<u8>, c: Seq<u8>)
    ensures
        a + b + c == a + (b + c),
{
    assert(a + b + c =~= a + (b + c));
}

/// A client reads any entries, in their order: each with its type and the text that its name is
/// taken for, and the listing ends where the last of them does.
pub proof fn law_any_entries_are_read(entries: Seq<(Seq<u8>, u32)>, rest: Seq<u8>)
    requires
        names_fit(entries),
    ensures
        parse_entries(raw_entries(entries) + rest, entries.len()) == (
            Ok::<Listing, Error>(
                Seq::new(entries.len(), |i: int| (name_text(entries[i].0), entries[i].1)),
            ),
            rest,
        ),
    decreases entries.len(),
{
    let whole = Seq::new(entries.len(), |i: int| (name_text(entries[i].0), entries[i].1));
    if entries.len() == 0 {
        assert(raw_entries(entries) + rest =~= rest);
        assert(whole =~= Seq::empty());
    } else {
        let others = entries.drop_first();
        assert(names_fit(others)) by {
            assert forall|i: int| 0 <= i < others.len() implies (#[trigger] others[i]).0.len()
                < 0x1_0000_0000 by {
                assert(others[i] == entries[i + 1]);
            }
        }
        law_any_entries_are_read(others, rest);
        let (name, ftype) = entries[0];
        let first = le32(name.len() as u32) + name + le32(ftype);
        lemma_concat(first, raw_entries(others), rest);
        law_any_entry_is_read(name, ftype, raw_entries(others) + rest);
        let tail = Seq::new(others.len(), |i: int| (name_text(others[i].0), others[i].1));
        assert(seq![(name_text(name), ftype)] + tail =~= whole);
    }
}

/// The same of the whole response to a READDIR.
pub proof fn law_any_listing_is_read(entries: Seq<(Seq<u8>, u32)>, rest: Seq<u8>)
    requires
        entries.len() < 0x1_0000_0000,
        names_fit(entries),
    ensures
        parse_dir_reply(seq![0u8] + le32(entries.len() as u32) + raw_entries(entries) + rest) == (
            Ok::<Option<Listing>, Error>(
                Some(Seq::new(entries.len(), |i: int| (name_text(entries[i].0), entries[i].1))),
            ),
            rest,
        ),
{
    law_any_entries_are_read(entries, rest);
    lemma_counted(entries.len() as u32, raw_entries(entries), rest);
}

/// A response that is cut off anywhere is no response yet: metadata, bytes, contents or a listing.
pub proof fn law_cut_reply_is_awaited(
    st: StatResponse,
    range: Seq<u8>,
    data: Seq<u8>,
    entries: Listing,
    n: int,
)
    requires
        range.len() < 0x1_0000_0000,
        data.len() <= u64::MAX,
        sendable_listing(entries),
    ensures
        0 <= n < stat_reply(st).len() ==> parse_stat_reply(stat_reply(st).take(n)).0 == Err::<
            Option<StatResponse>,
            Error,
        >(Error::UnexpectedEof),
        0 <= n < range_reply(range).len() ==> parse_block_reply(range_reply(range).take(n)).0
            == Err::<Option<Seq<u8>>, Error>(Error::UnexpectedEof),
        0 <= n < data_reply(data).len() ==> parse_data_reply(data_reply(data).take(n)).0 == Err::<
            Option<Seq<u8>>,
            Error,
        >(Error::UnexpectedEof),
        0 <= n < dir_reply(entries).len() ==> parse_dir_reply(dir_reply(entries).take(n)).0 == Err::<
            Option<Listing>,
            Error,
        >(Error::UnexpectedEof),
{
    let e = Seq::<u8>::empty();
    if 0 <= n < stat_reply(st).len() {
        lemma_cut(stat_reply(st), n);
        law_stat_reply_round_trip(st, e);
        if parse_stat_reply(stat_reply(st).take(n)).0 is Ok {
            law_stat_reply_extends(stat_reply(st).take(n), stat_reply(st).skip(n));
        }
    }
    if 0 <= n < range_reply(range).len() {
        lemma_cut(range_reply(range), n);
        law_range_reply_round_trip(range, e);
        if parse_block_reply(range_reply(range).take(n)).0 is Ok {
            law_block_reply_extends(range_reply(range).take(n), range_reply(range).skip(n));
        }
    }
    if 0 <= n < data_reply(data).len() {
        lemma_cut(data_reply(data), n);
        law_data_reply_round_trip(data, e);
        if parse_data_reply(data_reply(data).take(n)).0 is Ok {
            law_data_reply_extends(data_reply(data).take(n), data_reply(data).skip(n));
        }
    }
    if 0 <= n < dir_reply(entries).len() {
        lemma_cut(dir_reply(entries), n);
        law_dir_reply_round_trip(entries, e);
        law_dir_reply_runs_short(dir_reply(entries).take(n));
        if parse_dir_reply(dir_reply(entries).take(n)).0 is Ok {
            law_dir_reply_extends(dir_reply(entries).take(n), dir_reply(entries).skip(n));
        }
    }
}

/// What is cut off can be put back, and is not nothing.
proof fn lemma_cut(s: Seq<u8>, n: int)
    requires
        0 <= n < s.len(),
    ensures
        s.take(n) + s.skip(n) == s + Seq::<u8>::empty(),
        forall|left: Seq<u8>| #[trigger] (left + s.skip(n)) != Seq::<u8>::empty(),
{
    assert(s.take(n) + s.skip(n) =~= s + Seq::<u8>::empty());
    assert forall|left: Seq<u8>| #[trigger] (left + s.skip(n)) != Seq::<u8>::empty() by {
        assert((left + s.skip(n)).len() > 0);
    }
}

/// What is read of a response is what its parts are: nothing is lost where it is handed on.
pub proof fn law_results_are_what_they_hold(
    bytes: Result<Option<Vec<u8>>, Error>,
    entries: Result<Option<Vec<(String, u32)>>, Error>,
)
    ensures
        block_result(bytes) matches Ok(Some(data)) <==> bytes matches Ok(Some(_)),
        bytes matches Ok(Some(v)) ==> block_result(bytes) == Ok::<Option<Seq<u8>>, Error>(
            Some(v@),
        ),
        bytes matches Ok(None) ==> block_result(bytes) == Ok::<Option<Seq<u8>>, Error>(None),
        bytes matches Err(e) ==> block_result(bytes) == Err::<Option<Seq<u8>>, Error>(e),
        entries matches Ok(Some(v)) ==> listing_result(entries) == Ok::<Option<Listing>, Error>(
            Some(listing(v@)),
        ),
        entries matches Ok(None) ==> listing_result(entries) == Ok::<Option<Listing>, Error>(None),
        entries matches Err(e) ==> listing_result(entries) == Err::<Option<Listing>, Error>(e),
{
}

} // verus!
