//! What holds of the proxied file system as a whole.

use vstd::prelude::*;
use vstd::utf8::encode_utf8;

use crate::error::Error;
use crate::inodes::{
    law_children_have_inodes, law_inode_is_kept, law_inode_leads_back, lemma_with_valid, Inodes,
};
use crate::proxy::{
    as_signed, dtype_of, listing_outcome, stat64_of, takes, DirProgress, Handle, PathRequest,
    ProxyState,
};
use crate::reply::{parse_stat_reply, Listing};
use crate::request::{law_request_round_trip, parse_request, Asked};
use crate::server::{
    stat_answer, stat_of, twos_complement, type_bits, Failure, FileKind, Metadata,
};
use crate::server_laws::law_stat_dialogue;
use crate::text::child;
use crate::wire::{StatResponse, OP_STAT};
use crate::wire_laws::law_request_layout;

verus! {

/// A handle that is opened is open on its inode, was not open before, and leaves every other
/// handle as it was.
pub proof fn law_opened_handle_is_fresh(fs: ProxyState, data: Handle)
    requires
        fs.valid(),
        fs.next_handle < u64::MAX,
    ensures
        !fs.handles.contains_key(fs.next_handle),
        fs.with_handle(data).valid(),
        fs.with_handle(data).is_open(data.inode, fs.next_handle),
        fs.with_handle(data).handles[fs.next_handle] == data,
        forall|inode: u64, handle: u64|
            fs.is_open(inode, handle) ==> #[trigger] fs.with_handle(data).is_open(inode, handle),
{
}

/// A handle that was closed is open on no inode, and every other handle stays as it was.
pub proof fn law_closed_handle_is_gone(fs: ProxyState, handle: u64)
    requires
        fs.valid(),
    ensures
        fs.without_handle(handle).valid(),
        forall|inode: u64| !#[trigger] fs.without_handle(handle).is_open(inode, handle),
        forall|inode: u64, other: u64|
            other != handle ==> (#[trigger] fs.without_handle(handle).is_open(inode, other)
                <==> fs.is_open(inode, other)),
{
}

/// A handle is never given out twice: one that was closed is not opened again.
pub proof fn law_handles_are_not_reused(fs: ProxyState, handle: u64, data: Handle)
    requires
        fs.valid(),
        fs.handles.contains_key(handle),
        fs.next_handle < u64::MAX,
    ensures
        fs.without_handle(handle).next_handle != handle,
        !fs.without_handle(handle).with_handle(data).handles.contains_key(handle),
{
}

/// Opening and closing handles changes neither inodes nor paths.
pub proof fn law_handles_leave_inodes_alone(fs: ProxyState, handle: u64, data: Handle)
    ensures
        fs.with_handle(data).inodes == fs.inodes,
        fs.without_handle(handle).inodes == fs.inodes,
{
}

/// The inode that a lookup gives stands for the path that was looked up, from then on: whatever
/// path is looked up later.
pub proof fn law_looked_up_inode_keeps_its_path(t: Inodes, path: Seq<char>, later: Seq<char>)
    requires
        t.valid(),
        t.room(2),
    ensures
        ({
            let ino = t.with(path).inodes[path];
            &&& t.with(path).paths[ino] == path
            &&& t.with(path).with(later).paths[ino] == path
            &&& t.with(path).with(later).inodes[path] == ino
        }),
{
    law_inode_leads_back(t, path);
    lemma_with_valid(t, path);
    law_inode_is_kept(t.with(path), later);
    assert(t.with(path).inodes.contains_key(path));
}

/// Once a directory was opened, listing it gives each entry the inode that a lookup of the entry
/// gives, and gives out no new one.
pub proof fn law_listed_inode_is_the_looked_up_inode(
    t: Inodes,
    parent: Seq<char>,
    entries: Listing,
    i: int,
)
    requires
        t.valid(),
        t.room(entries.len()),
        0 <= i < entries.len(),
    ensures
        ({
            let u = t.with_children(parent, entries);
            u.with(child(parent, entries[i].0)) == u
        }),
{
    law_children_have_inodes(t, parent, entries);
}

/// A listing that is taken up again behind the entry it stopped at goes on as if it had not
/// stopped.
pub proof fn law_listing_resumes(dir: DirProgress)
    requires
        dir.next <= dir.entries.len() <= u64::MAX,
        !dir.stopped,
    ensures
        DirProgress::from(dir.parent, dir.entries, dir.next as u64) == dir,
{
}

/// The listing after `n` more entries.
pub open spec fn steps(dir: DirProgress, n: nat) -> DirProgress
    decreases n,
{
    if n == 0 {
        dir
    } else {
        steps(dir, (n - 1) as nat).advanced()
    }
}

/// A listing from the start gives the entries one after the other, each once, and then ends.
pub proof fn law_listing_is_complete(parent: Seq<char>, entries: Listing, n: nat)
    requires
        n <= entries.len(),
    ensures
        steps(DirProgress::from(parent, entries, 0), n).entries == entries,
        steps(DirProgress::from(parent, entries, 0), n).next == n,
        steps(DirProgress::from(parent, entries, 0), n).at_end() <==> n == entries.len(),
    decreases n,
{
    if n > 0 {
        law_listing_is_complete(parent, entries, (n - 1) as nat);
    }
}

/// What a listing does where the guest's buffer answers to its entries with `answers`: the indices
/// of the entries that it gives, and what it ends with.
pub open spec fn listed<E>(dir: DirProgress, answers: Seq<Result<usize, E>>) -> (
    Seq<int>,
    Result<(), E>,
)
    decreases answers.len(),
{
    if dir.at_end() || answers.len() == 0 {
        (Seq::empty(), Ok(()))
    } else {
        let (given, outcome) = listed(dir.advanced().answered(answers[0]), answers.drop_first());
        (
            seq![dir.next as int] + given,
            match listing_outcome(answers[0]) {
                Ok(_) => outcome,
                Err(e) => Err(e),
            },
        )
    }
}

/// A listing gives its entries in their order, up to the first that the guest's buffer does not
/// take and no further: it ends well where the buffer is full, and with the error where there is
/// one.
pub proof fn law_listing_stops<E>(dir: DirProgress, answers: Seq<Result<usize, E>>, k: nat)
    requires
        !dir.stopped,
        dir.next + k < dir.entries.len(),
        k < answers.len(),
        forall|i: int| 0 <= i < k ==> takes(#[trigger] answers[i]),
        !takes(answers[k as int]),
    ensures
        listed(dir, answers) == (
            Seq::new(k + 1, |i: int| dir.next + i),
            listing_outcome(answers[k as int]),
        ),
    decreases k,
{
    let next = dir.advanced().answered(answers[0]);
    let rest = answers.drop_first();
    let whole = Seq::new(k + 1, |i: int| dir.next + i);
    if k == 0 {
        assert(next.at_end());
        assert(seq![dir.next as int] + Seq::<int>::empty() =~= whole);
    } else {
        assert(takes(answers[0]));
        assert forall|i: int| 0 <= i < k - 1 implies takes(#[trigger] rest[i]) by {
            assert(rest[i] == answers[i + 1]);
        }
        law_listing_stops(next, rest, (k - 1) as nat);
        assert(seq![dir.next as int] + listed(next, rest).0 =~= whole);
    }
}

/// A listing whose entries are all taken gives each of them, in their order, and ends well.
pub proof fn law_listing_ends<E>(dir: DirProgress, answers: Seq<Result<usize, E>>)
    requires
        !dir.stopped,
        dir.next <= dir.entries.len(),
        answers.len() >= dir.entries.len() - dir.next,
        forall|i: int|
            0 <= i < dir.entries.len() - dir.next ==> takes(#[trigger] answers[i]),
    ensures
        listed(dir, answers) == (
            Seq::new((dir.entries.len() - dir.next) as nat, |i: int| dir.next + i),
            Ok::<(), E>(()),
        ),
    decreases dir.entries.len() - dir.next,
{
    let n = (dir.entries.len() - dir.next) as nat;
    let whole = Seq::new(n, |i: int| dir.next + i);
    if n == 0 {
        assert(whole =~= Seq::empty());
    } else {
        let next = dir.advanced().answered(answers[0]);
        let rest = answers.drop_first();
        assert(takes(answers[0]));
        assert forall|i: int| 0 <= i < n - 1 implies takes(#[trigger] rest[i]) by {
            assert(rest[i] == answers[i + 1]);
        }
        law_listing_ends(next, rest);
        assert(seq![dir.next as int] + listed(next, rest).0 =~= whole);
    }
}

/// A lookup over the wire finds what the server finds: the server is asked for the metadata of the
/// path, and the client reads of the answer the metadata that the server found, or that there is
/// none to be had.
pub proof fn law_lookup_over_the_wire(
    path: Seq<char>,
    outcome: Result<Metadata, Failure>,
    rest: Seq<u8>,
)
    requires
        encode_utf8(path).len() < 0x1_0000_0000,
    ensures
        parse_request((Asked::Whole { op: OP_STAT, path }).bytes() + rest) == (
            Ok::<Asked, Error>(Asked::Whole { op: OP_STAT, path }),
            rest,
        ),
        parse_stat_reply(stat_answer(outcome) + rest) == (
            Ok::<Option<StatResponse>, Error>(
                match outcome {
                    Ok(meta) => Some(stat_of(meta)),
                    Err(_) => None,
                },
            ),
            rest,
        ),
{
    law_request_round_trip(Asked::Whole { op: OP_STAT, path }, rest);
    law_stat_dialogue(outcome, rest);
}

/// The time of last modification reaches the guest unchanged, before the epoch as after it.
pub proof fn law_mtime_is_kept(meta: Metadata)
    ensures
        stat64_of(stat_of(meta)).st_mtime == meta.mtime,
{
    assert(as_signed(twos_complement(meta.mtime)) == meta.mtime);
}

/// Directories and links reach the guest as what they are, anything else as a regular file.
pub proof fn law_entry_type_is_kept(kind: Option<FileKind>)
    ensures
        dtype_of(type_bits(kind)) == match kind {
            Some(FileKind::Directory) => 4u32,
            Some(FileKind::Symlink) => 10u32,
            _ => 8u32,
        },
{
    assert(0o040000u32 & 0o170000u32 == 0o040000u32) by (bit_vector);
    assert(0o120000u32 & 0o170000u32 == 0o120000u32) by (bit_vector);
    assert(0o100000u32 & 0o170000u32 == 0o100000u32) by (bit_vector);
}

/// What the server's operating system reports of a file reaches the guest: the mode, type bits and
/// permission bits alike, the size, the owner, the group, the time, the number of links and the
/// inode number. What does not fit the guest's fields is cut by whole multiples of what they hold.
pub proof fn law_metadata_reaches_the_guest(meta: Metadata)
    ensures
        ({
            let seen = stat64_of(stat_of(meta));
            &&& meta.mode < 65536 ==> seen.st_mode == meta.mode
            &&& (meta.mode - seen.st_mode) % 65536 == 0
            &&& meta.size <= i64::MAX ==> seen.st_size == meta.size
            &&& seen.st_size == meta.size || seen.st_size == meta.size - 0x1_0000_0000_0000_0000
            &&& seen.st_uid == meta.uid
            &&& seen.st_gid == meta.gid
            &&& seen.st_mtime == meta.mtime
            &&& meta.nlink < 65536 ==> seen.st_nlink == meta.nlink
            &&& (meta.nlink - seen.st_nlink) % 65536 == 0
            &&& seen.st_ino == meta.ino
        }),
{
    law_mtime_is_kept(meta);
}

/// The same of what the client was told, whatever it was.
pub proof fn law_attributes_are_taken_over(remote: StatResponse)
    ensures
        ({
            let seen = stat64_of(remote);
            &&& (remote.mode - seen.st_mode) % 65536 == 0
            &&& seen.st_size == remote.size || seen.st_size == remote.size
                - 0x1_0000_0000_0000_0000
            &&& seen.st_uid == remote.uid
            &&& seen.st_gid == remote.gid
            &&& seen.st_mtime == remote.mtime || seen.st_mtime == remote.mtime
                - 0x1_0000_0000_0000_0000
            &&& (remote.nlink - seen.st_nlink) % 65536 == 0
            &&& seen.st_ino == remote.ino
            &&& seen.st_blksize == 4096
        }),
{
}

/// The blocks of 512 bytes that a file takes hold the file, and one block less does not.
pub proof fn law_blocks_hold_the_file(remote: StatResponse)
    requires
        remote.size + 511 <= u64::MAX,
    ensures
        512 * stat64_of(remote).st_blocks >= remote.size,
        512 * (stat64_of(remote).st_blocks - 1) < remote.size,
{
}

/// The directory entry type of a mode goes by the four bits above the permissions and by nothing
/// else: 4 is a directory, 10 a link, and anything else counts as a regular file.
pub proof fn law_entry_type_goes_by_the_type_bits(mode: u32)
    ensures
        dtype_of(mode) == if mode / 4096 % 16 == 4 {
            4u32
        } else if mode / 4096 % 16 == 10 {
            10u32
        } else {
            8u32
        },
{
    assert((mode & 0o170000 == 0o040000) == (mode / 4096 % 16 == 4)) by (bit_vector);
    assert((mode & 0o170000 == 0o120000) == (mode / 4096 % 16 == 10)) by (bit_vector);
}

/// A request for an operation on a path is understood by the server as that operation on that
/// path, whatever follows it.
pub proof fn law_path_request_is_understood(
    req: PathRequest,
    op: u8,
    path: Seq<char>,
    rest: Seq<u8>,
)
    requires
        req.asks(op, path),
        op != 5,
        encode_utf8(path).len() < 0x1_0000_0000,
    ensures
        req.path@ == path,
        parse_request(req.bytes@ + rest) == (Ok::<Asked, Error>(Asked::Whole { op, path }), rest),
        req.bytes@[0] == op,
        req.bytes@.skip(5) == encode_utf8(path),
{
    law_request_round_trip(Asked::Whole { op, path }, rest);
    law_request_layout(op, path);
}

/// A handle is open on the inode that it was opened for, and on no other; what it was opened with
/// is what it keeps. Nothing but the handles and the next handle changes.
pub proof fn law_handle_belongs_to_one_inode(fs: ProxyState, data: Handle, inode: u64)
    requires
        fs.valid(),
        fs.next_handle < u64::MAX,
    ensures
        fs.with_handle(data).is_open(inode, fs.next_handle) <==> inode == data.inode,
        fs.with_handle(data).handles[fs.next_handle].entries == data.entries,
        fs.with_handle(data).next_handle == fs.next_handle + 1,
        fs.with_handle(data).socket_path == fs.socket_path,
        fs.with_handle(data).listening == fs.listening,
{
}

/// A handle keeps what it was opened with as long as it is open, whatever is opened or closed
/// besides.
pub proof fn law_open_handle_is_kept(fs: ProxyState, handle: u64, other: u64, data: Handle)
    requires
        fs.valid(),
        fs.next_handle < u64::MAX,
        fs.handles.contains_key(handle),
        other != handle,
    ensures
        fs.with_handle(data).handles.contains_key(handle),
        fs.with_handle(data).handles[handle] == fs.handles[handle],
        fs.without_handle(other).handles.contains_key(handle),
        fs.without_handle(other).handles[handle] == fs.handles[handle],
        fs.without_handle(other).next_handle == fs.next_handle,
        fs.without_handle(other).socket_path == fs.socket_path,
        fs.without_handle(other).listening == fs.listening,
{
}

/// At first only the root is known and nothing is open; the first handle is 1.
pub proof fn law_nothing_is_open_at_first(
    socket_path: Seq<char>,
    listening: bool,
    inode: u64,
    handle: u64,
)
    ensures
        ({
            let fs = ProxyState::initial(socket_path, listening);
            &&& fs.socket_path == socket_path
            &&& fs.listening == listening
            &&& fs.inodes == Inodes::initial()
            &&& fs.next_handle == 1
            &&& !fs.is_open(inode, handle)
            &&& !fs.handles.contains_key(handle)
        }),
{
}

/// A listing leaves out exactly the entries up to the given offset, where the first entry has the
/// offset 1: the others are still to come.
pub proof fn law_listing_starts_behind_the_offset(
    parent: Seq<char>,
    entries: Listing,
    offset: u64,
    i: int,
)
    requires
        0 <= i < entries.len(),
    ensures
        ({
            let dir = DirProgress::from(parent, entries, offset);
            &&& i < dir.next <==> i + 1 <= offset
            &&& dir.next <= entries.len()
            &&& dir.entries == entries
            &&& dir.parent == parent
            &&& dir.at_end() <==> offset >= entries.len()
        }),
{
}

/// The entry that comes next is the one that the listing has come to, below the directory.
pub proof fn law_next_entry_is_below_the_directory(dir: DirProgress)
    requires
        !dir.at_end(),
    ensures
        dir.next < dir.entries.len(),
        dir.next_path() == child(dir.parent, dir.entries[dir.next as int].0),
        dir.advanced().next == dir.next + 1,
        dir.advanced().entries == dir.entries,
        dir.advanced().parent == dir.parent,
{
}

/// What the guest's buffer answers: it took an entry where it reports a size that is not 0, and a
/// failure is what the listing ends with.
pub proof fn law_what_the_buffer_answers<E>(dir: DirProgress, answer: Result<usize, E>)
    ensures
        match answer {
            Ok(n) => {
                &&& takes(answer) <==> n != 0
                &&& listing_outcome(answer) == Ok::<(), E>(())
                &&& dir.answered(answer).at_end() <==> n == 0 || dir.at_end()
            },
            Err(e) => {
                &&& !takes(answer)
                &&& listing_outcome(answer) == Err::<(), E>(e)
                &&& dir.answered(answer).at_end()
            },
        },
        dir.answered(answer).next == dir.next,
        dir.answered(answer).entries == dir.entries,
        dir.answered(answer).parent == dir.parent,
{
}

} // verus!
