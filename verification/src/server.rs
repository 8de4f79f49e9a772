//! The server's side: which file a request means, what is answered for each outcome of the file
//! access, and when the connection ends.

use vstd::prelude::*;

use crate::error::Error;
use crate::inbox::Inbox;
use crate::reply::{
    data_reply, dir_reply, link_reply, listing, range_reply, stat_reply, write_data_reply,
    write_dir_reply, write_link_reply, write_range_reply, write_stat_reply, write_status_reply,
    Listing,
};
use crate::request::{parse_request, Asked, Request};
use crate::text::{lossy_text, name_text};
use crate::wire::{
    StatResponse, STATUS_EACCES, STATUS_ENOENT, STATUS_ERROR, S_IFDIR, S_IFLNK, S_IFREG,
};

verus! {

/// Why a file access failed.
#[derive(Debug, Clone, Copy, PartialEq, Eq, Structural)]
pub enum Failure {
    NotFound,
    PermissionDenied,
    Other,
}

/// The metadata of a file, as the operating system reports it.
#[derive(Debug, Clone, Copy, PartialEq, Eq, Structural)]
pub struct Metadata {
    pub mode: u32,
    pub size: u64,
    pub uid: u32,
    pub gid: u32,
    /// Seconds since the epoch, negative before it.
    pub mtime: i64,
    pub nlink: u64,
    pub ino: u64,
}

/// What a directory entry is.
#[derive(Debug, Clone, Copy, PartialEq, Eq, Structural)]
pub enum FileKind {
    Directory,
    Symlink,
    Other,
}

/// A directory entry, as the operating system reports it: the name may be any bytes, and the kind
/// is missing where it could not be found out.
#[derive(Debug)]
pub struct DirItem {
    pub name: Vec<u8>,
    pub kind: Option<FileKind>,
}

/// A signed number in 64-bit two's complement.
pub open spec fn twos_complement(v: i64) -> u64 {
    if v >= 0 {
        v as u64
    } else {
        (v + 0x1_0000_0000_0000_0000) as u64
    }
}

/// The metadata as it goes over the wire.
pub open spec fn stat_of(meta: Metadata) -> StatResponse {
    StatResponse {
        mode: meta.mode,
        size: meta.size,
        uid: meta.uid,
        gid: meta.gid,
        mtime: twos_complement(meta.mtime),
        nlink: meta.nlink,
        ino: meta.ino,
    }
}

/// The file type bits of a directory entry: a regular file where nothing else is known.
pub open spec fn type_bits(kind: Option<FileKind>) -> u32 {
    match kind {
        Some(FileKind::Directory) => S_IFDIR,
        Some(FileKind::Symlink) => S_IFLNK,
        _ => S_IFREG,
    }
}

/// The entries of a directory that could be read, in their order. Bytes of a name that are no valid
/// UTF-8 are replaced.
pub open spec fn readable(items: Seq<Option<DirItem>>) -> Listing
    decreases items.len(),
{
    if items.len() == 0 {
        Seq::empty()
    } else {
        match items.last() {
            Some(item) => readable(items.drop_last()).push(
                (name_text(item.name@), type_bits(item.kind)),
            ),
            None => readable(items.drop_last()),
        }
    }
}

/// The status of a failed access to contents, a directory or a link.
pub open spec fn failure_status(failure: Failure) -> u8 {
    match failure {
        Failure::NotFound => STATUS_ENOENT,
        _ => STATUS_ERROR,
    }
}

/// The status of a failed access to metadata.
pub open spec fn stat_failure_status(failure: Failure) -> u8 {
    match failure {
        Failure::NotFound => STATUS_ENOENT,
        Failure::PermissionDenied => STATUS_EACCES,
        Failure::Other => STATUS_ERROR,
    }
}

pub open spec fn stat_answer(outcome: Result<Metadata, Failure>) -> Seq<u8> {
    match outcome {
        Ok(meta) => stat_reply(stat_of(meta)),
        Err(failure) => seq![stat_failure_status(failure)],
    }
}

pub open spec fn read_answer(outcome: Result<Seq<u8>, Failure>) -> Seq<u8> {
    match outcome {
        Ok(data) => data_reply(data),
        Err(failure) => seq![failure_status(failure)],
    }
}

pub open spec fn dir_answer(outcome: Result<Listing, Failure>) -> Seq<u8> {
    match outcome {
        Ok(entries) => dir_reply(entries),
        Err(failure) => seq![failure_status(failure)],
    }
}

pub open spec fn link_answer(outcome: Result<Seq<char>, Failure>) -> Seq<u8> {
    match outcome {
        Ok(target) => link_reply(target),
        Err(failure) => seq![failure_status(failure)],
    }
}

fn write_failure(failure: Failure) -> (res: Vec<u8>)
    ensures
        res@ == seq![failure_status(failure)],
{
    match failure {
        Failure::NotFound => write_status_reply(STATUS_ENOENT),
        _ => write_status_reply(STATUS_ERROR),
    }
}

/// Answers a STAT.
pub fn handle_stat(outcome: &Result<Metadata, Failure>) -> (res: Vec<u8>)
    ensures
        res@ == stat_answer(*outcome),
{
    match outcome {
        Ok(meta) => {
            let mtime: i64 = meta.mtime;
            let wrapped: u64 = mtime as u64;
            assert(mtime >= 0 ==> wrapped == mtime);
            assert(mtime < 0 ==> mtime as u64 == mtime + 0x1_0000_0000_0000_0000) by (bit_vector);
            write_stat_reply(
                &StatResponse {
                    mode: meta.mode,
                    size: meta.size,
                    uid: meta.uid,
                    gid: meta.gid,
                    mtime: wrapped,
                    nlink: meta.nlink,
                    ino: meta.ino,
                },
            )
        },
        Err(Failure::NotFound) => write_status_reply(STATUS_ENOENT),
        Err(Failure::PermissionDenied) => write_status_reply(STATUS_EACCES),
        Err(Failure::Other) => write_status_reply(STATUS_ERROR),
    }
}

/// Answers a READ.
pub fn handle_read(outcome: &Result<Vec<u8>, Failure>) -> (res: Vec<u8>)
    ensures
        res@ == read_answer(
            match *outcome {
                Ok(data) => Ok::<Seq<u8>, Failure>(data@),
                Err(failure) => Err(failure),
            },
        ),
{
    match outcome {
        Ok(data) => write_data_reply(data.as_slice()),
        Err(failure) => write_failure(*failure),
    }
}

/// The file type bits of a directory entry.
pub fn entry_type(kind: Option<FileKind>) -> (res: u32)
    ensures
        res == type_bits(kind),
{
    match kind {
        Some(FileKind::Directory) => S_IFDIR,
        Some(FileKind::Symlink) => S_IFLNK,
        _ => S_IFREG,
    }
}

/// Collects the entries that could be read, each with its file type bits.
pub fn collect_entries(items: &Vec<Option<DirItem>>) -> (res: Vec<(String, u32)>)
    ensures
        listing(res@) == readable(items@),
{
    let mut names: Vec<(String, u32)> = Vec::new();
    let mut i: usize = 0;
    assert(listing(names@) =~= readable(items@.take(0)));
    while i < items.len()
        invariant
            i <= items@.len(),
            listing(names@) == readable(items@.take(i as int)),
        decreases items@.len() - i,
    {
        let ghost before = listing(names@);
        assert(items@.take(i + 1).drop_last() =~= items@.take(i as int));
        match &items[i] {
            Some(item) => {
                names.push((lossy_text(item.name.as_slice()), entry_type(item.kind)));
                assert(listing(names@) =~= before.push(
                    (name_text(item.name@), type_bits(item.kind)),
                ));
            },
            None => {},
        }
        i += 1;
    }
    assert(items@.take(i as int) =~= items@);
    names
}

/// Answers a READDIR.
pub fn handle_readdir(outcome: &Result<Vec<Option<DirItem>>, Failure>) -> (res: Vec<u8>)
    ensures
        res@ == dir_answer(
            match *outcome {
                Ok(items) => Ok::<Listing, Failure>(readable(items@)),
                Err(failure) => Err(failure),
            },
        ),
{
    match outcome {
        Ok(items) => {
            let names = collect_entries(items);
            write_dir_reply(&names)
        },
        Err(failure) => write_failure(*failure),
    }
}

/// Answers a READLINK. Bytes of the target that are no valid UTF-8 are replaced.
pub fn handle_readlink(outcome: &Result<Vec<u8>, Failure>) -> (res: Vec<u8>)
    ensures
        res@ == link_answer(
            match *outcome {
                Ok(target) => Ok::<Seq<char>, Failure>(name_text(target@)),
                Err(failure) => Err(failure),
            },
        ),
{
    match outcome {
        Ok(target) => write_link_reply(lossy_text(target.as_slice()).as_str()),
        Err(failure) => write_failure(*failure),
    }
}

/// How far the answer to a range read has come.
#[derive(Debug)]
pub enum RangeRead {
    /// The file is to be positioned at `offset`; `want` bytes are then to be read.
    Seek { offset: u64, want: u32 },
    /// `data` has been read; it is to be `want` bytes long in the end.
    Read { want: u32, data: Vec<u8> },
    /// The answer is complete.
    Reply { bytes: Vec<u8> },
    /// There is no answer: the connection ends.
    Failed,
}

/// What one attempt to read from a file gives.
#[derive(Debug)]
pub enum ReadOutcome {
    /// The next bytes; none at the end of the file.
    Bytes(Vec<u8>),
    /// A signal came first.
    Interrupted,
    Failed,
}

/// The stage of a range read.
#[verifier::ext_equal]
pub enum RangeStage {
    Seek { offset: u64, want: u32 },
    Read { want: u32, data: Seq<u8> },
    Reply { bytes: Seq<u8> },
    Failed,
}

/// What one attempt to read gave.
pub enum ReadStep {
    Bytes(Seq<u8>),
    Interrupted,
    Failed,
}

impl View for RangeRead {
    type V = RangeStage;

    open spec fn view(&self) -> RangeStage {
        match *self {
            RangeRead::Seek { offset, want } => RangeStage::Seek { offset, want },
            RangeRead::Read { want, data } => RangeStage::Read { want, data: data@ },
            RangeRead::Reply { bytes } => RangeStage::Reply { bytes: bytes@ },
            RangeRead::Failed => RangeStage::Failed,
        }
    }
}

impl View for ReadOutcome {
    type V = ReadStep;

    open spec fn view(&self) -> ReadStep {
        match *self {
            ReadOutcome::Bytes(bytes) => ReadStep::Bytes(bytes@),
            ReadOutcome::Interrupted => ReadStep::Interrupted,
            ReadOutcome::Failed => ReadStep::Failed,
        }
    }
}

/// How many bytes a range read gives of a file of `file_len` bytes.
pub open spec fn range_len(file_len: u64, offset: u64, size: u32) -> u32 {
    if offset >= file_len {
        0
    } else if file_len - offset < size {
        (file_len - offset) as u32
    } else {
        size
    }
}

impl RangeStage {
    /// The stage once the file is open, or could not be opened. The length is missing where it
    /// could not be found out.
    pub open spec fn opened(
        outcome: Result<Option<u64>, Failure>,
        offset: u64,
        size: u32,
    ) -> RangeStage {
        match outcome {
            Err(failure) => RangeStage::Reply { bytes: seq![failure_status(failure)] },
            Ok(None) => RangeStage::Failed,
            Ok(Some(file_len)) => if offset >= file_len {
                RangeStage::Reply { bytes: range_reply(Seq::empty()) }
            } else {
                RangeStage::Seek { offset, want: range_len(file_len, offset, size) }
            },
        }
    }

    /// The stage in which `data` has been read.
    pub open spec fn having(want: u32, data: Seq<u8>) -> RangeStage {
        if data.len() < want {
            RangeStage::Read { want, data }
        } else {
            RangeStage::Reply { bytes: range_reply(data) }
        }
    }

    /// The stage after an attempt to position the file.
    pub open spec fn after_seek(self, ok: bool) -> RangeStage {
        match self {
            RangeStage::Seek { want, .. } if ok => RangeStage::having(want, Seq::empty()),
            _ => RangeStage::Failed,
        }
    }

    /// The stage after an attempt to read. At the end of the file what is there is answered.
    pub open spec fn after_read(self, step: ReadStep) -> RangeStage {
        match (self, step) {
            (RangeStage::Read { want, data }, ReadStep::Bytes(bytes)) => if bytes.len() == 0 {
                RangeStage::Reply { bytes: range_reply(data) }
            } else {
                RangeStage::having(want, data + bytes)
            },
            (RangeStage::Read { .. }, ReadStep::Interrupted) => self,
            _ => RangeStage::Failed,
        }
    }

    /// The stage after several attempts to read.
    pub open spec fn after_reads(self, steps: Seq<ReadStep>) -> RangeStage
        decreases steps.len(),
    {
        if steps.len() == 0 {
            self
        } else {
            self.after_reads(steps.drop_last()).after_read(steps.last())
        }
    }
}

impl RangeRead {
    /// Starts the answer to a range read: `outcome` is the length of the opened file, or why it
    /// could not be opened.
    pub fn handle_read_range(
        outcome: Result<Option<u64>, Failure>,
        offset: u64,
        size: u32,
    ) -> (res: Self)
        ensures
            res@ == RangeStage::opened(outcome, offset, size),
    {
        match outcome {
            Err(failure) => RangeRead::Reply { bytes: write_failure(failure) },
            Ok(None) => RangeRead::Failed,
            Ok(Some(file_len)) => {
                if offset >= file_len {
                    let none: Vec<u8> = Vec::new();
                    RangeRead::Reply { bytes: write_range_reply(none.as_slice()) }
                } else {
                    let remaining: u64 = file_len - offset;
                    let want: u32 = if remaining < size as u64 {
                        remaining as u32
                    } else {
                        size
                    };
                    RangeRead::Seek { offset, want }
                }
            },
        }
    }

    /// How many bytes the next attempt to read may give.
    pub fn wanted(&self) -> (res: u32)
        ensures
            res == match self@ {
                RangeStage::Read { want, data } if data.len() < want => want - data.len(),
                _ => 0,
            },
    {
        match self {
            RangeRead::Read { want, data } if (data.len() as u64) < *want as u64 => {
                (*want as u64 - data.len() as u64) as u32
            },
            _ => 0,
        }
    }

    fn having(want: u32, data: Vec<u8>) -> (res: Self)
        ensures
            res@ == RangeStage::having(want, data@),
    {
        if (data.len() as u64) < want as u64 {
            RangeRead::Read { want, data }
        } else {
            RangeRead::Reply { bytes: write_range_reply(data.as_slice()) }
        }
    }

    /// Goes on after an attempt to position the file.
    pub fn on_seek(self, ok: bool) -> (res: Self)
        ensures
            res@ == self@.after_seek(ok),
    {
        match self {
            RangeRead::Seek { want, .. } if ok => RangeRead::having(want, Vec::new()),
            _ => RangeRead::Failed,
        }
    }

    /// Goes on after an attempt to read.
    pub fn on_read(self, outcome: ReadOutcome) -> (res: Self)
        ensures
            res@ == self@.after_read(outcome@),
    {
        match self {
            RangeRead::Read { want, data } => match outcome {
                ReadOutcome::Bytes(bytes) => {
                    if bytes.len() == 0 {
                        RangeRead::Reply { bytes: write_range_reply(data.as_slice()) }
                    } else {
                        let mut all = data;
                        let mut more = bytes;
                        all.append(&mut more);
                        RangeRead::having(want, all)
                    }
                },
                ReadOutcome::Interrupted => RangeRead::Read { want, data },
                ReadOutcome::Failed => RangeRead::Failed,
            },
            _ => RangeRead::Failed,
        }
    }
}

/// What the server does next on a connection.
#[derive(Debug)]
pub enum Turn {
    /// Wait for more bytes.
    Await,
    /// Access the file, and answer.
    Perform(Request),
    /// Send these bytes; the connection goes on whether or not that succeeds.
    Refuse(Vec<u8>),
    /// End the connection.
    Hangup,
}

/// What the server does next, by what it means.
#[verifier::ext_equal]
pub enum Move {
    Await,
    Perform(Asked),
    Refuse(Seq<u8>),
    Hangup,
}

impl View for Turn {
    type V = Move;

    open spec fn view(&self) -> Move {
        match *self {
            Turn::Await => Move::Await,
            Turn::Perform(req) => Move::Perform(req@),
            Turn::Refuse(bytes) => Move::Refuse(bytes@),
            Turn::Hangup => Move::Hangup,
        }
    }
}

/// A connection, as the server sees it.
#[derive(Debug)]
pub struct Session {
    inbox: Inbox,
    open: bool,
}

/// The state of a connection: the bytes that belong to no request yet, and whether the
/// connection goes on.
#[verifier::ext_equal]
pub struct SessionState {
    pub pending: Seq<u8>,
    pub open: bool,
}

impl SessionState {
    /// A client has connected.
    pub open spec fn connected() -> SessionState {
        SessionState { pending: Seq::empty(), open: true }
    }

    /// A client has connected and sent these bytes.
    pub open spec fn holding(bytes: Seq<u8>) -> SessionState {
        SessionState { pending: bytes, open: true }
    }

    /// The state once more bytes have arrived.
    pub open spec fn received(self, bytes: Seq<u8>) -> SessionState {
        SessionState { pending: self.pending + bytes, ..self }
    }

    /// The state once a request was served, where `ok` says whether it could be answered.
    pub open spec fn after_answer(self, ok: bool) -> SessionState {
        SessionState { open: self.open && ok, ..self }
    }

    /// What is done next, and the state after it: the first pending request is served once it is
    /// complete, and refused where the operation is unknown. A path that is no valid text ends the
    /// connection.
    pub open spec fn turn(self) -> (Move, SessionState) {
        if !self.open {
            (Move::Hangup, self)
        } else {
            match parse_request(self.pending) {
                (Ok(asked), rest) => {
                    let next = SessionState { pending: rest, open: true };
                    if asked.is_known() {
                        (Move::Perform(asked), next)
                    } else {
                        (Move::Refuse(seq![STATUS_ERROR]), next)
                    }
                },
                (Err(Error::UnexpectedEof), _) => (Move::Await, self),
                (Err(_), rest) => (Move::Hangup, SessionState { pending: rest, open: false }),
            }
        }
    }
}

impl View for Session {
    type V = SessionState;

    closed spec fn view(&self) -> SessionState {
        SessionState { pending: self.inbox@, open: self.open }
    }
}

impl Session {
    /// A client has connected.
    pub fn new() -> (res: Self)
        ensures
            res@ == SessionState::connected(),
    {
        Session { inbox: Inbox::new(), open: true }
    }

    /// Takes in bytes that have arrived.
    pub fn receive(&mut self, bytes: &[u8])
        ensures
            final(self)@ == old(self)@.received(bytes@),
    {
        self.inbox.receive(bytes);
    }

    /// Decides what to do next.
    pub fn handle_client(&mut self) -> (res: Turn)
        ensures
            (res@, final(self)@) == old(self)@.turn(),
            res matches Turn::Perform(req) ==> req !is Unknown,
    {
        if !self.open {
            return Turn::Hangup;
        }
        match self.inbox.next_request() {
            None => Turn::Await,
            Some(Err(_)) => {
                self.open = false;
                Turn::Hangup
            },
            Some(Ok(Request::Unknown { .. })) => {
                let bytes = write_status_reply(STATUS_ERROR);
                Turn::Refuse(bytes)
            },
            Some(Ok(req)) => Turn::Perform(req),
        }
    }

    /// Goes on after a request was served: a failure to answer ends the connection.
    pub fn answered(&mut self, ok: bool)
        ensures
            final(self)@ == old(self)@.after_answer(ok),
    {
        self.open = self.open && ok;
    }

    /// No more bytes will arrive: the connection ends.
    pub fn disconnected(&mut self)
        ensures
            final(self)@ == (SessionState { open: false, ..old(self)@ }),
    {
        self.open = false;
    }
}

} // verus!
