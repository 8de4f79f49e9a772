//! A read-only file system whose files are fetched from a server on demand. Nothing is cached:
//! every access is a round trip.
//!
//! An operation that needs the server comes in two parts. The first checks its arguments and
//! gives the request to send; the second takes what was read of the response.

use std::collections::BTreeMap;

use vstd::prelude::*;
use vstd::slice::slice_to_vec;
use vstd::utf8::{decode_utf8, encode_utf8, valid_utf8};

use crate::error::{ebadf, enoent, erofs, Error, LINUX_EBADF, LINUX_ENOENT, LINUX_EROFS};
use crate::host::{dt_dir, dt_lnk, dt_reg, st_rdonly};
use crate::inodes::{InodeTable, Inodes};
use crate::range_fetch::{RangeFetch, RangeProgress};
use crate::reply::{listing, Listing};
use crate::request::{whole_request, Asked};
use crate::text::{child, child_path, text_of};
use crate::wire::{StatResponse, OP_READDIR, OP_READLINK, OP_STAT, S_IFDIR, S_IFLNK};

verus! {

broadcast use {vstd::std_specs::btree::group_btree_axioms, vstd::laws_cmp::group_laws_cmp};

/// How long the guest may keep what it was told of a file: a day.
pub const TIMEOUT_SECS: u64 = 86400;

/// How long reading from and writing to an accepted connection may take.
pub const CONNECTION_TIMEOUT_SECS: u64 = 10;

/// The bits of a mode that hold the file type.
pub const S_IFMT: u32 = 0o170000;

/// File attributes as the guest sees them.
#[derive(Debug, Clone, Copy, PartialEq, Eq, Structural)]
pub struct Stat64 {
    pub st_mode: u16,
    pub st_size: i64,
    pub st_uid: u32,
    pub st_gid: u32,
    pub st_mtime: i64,
    pub st_nlink: u16,
    pub st_ino: u64,
    pub st_blksize: i32,
    pub st_blocks: i64,
}

/// The low 16 bits.
pub open spec fn low16(v: nat) -> u16 {
    (v % 65536) as u16
}

/// The number that `v` is in 64-bit two's complement.
pub open spec fn as_signed(v: u64) -> i64 {
    if v <= i64::MAX {
        v as i64
    } else {
        (v - 0x1_0000_0000_0000_0000) as i64
    }
}

/// The attributes that the guest sees of a file. Sizes are counted in blocks of 512 bytes.
pub open spec fn stat64_of(remote: StatResponse) -> Stat64 {
    Stat64 {
        st_mode: low16(remote.mode as nat),
        st_size: as_signed(remote.size),
        st_uid: remote.uid,
        st_gid: remote.gid,
        st_mtime: as_signed(remote.mtime),
        st_nlink: low16(remote.nlink as nat),
        st_ino: remote.ino,
        st_blksize: 4096,
        st_blocks: ((remote.size + 511) / 512) as i64,
    }
}

fn to_signed(v: u64) -> (res: i64)
    ensures
        res == as_signed(v),
{
    assert(v <= 0x7fff_ffff_ffff_ffff ==> v as i64 == v) by (bit_vector);
    assert(v > 0x7fff_ffff_ffff_ffff ==> v as i64 == v - 0x1_0000_0000_0000_0000) by (bit_vector);
    v as i64
}

/// The attributes that the guest sees of a file.
pub fn stat_to_stat64(remote: &StatResponse) -> (res: Stat64)
    requires
        remote.size + 511 <= u64::MAX,
    ensures
        res == stat64_of(*remote),
{
    Stat64 {
        st_mode: (remote.mode % 65536) as u16,
        st_size: to_signed(remote.size),
        st_uid: remote.uid,
        st_gid: remote.gid,
        st_mtime: to_signed(remote.mtime),
        st_nlink: (remote.nlink % 65536) as u16,
        st_ino: remote.ino,
        st_blksize: 4096,
        st_blocks: ((remote.size + 511) / 512) as i64,
    }
}

/// The directory entry type of a file type: anything but a directory or a link is a regular file.
pub open spec fn dtype_of(mode: u32) -> u32 {
    if mode & S_IFMT == S_IFDIR {
        4
    } else if mode & S_IFMT == S_IFLNK {
        10
    } else {
        8
    }
}

/// The directory entry type of a mode.
pub fn mode_to_dtype(mode: u32) -> (res: u32)
    ensures
        res == dtype_of(mode),
{
    let kind: u32 = mode & S_IFMT;
    if kind == S_IFDIR {
        dt_dir()
    } else if kind == S_IFLNK {
        dt_lnk()
    } else {
        dt_reg()
    }
}

/// An open file or directory. A directory keeps the entries it had when it was opened.
#[derive(Debug)]
pub struct HandleData {
    inode: u64,
    dir_entries: Option<Vec<(String, u32)>>,
}

/// A file system that is served by a proxy server.
pub struct ProxyFs {
    socket_path: String,
    listening: bool,
    inodes: InodeTable,
    handles: BTreeMap<u64, HandleData>,
    next_handle: u64,
}

/// What an open handle stands for: an inode, and the entries where it is a directory.
#[verifier::ext_equal]
pub struct Handle {
    pub inode: u64,
    pub entries: Option<Listing>,
}

/// The state of the file system. `next_handle` is the first handle that was not given out.
#[verifier::ext_equal]
pub struct ProxyState {
    pub socket_path: Seq<char>,
    pub listening: bool,
    pub inodes: Inodes,
    pub handles: Map<u64, Handle>,
    pub next_handle: u64,
}

impl View for HandleData {
    type V = Handle;

    closed spec fn view(&self) -> Handle {
        Handle {
            inode: self.inode,
            entries: match self.dir_entries {
                Some(entries) => Some(listing(entries@)),
                None => None,
            },
        }
    }
}

impl View for ProxyFs {
    type V = ProxyState;

    closed spec fn view(&self) -> ProxyState {
        ProxyState {
            socket_path: self.socket_path@,
            listening: self.listening,
            inodes: self.inodes@,
            handles: self.handles@.map_values(|data: HandleData| data@),
            next_handle: self.next_handle,
        }
    }
}

impl ProxyState {
    /// Inodes and paths belong to each other one to one, and every open handle was given out.
    pub open spec fn valid(self) -> bool {
        &&& self.inodes.valid()
        &&& self.next_handle >= 1
        &&& forall|handle: u64| #[trigger]
            self.handles.contains_key(handle) ==> 1 <= handle < self.next_handle
    }

    pub open spec fn initial(socket_path: Seq<char>, listening: bool) -> ProxyState {
        ProxyState {
            socket_path,
            listening,
            inodes: Inodes::initial(),
            handles: Map::empty(),
            next_handle: 1,
        }
    }

    /// The state once the next handle is open.
    pub open spec fn with_handle(self, data: Handle) -> ProxyState {
        ProxyState {
            handles: self.handles.insert(self.next_handle, data),
            next_handle: (self.next_handle + 1) as u64,
            ..self
        }
    }

    /// The state once `handle` is closed, open or not.
    pub open spec fn without_handle(self, handle: u64) -> ProxyState {
        ProxyState { handles: self.handles.remove(handle), ..self }
    }

    /// Whether `handle` is open on `inode`.
    pub open spec fn is_open(self, inode: u64, handle: u64) -> bool {
        self.handles.contains_key(handle) && self.handles[handle].inode == inode
    }
}

/// A request, and the path that it is about.
#[derive(Debug)]
pub struct PathRequest {
    pub path: String,
    pub bytes: Vec<u8>,
}

impl PathRequest {
    /// Whether this asks for operation `op` on `path`.
    pub open spec fn asks(self, op: u8, path: Seq<char>) -> bool {
        &&& self.path@ == path
        &&& self.bytes@ == (Asked::Whole { op, path }).bytes()
    }

    fn new(op: u8, path: String) -> (res: Self)
        ensures
            res.asks(op, path@),
    {
        let bytes = whole_request(op, path.as_str());
        PathRequest { path, bytes }
    }
}

/// What the guest learns of a file that it looked up.
#[derive(Debug, Clone, Copy, PartialEq, Eq, Structural)]
pub struct Entry {
    pub inode: u64,
    pub generation: u64,
    pub attr: Stat64,
    pub attr_flags: u32,
    pub attr_timeout_secs: u64,
    pub entry_timeout_secs: u64,
}

/// A handle that was opened. The guest may keep its cached pages.
#[derive(Debug, Clone, Copy, PartialEq, Eq, Structural)]
pub struct Opened {
    pub handle: u64,
    pub keep_cache: bool,
}

/// What the guest learns of the file system.
#[derive(Debug, Clone, Copy, PartialEq, Eq, Structural)]
pub struct StatVfs64 {
    pub f_namemax: u64,
    pub f_bsize: u64,
    pub f_frsize: u64,
    pub f_flag: u64,
}

/// How to get a connection to the server.
#[derive(Debug)]
pub enum Connection {
    /// Use the one that is there.
    Reuse,
    /// Wait for the server to connect, and then let reading and writing time out.
    Accept { timeout_secs: u64 },
    /// Connect to the server.
    Connect { socket_path: String },
}

impl ProxyFs {
    /// A file system whose server listens on `socket_path`.
    pub fn new(socket_path: &str) -> (res: Result<Self, Error>)
        ensures
            res matches Ok(fs) && fs@ == ProxyState::initial(socket_path@, false) && fs@.valid(),
    {
        let fs = ProxyFs {
            socket_path: socket_path.to_owned(),
            listening: false,
            inodes: InodeTable::new(),
            handles: BTreeMap::new(),
            next_handle: 1,
        };
        assert(fs@.handles =~= Map::empty());
        Ok(fs)
    }

    /// A file system that listens on `socket_path` for its server.
    pub fn new_listen(socket_path: &str) -> (res: Result<Self, Error>)
        ensures
            res matches Ok(fs) && fs@ == ProxyState::initial(socket_path@, true) && fs@.valid(),
    {
        let fs = ProxyFs {
            socket_path: socket_path.to_owned(),
            listening: true,
            inodes: InodeTable::new(),
            handles: BTreeMap::new(),
            next_handle: 1,
        };
        assert(fs@.handles =~= Map::empty());
        Ok(fs)
    }

    /// How to get a connection, if one is there already or not.
    pub fn get_conn(&self, connected: bool) -> (res: Connection)
        ensures
            connected ==> res is Reuse,
            !connected && self@.listening ==> res == (Connection::Accept {
                timeout_secs: CONNECTION_TIMEOUT_SECS,
            }),
            !connected && !self@.listening ==> (res matches Connection::Connect { socket_path }
                && socket_path@ == self@.socket_path),
    {
        if connected {
            Connection::Reuse
        } else if self.listening {
            Connection::Accept { timeout_secs: CONNECTION_TIMEOUT_SECS }
        } else {
            Connection::Connect { socket_path: self.socket_path.clone() }
        }
    }

    /// The path of an inode, or `ENOENT`.
    fn known_path(&self, inode: u64) -> (res: Result<String, Error>)
        ensures
            match res {
                Ok(path) => self@.inodes.paths.contains_key(inode) && path@
                    == self@.inodes.paths[inode],
                Err(e) => !self@.inodes.paths.contains_key(inode) && e == Error::Os(LINUX_ENOENT),
            },
    {
        match self.inodes.get_path(inode) {
            Some(path) => Ok(path),
            None => Err(enoent()),
        }
    }

    /// The request for operation `op` on an inode, or `ENOENT` where there is no such inode.
    fn inode_request(&self, op: u8, inode: u64) -> (res: Result<PathRequest, Error>)
        ensures
            match res {
                Ok(req) => self@.inodes.paths.contains_key(inode) && req.asks(
                    op,
                    self@.inodes.paths[inode],
                ),
                Err(e) => !self@.inodes.paths.contains_key(inode) && e == Error::Os(LINUX_ENOENT),
            },
    {
        let path = self.known_path(inode)?;
        Ok(PathRequest::new(op, path))
    }

    /// The number of inodes that can still be given out, up to a wrap of the counter.
    pub fn inode_room(&self) -> (res: u64)
        ensures
            res == u64::MAX - self@.inodes.next,
    {
        u64::MAX - self.inodes.next_inode()
    }

    /// The number of handles that can still be given out, up to a wrap of the counter.
    pub fn handle_room(&self) -> (res: u64)
        ensures
            res == u64::MAX - self@.next_handle,
    {
        u64::MAX - self.next_handle
    }

    /// The metadata in the response to a STAT: a server that reports any failure has no such file.
    pub fn fetch_stat(reply: Option<StatResponse>) -> (res: Result<StatResponse, Error>)
        ensures
            res == match reply {
                Some(st) => Ok::<StatResponse, Error>(st),
                None => Err(Error::Os(LINUX_ENOENT)),
            },
    {
        match reply {
            Some(st) => Ok(st),
            None => Err(enoent()),
        }
    }

    /// The target in the response to a READLINK.
    pub fn fetch_readlink(reply: Option<Vec<u8>>) -> (res: Result<Vec<u8>, Error>)
        ensures
            res == match reply {
                Some(target) => Ok::<Vec<u8>, Error>(target),
                None => Err(Error::Os(LINUX_ENOENT)),
            },
    {
        match reply {
            Some(target) => Ok(target),
            None => Err(enoent()),
        }
    }

    /// The entries in the response to a READDIR.
    pub fn fetch_readdir(reply: Option<Vec<(String, u32)>>) -> (res: Result<
        Vec<(String, u32)>,
        Error,
    >)
        ensures
            res == match reply {
                Some(entries) => Ok::<Vec<(String, u32)>, Error>(entries),
                None => Err(Error::Os(LINUX_ENOENT)),
            },
    {
        match reply {
            Some(entries) => Ok(entries),
            None => Err(enoent()),
        }
    }

    /// Begins to look up `name` in the directory `parent`: a STAT of the path that it would have.
    pub fn lookup(&self, parent: u64, name: &[u8]) -> (res: Result<PathRequest, Error>)
        ensures
            match res {
                Ok(req) => {
                    &&& self@.inodes.paths.contains_key(parent)
                    &&& valid_utf8(name@)
                    &&& req.asks(OP_STAT, child(self@.inodes.paths[parent], decode_utf8(name@)))
                },
                Err(e) => {
                    &&& !self@.inodes.paths.contains_key(parent) || !valid_utf8(name@)
                    &&& e == Error::Os(LINUX_ENOENT)
                },
            },
    {
        let parent_path = self.known_path(parent)?;
        match text_of(name) {
            Some(child_name) => Ok(
                PathRequest::new(OP_STAT, child_path(parent_path.as_str(), child_name.as_str())),
            ),
            None => Err(enoent()),
        }
    }

    /// Ends a lookup: the file at `path` exists, so it gets an inode.
    pub fn lookup_reply(&mut self, path: &str, remote: &StatResponse) -> (res: Entry)
        requires
            old(self)@.valid(),
            old(self)@.inodes.inodes.contains_key(path@) || old(self)@.inodes.room(1),
            remote.size + 511 <= u64::MAX,
        ensures
            final(self)@ == (ProxyState { inodes: old(self)@.inodes.with(path@), ..old(self)@ }),
            final(self)@.valid(),
            res == (Entry {
                inode: final(self)@.inodes.inodes[path@],
                generation: 0,
                attr: stat64_of(*remote),
                attr_flags: 0,
                attr_timeout_secs: TIMEOUT_SECS,
                entry_timeout_secs: TIMEOUT_SECS,
            }),
    {
        let inode: u64 = self.inodes.alloc_inode(path);
        Entry {
            inode,
            generation: 0,
            attr: stat_to_stat64(remote),
            attr_flags: 0,
            attr_timeout_secs: TIMEOUT_SECS,
            entry_timeout_secs: TIMEOUT_SECS,
        }
    }

    /// Begins to get the attributes of an inode.
    pub fn getattr(&self, inode: u64) -> (res: Result<PathRequest, Error>)
        ensures
            match res {
                Ok(req) => self@.inodes.paths.contains_key(inode) && req.asks(
                    OP_STAT,
                    self@.inodes.paths[inode],
                ),
                Err(e) => !self@.inodes.paths.contains_key(inode) && e == Error::Os(LINUX_ENOENT),
            },
    {
        self.inode_request(OP_STAT, inode)
    }

    /// Ends a getattr: the attributes, and how long they may be kept.
    pub fn getattr_reply(remote: &StatResponse) -> (res: (Stat64, u64))
        requires
            remote.size + 511 <= u64::MAX,
        ensures
            res == (stat64_of(*remote), TIMEOUT_SECS),
    {
        (stat_to_stat64(remote), TIMEOUT_SECS)
    }

    /// Begins to read the target of a link.
    pub fn readlink(&self, inode: u64) -> (res: Result<PathRequest, Error>)
        ensures
            match res {
                Ok(req) => self@.inodes.paths.contains_key(inode) && req.asks(
                    OP_READLINK,
                    self@.inodes.paths[inode],
                ),
                Err(e) => !self@.inodes.paths.contains_key(inode) && e == Error::Os(LINUX_ENOENT),
            },
    {
        self.inode_request(OP_READLINK, inode)
    }

    fn new_handle(&mut self, data: HandleData) -> (res: Opened)
        requires
            old(self)@.valid(),
            old(self)@.next_handle < u64::MAX,
        ensures
            final(self)@ == old(self)@.with_handle(data@),
            final(self)@.valid(),
            res == (Opened { handle: old(self)@.next_handle, keep_cache: true }),
    {
        let handle: u64 = self.next_handle;
        self.next_handle = handle + 1;
        self.handles.insert(handle, data);
        assert(self@.handles =~= old(self)@.handles.insert(handle, data@));
        Opened { handle, keep_cache: true }
    }

    /// Opens a file.
    pub fn open(&mut self, inode: u64) -> (res: Result<Opened, Error>)
        requires
            old(self)@.valid(),
            old(self)@.next_handle < u64::MAX,
        ensures
            final(self)@ == old(self)@.with_handle(Handle { inode, entries: None }),
            final(self)@.valid(),
            res == Ok::<Opened, Error>(
                Opened { handle: old(self)@.next_handle, keep_cache: true },
            ),
    {
        Ok(self.new_handle(HandleData { inode, dir_entries: None }))
    }

    /// Begins to read from an open file.
    pub fn read(&self, inode: u64, handle: u64, size: u32, offset: u64) -> (res: Result<
        RangeFetch,
        Error,
    >)
        ensures
            match res {
                Ok(fetch) => {
                    &&& self@.is_open(inode, handle)
                    &&& self@.inodes.paths.contains_key(inode)
                    &&& fetch@ == RangeProgress::start(self@.inodes.paths[inode], offset, size)
                },
                Err(e) => if !self@.is_open(inode, handle) {
                    e == Error::Os(LINUX_EBADF)
                } else {
                    !self@.inodes.paths.contains_key(inode) && e == Error::Os(LINUX_ENOENT)
                },
            },
    {
        match self.handles.get(&handle) {
            Some(data) => {
                if data.inode != inode {
                    return Err(ebadf());
                }
            },
            None => {
                return Err(ebadf());
            },
        }
        let path = self.known_path(inode)?;
        Ok(RangeFetch::fetch_read_range(path, offset, size))
    }

    /// Closes a file.
    pub fn release(&mut self, handle: u64) -> (res: Result<(), Error>)
        requires
            old(self)@.valid(),
        ensures
            final(self)@ == old(self)@.without_handle(handle),
            final(self)@.valid(),
            res is Ok,
    {
        self.handles.remove(&handle);
        assert(self@.handles =~= old(self)@.handles.remove(handle));
        Ok(())
    }

    /// Begins to open a directory: a READDIR of its path.
    pub fn opendir(&self, inode: u64) -> (res: Result<PathRequest, Error>)
        ensures
            match res {
                Ok(req) => self@.inodes.paths.contains_key(inode) && req.asks(
                    OP_READDIR,
                    self@.inodes.paths[inode],
                ),
                Err(e) => !self@.inodes.paths.contains_key(inode) && e == Error::Os(LINUX_ENOENT),
            },
    {
        self.inode_request(OP_READDIR, inode)
    }

    /// Ends the opening of a directory: each entry gets an inode, and the handle keeps the
    /// entries.
    pub fn opendir_reply(
        &mut self,
        inode: u64,
        path: &str,
        entries: Vec<(String, u32)>,
    ) -> (res: Opened)
        requires
            old(self)@.valid(),
            old(self)@.inodes.room(entries@.len()),
            old(self)@.next_handle < u64::MAX,
        ensures
            final(self)@ == (ProxyState {
                inodes: old(self)@.inodes.with_children(path@, listing(entries@)),
                ..old(self)@
            }).with_handle(Handle { inode, entries: Some(listing(entries@)) }),
            final(self)@.valid(),
            res == (Opened { handle: old(self)@.next_handle, keep_cache: true }),
    {
        self.inodes.register_children(path, &entries);
        self.new_handle(HandleData { inode, dir_entries: Some(entries) })
    }

    /// Closes a directory.
    pub fn releasedir(&mut self, handle: u64) -> (res: Result<(), Error>)
        requires
            old(self)@.valid(),
        ensures
            final(self)@ == old(self)@.without_handle(handle),
            final(self)@.valid(),
            res is Ok,
    {
        self.release(handle)
    }
}

/// How far the listing of an open directory has come.
#[derive(Debug)]
pub struct DirCursor {
    parent: String,
    entries: Vec<(String, u32)>,
    next: usize,
    stopped: bool,
}

/// A listing of the directory `parent`; the entries from `next` on were not given yet. It gives
/// none of them once it is `stopped`.
#[verifier::ext_equal]
pub struct DirProgress {
    pub parent: Seq<char>,
    pub entries: Listing,
    pub next: nat,
    pub stopped: bool,
}

impl View for DirCursor {
    type V = DirProgress;

    closed spec fn view(&self) -> DirProgress {
        DirProgress {
            parent: self.parent@,
            entries: listing(self.entries@),
            next: self.next as nat,
            stopped: self.stopped,
        }
    }
}

impl DirProgress {
    /// The listing that goes on behind the entry with offset `offset`; 0 stands before the first.
    pub open spec fn from(parent: Seq<char>, entries: Listing, offset: u64) -> DirProgress {
        DirProgress {
            parent,
            entries,
            next: if offset < entries.len() {
                offset as nat
            } else {
                entries.len()
            },
            stopped: false,
        }
    }

    pub open spec fn at_end(self) -> bool {
        self.stopped || self.next >= self.entries.len()
    }

    /// The path of the next entry.
    pub open spec fn next_path(self) -> Seq<char> {
        child(self.parent, self.entries[self.next as int].0)
    }

    pub open spec fn advanced(self) -> DirProgress {
        DirProgress { next: self.next + 1, ..self }
    }

    /// The listing once the guest's buffer has answered to an entry: how much it took, nothing
    /// where it is full, or an error. The listing goes on only where something was taken.
    pub open spec fn answered<E>(self, answer: Result<usize, E>) -> DirProgress {
        DirProgress { stopped: self.stopped || !takes(answer), ..self }
    }
}

/// Whether the guest's buffer took an entry.
pub open spec fn takes<E>(answer: Result<usize, E>) -> bool {
    answer matches Ok(n) && n > 0
}

/// What a listing ends with, or goes on with, after an answer: the error where it is one.
pub open spec fn listing_outcome<E>(answer: Result<usize, E>) -> Result<(), E> {
    match answer {
        Ok(_) => Ok(()),
        Err(e) => Err(e),
    }
}

impl DirCursor {
    /// Takes in what the guest's buffer answered to the last entry. Where it took nothing, or
    /// failed, no other entry is given; a failure is what the listing ends with.
    pub fn add_entry<E>(&mut self, answer: Result<usize, E>) -> (res: Result<(), E>)
        ensures
            final(self)@ == old(self)@.answered(answer),
            res == listing_outcome(answer),
    {
        match answer {
            Ok(n) => {
                if n == 0 {
                    self.stopped = true;
                }
                Ok(())
            },
            Err(e) => {
                self.stopped = true;
                Err(e)
            },
        }
    }
}

/// A directory entry as the guest sees it. A listing goes on behind an entry with its offset.
#[derive(Debug)]
pub struct DirEntry {
    pub ino: u64,
    pub offset: u64,
    pub type_: u32,
    pub name: Vec<u8>,
}

fn copy_entries(entries: &Vec<(String, u32)>) -> (res: Vec<(String, u32)>)
    ensures
        listing(res@) == listing(entries@),
{
    let mut res: Vec<(String, u32)> = Vec::new();
    let mut i: usize = 0;
    while i < entries.len()
        invariant
            i <= entries@.len(),
            res@.len() == i,
            forall|j: int|
                0 <= j < i ==> (#[trigger] res@[j]).0@ == entries@[j].0@ && res@[j].1
                    == entries@[j].1,
        decreases entries@.len() - i,
    {
        res.push((entries[i].0.clone(), entries[i].1));
        i += 1;
    }
    assert(listing(res@) =~= listing(entries@));
    res
}

impl ProxyFs {
    /// Begins to list an open directory, behind the entry with offset `offset`.
    pub fn readdir(&self, inode: u64, handle: u64, offset: u64) -> (res: Result<DirCursor, Error>)
        ensures
            match res {
                Ok(cursor) => {
                    &&& self@.is_open(inode, handle)
                    &&& self@.handles[handle].entries matches Some(entries)
                    &&& self@.inodes.paths.contains_key(inode)
                    &&& cursor@ == DirProgress::from(self@.inodes.paths[inode], entries, offset)
                },
                Err(e) => if !self@.is_open(inode, handle) || self@.handles[handle].entries is None {
                    e == Error::Os(LINUX_EBADF)
                } else {
                    !self@.inodes.paths.contains_key(inode) && e == Error::Os(LINUX_ENOENT)
                },
            },
    {
        let data: &HandleData = match self.handles.get(&handle) {
            Some(data) => data,
            None => {
                return Err(ebadf());
            },
        };
        if data.inode != inode {
            return Err(ebadf());
        }
        let entries = match &data.dir_entries {
            Some(entries) => entries,
            None => {
                return Err(ebadf());
            },
        };
        let parent = self.known_path(inode)?;
        let next: usize = if offset < entries.len() as u64 {
            offset as usize
        } else {
            entries.len()
        };
        Ok(DirCursor { parent, entries: copy_entries(entries), next, stopped: false })
    }

    /// The next entry of a listing, if there is one. The file gets an inode if it has none.
    pub fn next_entry(&mut self, cursor: &mut DirCursor) -> (res: Option<DirEntry>)
        requires
            old(self)@.valid(),
            old(cursor)@.at_end() || old(self)@.inodes.inodes.contains_key(
                old(cursor)@.next_path(),
            ) || old(self)@.inodes.room(1),
        ensures
            final(self)@.valid(),
            old(cursor)@.at_end() ==> {
                &&& res is None
                &&& final(self)@ == old(self)@
                &&& final(cursor)@ == old(cursor)@
            },
            !old(cursor)@.at_end() ==> {
                let path = old(cursor)@.next_path();
                let (name, ftype) = old(cursor)@.entries[old(cursor)@.next as int];
                &&& final(self)@ == (ProxyState { inodes: old(self)@.inodes.with(path), ..old(self)@ })
                &&& final(cursor)@ == old(cursor)@.advanced()
                &&& res matches Some(entry) && {
                    &&& entry.ino == final(self)@.inodes.inodes[path]
                    &&& entry.offset == final(cursor)@.next
                    &&& entry.type_ == dtype_of(ftype)
                    &&& entry.name@ == encode_utf8(name)
                }
            },
    {
        let i: usize = cursor.next;
        if cursor.stopped || i >= cursor.entries.len() {
            return None;
        }
        let entry = &cursor.entries[i];
        let path = child_path(cursor.parent.as_str(), entry.0.as_str());
        let ino: u64 = self.inodes.alloc_inode(path.as_str());
        let res = DirEntry {
            ino,
            offset: (i + 1) as u64,
            type_: mode_to_dtype(entry.1),
            name: slice_to_vec(entry.0.as_str().as_bytes()),
        };
        cursor.next = i + 1;
        Some(res)
    }

    /// No optional feature is asked for, whatever the guest is capable of.
    pub fn init(&self, capable: u64) -> (res: Result<u64, Error>)
        ensures
            res == Ok::<u64, Error>(0),
    {
        Ok(0)
    }

    /// Every access is granted; the server decides when the file is read.
    pub fn access(&self, inode: u64, mask: u32) -> (res: Result<(), Error>)
        ensures
            res is Ok,
    {
        Ok(())
    }

    /// A file system that is read-only.
    pub fn statfs(&self, inode: u64) -> (res: Result<StatVfs64, Error>)
        ensures
            res == Ok::<StatVfs64, Error>(
                StatVfs64 { f_namemax: 255, f_bsize: 4096, f_frsize: 4096, f_flag: 1 },
            ),
    {
        Ok(StatVfs64 { f_namemax: 255, f_bsize: 4096, f_frsize: 4096, f_flag: st_rdonly() })
    }

    pub fn setattr(&self, inode: u64, attr: &Stat64, valid: u32) -> (res: Result<
        (Stat64, u64),
        Error,
    >)
        ensures
            res == Err::<(Stat64, u64), Error>(Error::Os(LINUX_EROFS)),
    {
        Err(erofs())
    }

    pub fn mkdir(&self, parent: u64, name: &[u8], mode: u32, umask: u32) -> (res: Result<
        Entry,
        Error,
    >)
        ensures
            res == Err::<Entry, Error>(Error::Os(LINUX_EROFS)),
    {
        Err(erofs())
    }

    pub fn unlink(&self, parent: u64, name: &[u8]) -> (res: Result<(), Error>)
        ensures
            res == Err::<(), Error>(Error::Os(LINUX_EROFS)),
    {
        Err(erofs())
    }

    pub fn rmdir(&self, parent: u64, name: &[u8]) -> (res: Result<(), Error>)
        ensures
            res == Err::<(), Error>(Error::Os(LINUX_EROFS)),
    {
        Err(erofs())
    }

    pub fn rename(
        &self,
        old_dir: u64,
        old_name: &[u8],
        new_dir: u64,
        new_name: &[u8],
        flags: u32,
    ) -> (res: Result<(), Error>)
        ensures
            res == Err::<(), Error>(Error::Os(LINUX_EROFS)),
    {
        Err(erofs())
    }

    pub fn link(&self, inode: u64, new_parent: u64, new_name: &[u8]) -> (res: Result<Entry, Error>)
        ensures
            res == Err::<Entry, Error>(Error::Os(LINUX_EROFS)),
    {
        Err(erofs())
    }

    pub fn symlink(&self, target: &[u8], parent: u64, name: &[u8]) -> (res: Result<Entry, Error>)
        ensures
            res == Err::<Entry, Error>(Error::Os(LINUX_EROFS)),
    {
        Err(erofs())
    }

    pub fn mknod(&self, parent: u64, name: &[u8], mode: u32, rdev: u32, umask: u32) -> (res: Result<
        Entry,
        Error,
    >)
        ensures
            res == Err::<Entry, Error>(Error::Os(LINUX_EROFS)),
    {
        Err(erofs())
    }

    pub fn create(&self, parent: u64, name: &[u8], mode: u32, flags: u32, umask: u32) -> (res: Result<
        (Entry, Opened),
        Error,
    >)
        ensures
            res == Err::<(Entry, Opened), Error>(Error::Os(LINUX_EROFS)),
    {
        Err(erofs())
    }

    pub fn write(&self, inode: u64, handle: u64, size: u32, offset: u64) -> (res: Result<
        usize,
        Error,
    >)
        ensures
            res == Err::<usize, Error>(Error::Os(LINUX_EROFS)),
    {
        Err(erofs())
    }
}

} // verus!
