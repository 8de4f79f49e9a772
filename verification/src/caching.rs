//! A file system whose files are fetched from a server once and then kept in a local directory.
//!
//! As in the file system without a cache, an operation gives the request to send, and goes on
//! with what was read of the response.

use vstd::prelude::*;
use vstd::utf8::{encode_utf8, encode_utf8_decode_utf8, encode_utf8_valid_utf8};

use crate::error::Error;
use crate::host::host_enoent;
use crate::inodes::{InodeTable, Inodes};
use crate::proxy::{Connection, S_IFMT};
use crate::range_fetch::bytes_of;
use crate::reply::{listing, parse_block_reply, parse_data_reply};
use crate::request::{law_request_round_trip, parse_request, whole_request, Asked};
use crate::server::{link_answer, read_answer, Failure};
use crate::server_laws::{law_read_dialogue, law_readlink_dialogue};
use crate::text::{below, local_path, lossy_text, name_text};
use crate::wire::{
    StatResponse, OP_READ, OP_READDIR, OP_READLINK, OP_STAT, S_IFDIR, S_IFLNK,
};

verus! {

/// The host's number for a file that does not exist.
pub const HOST_ENOENT: i32 = 2;

/// A file system that keeps what it fetched in `cache_dir`.
pub struct CachingProxyFs {
    cache_dir: String,
    socket_path: String,
    inodes: InodeTable,
}

#[verifier::ext_equal]
pub struct CachingState {
    pub cache_dir: Seq<char>,
    pub socket_path: Seq<char>,
    pub inodes: Inodes,
}

impl View for CachingProxyFs {
    type V = CachingState;

    closed spec fn view(&self) -> CachingState {
        CachingState {
            cache_dir: self.cache_dir@,
            socket_path: self.socket_path@,
            inodes: self.inodes@,
        }
    }
}

/// What is to be done so that a file is in the cache.
#[derive(Debug)]
pub enum CacheStep {
    /// Nothing: it is there.
    Keep,
    /// Ask the server for the metadata.
    FetchStat { request: Vec<u8> },
    /// Ask the server for the target of a link.
    FetchLink { request: Vec<u8> },
    /// Ask the server for the contents of a file with mode `mode`.
    FetchData { request: Vec<u8>, mode: u32 },
    /// Make a directory.
    MakeDir,
    /// Make a link to `target`.
    MakeLink { target: String },
    /// Write a file with mode `mode`.
    WriteFile { data: Vec<u8>, mode: u32 },
}

/// A step, by what it means.
#[verifier::ext_equal]
pub enum Step {
    Keep,
    FetchStat { request: Seq<u8> },
    FetchLink { request: Seq<u8> },
    FetchData { request: Seq<u8>, mode: u32 },
    MakeDir,
    MakeLink { target: Seq<char> },
    WriteFile { data: Seq<u8>, mode: u32 },
}

impl View for CacheStep {
    type V = Step;

    open spec fn view(&self) -> Step {
        match *self {
            CacheStep::Keep => Step::Keep,
            CacheStep::FetchStat { request } => Step::FetchStat { request: request@ },
            CacheStep::FetchLink { request } => Step::FetchLink { request: request@ },
            CacheStep::FetchData { request, mode } => Step::FetchData { request: request@, mode },
            CacheStep::MakeDir => Step::MakeDir,
            CacheStep::MakeLink { target } => Step::MakeLink { target: target@ },
            CacheStep::WriteFile { data, mode } => Step::WriteFile { data: data@, mode },
        }
    }
}

impl Step {
    /// The first step: nothing is to be done for a file that is there.
    pub open spec fn first(path: Seq<char>, exists: bool) -> Step {
        if exists {
            Step::Keep
        } else {
            Step::FetchStat { request: (Asked::Whole { op: OP_STAT, path }).bytes() }
        }
    }

    /// The step after the metadata came, which tells a directory, a link and a file apart.
    pub open spec fn after_stat(path: Seq<char>, reply: Option<StatResponse>) -> Result<
        Step,
        Error,
    > {
        match reply {
            None => Err(Error::Os(HOST_ENOENT)),
            Some(st) => Ok(
                if st.mode & S_IFMT == S_IFDIR {
                    Step::MakeDir
                } else if st.mode & S_IFMT == S_IFLNK {
                    Step::FetchLink { request: (Asked::Whole { op: OP_READLINK, path }).bytes() }
                } else {
                    Step::FetchData {
                        request: (Asked::Whole { op: OP_READ, path }).bytes(),
                        mode: st.mode,
                    }
                },
            ),
        }
    }

    /// The step after the target of a link came.
    pub open spec fn after_link(reply: Option<Seq<u8>>) -> Result<Step, Error> {
        match reply {
            None => Err(Error::Os(HOST_ENOENT)),
            Some(target) => Ok(Step::MakeLink { target: name_text(target) }),
        }
    }

    /// The step after the contents of a file came.
    pub open spec fn after_data(reply: Option<Seq<u8>>, mode: u32) -> Result<Step, Error> {
        match reply {
            None => Err(Error::Os(HOST_ENOENT)),
            Some(data) => Ok(Step::WriteFile { data, mode }),
        }
    }
}

impl CachingProxyFs {
    /// A file system that caches in `cache_dir` and whose server listens on `socket_path`.
    pub fn new(cache_dir: &str, socket_path: &str) -> (res: Result<Self, Error>)
        ensures
            res matches Ok(fs) && fs@ == (CachingState {
                cache_dir: cache_dir@,
                socket_path: socket_path@,
                inodes: Inodes::initial(),
            }) && fs@.inodes.valid(),
    {
        Ok(
            CachingProxyFs {
                cache_dir: cache_dir.to_owned(),
                socket_path: socket_path.to_owned(),
                inodes: InodeTable::new(),
            },
        )
    }

    /// How to get a connection: `cloned` says whether the one that is there could be cloned.
    pub fn connect(&self, cloned: bool) -> (res: Connection)
        ensures
            cloned ==> res is Reuse,
            !cloned ==> (res matches Connection::Connect { socket_path } && socket_path@
                == self@.socket_path),
    {
        if cloned {
            Connection::Reuse
        } else {
            Connection::Connect { socket_path: self.socket_path.clone() }
        }
    }

    /// The inode of a path, given out now if it has none.
    pub fn alloc_inode(&mut self, path: &str) -> (res: u64)
        requires
            old(self)@.inodes.valid(),
            old(self)@.inodes.inodes.contains_key(path@) || old(self)@.inodes.room(1),
        ensures
            final(self)@ == (CachingState { inodes: old(self)@.inodes.with(path@), ..old(self)@ }),
            final(self)@.inodes.valid(),
            res == final(self)@.inodes.inodes[path@],
    {
        self.inodes.alloc_inode(path)
    }

    /// The path of an inode, if the number was given out.
    pub fn get_path(&self, inode: u64) -> (res: Option<String>)
        ensures
            res is Some <==> self@.inodes.paths.contains_key(inode),
            res matches Some(path) ==> path@ == self@.inodes.paths[inode],
    {
        self.inodes.get_path(inode)
    }

    /// The number of inodes that can still be given out, up to the end of the counter.
    pub fn inode_room(&self) -> (res: u64)
        ensures
            res == u64::MAX - self@.inodes.next,
    {
        u64::MAX - self.inodes.next_inode()
    }

    /// Where a file is cached.
    pub fn cache_path(&self, rel_path: &str) -> (res: String)
        ensures
            res@ == below(self@.cache_dir, rel_path@),
    {
        local_path(self.cache_dir.as_str(), rel_path)
    }

    /// Begins to bring a file into the cache, unless it exists there.
    pub fn ensure_cached(rel_path: &str, exists: bool) -> (res: CacheStep)
        ensures
            res@ == Step::first(rel_path@, exists),
    {
        if exists {
            CacheStep::Keep
        } else {
            CacheStep::FetchStat { request: whole_request(OP_STAT, rel_path) }
        }
    }

    /// Goes on with the response to a STAT.
    pub fn cache_stat(rel_path: &str, reply: Option<StatResponse>) -> (res: Result<
        CacheStep,
        Error,
    >)
        ensures
            match res {
                Ok(step) => Step::after_stat(rel_path@, reply) == Ok::<Step, Error>(step@),
                Err(e) => Step::after_stat(rel_path@, reply) == Err::<Step, Error>(e),
            },
    {
        match reply {
            None => Err(Error::Os(host_enoent())),
            Some(st) => {
                let kind: u32 = st.mode & S_IFMT;
                if kind == S_IFDIR {
                    Ok(CacheStep::MakeDir)
                } else if kind == S_IFLNK {
                    Ok(CacheStep::FetchLink { request: whole_request(OP_READLINK, rel_path) })
                } else {
                    Ok(
                        CacheStep::FetchData {
                            request: whole_request(OP_READ, rel_path),
                            mode: st.mode,
                        },
                    )
                }
            },
        }
    }

    /// Goes on with the response to a READLINK. Bytes of the target that are no valid UTF-8 are
    /// replaced.
    pub fn cache_link(reply: Option<Vec<u8>>) -> (res: Result<CacheStep, Error>)
        ensures
            match res {
                Ok(step) => Step::after_link(bytes_of(reply)) == Ok::<Step, Error>(step@),
                Err(e) => Step::after_link(bytes_of(reply)) == Err::<Step, Error>(e),
            },
    {
        match reply {
            None => Err(Error::Os(host_enoent())),
            Some(target) => Ok(CacheStep::MakeLink { target: lossy_text(target.as_slice()) }),
        }
    }

    /// Goes on with the response to a READ.
    pub fn cache_data(reply: Option<Vec<u8>>, mode: u32) -> (res: Result<CacheStep, Error>)
        ensures
            match res {
                Ok(step) => Step::after_data(bytes_of(reply), mode) == Ok::<Step, Error>(step@),
                Err(e) => Step::after_data(bytes_of(reply), mode) == Err::<Step, Error>(e),
            },
    {
        match reply {
            None => Err(Error::Os(host_enoent())),
            Some(data) => Ok(CacheStep::WriteFile { data, mode }),
        }
    }

    /// The request for the entries of a directory.
    pub fn dir_request(rel_path: &str) -> (res: Vec<u8>)
        ensures
            res@ == (Asked::Whole { op: OP_READDIR, path: rel_path@ }).bytes(),
    {
        whole_request(OP_READDIR, rel_path)
    }

    /// The entries in the response to a READDIR.
    pub fn dir_entries(reply: Option<Vec<(String, u32)>>) -> (res: Result<
        Vec<(String, u32)>,
        Error,
    >)
        ensures
            res == match reply {
                Some(entries) => Ok::<Vec<(String, u32)>, Error>(entries),
                None => Err(Error::Os(HOST_ENOENT)),
            },
    {
        match reply {
            Some(entries) => Ok(entries),
            None => Err(Error::Os(host_enoent())),
        }
    }

    /// Ends the caching of a directory, once it was made: each entry gets an inode.
    pub fn ensure_dir_cached(&mut self, rel_path: &str, entries: &Vec<(String, u32)>)
        requires
            old(self)@.inodes.valid(),
            old(self)@.inodes.room(entries@.len()),
        ensures
            final(self)@ == (CachingState {
                inodes: old(self)@.inodes.with_children(rel_path@, listing(entries@)),
                ..old(self)@
            }),
            final(self)@.inodes.valid(),
    {
        self.inodes.register_children(rel_path, entries);
    }
}

/// What is done in the end for a file that is not in the cache, where the server responds with
/// `stat` to a STAT, and with `link` or `data` if it is then asked for them.
pub open spec fn last_step(
    path: Seq<char>,
    stat: Option<StatResponse>,
    link: Option<Seq<u8>>,
    data: Option<Seq<u8>>,
) -> Result<Step, Error> {
    match Step::after_stat(path, stat) {
        Ok(Step::FetchLink { .. }) => Step::after_link(link),
        Ok(Step::FetchData { mode, .. }) => Step::after_data(data, mode),
        Ok(step) => Ok(step),
        Err(e) => Err(e),
    }
}

/// At most two requests bring a file into the cache: a directory is made, a link is made to its
/// target, a file is written with its contents and mode. Where the server has no metadata, or has
/// no target or contents to go with it, the file does not exist.
pub proof fn law_what_is_cached(
    path: Seq<char>,
    stat: Option<StatResponse>,
    link: Option<Seq<u8>>,
    data: Option<Seq<u8>>,
)
    ensures
        last_step(path, stat, link, data) == (match stat {
            None => Err::<Step, Error>(Error::Os(HOST_ENOENT)),
            Some(st) => if st.mode & S_IFMT == S_IFDIR {
                Ok(Step::MakeDir)
            } else if st.mode & S_IFMT == S_IFLNK {
                match link {
                    Some(target) => Ok(Step::MakeLink { target: name_text(target) }),
                    None => Err(Error::Os(HOST_ENOENT)),
                }
            } else {
                match data {
                    Some(bytes) => Ok(Step::WriteFile { data: bytes, mode: st.mode }),
                    None => Err(Error::Os(HOST_ENOENT)),
                }
            },
        }),
{
}

/// Success means that the file is in the cache: one that is kept exists there, and one that was
/// fetched is made as what the metadata says it is.
pub proof fn law_success_caches_the_file(
    path: Seq<char>,
    exists: bool,
    stat: Option<StatResponse>,
    link: Option<Seq<u8>>,
    data: Option<Seq<u8>>,
)
    ensures
        Step::first(path, exists) == Step::Keep <==> exists,
        last_step(path, stat, link, data) matches Ok(step) ==> {
            &&& stat matches Some(st)
            &&& if st.mode & S_IFMT == S_IFDIR {
                step == Step::MakeDir
            } else if st.mode & S_IFMT == S_IFLNK {
                step is MakeLink
            } else {
                step matches Step::WriteFile { mode, .. } && mode == st.mode
            }
        },
{
}

/// A link is cached with the target that the server found; where it found none, the link does not
/// exist.
pub proof fn law_link_is_cached_as_served(outcome: Result<Seq<char>, Failure>, rest: Seq<u8>)
    requires
        outcome matches Ok(target) ==> encode_utf8(target).len() < 0x1_0000_0000,
    ensures
        parse_block_reply(link_answer(outcome) + rest).0 matches Ok(reply) && Step::after_link(
            reply,
        ) == match outcome {
            Ok(target) => Ok(Step::MakeLink { target }),
            Err(_) => Err::<Step, Error>(Error::Os(HOST_ENOENT)),
        },
{
    law_readlink_dialogue(outcome, rest);
    if let Ok(target) = outcome {
        encode_utf8_valid_utf8(target);
        encode_utf8_decode_utf8(target);
    }
}

/// A file is cached with the contents that the server found and the mode that it reported; where
/// it found none, the file does not exist.
pub proof fn law_file_is_cached_as_served(
    outcome: Result<Seq<u8>, Failure>,
    mode: u32,
    rest: Seq<u8>,
)
    requires
        outcome matches Ok(data) ==> data.len() <= u64::MAX,
    ensures
        parse_data_reply(read_answer(outcome) + rest).0 matches Ok(reply) && Step::after_data(
            reply,
            mode,
        ) == match outcome {
            Ok(data) => Ok(Step::WriteFile { data, mode }),
            Err(_) => Err::<Step, Error>(Error::Os(HOST_ENOENT)),
        },
{
    law_read_dialogue(outcome, rest);
}

/// What is done goes by the four type bits of the mode and by nothing else: a directory is made,
/// a link is asked for its target, and anything else for its contents, which then get the mode that
/// the server reported.
pub proof fn law_step_goes_by_the_type_bits(path: Seq<char>, st: StatResponse)
    ensures
        Step::after_stat(path, Some(st)) matches Ok(step) && if st.mode / 4096 % 16 == 4 {
            step is MakeDir
        } else if st.mode / 4096 % 16 == 10 {
            step is FetchLink
        } else {
            step matches Step::FetchData { mode, .. } && mode == st.mode
        },
{
    let mode = st.mode;
    assert((mode & 0o170000 == 0o040000) == (mode / 4096 % 16 == 4)) by (bit_vector);
    assert((mode & 0o170000 == 0o120000) == (mode / 4096 % 16 == 10)) by (bit_vector);
}

/// The server understands each request as what it is for, on the path that is to be cached: first
/// a STAT, then a READLINK of a link and a READ of anything that is neither a link nor a directory.
pub proof fn law_cache_requests_are_understood(path: Seq<char>, st: StatResponse, rest: Seq<u8>)
    requires
        encode_utf8(path).len() < 0x1_0000_0000,
    ensures
        Step::first(path, false) matches Step::FetchStat { request } && parse_request(
            request + rest,
        ) == (Ok::<Asked, Error>(Asked::Whole { op: 1, path }), rest),
        st.mode / 4096 % 16 == 10 ==> (Step::after_stat(path, Some(st)) matches Ok(
            Step::FetchLink { request },
        ) && parse_request(request + rest) == (
            Ok::<Asked, Error>(Asked::Whole { op: 4, path }),
            rest,
        )),
        st.mode / 4096 % 16 != 4 && st.mode / 4096 % 16 != 10 ==> (Step::after_stat(
            path,
            Some(st),
        ) matches Ok(Step::FetchData { request, .. }) && parse_request(request + rest) == (
            Ok::<Asked, Error>(Asked::Whole { op: 2, path }),
            rest,
        )),
{
    law_step_goes_by_the_type_bits(path, st);
    law_request_round_trip(Asked::Whole { op: 1, path }, rest);
    law_request_round_trip(Asked::Whole { op: 2, path }, rest);
    law_request_round_trip(Asked::Whole { op: 4, path }, rest);
}

/// What the server holds is what is cached: a link with the text of its target, a file with its
/// contents and its mode. Where the server has none, the error is number 2.
pub proof fn law_what_came_is_cached(path: Seq<char>, bytes: Seq<u8>, mode: u32)
    ensures
        Step::after_link(Some(bytes)) matches Ok(Step::MakeLink { target }) && target == name_text(
            bytes,
        ),
        Step::after_data(Some(bytes), mode) matches Ok(Step::WriteFile { data, mode: m }) && data
            == bytes && m == mode,
        Step::after_stat(path, None) == Err::<Step, Error>(Error::Os(2)),
        Step::after_link(None) == Err::<Step, Error>(Error::Os(2)),
        Step::after_data(None, mode) == Err::<Step, Error>(Error::Os(2)),
{
}

/// A step is what it says.
pub proof fn law_cache_step_meaning(step: CacheStep)
    ensures
        match step {
            CacheStep::Keep => step@ == Step::Keep,
            CacheStep::FetchStat { request } => step@ == (Step::FetchStat { request: request@ }),
            CacheStep::FetchLink { request } => step@ == (Step::FetchLink { request: request@ }),
            CacheStep::FetchData { request, mode } => step@ == (Step::FetchData {
                request: request@,
                mode,
            }),
            CacheStep::MakeDir => step@ == Step::MakeDir,
            CacheStep::MakeLink { target } => step@ == (Step::MakeLink { target: target@ }),
            CacheStep::WriteFile { data, mode } => step@ == (Step::WriteFile { data: data@, mode }),
        },
{
}

} // verus!
