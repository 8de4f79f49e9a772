//! Fetching a range of a file: the client asks for it in chunks, one after the other.

use vstd::prelude::*;
use vstd::utf8::encode_utf8;

use crate::error::{Error, LINUX_EIO};
use crate::reply::{parse_block_reply, range_reply};
use crate::request::{law_request_round_trip, parse_request, range_request, Asked};
use crate::server_laws::{law_range_dialogue, range_of};

verus! {

/// The most bytes that are asked for at once.
pub const CHUNK: u32 = 32768;

/// How far the fetching of a range has come.
#[derive(Debug)]
pub struct RangeFetch {
    path: String,
    offset: u64,
    remaining: u32,
    data: Vec<u8>,
    done: bool,
}

/// `data` has been fetched; `remaining` bytes of `path` from `offset` on are still wanted, unless
/// the range is `done`.
#[verifier::ext_equal]
pub struct RangeProgress {
    pub path: Seq<char>,
    pub offset: u64,
    pub remaining: u32,
    pub data: Seq<u8>,
    pub done: bool,
}

impl View for RangeFetch {
    type V = RangeProgress;

    closed spec fn view(&self) -> RangeProgress {
        RangeProgress {
            path: self.path@,
            offset: self.offset,
            remaining: self.remaining,
            data: self.data@,
            done: self.done,
        }
    }
}

impl RangeProgress {
    pub open spec fn start(path: Seq<char>, offset: u64, size: u32) -> Self {
        RangeProgress { path, offset, remaining: size, data: Seq::empty(), done: false }
    }

    /// The size of the next chunk.
    pub open spec fn chunk(self) -> u32 {
        if self.remaining < CHUNK {
            self.remaining
        } else {
            CHUNK
        }
    }

    /// What is asked for next, unless the fetching is over.
    pub open spec fn asks(self) -> Option<Asked> {
        if self.done || self.remaining == 0 {
            None
        } else {
            Some(Asked::Range { path: self.path, offset: self.offset, size: self.chunk() })
        }
    }

    /// Whether the fetching can go on with a response: it holds no more than is wanted, and no
    /// byte behind the last position of a file.
    pub open spec fn fits(self, reply: Option<Seq<u8>>) -> bool {
        reply matches Some(data) ==> {
            &&& data.len() <= self.remaining
            &&& self.offset + data.len() <= u64::MAX
        }
    }

    /// What comes of a response. A failure is an error only if nothing has been fetched; a
    /// response that holds less than was asked for is the last.
    pub open spec fn after(self, reply: Option<Seq<u8>>) -> Result<Self, Error> {
        match reply {
            None => if self.data.len() == 0 {
                Err(Error::Os(LINUX_EIO))
            } else {
                Ok(RangeProgress { done: true, ..self })
            },
            Some(data) => if data.len() == 0 {
                Ok(RangeProgress { done: true, ..self })
            } else {
                Ok(
                    RangeProgress {
                        path: self.path,
                        offset: (self.offset + data.len()) as u64,
                        remaining: (self.remaining - data.len()) as u32,
                        data: self.data + data,
                        done: data.len() < self.chunk(),
                    },
                )
            },
        }
    }
}

/// The bytes that an optional vector holds.
pub open spec fn bytes_of(reply: Option<Vec<u8>>) -> Option<Seq<u8>> {
    match reply {
        Some(data) => Some(data@),
        None => None,
    }
}

impl RangeFetch {
    /// Starts the fetching of `size` bytes of `path` from `offset` on.
    pub fn fetch_read_range(path: String, offset: u64, size: u32) -> (res: Self)
        ensures
            res@ == RangeProgress::start(path@, offset, size),
    {
        RangeFetch { path, offset, remaining: size, data: Vec::new(), done: false }
    }

    fn chunk(&self) -> (res: u32)
        ensures
            res == self@.chunk(),
    {
        if self.remaining < CHUNK {
            self.remaining
        } else {
            CHUNK
        }
    }

    /// The next request, unless the fetching is over.
    pub fn next_request(&self) -> (res: Option<Vec<u8>>)
        ensures
            bytes_of(res) == (match self@.asks() {
                Some(asked) => Some(asked.bytes()),
                None => None,
            }),
    {
        if self.done || self.remaining == 0 {
            None
        } else {
            Some(range_request(self.path.as_str(), self.offset, self.chunk()))
        }
    }

    /// Whether the fetching can go on with a response that holds `len` bytes.
    pub fn fits(&self, len: usize) -> (res: bool)
        ensures
            forall|data: Seq<u8>| data.len() == len ==> res == #[trigger] self@.fits(Some(data)),
    {
        let n: u64 = len as u64;
        let res = n <= self.remaining as u64 && self.offset <= u64::MAX - n;
        assert(forall|data: Seq<u8>| data.len() == len ==> res == #[trigger] self@.fits(Some(data)));
        res
    }

    /// Goes on with the response to the last request: the bytes, or nothing where the server
    /// reported a failure.
    pub fn on_reply(self, reply: Option<Vec<u8>>) -> (res: Result<Self, Error>)
        requires
            self@.fits(bytes_of(reply)),
        ensures
            match res {
                Ok(next) => self@.after(bytes_of(reply)) == Ok::<RangeProgress, Error>(next@),
                Err(e) => self@.after(bytes_of(reply)) == Err::<RangeProgress, Error>(e),
            },
    {
        let mut next = self;
        match reply {
            None => {
                if next.data.len() == 0 {
                    return Err(Error::Os(LINUX_EIO));
                }
                next.done = true;
            },
            Some(data) => {
                let len: usize = data.len();
                if len == 0 {
                    next.done = true;
                } else {
                    next.done = (len as u64) < next.chunk() as u64;
                    let mut more = data;
                    next.data.append(&mut more);
                    next.offset = next.offset + len as u64;
                    next.remaining = next.remaining - len as u32;
                }
            },
        }
        Ok(next)
    }

    /// The bytes that were fetched.
    pub fn into_data(self) -> (res: Vec<u8>)
        ensures
            res@ == self@.data,
    {
        self.data
    }
}

/// What comes of fetching a range from a server that holds `file`: each response holds what the
/// file holds of the chunk.
pub open spec fn fetched(st: RangeProgress, file: Seq<u8>) -> Result<Seq<u8>, Error>
    decreases
            (if st.done {
                0
            } else {
                st.remaining + 1
            }),
{
    if st.asks() is None {
        Ok(st.data)
    } else {
        match st.after(Some(range_of(file, st.offset, st.chunk()))) {
            Ok(next) => fetched(next, file),
            Err(e) => Err(e),
        }
    }
}

/// Fetching a range from a server that holds `file` gives the bytes that the file holds of the
/// range, behind what was fetched before.
proof fn lemma_fetched(st: RangeProgress, file: Seq<u8>)
    requires
        file.len() <= u64::MAX,
        st.done ==> st.offset >= file.len(),
    ensures
        fetched(st, file) == Ok::<Seq<u8>, Error>(
            st.data + range_of(file, st.offset, st.remaining),
        ),
    decreases
            (if st.done {
                0
            } else {
                st.remaining + 1
            }),
{
    let whole = range_of(file, st.offset, st.remaining);
    if st.asks() is None {
        assert(st.data + whole =~= st.data);
    } else {
        let part = range_of(file, st.offset, st.chunk());
        let next = st.after(Some(part))->Ok_0;
        if part.len() == 0 {
            assert(fetched(next, file) == Ok::<Seq<u8>, Error>(st.data));
            assert(st.data + whole =~= st.data);
        } else {
            lemma_fetched(next, file);
            let tail = range_of(file, next.offset, next.remaining);
            assert(part + tail =~= whole);
            assert(next.data + tail =~= st.data + whole);
        }
    }
}

/// Fetching a range gives the bytes that the file holds of it: as many as were asked for, or
/// those up to the end of the file.
pub proof fn law_fetch_gives_the_range(path: Seq<char>, file: Seq<u8>, offset: u64, size: u32)
    requires
        file.len() <= u64::MAX,
    ensures
        fetched(RangeProgress::start(path, offset, size), file) == Ok::<Seq<u8>, Error>(
            range_of(file, offset, size),
        ),
{
    lemma_fetched(RangeProgress::start(path, offset, size), file);
    assert(Seq::<u8>::empty() + range_of(file, offset, size) =~= range_of(file, offset, size));
}

/// The fetching can go on with every response of a server that holds `file`.
pub proof fn law_honest_response_fits(st: RangeProgress, file: Seq<u8>)
    requires
        file.len() <= u64::MAX,
    ensures
        st.fits(Some(range_of(file, st.offset, st.chunk()))),
{
}

/// Whatever the server sends, no more is fetched than was asked for.
pub proof fn law_fetch_is_bounded(st: RangeProgress, reply: Option<Seq<u8>>)
    requires
        st.fits(reply),
    ensures
        st.after(reply) matches Ok(next) ==> next.data.len() + next.remaining == st.data.len()
            + st.remaining,
{
}

/// Fetching over the wire goes on as if the client saw the file: the server understands each
/// request, and the client reads of the answer what the file holds of the chunk.
pub proof fn law_fetch_over_the_wire(st: RangeProgress, file: Seq<u8>, rest: Seq<u8>)
    requires
        st.asks() is Some,
        encode_utf8(st.path).len() < 0x1_0000_0000,
    ensures
        parse_request(st.asks()->Some_0.bytes() + rest) == (
            Ok::<Asked, Error>(
                Asked::Range { path: st.path, offset: st.offset, size: st.chunk() },
            ),
            rest,
        ),
        parse_block_reply(range_reply(range_of(file, st.offset, st.chunk())) + rest) == (
            Ok::<Option<Seq<u8>>, Error>(Some(range_of(file, st.offset, st.chunk()))),
            rest,
        ),
{
    law_request_round_trip(st.asks()->Some_0, rest);
    law_range_dialogue(file, st.offset, st.chunk(), rest);
}

/// How far a fetch has come after responses, in their order, or the error that it ended with.
pub open spec fn progress(st: RangeProgress, replies: Seq<Option<Seq<u8>>>) -> Result<
    RangeProgress,
    Error,
>
    decreases replies.len(),
{
    if replies.len() == 0 {
        Ok(st)
    } else {
        match st.after(replies[0]) {
            Ok(next) => progress(next, replies.drop_first()),
            Err(e) => Err(e),
        }
    }
}

/// Every request of a fetch names the path that the fetch was started for, whatever the server
/// responds, and asks for no more than 32768 bytes at once.
pub proof fn law_requests_name_the_path(
    path: Seq<char>,
    offset: u64,
    size: u32,
    replies: Seq<Option<Seq<u8>>>,
)
    ensures
        progress(RangeProgress::start(path, offset, size), replies) matches Ok(st) ==> (
        st.asks() matches Some(asked) ==> asked matches Asked::Range { path: named, size: n, .. }
            && named == path && 0 < n <= 32768),
{
    lemma_path_is_kept(RangeProgress::start(path, offset, size), replies);
}

proof fn lemma_path_is_kept(st: RangeProgress, replies: Seq<Option<Seq<u8>>>)
    ensures
        progress(st, replies) matches Ok(end) ==> end.path == st.path,
    decreases replies.len(),
{
    if replies.len() > 0 {
        if let Ok(next) = st.after(replies[0]) {
            lemma_path_is_kept(next, replies.drop_first());
        }
    }
}

/// A fetch begins where the range does: the first request asks for the first chunk of it, and
/// there is none where nothing is wanted.
pub proof fn law_fetch_begins_at_the_offset(path: Seq<char>, offset: u64, size: u32)
    ensures
        ({
            let st = RangeProgress::start(path, offset, size);
            &&& st.data.len() == 0
            &&& size == 0 ==> st.asks() is None
            &&& size > 0 ==> (st.asks() matches Some(Asked::Range { path: p, offset: o, size: n })
                && p == path && o == offset && n <= size && n <= 32768 && (n == size || n
                == 32768))
        }),
{
}

/// The bytes of a response go behind those that were fetched before, and the next request goes on
/// behind them. A response that holds less than was asked for is the last, and so is one that
/// completes the range.
pub proof fn law_response_is_appended(st: RangeProgress, data: Seq<u8>)
    requires
        st.asks() is Some,
        st.fits(Some(data)),
    ensures
        ({
            let n = st.asks()->Some_0->Range_size;
            &&& st.after(Some(data)) matches Ok(next)
            &&& next.data == st.data + data
            &&& next.asks() is Some <==> data.len() >= n && data.len() < st.remaining
            &&& next.asks() matches Some(asked) ==> {
                &&& asked->Range_path == st.path
                &&& asked->Range_offset == st.asks()->Some_0->Range_offset + data.len()
                &&& asked->Range_size <= st.remaining - data.len()
                &&& asked->Range_size <= 32768
                &&& asked->Range_size == 32768 || asked->Range_size == st.remaining - data.len()
            }
        }),
{
    assert(st.data + Seq::<u8>::empty() =~= st.data);
    if data.len() == 0 {
        assert(data =~= Seq::empty());
    }
}

/// A failure is an error, number 5, where nothing was fetched; else it ends the fetch with what was
/// fetched.
pub proof fn law_failure_keeps_what_was_fetched(st: RangeProgress)
    ensures
        st.data.len() == 0 ==> st.after(None) == Err::<RangeProgress, Error>(Error::Os(5)),
        st.data.len() > 0 ==> (st.after(None) matches Ok(next) && next.data == st.data
            && next.asks() is None),
{
}

/// A response that holds more than is still wanted does not fit, nor one that reaches behind the
/// last position of a file; every other does.
pub proof fn law_what_fits(st: RangeProgress, data: Seq<u8>)
    ensures
        st.fits(None),
        data.len() > st.remaining ==> !st.fits(Some(data)),
        st.offset + data.len() >= 0x1_0000_0000_0000_0000 ==> !st.fits(Some(data)),
        data.len() <= st.remaining && st.offset + data.len() < 0x1_0000_0000_0000_0000 ==> st.fits(
            Some(data),
        ),
{
}

/// What a server that holds `files` responds to a request: the range that is asked for of the file
/// that is asked for, or a failure where it does not hold that file.
pub open spec fn served(files: Map<Seq<char>, Seq<u8>>, asked: Asked) -> Option<Seq<u8>> {
    match asked {
        Asked::Range { path, offset, size } => if files.contains_key(path) {
            Some(range_of(files[path], offset, size))
        } else {
            None
        },
        Asked::Whole { .. } => None,
    }
}

/// What comes of fetching from a server that holds `files`.
pub open spec fn fetched_from(
    st: RangeProgress,
    files: Map<Seq<char>, Seq<u8>>,
) -> Result<Seq<u8>, Error>
    decreases
            (if st.done {
                0
            } else {
                st.remaining + 1
            }),
{
    match st.asks() {
        None => Ok(st.data),
        Some(asked) => match st.after(served(files, asked)) {
            Ok(next) => fetched_from(next, files),
            Err(e) => Err(e),
        },
    }
}

proof fn lemma_fetched_from(st: RangeProgress, files: Map<Seq<char>, Seq<u8>>)
    requires
        files.contains_key(st.path),
    ensures
        fetched_from(st, files) == fetched(st, files[st.path]),
    decreases
            (if st.done {
                0
            } else {
                st.remaining + 1
            }),
{
    if st.asks() is Some {
        let part = range_of(files[st.path], st.offset, st.chunk());
        if let Ok(next) = st.after(Some(part)) {
            lemma_fetched_from(next, files);
        }
    }
}

/// Reading a range of a path gives the bytes that the file at that path holds of it, of all files
/// that the server holds; where it holds none there, the read fails.
pub proof fn law_fetch_reads_the_named_file(
    files: Map<Seq<char>, Seq<u8>>,
    path: Seq<char>,
    offset: u64,
    size: u32,
)
    requires
        files.contains_key(path) ==> files[path].len() <= u64::MAX,
    ensures
        files.contains_key(path) ==> fetched_from(RangeProgress::start(path, offset, size), files)
            == Ok::<Seq<u8>, Error>(range_of(files[path], offset, size)),
        !files.contains_key(path) && size > 0 ==> fetched_from(
            RangeProgress::start(path, offset, size),
            files,
        ) == Err::<Seq<u8>, Error>(Error::Os(5)),
{
    if files.contains_key(path) {
        lemma_fetched_from(RangeProgress::start(path, offset, size), files);
        law_fetch_gives_the_range(path, files[path], offset, size);
    }
}

/// The bytes of a response are handed on as they are.
pub proof fn law_bytes_are_handed_on(reply: Option<Vec<u8>>)
    ensures
        match reply {
            Some(data) => bytes_of(reply) == Some(data@),
            None => bytes_of(reply) is None,
        },
{
}

} // verus!
