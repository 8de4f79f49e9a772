//! The messages of the vhost-user protocol that a virtio-fs device needs: a header of three
//! numbers, and a payload. Numbers are little-endian.
//!
//! The frontend makes the messages to send, with the file descriptors that go along with them,
//! and reads the replies.

use vstd::prelude::*;

use crate::error::Error;
use crate::wire::{
    le32, le64, low32, read_u64, truncate32, u32_at, u64_at, write_bytes, write_u32, write_u64,
};
use crate::wire_laws::{law_u32_round_trip, law_u64_round_trip};

verus! {

/// The length of a message header.
pub const VHOST_USER_HEADER_SIZE: usize = 12;

/// The length of a reply that holds a number.
pub const REPLY_SIZE: usize = 20;

/// The protocol version, which stands in the flags of every message.
pub const VHOST_USER_VERSION: u32 = 0x1;

/// The length of a memory region in a message.
pub const MEMORY_REGION_SIZE: usize = 32;

/// What the frontend can ask of the backend.
#[derive(Debug, Clone, Copy, PartialEq, Eq, Structural)]
pub enum FrontendReq {
    GetFeatures,
    SetFeatures,
    SetOwner,
    SetMemTable,
    SetVringNum,
    SetVringAddr,
    SetVringBase,
    GetVringBase,
    SetVringKick,
    SetVringCall,
    SetVringErr,
    GetProtocolFeatures,
    SetProtocolFeatures,
    GetQueueNum,
    SetVringEnable,
}

/// The number of a request on the wire.
pub open spec fn req_code(req: FrontendReq) -> u32 {
    match req {
        FrontendReq::GetFeatures => 1,
        FrontendReq::SetFeatures => 2,
        FrontendReq::SetOwner => 3,
        FrontendReq::SetMemTable => 5,
        FrontendReq::SetVringNum => 8,
        FrontendReq::SetVringAddr => 9,
        FrontendReq::SetVringBase => 10,
        FrontendReq::GetVringBase => 11,
        FrontendReq::SetVringKick => 12,
        FrontendReq::SetVringCall => 13,
        FrontendReq::SetVringErr => 14,
        FrontendReq::GetProtocolFeatures => 15,
        FrontendReq::SetProtocolFeatures => 16,
        FrontendReq::GetQueueNum => 17,
        FrontendReq::SetVringEnable => 18,
    }
}

impl FrontendReq {
    /// The number of the request on the wire.
    pub fn code(self) -> (res: u32)
        ensures
            res == req_code(self),
    {
        match self {
            FrontendReq::GetFeatures => 1,
            FrontendReq::SetFeatures => 2,
            FrontendReq::SetOwner => 3,
            FrontendReq::SetMemTable => 5,
            FrontendReq::SetVringNum => 8,
            FrontendReq::SetVringAddr => 9,
            FrontendReq::SetVringBase => 10,
            FrontendReq::GetVringBase => 11,
            FrontendReq::SetVringKick => 12,
            FrontendReq::SetVringCall => 13,
            FrontendReq::SetVringErr => 14,
            FrontendReq::GetProtocolFeatures => 15,
            FrontendReq::SetProtocolFeatures => 16,
            FrontendReq::GetQueueNum => 17,
            FrontendReq::SetVringEnable => 18,
        }
    }
}

/// A region of guest memory that is shared with the backend.
#[derive(Debug, Clone, Copy, PartialEq, Eq, Structural)]
pub struct VhostUserMemoryRegion {
    /// Guest physical address.
    pub guest_phys_addr: u64,
    /// Region size.
    pub memory_size: u64,
    /// Address in this process.
    pub user_addr: u64,
    /// Offset for the mapping.
    pub mmap_offset: u64,
}

/// Where the parts of a ring lie.
#[derive(Debug, Clone, Copy, PartialEq, Eq, Structural)]
pub struct VhostUserVringAddr {
    /// Ring index.
    pub index: u32,
    pub flags: u32,
    /// Descriptor table address.
    pub descriptor: u64,
    /// Used ring address.
    pub used: u64,
    /// Available ring address.
    pub available: u64,
    /// Log address, which virtio-fs does not use.
    pub log: u64,
}

/// A message, and the file descriptors that go along with it.
#[derive(Debug)]
pub struct Message {
    pub bytes: Vec<u8>,
    pub fds: Vec<i32>,
}

/// A message as it is sent.
#[verifier::ext_equal]
pub struct Sent {
    pub bytes: Seq<u8>,
    pub fds: Seq<i32>,
}

impl View for Message {
    type V = Sent;

    open spec fn view(&self) -> Sent {
        Sent { bytes: self.bytes@, fds: self.fds@ }
    }
}

/// A message header.
pub open spec fn header_bytes(req: FrontendReq, size: u32) -> Seq<u8> {
    le32(req_code(req)) + le32(VHOST_USER_VERSION) + le32(size)
}

/// A message: its header holds the length of the payload, cut to 32 bits.
pub open spec fn message(req: FrontendReq, payload: Seq<u8>, fds: Seq<i32>) -> Sent {
    Sent { bytes: header_bytes(req, low32(payload.len())) + payload, fds }
}

/// A ring's index and a number, as a payload.
pub open spec fn vring_state(index: u32, num: u32) -> Seq<u8> {
    le32(index) + le32(num)
}

/// Where the parts of a ring lie, as a payload.
pub open spec fn vring_addr_bytes(addr: VhostUserVringAddr) -> Seq<u8> {
    le32(addr.index) + le32(addr.flags) + le64(addr.descriptor) + le64(addr.used) + le64(
        addr.available,
    ) + le64(addr.log)
}

/// A memory region in a message.
pub open spec fn region_bytes(region: VhostUserMemoryRegion) -> Seq<u8> {
    le64(region.guest_phys_addr) + le64(region.memory_size) + le64(region.user_addr) + le64(
        region.mmap_offset,
    )
}

/// Memory regions in a message, one after the other.
pub open spec fn regions_bytes(regions: Seq<VhostUserMemoryRegion>) -> Seq<u8>
    decreases regions.len(),
{
    if regions.len() == 0 {
        Seq::empty()
    } else {
        regions_bytes(regions.drop_last()) + region_bytes(regions.last())
    }
}

/// The table of memory regions, as a payload: their number, padding, and the regions.
pub open spec fn mem_table_bytes(regions: Seq<VhostUserMemoryRegion>) -> Seq<u8> {
    le32(low32(regions.len())) + le32(0) + regions_bytes(regions)
}

/// The frontend of the protocol, which talks to a backend that listens on a socket.
#[derive(Debug)]
pub struct VhostUserFrontend {
    socket_path: String,
}

impl View for VhostUserFrontend {
    type V = Seq<char>;

    closed spec fn view(&self) -> Seq<char> {
        self.socket_path@
    }
}

fn send_request_with_payload(req: FrontendReq, payload: &Vec<u8>, fds: Vec<i32>) -> (res: Message)
    ensures
        res@ == message(req, payload@, fds@),
{
    let mut bytes: Vec<u8> = Vec::new();
    write_u32(&mut bytes, req.code());
    write_u32(&mut bytes, VHOST_USER_VERSION);
    write_u32(&mut bytes, truncate32(payload.len()));
    assert(bytes@ =~= header_bytes(req, low32(payload@.len())));
    write_bytes(&mut bytes, payload.as_slice());
    Message { bytes, fds }
}

fn send_request(req: FrontendReq) -> (res: Message)
    ensures
        res@ == message(req, Seq::empty(), Seq::empty()),
{
    send_request_with_payload(req, &Vec::new(), Vec::new())
}

fn send_u64(req: FrontendReq, v: u64) -> (res: Message)
    ensures
        res@ == message(req, le64(v), Seq::empty()),
{
    let mut payload: Vec<u8> = Vec::new();
    write_u64(&mut payload, v);
    assert(payload@ =~= le64(v));
    send_request_with_payload(req, &payload, Vec::new())
}

fn send_vring_state(req: FrontendReq, index: u32, num: u32, fds: Vec<i32>) -> (res: Message)
    ensures
        res@ == message(req, vring_state(index, num), fds@),
{
    let mut payload: Vec<u8> = Vec::new();
    write_u32(&mut payload, index);
    write_u32(&mut payload, num);
    assert(payload@ =~= vring_state(index, num));
    send_request_with_payload(req, &payload, fds)
}

fn write_region(w: &mut Vec<u8>, region: &VhostUserMemoryRegion)
    ensures
        final(w)@ == old(w)@ + region_bytes(*region),
{
    write_u64(w, region.guest_phys_addr);
    write_u64(w, region.memory_size);
    write_u64(w, region.user_addr);
    write_u64(w, region.mmap_offset);
    assert(w@ =~= old(w)@ + region_bytes(*region));
}

/// Laying pieces end to end is associative.
proof fn lemma_assoc(a: Seq<u8>, b: Seq<u8>, c: Seq<u8>)
    ensures
        (a + b) + c == a + (b + c),
{
    assert((a + b) + c =~= a + (b + c));
}

fn one_fd(fd: i32) -> (res: Vec<i32>)
    ensures
        res@ == seq![fd],
{
    let mut fds: Vec<i32> = Vec::new();
    fds.push(fd);
    assert(fds@ =~= seq![fd]);
    fds
}

impl VhostUserFrontend {
    /// A frontend for the backend that listens on `path`.
    pub fn connect(path: &str) -> (res: Self)
        ensures
            res@ == path@,
    {
        VhostUserFrontend { socket_path: path.to_owned() }
    }

    /// Where the backend listens.
    pub fn socket_path(&self) -> (res: &str)
        ensures
            res@ == self@,
    {
        self.socket_path.as_str()
    }

    /// Reads a reply that holds a number: `n` bytes were received into `buf`. The number stands
    /// behind the header.
    pub fn recv_reply_u64(&self, buf: &[u8], n: usize) -> (res: Result<u64, Error>)
        requires
            buf@.len() == REPLY_SIZE,
        ensures
            res == if n < REPLY_SIZE {
                Err::<u64, Error>(Error::UnexpectedEof)
            } else {
                Ok(u64_at(buf@.skip(VHOST_USER_HEADER_SIZE as int)))
            },
    {
        if n < REPLY_SIZE {
            return Err(Error::UnexpectedEof);
        }
        let mut rest = vstd::slice::slice_subrange(buf, VHOST_USER_HEADER_SIZE, buf.len());
        assert(rest@ =~= buf@.skip(VHOST_USER_HEADER_SIZE as int));
        read_u64(&mut rest)
    }

    /// Asks for the features of the backend; the reply holds them.
    pub fn get_features(&self) -> (res: Message)
        ensures
            res@ == message(FrontendReq::GetFeatures, Seq::empty(), Seq::empty()),
    {
        send_request(FrontendReq::GetFeatures)
    }

    /// Tells the backend the features that are used.
    pub fn set_features(&self, features: u64) -> (res: Message)
        ensures
            res@ == message(FrontendReq::SetFeatures, le64(features), Seq::empty()),
    {
        send_u64(FrontendReq::SetFeatures, features)
    }

    /// Claims the backend.
    pub fn set_owner(&self) -> (res: Message)
        ensures
            res@ == message(FrontendReq::SetOwner, Seq::empty(), Seq::empty()),
    {
        send_request(FrontendReq::SetOwner)
    }

    /// Asks for the protocol features of the backend; the reply holds them.
    pub fn get_protocol_features(&self) -> (res: Message)
        ensures
            res@ == message(FrontendReq::GetProtocolFeatures, Seq::empty(), Seq::empty()),
    {
        send_request(FrontendReq::GetProtocolFeatures)
    }

    /// Tells the backend the protocol features that are used.
    pub fn set_protocol_features(&self, features: u64) -> (res: Message)
        ensures
            res@ == message(FrontendReq::SetProtocolFeatures, le64(features), Seq::empty()),
    {
        send_u64(FrontendReq::SetProtocolFeatures, features)
    }

    /// Shares guest memory with the backend.
    pub fn set_mem_table(&self, regions: &Vec<VhostUserMemoryRegion>, fds: Vec<i32>) -> (res:
        Message)
        ensures
            res@ == message(FrontendReq::SetMemTable, mem_table_bytes(regions@), fds@),
    {
        let mut payload: Vec<u8> = Vec::new();
        write_u32(&mut payload, truncate32(regions.len()));
        write_u32(&mut payload, 0);
        let ghost head = le32(low32(regions@.len())) + le32(0);
        assert(payload@ =~= head);
        let mut i: usize = 0;
        assert(regions_bytes(regions@.take(0)) =~= Seq::empty());
        assert(payload@ =~= head + Seq::<u8>::empty());
        while i < regions.len()
            invariant
                i <= regions@.len(),
                payload@ == head + regions_bytes(regions@.take(i as int)),
            decreases regions@.len() - i,
        {
            write_region(&mut payload, &regions[i]);
            assert(regions@.take(i + 1).drop_last() =~= regions@.take(i as int));
            proof {
                lemma_assoc(
                    head,
                    regions_bytes(regions@.take(i as int)),
                    region_bytes(regions@[i as int]),
                );
            }
            i += 1;
        }
        assert(regions@.take(i as int) =~= regions@);
        send_request_with_payload(FrontendReq::SetMemTable, &payload, fds)
    }

    /// Tells the backend the size of a ring.
    pub fn set_vring_num(&self, index: u32, num: u32) -> (res: Message)
        ensures
            res@ == message(FrontendReq::SetVringNum, vring_state(index, num), Seq::empty()),
    {
        send_vring_state(FrontendReq::SetVringNum, index, num, Vec::new())
    }

    /// Tells the backend where the parts of a ring lie.
    pub fn set_vring_addr(&self, addr: &VhostUserVringAddr) -> (res: Message)
        ensures
            res@ == message(FrontendReq::SetVringAddr, vring_addr_bytes(*addr), Seq::empty()),
    {
        let mut payload: Vec<u8> = Vec::new();
        write_u32(&mut payload, addr.index);
        write_u32(&mut payload, addr.flags);
        write_u64(&mut payload, addr.descriptor);
        write_u64(&mut payload, addr.used);
        write_u64(&mut payload, addr.available);
        write_u64(&mut payload, addr.log);
        assert(payload@ =~= vring_addr_bytes(*addr));
        send_request_with_payload(FrontendReq::SetVringAddr, &payload, Vec::new())
    }

    /// Tells the backend the index at which a ring starts.
    pub fn set_vring_base(&self, index: u32, base: u32) -> (res: Message)
        ensures
            res@ == message(FrontendReq::SetVringBase, vring_state(index, base), Seq::empty()),
    {
        send_vring_state(FrontendReq::SetVringBase, index, base, Vec::new())
    }

    /// Hands over the descriptor by which the guest notifies the backend.
    pub fn set_vring_kick(&self, index: u32, fd: i32) -> (res: Message)
        ensures
            res@ == message(FrontendReq::SetVringKick, vring_state(index, 0), seq![fd]),
    {
        send_vring_state(FrontendReq::SetVringKick, index, 0, one_fd(fd))
    }

    /// Hands over the descriptor by which the backend notifies the guest.
    pub fn set_vring_call(&self, index: u32, fd: i32) -> (res: Message)
        ensures
            res@ == message(FrontendReq::SetVringCall, vring_state(index, 0), seq![fd]),
    {
        send_vring_state(FrontendReq::SetVringCall, index, 0, one_fd(fd))
    }

    /// Starts or stops a ring.
    pub fn set_vring_enable(&self, index: u32, enable: bool) -> (res: Message)
        ensures
            res@ == message(
                FrontendReq::SetVringEnable,
                vring_state(
                    index,
                    if enable {
                        1
                    } else {
                        0
                    },
                ),
                Seq::empty(),
            ),
    {
        let num: u32 = if enable {
            1
        } else {
            0
        };
        send_vring_state(FrontendReq::SetVringEnable, index, num, Vec::new())
    }

    /// Asks how many rings the backend supports; the reply holds the number.
    pub fn get_queue_num(&self) -> (res: Message)
        ensures
            res@ == message(FrontendReq::GetQueueNum, Seq::empty(), Seq::empty()),
    {
        send_request(FrontendReq::GetQueueNum)
    }
}

/// The size of a file descriptor in a control message.
pub const FD_SIZE: usize = 4;

/// The length of the control data that carries `fds`, cut to 32 bits.
pub fn fds_size(fds: &[i32]) -> (res: u32)
    ensures
        res == low32((fds@.len() * FD_SIZE) as nat),
{
    let n: u64 = fds.len() as u64;
    assert((n * 4) % 4294967296 == (n % 1073741824) * 4);
    ((n % 1073741824) * 4) as u32
}

/// How the host tells a control message that carries file descriptors from others, and how long
/// the header of one is.
#[derive(Debug, Clone, Copy, PartialEq, Eq, Structural)]
pub struct ControlAbi {
    pub sol_socket: i32,
    pub scm_rights: i32,
    pub header_size: usize,
}

/// Whether a control message carries file descriptors.
pub open spec fn carries_fds(abi: ControlAbi, level: i32, kind: i32) -> bool {
    level == abi.sol_socket && kind == abi.scm_rights
}

impl ControlAbi {
    /// How many file descriptors a control message of `len` bytes carries, its header included.
    pub fn fd_count(&self, level: i32, kind: i32, len: usize) -> (res: usize)
        requires
            carries_fds(*self, level, kind) ==> self.header_size <= len,
        ensures
            res == if carries_fds(*self, level, kind) {
                (len - self.header_size) / FD_SIZE as int
            } else {
                0
            },
    {
        if level == self.sol_socket && kind == self.scm_rights {
            (len - self.header_size) / FD_SIZE
        } else {
            0
        }
    }
}

/// The header of every message gives the length of its payload, so that a reader finds the end of
/// the message.
pub proof fn law_header_gives_the_length(req: FrontendReq, payload: Seq<u8>, fds: Seq<i32>)
    requires
        payload.len() < 0x1_0000_0000,
    ensures
        message(req, payload, fds).bytes.len() == VHOST_USER_HEADER_SIZE + payload.len(),
        u32_at(message(req, payload, fds).bytes) == req_code(req),
        u32_at(message(req, payload, fds).bytes.skip(4)) == VHOST_USER_VERSION,
        u32_at(message(req, payload, fds).bytes.skip(8)) == payload.len(),
        message(req, payload, fds).bytes.skip(VHOST_USER_HEADER_SIZE as int) == payload,
{
    let a = le32(req_code(req));
    let b = le32(VHOST_USER_VERSION);
    let c = le32(low32(payload.len()));
    let s = message(req, payload, fds).bytes;
    lemma_header(a, b, c, payload);
    law_u32_round_trip(req_code(req), s.skip(4));
    law_u32_round_trip(VHOST_USER_VERSION, s.skip(8));
    law_u32_round_trip(low32(payload.len()), payload);
}

/// How a header and a payload come apart again.
proof fn lemma_header(a: Seq<u8>, b: Seq<u8>, c: Seq<u8>, payload: Seq<u8>)
    requires
        a.len() == 4,
        b.len() == 4,
        c.len() == 4,
    ensures
        ({
            let s = a + b + c + payload;
            &&& s.len() == 12 + payload.len()
            &&& s == a + s.skip(4)
            &&& s.skip(4) == b + s.skip(8)
            &&& s.skip(8) == c + payload
            &&& s.skip(12) == payload
        }),
{
    let s = a + b + c + payload;
    assert(s =~= a + s.skip(4));
    assert(s.skip(4) =~= b + s.skip(8));
    assert(s.skip(8) =~= c + payload);
    assert(s.skip(12) =~= payload);
}

/// Two requests never have the same number.
pub proof fn law_requests_are_told_apart(a: FrontendReq, b: FrontendReq)
    requires
        req_code(a) == req_code(b),
    ensures
        a == b,
{
}

#[verifier::spinoff_prover]
proof fn lemma_region_len(region: VhostUserMemoryRegion)
    ensures
        region_bytes(region).len() == MEMORY_REGION_SIZE,
{
}

#[verifier::spinoff_prover]
proof fn lemma_regions_len(regions: Seq<VhostUserMemoryRegion>)
    ensures
        regions_bytes(regions).len() == MEMORY_REGION_SIZE * regions.len(),
    decreases regions.len(),
{
    if regions.len() > 0 {
        lemma_regions_len(regions.drop_last());
        lemma_region_len(regions.last());
    }
}

/// A table of memory regions takes 8 bytes, and 32 for each region.
pub proof fn law_mem_table_length(regions: Seq<VhostUserMemoryRegion>)
    ensures
        mem_table_bytes(regions).len() == 8 + MEMORY_REGION_SIZE * regions.len(),
{
    lemma_regions_len(regions);
}

/// A reply that holds a number gives that number back.
pub proof fn law_reply_gives_the_number(head: Seq<u8>, v: u64)
    requires
        head.len() == VHOST_USER_HEADER_SIZE,
    ensures
        u64_at((head + le64(v)).skip(VHOST_USER_HEADER_SIZE as int)) == v,
{
    assert((head + le64(v)).skip(VHOST_USER_HEADER_SIZE as int) =~= le64(v) + Seq::empty());
    law_u64_round_trip(v, Seq::empty());
}

} // verus!
