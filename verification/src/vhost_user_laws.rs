//! What the messages of the vhost-user protocol hold, byte by byte.

use vstd::prelude::*;

use crate::vhost_user::{
    carries_fds, law_header_gives_the_length, law_mem_table_length, mem_table_bytes, message,
    region_bytes, regions_bytes, req_code, vring_addr_bytes, vring_state, ControlAbi, FrontendReq,
    Message, VhostUserMemoryRegion, VhostUserVringAddr,
};
use crate::wire::{le32, le64, low32, u32_at, u64_at};
use crate::wire_laws::{begins32, begins64, lemma_begins32, lemma_begins64, lemma_u32_first};

verus! {

/// Whether these bytes are a message: the number of the request, the version 1, the length of the
/// payload, and the payload.
pub open spec fn is_message(bytes: Seq<u8>, code: u32, payload: Seq<u8>) -> bool {
    &&& bytes.len() == 12 + payload.len()
    &&& u32_at(bytes) == code
    &&& u32_at(bytes.skip(4)) == 1
    &&& u32_at(bytes.skip(8)) == payload.len()
    &&& bytes.skip(12) == payload
}

/// A message is its header and its payload, and the descriptors go along with it.
pub proof fn law_message_layout(req: FrontendReq, payload: Seq<u8>, fds: Seq<i32>)
    requires
        payload.len() < 0x1_0000_0000,
    ensures
        is_message(message(req, payload, fds).bytes, req_code(req), payload),
        message(req, payload, fds).fds == fds,
{
    law_header_gives_the_length(req, payload, fds);
}

/// The numbers of the requests.
pub proof fn law_request_numbers(req: FrontendReq)
    ensures
        req_code(req) == match req {
            FrontendReq::GetFeatures => 1u32,
            FrontendReq::SetFeatures => 2,
            FrontendReq::SetOwner => 3,
            FrontendReq::SetMemTable => 5,
            FrontendReq::SetVringNum => 8,
            FrontendReq::SetVringAddr => 9,
            FrontendReq::SetVringBase => 10,
            FrontendReq::GetVringBase => 11,
            FrontendReq::SetVringKick => 12,
            FrontendReq::SetVringCall => 13,
            FrontendReq::SetVringErr => 14,
            FrontendReq::GetProtocolFeatures => 15,
            FrontendReq::SetProtocolFeatures => 16,
            FrontendReq::GetQueueNum => 17,
            FrontendReq::SetVringEnable => 18,
        },
{
}

/// What is sent is what a message holds.
pub proof fn law_message_meaning(message: Message)
    ensures
        message@.bytes == message.bytes@,
        message@.fds == message.fds@,
{
}

proof fn lemma_two_pieces(a: Seq<u8>, b: Seq<u8>)
    requires
        a.len() == 4,
    ensures
        (a + b).skip(4) == b + Seq::<u8>::empty(),
{
    assert((a + b).skip(4) =~= b + Seq::<u8>::empty());
}

/// A ring's state is its index and a number, four bytes each.
pub proof fn law_ring_state_layout(index: u32, num: u32)
    ensures
        vring_state(index, num).len() == 8,
        u32_at(vring_state(index, num)) == index,
        u32_at(vring_state(index, num).skip(4)) == num,
{
    let s = vring_state(index, num);
    lemma_two_pieces(le32(index), le32(num));
    lemma_u32_first(s, index, le32(num));
    lemma_u32_first(s.skip(4), num, Seq::empty());
}

proof fn lemma_six_pieces(
    a: Seq<u8>,
    b: Seq<u8>,
    c: Seq<u8>,
    d: Seq<u8>,
    e: Seq<u8>,
    f: Seq<u8>,
)
    requires
        a.len() == 4,
        b.len() == 4,
        c.len() == 8,
        d.len() == 8,
        e.len() == 8,
        f.len() == 8,
    ensures
        ({
            let s = a + b + c + d + e + f;
            &&& s.len() == 40
            &&& s == a + s.skip(4)
            &&& s.skip(4) == b + s.skip(8)
            &&& s.skip(8) == c + s.skip(16)
            &&& s.skip(16) == d + s.skip(24)
            &&& s.skip(24) == e + s.skip(32)
            &&& s.skip(32) == f + s.skip(40)
        }),
{
    let s = a + b + c + d + e + f;
    assert(s =~= a + s.skip(4));
    assert(s.skip(4) =~= b + s.skip(8));
    assert(s.skip(8) =~= c + s.skip(16));
    assert(s.skip(16) =~= d + s.skip(24));
    assert(s.skip(24) =~= e + s.skip(32));
    assert(s.skip(32) =~= f + s.skip(40));
}

proof fn lemma_ring_fields(s: Seq<u8>, addr: VhostUserVringAddr)
    requires
        begins32(s, addr.index),
        begins32(s.skip(4), addr.flags),
        begins64(s.skip(8), addr.descriptor),
        begins64(s.skip(16), addr.used),
        begins64(s.skip(24), addr.available),
        begins64(s.skip(32), addr.log),
    ensures
        u32_at(s) == addr.index,
        u32_at(s.skip(4)) == addr.flags,
        u64_at(s.skip(8)) == addr.descriptor,
        u64_at(s.skip(16)) == addr.used,
        u64_at(s.skip(24)) == addr.available,
        u64_at(s.skip(32)) == addr.log,
{
    reveal(begins32);
    reveal(begins64);
}

/// Where the parts of a ring lie takes 40 bytes: the index at 0, the flags at 4, the descriptor
/// table at 8, the used ring at 16, the available ring at 24 and the log at 32.
pub proof fn law_ring_address_layout(addr: VhostUserVringAddr)
    ensures
        vring_addr_bytes(addr).len() == 40,
        u32_at(vring_addr_bytes(addr)) == addr.index,
        u32_at(vring_addr_bytes(addr).skip(4)) == addr.flags,
        u64_at(vring_addr_bytes(addr).skip(8)) == addr.descriptor,
        u64_at(vring_addr_bytes(addr).skip(16)) == addr.used,
        u64_at(vring_addr_bytes(addr).skip(24)) == addr.available,
        u64_at(vring_addr_bytes(addr).skip(32)) == addr.log,
{
    let s = vring_addr_bytes(addr);
    lemma_six_pieces(
        le32(addr.index),
        le32(addr.flags),
        le64(addr.descriptor),
        le64(addr.used),
        le64(addr.available),
        le64(addr.log),
    );
    lemma_begins32(s, addr.index, s.skip(4));
    lemma_begins32(s.skip(4), addr.flags, s.skip(8));
    lemma_begins64(s.skip(8), addr.descriptor, s.skip(16));
    lemma_begins64(s.skip(16), addr.used, s.skip(24));
    lemma_begins64(s.skip(24), addr.available, s.skip(32));
    lemma_begins64(s.skip(32), addr.log, s.skip(40));
    lemma_ring_fields(s, addr);
}

proof fn lemma_four_pieces(a: Seq<u8>, b: Seq<u8>, c: Seq<u8>, d: Seq<u8>)
    requires
        a.len() == 8,
        b.len() == 8,
        c.len() == 8,
        d.len() == 8,
    ensures
        ({
            let s = a + b + c + d;
            &&& s.len() == 32
            &&& s == a + s.skip(8)
            &&& s.skip(8) == b + s.skip(16)
            &&& s.skip(16) == c + s.skip(24)
            &&& s.skip(24) == d + s.skip(32)
        }),
{
    let s = a + b + c + d;
    assert(s =~= a + s.skip(8));
    assert(s.skip(8) =~= b + s.skip(16));
    assert(s.skip(16) =~= c + s.skip(24));
    assert(s.skip(24) =~= d + s.skip(32));
}

proof fn lemma_region_fields(s: Seq<u8>, region: VhostUserMemoryRegion)
    requires
        begins64(s, region.guest_phys_addr),
        begins64(s.skip(8), region.memory_size),
        begins64(s.skip(16), region.user_addr),
        begins64(s.skip(24), region.mmap_offset),
    ensures
        u64_at(s) == region.guest_phys_addr,
        u64_at(s.skip(8)) == region.memory_size,
        u64_at(s.skip(16)) == region.user_addr,
        u64_at(s.skip(24)) == region.mmap_offset,
{
    reveal(begins64);
}

/// A memory region takes 32 bytes: the guest's address at 0, the size at 8, the address in this
/// process at 16 and the offset of the mapping at 24.
pub proof fn law_region_layout(region: VhostUserMemoryRegion)
    ensures
        region_bytes(region).len() == 32,
        u64_at(region_bytes(region)) == region.guest_phys_addr,
        u64_at(region_bytes(region).skip(8)) == region.memory_size,
        u64_at(region_bytes(region).skip(16)) == region.user_addr,
        u64_at(region_bytes(region).skip(24)) == region.mmap_offset,
{
    let s = region_bytes(region);
    lemma_four_pieces(
        le64(region.guest_phys_addr),
        le64(region.memory_size),
        le64(region.user_addr),
        le64(region.mmap_offset),
    );
    lemma_begins64(s, region.guest_phys_addr, s.skip(8));
    lemma_begins64(s.skip(8), region.memory_size, s.skip(16));
    lemma_begins64(s.skip(16), region.user_addr, s.skip(24));
    lemma_begins64(s.skip(24), region.mmap_offset, s.skip(32));
    lemma_region_fields(s, region);
}

proof fn lemma_cut_in_front(a: Seq<u8>, b: Seq<u8>, from: int, to: int)
    requires
        0 <= from <= to <= a.len(),
    ensures
        (a + b).subrange(from, to) == a.subrange(from, to),
{
    assert((a + b).subrange(from, to) =~= a.subrange(from, to));
}

proof fn lemma_cut_behind(a: Seq<u8>, b: Seq<u8>, from: int, to: int)
    requires
        0 <= from <= to <= b.len(),
    ensures
        (a + b).subrange(a.len() + from, a.len() + to) == b.subrange(from, to),
        (a + b).subrange(a.len() as int, (a.len() + b.len()) as int) == b,
{
    assert((a + b).subrange(a.len() + from, a.len() + to) =~= b.subrange(from, to));
    assert((a + b).subrange(a.len() as int, (a.len() + b.len()) as int) =~= b);
}

proof fn lemma_region_in_table(regions: Seq<VhostUserMemoryRegion>, i: int)
    requires
        0 <= i < regions.len(),
    ensures
        regions_bytes(regions).len() == 32 * regions.len(),
        regions_bytes(regions).subrange(32 * i, 32 * i + 32) == region_bytes(regions[i]),
    decreases regions.len(),
{
    let front = regions.drop_last();
    let a = regions_bytes(front);
    let b = region_bytes(regions.last());
    law_mem_table_length(front);
    law_mem_table_length(regions);
    assert(a.len() == 32 * front.len()) by {
        lemma_table_is_head_and_regions(front);
    }
    law_region_layout(regions.last());
    if i < front.len() {
        lemma_region_in_table(front, i);
        lemma_cut_in_front(a, b, 32 * i, 32 * i + 32);
        assert(front[i] == regions[i]);
    } else {
        lemma_cut_behind(a, b, 0, 32);
    }
}

proof fn lemma_table_is_head_and_regions(regions: Seq<VhostUserMemoryRegion>)
    ensures
        mem_table_bytes(regions).len() == 8 + regions_bytes(regions).len(),
{
    law_ring_state_layout(low32(regions.len()), 0);
}

proof fn lemma_table_head(a: Seq<u8>, b: Seq<u8>, c: Seq<u8>)
    requires
        a.len() == 4,
        b.len() == 4,
    ensures
        a + b + c == a + (b + c),
        (a + b + c).skip(4) == b + c,
        (a + b).len() == 8,
{
    assert(a + b + c =~= a + (b + c));
    assert((a + b + c).skip(4) =~= b + c);
}

proof fn lemma_head_numbers(t: Seq<u8>, n: u32)
    requires
        begins32(t, n),
        begins32(t.skip(4), 0),
    ensures
        u32_at(t) == n,
        u32_at(t.skip(4)) == 0,
{
    reveal(begins32);
}

#[verifier::spinoff_prover]
proof fn lemma_table_numbers(regions: Seq<VhostUserMemoryRegion>)
    requires
        regions.len() < 0x1_0000_0000,
    ensures
        u32_at(mem_table_bytes(regions)) == regions.len(),
        u32_at(mem_table_bytes(regions).skip(4)) == 0,
{
    let t = mem_table_bytes(regions);
    let n = low32(regions.len());
    let c = regions_bytes(regions);
    lemma_table_head(le32(n), le32(0), c);
    lemma_begins32(t, n, le32(0) + c);
    lemma_begins32(t.skip(4), 0, c);
    lemma_head_numbers(t, n);
}

#[verifier::spinoff_prover]
proof fn lemma_table_region(regions: Seq<VhostUserMemoryRegion>, i: int)
    requires
        0 <= i < regions.len(),
    ensures
        mem_table_bytes(regions).subrange(8 + 32 * i, 40 + 32 * i) == region_bytes(regions[i]),
{
    let a = le32(low32(regions.len()));
    let b = le32(0);
    let c = regions_bytes(regions);
    lemma_region_in_table(regions, i);
    lemma_table_head(a, b, c);
    lemma_cut_behind(a + b, c, 32 * i, 32 * i + 32);
}

/// The table of memory regions holds their number at 0, nothing at 4, and from 8 on the regions in
/// their order, 32 bytes each.
#[verifier::spinoff_prover]
pub proof fn law_mem_table_layout(regions: Seq<VhostUserMemoryRegion>, i: int)
    requires
        0 <= i < regions.len() < 0x1_0000_0000,
    ensures
        mem_table_bytes(regions).len() == 8 + 32 * regions.len(),
        u32_at(mem_table_bytes(regions)) == regions.len(),
        u32_at(mem_table_bytes(regions).skip(4)) == 0,
        mem_table_bytes(regions).subrange(8 + 32 * i, 40 + 32 * i) == region_bytes(regions[i]),
{
    law_mem_table_length(regions);
    lemma_table_numbers(regions);
    lemma_table_region(regions, i);
}

/// A control message carries descriptors where both its level and its type say so, and not where
/// one of them differs.
pub proof fn law_descriptors_are_told_by_level_and_type(abi: ControlAbi, level: i32, kind: i32)
    ensures
        carries_fds(abi, abi.sol_socket, abi.scm_rights),
        level != abi.sol_socket ==> !carries_fds(abi, level, kind),
        kind != abi.scm_rights ==> !carries_fds(abi, level, kind),
{
}

} // verus!
