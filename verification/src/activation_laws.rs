//! What holds of the start of a device as a whole: what goes to the daemon, and when the start
//! has succeeded.

use vstd::prelude::*;

use crate::activation::{
    act_at, mem_table_message, queue_addr, queue_stage, shared_region, stage_after, stage_valid,
    Act, Action, Event, GuestRegion, Outcome, Plan, Stage,
};
use crate::vhost_user::{
    law_mem_table_length, mem_table_bytes, message, region_bytes, req_code, vring_addr_bytes,
    vring_state, FrontendReq, Sent, REPLY_SIZE, VHOST_USER_HEADER_SIZE,
};
use crate::vhost_user_laws::{
    is_message, law_mem_table_layout, law_message_layout, law_region_layout,
    law_ring_address_layout, law_ring_state_layout,
};
use crate::wire::{le64, low32, u32_at, u64_at};
use crate::wire_laws::{lemma_no_rest, lemma_u64_first};

verus! {

/// The stage that is reached after the outcomes, in their order.
pub open spec fn stage_reached(plan: Plan, stage: Stage, outcomes: Seq<Outcome>) -> Stage
    decreases outcomes.len(),
{
    if outcomes.len() == 0 {
        stage
    } else {
        stage_reached(plan, stage_after(plan, stage, outcomes[0]), outcomes.drop_first())
    }
}

/// What is done from a stage on, where the outcomes are these: one action for each, and the
/// action that comes after the last.
pub open spec fn acts(plan: Plan, stage: Stage, outcomes: Seq<Outcome>) -> Seq<Act>
    decreases outcomes.len(),
{
    if outcomes.len() == 0 {
        seq![act_at(plan, stage)]
    } else {
        seq![act_at(plan, stage)] + acts(
            plan,
            stage_after(plan, stage, outcomes[0]),
            outcomes.drop_first(),
        )
    }
}

/// What is done before the first queue is set up, with a daemon that offers `features`.
pub open spec fn opening_acts(plan: Plan, features: u64) -> Seq<Act> {
    let none = Seq::<u8>::empty();
    let no_fds = Seq::<i32>::empty();
    seq![
        Act::Connect { socket_path: plan.socket_path },
        Act::Send(message(FrontendReq::GetFeatures, none, no_fds)),
        Act::Receive,
        Act::Send(message(FrontendReq::SetFeatures, le64(plan.acked_features & features), no_fds)),
        Act::Send(message(FrontendReq::SetOwner, none, no_fds)),
        Act::Send(mem_table_message(plan.regions)),
    ]
}

/// What is done to set up a queue that the daemon notifies through `fd`.
pub open spec fn queue_acts(plan: Plan, queue: int, fd: i32) -> Seq<Act> {
    let index = low32(queue as nat);
    let layout = plan.queues[queue];
    let no_fds = Seq::<i32>::empty();
    seq![
        Act::Send(message(FrontendReq::SetVringNum, vring_state(index, layout.size), no_fds)),
        Act::Send(message(FrontendReq::SetVringBase, vring_state(index, 0), no_fds)),
        Act::Send(
            message(FrontendReq::SetVringAddr, vring_addr_bytes(queue_addr(queue, layout)), no_fds),
        ),
        Act::Send(
            message(FrontendReq::SetVringKick, vring_state(index, 0), seq![layout.event_fd]),
        ),
        Act::NewEventFd,
        Act::Send(message(FrontendReq::SetVringCall, vring_state(index, 0), seq![fd])),
        Act::Send(message(FrontendReq::SetVringEnable, vring_state(index, 1), no_fds)),
    ]
}

/// What is done from a queue on to the end, where the daemon notifies the queues through `fds`.
pub open spec fn queues_acts(plan: Plan, queue: int, fds: Seq<i32>) -> Seq<Act>
    decreases fds.len(),
{
    if fds.len() == 0 {
        seq![Act::Succeed]
    } else {
        queue_acts(plan, queue, fds[0]) + queues_acts(plan, queue + 1, fds.drop_first())
    }
}

/// The outcomes where nothing fails before the first queue is set up, but perhaps to share the
/// memory. The daemon replies with `reply`.
pub open spec fn opening_outcomes(reply: Seq<u8>, shared: bool) -> Seq<Outcome> {
    seq![
        Outcome::Done,
        Outcome::Done,
        Outcome::Received { buf: reply, n: REPLY_SIZE as nat },
        Outcome::Done,
        Outcome::Done,
        if shared {
            Outcome::Done
        } else {
            Outcome::Error
        },
    ]
}

/// The outcomes where nothing fails for a queue, and its descriptor is `fd`.
pub open spec fn queue_outcomes(fd: i32) -> Seq<Outcome> {
    seq![
        Outcome::Done,
        Outcome::Done,
        Outcome::Done,
        Outcome::Done,
        Outcome::EventFd(fd),
        Outcome::Done,
        Outcome::Done,
    ]
}

/// The outcomes where nothing fails for any queue, and their descriptors are `fds`.
pub open spec fn queues_outcomes(fds: Seq<i32>) -> Seq<Outcome>
    decreases fds.len(),
{
    if fds.len() == 0 {
        Seq::empty()
    } else {
        queue_outcomes(fds[0]) + queues_outcomes(fds.drop_first())
    }
}

/// One outcome: the action comes first, and the rest follows from the next stage.
proof fn lemma_step(plan: Plan, stage: Stage, outcome: Outcome, rest: Seq<Outcome>)
    ensures
        acts(plan, stage, seq![outcome] + rest) == seq![act_at(plan, stage)] + acts(
            plan,
            stage_after(plan, stage, outcome),
            rest,
        ),
        stage_reached(plan, stage, seq![outcome] + rest) == stage_reached(
            plan,
            stage_after(plan, stage, outcome),
            rest,
        ),
{
    assert((seq![outcome] + rest).drop_first() =~= rest);
}

/// The actions of a queue, one by one.
proof fn lemma_queue(plan: Plan, queue: usize, fd: i32, rest: Seq<Outcome>)
    requires
        queue < plan.queues.len() <= usize::MAX,
    ensures
        acts(plan, Stage::VringNum { queue }, queue_outcomes(fd) + rest) == queue_acts(
            plan,
            queue as int,
            fd,
        ) + acts(plan, queue_stage(plan, queue + 1), rest),
        stage_reached(plan, Stage::VringNum { queue }, queue_outcomes(fd) + rest) == stage_reached(
            plan,
            queue_stage(plan, queue + 1),
            rest,
        ),
{
    let r6 = seq![Outcome::Done] + rest;
    let r5 = seq![Outcome::Done] + r6;
    let r4 = seq![Outcome::EventFd(fd)] + r5;
    let r3 = seq![Outcome::Done] + r4;
    let r2 = seq![Outcome::Done] + r3;
    let r1 = seq![Outcome::Done] + r2;
    let r0 = seq![Outcome::Done] + r1;
    assert(queue_outcomes(fd) + rest =~= r0);
    lemma_step(plan, Stage::VringNum { queue }, Outcome::Done, r1);
    lemma_step(plan, Stage::VringBase { queue }, Outcome::Done, r2);
    lemma_step(plan, Stage::VringAddr { queue }, Outcome::Done, r3);
    lemma_step(plan, Stage::VringKick { queue }, Outcome::Done, r4);
    lemma_step(plan, Stage::NewCallFd { queue }, Outcome::EventFd(fd), r5);
    lemma_step(plan, Stage::VringCall { queue, fd }, Outcome::Done, r6);
    lemma_step(plan, Stage::VringEnable { queue }, Outcome::Done, rest);
    assert(acts(plan, Stage::VringNum { queue }, r0) =~= queue_acts(plan, queue as int, fd) + acts(
        plan,
        queue_stage(plan, queue + 1),
        rest,
    ));
}

/// The actions from a queue on to the end.
proof fn lemma_queues(plan: Plan, queue: int, fds: Seq<i32>)
    requires
        0 <= queue,
        queue + fds.len() == plan.queues.len() <= usize::MAX,
    ensures
        acts(plan, queue_stage(plan, queue), queues_outcomes(fds)) == queues_acts(plan, queue, fds),
        stage_reached(plan, queue_stage(plan, queue), queues_outcomes(fds)) == Stage::Done,
    decreases fds.len(),
{
    if fds.len() > 0 {
        lemma_queue(plan, queue as usize, fds[0], queues_outcomes(fds.drop_first()));
        lemma_queues(plan, queue + 1, fds.drop_first());
    }
}

/// Where nothing fails, the daemon is connected to, its features are asked for and agreed on, it
/// is claimed, the guest's memory is shared, and the queues are set up one after the other; then
/// the device is started. That the memory could not be shared changes nothing.
pub proof fn law_start_follows_the_script(
    plan: Plan,
    reply: Seq<u8>,
    shared: bool,
    fds: Seq<i32>,
)
    requires
        plan.queues.len() <= usize::MAX,
        fds.len() == plan.queues.len(),
        reply.len() == REPLY_SIZE,
    ensures
        ({
            let outcomes = opening_outcomes(reply, shared) + queues_outcomes(fds);
            let features = u64_at(reply.skip(VHOST_USER_HEADER_SIZE as int));
            &&& acts(plan, Stage::Connect, outcomes) == opening_acts(plan, features) + queues_acts(
                plan,
                0,
                fds,
            )
            &&& stage_reached(plan, Stage::Connect, outcomes) == Stage::Done
        }),
{
    let features = u64_at(reply.skip(VHOST_USER_HEADER_SIZE as int));
    let last = opening_outcomes(reply, shared)[5];
    let rest = queues_outcomes(fds);
    let received = Outcome::Received { buf: reply, n: REPLY_SIZE as nat };
    let r5 = seq![last] + rest;
    let r4 = seq![Outcome::Done] + r5;
    let r3 = seq![Outcome::Done] + r4;
    let r2 = seq![received] + r3;
    let r1 = seq![Outcome::Done] + r2;
    let r0 = seq![Outcome::Done] + r1;
    assert(opening_outcomes(reply, shared) + rest =~= r0);
    lemma_step(plan, Stage::Connect, Outcome::Done, r1);
    lemma_step(plan, Stage::GetFeatures, Outcome::Done, r2);
    lemma_step(plan, Stage::ReceiveFeatures, received, r3);
    lemma_step(plan, Stage::SetFeatures { features }, Outcome::Done, r4);
    lemma_step(plan, Stage::SetOwner, Outcome::Done, r5);
    lemma_step(plan, Stage::SetMemTable, last, rest);
    lemma_queues(plan, 0, fds);
    assert(acts(plan, Stage::Connect, r0) =~= opening_acts(plan, features) + queues_acts(
        plan,
        0,
        fds,
    ));
}

/// The steps that are still to be done at a stage.
pub open spec fn steps_left(plan: Plan, stage: Stage) -> int {
    let n = plan.queues.len() as int;
    match stage {
        Stage::Connect => 6 + 7 * n,
        Stage::GetFeatures => 5 + 7 * n,
        Stage::ReceiveFeatures => 4 + 7 * n,
        Stage::SetFeatures { .. } => 3 + 7 * n,
        Stage::SetOwner => 2 + 7 * n,
        Stage::SetMemTable => 1 + 7 * n,
        Stage::VringNum { queue } => 7 * (n - queue),
        Stage::VringBase { queue } => 7 * (n - queue) - 1,
        Stage::VringAddr { queue } => 7 * (n - queue) - 2,
        Stage::VringKick { queue } => 7 * (n - queue) - 3,
        Stage::NewCallFd { queue } => 7 * (n - queue) - 4,
        Stage::VringCall { queue, .. } => 7 * (n - queue) - 5,
        Stage::VringEnable { queue } => 7 * (n - queue) - 6,
        Stage::Done => 0,
        Stage::Failed => 0,
    }
}

/// A failed start stays failed.
pub proof fn law_failed_start_stays_failed(plan: Plan, outcomes: Seq<Outcome>)
    ensures
        stage_reached(plan, Stage::Failed, outcomes) == Stage::Failed,
    decreases outcomes.len(),
{
    if outcomes.len() > 0 {
        law_failed_start_stays_failed(plan, outcomes.drop_first());
    }
}

/// A failure anywhere but in sharing the memory ends the start, whatever comes after it.
pub proof fn law_failure_ends_the_start(plan: Plan, stage: Stage, rest: Seq<Outcome>)
    requires
        stage != Stage::SetMemTable,
        stage != Stage::Done,
    ensures
        stage_reached(plan, stage, seq![Outcome::Error] + rest) == Stage::Failed,
{
    lemma_step(plan, stage, Outcome::Error, rest);
    law_failed_start_stays_failed(plan, rest);
}

/// No step is left out: the device is started only after as many outcomes as there are steps.
pub proof fn law_every_step_is_done(plan: Plan, stage: Stage, outcomes: Seq<Outcome>)
    requires
        plan.queues.len() <= usize::MAX,
        stage_valid(plan, stage),
        stage_reached(plan, stage, outcomes) == Stage::Done,
    ensures
        outcomes.len() >= steps_left(plan, stage),
    decreases outcomes.len(),
{
    if outcomes.len() > 0 {
        let next = stage_after(plan, stage, outcomes[0]);
        if next == Stage::Failed {
            law_failed_start_stays_failed(plan, outcomes.drop_first());
        } else {
            law_every_step_is_done(plan, next, outcomes.drop_first());
        }
    }
}

/// The features that the daemon is told to use are features that both sides have.
pub proof fn law_features_are_agreed(acked_features: u64, features: u64)
    ensures
        (acked_features & features) & !acked_features == 0,
        (acked_features & features) & !features == 0,
{
    assert((acked_features & features) & !acked_features == 0) by (bit_vector);
    assert((acked_features & features) & !features == 0) by (bit_vector);
}

/// At the stage where the parts of a ring are told, the daemon learns where the guest laid them:
/// the index of the queue, then the descriptor table, the used ring and the available ring, each by
/// its own address, with no flags and no log.
pub proof fn law_ring_addresses_are_sent(plan: Plan, queue: usize)
    requires
        queue < plan.queues.len(),
    ensures
        act_at(plan, Stage::VringAddr { queue }) matches Act::Send(sent) && {
            let payload = sent.bytes.skip(12);
            let layout = plan.queues[queue as int];
            &&& is_message(sent.bytes, 9, payload)
            &&& sent.fds.len() == 0
            &&& payload.len() == 40
            &&& u32_at(payload) == queue as int % 0x1_0000_0000
            &&& u32_at(payload.skip(4)) == 0
            &&& u64_at(payload.skip(8)) == layout.desc_table
            &&& u64_at(payload.skip(16)) == layout.used_ring
            &&& u64_at(payload.skip(24)) == layout.avail_ring
            &&& u64_at(payload.skip(32)) == 0
        },
{
    let addr = queue_addr(queue as int, plan.queues[queue as int]);
    law_ring_address_layout(addr);
    law_message_layout(FrontendReq::SetVringAddr, vring_addr_bytes(addr), Seq::empty());
}

/// A message about a ring: the number of the request, the index of the queue, a number, and the
/// descriptors.
pub open spec fn tells_ring(act: Act, code: u32, queue: usize, num: u32, fds: Seq<i32>) -> bool {
    act matches Act::Send(sent) && {
        let payload = sent.bytes.skip(12);
        &&& is_message(sent.bytes, code, payload)
        &&& sent.fds == fds
        &&& payload.len() == 8
        &&& u32_at(payload) == queue as int % 0x1_0000_0000
        &&& u32_at(payload.skip(4)) == num
    }
}

proof fn lemma_tells_ring(req: FrontendReq, queue: usize, num: u32, fds: Seq<i32>)
    ensures
        tells_ring(
            Act::Send(message(req, vring_state(low32(queue as nat), num), fds)),
            req_code(req),
            queue,
            num,
            fds,
        ),
{
    law_ring_state_layout(low32(queue as nat), num);
    law_message_layout(req, vring_state(low32(queue as nat), num), fds);
}

/// What the daemon is told of a queue, stage by stage: its size, that it starts at 0, the
/// descriptor that the guest notifies through, the one that it is to notify the guest through, and
/// that it is enabled. Between them that last descriptor is made.
pub proof fn law_ring_messages(plan: Plan, queue: usize, fd: i32)
    requires
        queue < plan.queues.len(),
    ensures
        ({
            let layout = plan.queues[queue as int];
            let none = Seq::<i32>::empty();
            &&& tells_ring(act_at(plan, Stage::VringNum { queue }), 8, queue, layout.size, none)
            &&& tells_ring(act_at(plan, Stage::VringBase { queue }), 10, queue, 0, none)
            &&& tells_ring(
                act_at(plan, Stage::VringKick { queue }),
                12,
                queue,
                0,
                seq![layout.event_fd],
            )
            &&& act_at(plan, Stage::NewCallFd { queue }) == Act::NewEventFd
            &&& tells_ring(act_at(plan, Stage::VringCall { queue, fd }), 13, queue, 0, seq![fd])
            &&& tells_ring(act_at(plan, Stage::VringEnable { queue }), 18, queue, 1, none)
        }),
{
    let layout = plan.queues[queue as int];
    let none = Seq::<i32>::empty();
    lemma_tells_ring(FrontendReq::SetVringNum, queue, layout.size, none);
    lemma_tells_ring(FrontendReq::SetVringBase, queue, 0, none);
    lemma_tells_ring(FrontendReq::SetVringKick, queue, 0, seq![layout.event_fd]);
    lemma_tells_ring(FrontendReq::SetVringCall, queue, 0, seq![fd]);
    lemma_tells_ring(FrontendReq::SetVringEnable, queue, 1, none);
}

/// What is done before the first queue: the daemon is connected to at its socket, its features are
/// asked for and received, the features that both sides have are set, and it is claimed.
pub proof fn law_opening_messages(plan: Plan, features: u64)
    ensures
        act_at(plan, Stage::Connect) == (Act::Connect { socket_path: plan.socket_path }),
        act_at(plan, Stage::GetFeatures) matches Act::Send(sent) && is_message(
            sent.bytes,
            1,
            Seq::empty(),
        ) && sent.fds.len() == 0,
        act_at(plan, Stage::ReceiveFeatures) == Act::Receive,
        act_at(plan, Stage::SetFeatures { features }) matches Act::Send(sent) && is_message(
            sent.bytes,
            2,
            sent.bytes.skip(12),
        ) && sent.bytes.len() == 20 && u64_at(sent.bytes.skip(12)) == plan.acked_features
            & features && sent.fds.len() == 0,
        act_at(plan, Stage::SetOwner) matches Act::Send(sent) && is_message(
            sent.bytes,
            3,
            Seq::empty(),
        ) && sent.fds.len() == 0,
        act_at(plan, Stage::Done) == Act::Succeed,
        act_at(plan, Stage::Failed) == Act::Fail,
{
    let none = Seq::<u8>::empty();
    let no_fds = Seq::<i32>::empty();
    let agreed = plan.acked_features & features;
    law_message_layout(FrontendReq::GetFeatures, none, no_fds);
    law_message_layout(FrontendReq::SetOwner, none, no_fds);
    law_message_layout(FrontendReq::SetFeatures, le64(agreed), no_fds);
    lemma_no_rest(le64(agreed));
    lemma_u64_first(le64(agreed), agreed, none);
}

/// A table of memory that tells of the guest's regions: their number, and in its place region `i`,
/// where the guest sees it, its length, where it lies in this process, and no offset.
#[verifier::opaque]
pub open spec fn tells_memory(payload: Seq<u8>, regions: Seq<GuestRegion>, i: int) -> bool {
    let region = payload.subrange(8 + 32 * i, 40 + 32 * i);
    &&& payload.len() == 8 + 32 * regions.len()
    &&& u32_at(payload) == regions.len()
    &&& u32_at(payload.skip(4)) == 0
    &&& u64_at(region) == regions[i].start_addr
    &&& u64_at(region.skip(8)) == regions[i].len
    &&& u64_at(region.skip(16)) == regions[i].host_addr
    &&& u64_at(region.skip(24)) == 0
}

proof fn lemma_tells_memory(
    payload: Seq<u8>,
    region: Seq<u8>,
    regions: Seq<GuestRegion>,
    i: int,
)
    requires
        payload.subrange(8 + 32 * i, 40 + 32 * i) == region,
        payload.len() == 8 + 32 * regions.len(),
        u32_at(payload) == regions.len(),
        u32_at(payload.skip(4)) == 0,
        u64_at(region) == regions[i].start_addr,
        u64_at(region.skip(8)) == regions[i].len,
        u64_at(region.skip(16)) == regions[i].host_addr,
        u64_at(region.skip(24)) == 0,
    ensures
        tells_memory(payload, regions, i),
{
    reveal(tells_memory);
}

proof fn lemma_table_tells_memory(regions: Seq<GuestRegion>, i: int)
    requires
        0 <= i < regions.len() < 0x1_0000_0000,
    ensures
        tells_memory(
            mem_table_bytes(regions.map_values(|region: GuestRegion| shared_region(region))),
            regions,
            i,
        ),
{
    let table = regions.map_values(|region: GuestRegion| shared_region(region));
    law_mem_table_layout(table, i);
    law_region_layout(table[i]);
    lemma_tells_memory(mem_table_bytes(table), region_bytes(table[i]), regions, i);
}

proof fn lemma_memory_message(sent: Sent, payload: Seq<u8>, regions: Seq<GuestRegion>, i: int)
    requires
        is_message(sent.bytes, 5, payload),
        tells_memory(payload, regions, i),
    ensures
        is_message(sent.bytes, 5, sent.bytes.skip(12)),
        tells_memory(sent.bytes.skip(12), regions, i),
{
}

proof fn lemma_memory_is_told(plan: Plan, i: int)
    requires
        0 <= i < plan.regions.len(),
        8 + 32 * plan.regions.len() < 0x1_0000_0000,
    ensures
        ({
            let sent = mem_table_message(plan.regions);
            &&& is_message(sent.bytes, 5, sent.bytes.skip(12))
            &&& tells_memory(sent.bytes.skip(12), plan.regions, i)
        }),
{
    let table = plan.regions.map_values(|region: GuestRegion| shared_region(region));
    let fds = plan.regions.map_values(|region: GuestRegion| -1i32);
    let sent = mem_table_message(plan.regions);
    lemma_table_tells_memory(plan.regions, i);
    law_mem_table_length(table);
    law_message_layout(FrontendReq::SetMemTable, mem_table_bytes(table), fds);
    lemma_memory_message(sent, mem_table_bytes(table), plan.regions, i);
}

/// The guest's memory is shared region by region, in their order, and a descriptor of -1 goes along
/// with each.
pub proof fn law_memory_is_shared(plan: Plan, i: int)
    requires
        0 <= i < plan.regions.len(),
        8 + 32 * plan.regions.len() < 0x1_0000_0000,
    ensures
        act_at(plan, Stage::SetMemTable) matches Act::Send(sent) && {
            &&& is_message(sent.bytes, 5, sent.bytes.skip(12))
            &&& tells_memory(sent.bytes.skip(12), plan.regions, i)
            &&& sent.fds.len() == plan.regions.len()
            &&& sent.fds[i] == -1
        },
{
    lemma_memory_is_told(plan, i);
}

/// A reply that is too short ends the start, whatever it holds; a whole reply gives the features
/// that stand behind its header.
pub proof fn law_reply_must_be_whole(plan: Plan, buf: Seq<u8>, n: nat)
    ensures
        n < 20 ==> stage_after(plan, Stage::ReceiveFeatures, Outcome::Received { buf, n })
            == Stage::Failed,
        n >= 20 && buf.len() == 20 ==> (stage_after(
            plan,
            Stage::ReceiveFeatures,
            Outcome::Received { buf, n },
        ) matches Stage::SetFeatures { features } && features == u64_at(buf.skip(12))),
{
}

/// What is to be done, and what came of it, is what they say.
pub proof fn law_action_meaning(action: Action, event: Event)
    ensures
        match action {
            Action::Connect { socket_path } => action@ == (Act::Connect {
                socket_path: socket_path@,
            }),
            Action::Send(message) => action@ == Act::Send(message@),
            Action::Receive => action@ == Act::Receive,
            Action::NewEventFd => action@ == Act::NewEventFd,
            Action::Succeed => action@ == Act::Succeed,
            Action::Fail => action@ == Act::Fail,
        },
        match event {
            Event::Done => event@ == Outcome::Done,
            Event::Received { buf, n } => event@ == (Outcome::Received { buf: buf@, n: n as nat }),
            Event::EventFd(fd) => event@ == Outcome::EventFd(fd),
            Event::Error => event@ == Outcome::Error,
        },
{
}

/// A start begins at a stage that exists for the plan, and whatever comes of an action, the next
/// stage exists for it too.
pub proof fn law_stages_exist(plan: Plan, stage: Stage, outcome: Outcome)
    requires
        plan.queues.len() <= usize::MAX,
        stage_valid(plan, stage),
    ensures
        stage_valid(plan, Stage::Connect),
        stage_valid(plan, stage_after(plan, stage, outcome)),
        stage matches Stage::VringAddr { queue } ==> queue < plan.queues.len(),
{
}

} // verus!
