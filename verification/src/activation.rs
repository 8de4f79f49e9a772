//! The start of a device whose file system an external daemon serves: which messages go to the
//! daemon, in which order, and when the start has failed.

use vstd::prelude::*;

use crate::vhost_user::{
    mem_table_bytes, message, vring_addr_bytes, vring_state, FrontendReq, Message, Sent,
    VhostUserFrontend, VhostUserMemoryRegion, VhostUserVringAddr, REPLY_SIZE,
    VHOST_USER_HEADER_SIZE,
};
use crate::wire::{le64, low32, truncate32, u64_at};

verus! {

/// A region of guest memory: where the guest sees it, its length, and where it lies in this
/// process.
#[derive(Debug, Clone, Copy, PartialEq, Eq, Structural)]
pub struct GuestRegion {
    pub start_addr: u64,
    pub len: u64,
    pub host_addr: u64,
}

/// A queue: its size, where its parts lie, and the descriptor by which the guest notifies.
#[derive(Debug, Clone, Copy, PartialEq, Eq, Structural)]
pub struct QueueLayout {
    pub size: u32,
    pub desc_table: u64,
    pub used_ring: u64,
    pub avail_ring: u64,
    pub event_fd: i32,
}

/// The point that the start has reached. `queue` is the queue that is being set up.
#[derive(Debug, Clone, Copy, PartialEq, Eq, Structural)]
pub enum Stage {
    Connect,
    GetFeatures,
    ReceiveFeatures,
    SetFeatures { features: u64 },
    SetOwner,
    SetMemTable,
    VringNum { queue: usize },
    VringBase { queue: usize },
    VringAddr { queue: usize },
    VringKick { queue: usize },
    NewCallFd { queue: usize },
    VringCall { queue: usize, fd: i32 },
    VringEnable { queue: usize },
    Done,
    Failed,
}

/// What is to be done next.
#[derive(Debug)]
pub enum Action {
    /// Connect to the daemon.
    Connect { socket_path: String },
    /// Send a message to the daemon.
    Send(Message),
    /// Receive a reply from the daemon.
    Receive,
    /// Make a descriptor for notifications.
    NewEventFd,
    /// The device is started.
    Succeed,
    /// The device could not be started.
    Fail,
}

/// What came of an action.
#[derive(Debug)]
pub enum Event {
    /// It succeeded.
    Done,
    /// `n` bytes of a reply were received into `buf`.
    Received { buf: Vec<u8>, n: usize },
    /// A descriptor for notifications was made.
    EventFd(i32),
    /// It failed.
    Error,
}

/// The start of a device.
#[derive(Debug)]
pub struct Activation {
    frontend: VhostUserFrontend,
    acked_features: u64,
    regions: Vec<GuestRegion>,
    queues: Vec<QueueLayout>,
    stage: Stage,
}

/// What a start rests on.
#[verifier::ext_equal]
pub struct Plan {
    pub socket_path: Seq<char>,
    pub acked_features: u64,
    pub regions: Seq<GuestRegion>,
    pub queues: Seq<QueueLayout>,
}

/// An action, by what it means.
#[verifier::ext_equal]
pub enum Act {
    Connect { socket_path: Seq<char> },
    Send(Sent),
    Receive,
    NewEventFd,
    Succeed,
    Fail,
}

/// An event, by what it means.
pub enum Outcome {
    Done,
    Received { buf: Seq<u8>, n: nat },
    EventFd(i32),
    Error,
}

impl View for Action {
    type V = Act;

    open spec fn view(&self) -> Act {
        match *self {
            Action::Connect { socket_path } => Act::Connect { socket_path: socket_path@ },
            Action::Send(message) => Act::Send(message@),
            Action::Receive => Act::Receive,
            Action::NewEventFd => Act::NewEventFd,
            Action::Succeed => Act::Succeed,
            Action::Fail => Act::Fail,
        }
    }
}

impl View for Event {
    type V = Outcome;

    open spec fn view(&self) -> Outcome {
        match *self {
            Event::Done => Outcome::Done,
            Event::Received { buf, n } => Outcome::Received { buf: buf@, n: n as nat },
            Event::EventFd(fd) => Outcome::EventFd(fd),
            Event::Error => Outcome::Error,
        }
    }
}

impl Activation {
    pub closed spec fn plan(&self) -> Plan {
        Plan {
            socket_path: self.frontend@,
            acked_features: self.acked_features,
            regions: self.regions@,
            queues: self.queues@,
        }
    }

    pub closed spec fn stage(&self) -> Stage {
        self.stage
    }
}

/// The queue that a stage sets up exists.
pub open spec fn stage_valid(plan: Plan, stage: Stage) -> bool {
    match stage {
        Stage::VringNum { queue } => queue < plan.queues.len(),
        Stage::VringBase { queue } => queue < plan.queues.len(),
        Stage::VringAddr { queue } => queue < plan.queues.len(),
        Stage::VringKick { queue } => queue < plan.queues.len(),
        Stage::NewCallFd { queue } => queue < plan.queues.len(),
        Stage::VringCall { queue, .. } => queue < plan.queues.len(),
        Stage::VringEnable { queue } => queue < plan.queues.len(),
        _ => true,
    }
}

/// A region of guest memory as the daemon is told of it.
pub open spec fn shared_region(region: GuestRegion) -> VhostUserMemoryRegion {
    VhostUserMemoryRegion {
        guest_phys_addr: region.start_addr,
        memory_size: region.len,
        user_addr: region.host_addr,
        mmap_offset: 0,
    }
}

/// The message that shares the guest's memory. No region has a descriptor of its own: -1 stands
/// in its place.
pub open spec fn mem_table_message(regions: Seq<GuestRegion>) -> Sent {
    message(
        FrontendReq::SetMemTable,
        mem_table_bytes(regions.map_values(|region: GuestRegion| shared_region(region))),
        regions.map_values(|region: GuestRegion| -1i32),
    )
}

/// Where the daemon is told that the parts of a queue lie.
pub open spec fn queue_addr(queue: int, layout: QueueLayout) -> VhostUserVringAddr {
    VhostUserVringAddr {
        index: low32(queue as nat),
        flags: 0,
        descriptor: layout.desc_table,
        used: layout.used_ring,
        available: layout.avail_ring,
        log: 0,
    }
}

/// What is done at a stage.
pub open spec fn act_at(plan: Plan, stage: Stage) -> Act {
    let none = Seq::<u8>::empty();
    let no_fds = Seq::<i32>::empty();
    match stage {
        Stage::Connect => Act::Connect { socket_path: plan.socket_path },
        Stage::GetFeatures => Act::Send(message(FrontendReq::GetFeatures, none, no_fds)),
        Stage::ReceiveFeatures => Act::Receive,
        Stage::SetFeatures { features } => Act::Send(
            message(FrontendReq::SetFeatures, le64(plan.acked_features & features), no_fds),
        ),
        Stage::SetOwner => Act::Send(message(FrontendReq::SetOwner, none, no_fds)),
        Stage::SetMemTable => Act::Send(mem_table_message(plan.regions)),
        Stage::VringNum { queue } => Act::Send(
            message(
                FrontendReq::SetVringNum,
                vring_state(low32(queue as nat), plan.queues[queue as int].size),
                no_fds,
            ),
        ),
        Stage::VringBase { queue } => Act::Send(
            message(FrontendReq::SetVringBase, vring_state(low32(queue as nat), 0), no_fds),
        ),
        Stage::VringAddr { queue } => Act::Send(
            message(
                FrontendReq::SetVringAddr,
                vring_addr_bytes(queue_addr(queue as int, plan.queues[queue as int])),
                no_fds,
            ),
        ),
        Stage::VringKick { queue } => Act::Send(
            message(
                FrontendReq::SetVringKick,
                vring_state(low32(queue as nat), 0),
                seq![plan.queues[queue as int].event_fd],
            ),
        ),
        Stage::NewCallFd { .. } => Act::NewEventFd,
        Stage::VringCall { queue, fd } => Act::Send(
            message(FrontendReq::SetVringCall, vring_state(low32(queue as nat), 0), seq![fd]),
        ),
        Stage::VringEnable { queue } => Act::Send(
            message(FrontendReq::SetVringEnable, vring_state(low32(queue as nat), 1), no_fds),
        ),
        Stage::Done => Act::Succeed,
        Stage::Failed => Act::Fail,
    }
}

/// The stage at which a queue is set up, or at which the start is done where there is none.
pub open spec fn queue_stage(plan: Plan, queue: int) -> Stage {
    if queue < plan.queues.len() {
        Stage::VringNum { queue: queue as usize }
    } else {
        Stage::Done
    }
}

/// The stage after an outcome. Any failure ends the start, but for that of sharing the memory.
pub open spec fn stage_after(plan: Plan, stage: Stage, outcome: Outcome) -> Stage {
    match (stage, outcome) {
        (Stage::Connect, Outcome::Done) => Stage::GetFeatures,
        (Stage::GetFeatures, Outcome::Done) => Stage::ReceiveFeatures,
        (Stage::ReceiveFeatures, Outcome::Received { buf, n }) => if buf.len() == REPLY_SIZE && n
            >= REPLY_SIZE {
            Stage::SetFeatures { features: u64_at(buf.skip(VHOST_USER_HEADER_SIZE as int)) }
        } else {
            Stage::Failed
        },
        (Stage::SetFeatures { .. }, Outcome::Done) => Stage::SetOwner,
        (Stage::SetOwner, Outcome::Done) => Stage::SetMemTable,
        (Stage::SetMemTable, Outcome::Done) => queue_stage(plan, 0),
        (Stage::SetMemTable, Outcome::Error) => queue_stage(plan, 0),
        (Stage::VringNum { queue }, Outcome::Done) => Stage::VringBase { queue },
        (Stage::VringBase { queue }, Outcome::Done) => Stage::VringAddr { queue },
        (Stage::VringAddr { queue }, Outcome::Done) => Stage::VringKick { queue },
        (Stage::VringKick { queue }, Outcome::Done) => Stage::NewCallFd { queue },
        (Stage::NewCallFd { queue }, Outcome::EventFd(fd)) => Stage::VringCall { queue, fd },
        (Stage::VringCall { queue, .. }, Outcome::Done) => Stage::VringEnable { queue },
        (Stage::VringEnable { queue }, Outcome::Done) => queue_stage(plan, queue + 1),
        (Stage::Done, _) => Stage::Done,
        _ => Stage::Failed,
    }
}

fn region_table(regions: &Vec<GuestRegion>) -> (res: (Vec<VhostUserMemoryRegion>, Vec<i32>))
    ensures
        res.0@ == regions@.map_values(|region: GuestRegion| shared_region(region)),
        res.1@ == regions@.map_values(|region: GuestRegion| -1i32),
{
    let mut table: Vec<VhostUserMemoryRegion> = Vec::new();
    let mut fds: Vec<i32> = Vec::new();
    let mut i: usize = 0;
    while i < regions.len()
        invariant
            i <= regions@.len(),
            table@.len() == i,
            fds@.len() == i,
            forall|j: int| 0 <= j < i ==> #[trigger] table@[j] == shared_region(regions@[j]),
            forall|j: int| 0 <= j < i ==> #[trigger] fds@[j] == -1,
        decreases regions@.len() - i,
    {
        table.push(
            VhostUserMemoryRegion {
                guest_phys_addr: regions[i].start_addr,
                memory_size: regions[i].len,
                user_addr: regions[i].host_addr,
                mmap_offset: 0,
            },
        );
        fds.push(-1);
        i += 1;
    }
    assert(table@ =~= regions@.map_values(|region: GuestRegion| shared_region(region)));
    assert(fds@ =~= regions@.map_values(|region: GuestRegion| -1i32));
    (table, fds)
}

impl Activation {
    pub fn new(
        socket_path: &str,
        acked_features: u64,
        regions: Vec<GuestRegion>,
        queues: Vec<QueueLayout>,
    ) -> (res: Self)
        ensures
            res.plan() == (Plan {
                socket_path: socket_path@,
                acked_features,
                regions: regions@,
                queues: queues@,
            }),
            res.stage() == Stage::Connect,
    {
        Activation {
            frontend: VhostUserFrontend::connect(socket_path),
            acked_features,
            regions,
            queues,
            stage: Stage::Connect,
        }
    }

    /// What is to be done next.
    pub fn action(&self) -> (res: Action)
        requires
            stage_valid(self.plan(), self.stage()),
        ensures
            res@ == act_at(self.plan(), self.stage()),
    {
        let frontend = &self.frontend;
        match self.stage {
            Stage::Connect => Action::Connect { socket_path: frontend.socket_path().to_owned() },
            Stage::GetFeatures => Action::Send(frontend.get_features()),
            Stage::ReceiveFeatures => Action::Receive,
            Stage::SetFeatures { features } => {
                let negotiated: u64 = self.acked_features & features;
                Action::Send(frontend.set_features(negotiated))
            },
            Stage::SetOwner => Action::Send(frontend.set_owner()),
            Stage::SetMemTable => {
                let (table, fds) = region_table(&self.regions);
                Action::Send(frontend.set_mem_table(&table, fds))
            },
            Stage::VringNum { queue } => Action::Send(
                frontend.set_vring_num(truncate32(queue), self.queues[queue].size),
            ),
            Stage::VringBase { queue } => Action::Send(
                frontend.set_vring_base(truncate32(queue), 0),
            ),
            Stage::VringAddr { queue } => {
                let layout = self.queues[queue];
                let addr = VhostUserVringAddr {
                    index: truncate32(queue),
                    flags: 0,
                    descriptor: layout.desc_table,
                    used: layout.used_ring,
                    available: layout.avail_ring,
                    log: 0,
                };
                Action::Send(frontend.set_vring_addr(&addr))
            },
            Stage::VringKick { queue } => Action::Send(
                frontend.set_vring_kick(truncate32(queue), self.queues[queue].event_fd),
            ),
            Stage::NewCallFd { .. } => Action::NewEventFd,
            Stage::VringCall { queue, fd } => Action::Send(
                frontend.set_vring_call(truncate32(queue), fd),
            ),
            Stage::VringEnable { queue } => Action::Send(
                frontend.set_vring_enable(truncate32(queue), true),
            ),
            Stage::Done => Action::Succeed,
            Stage::Failed => Action::Fail,
        }
    }

    /// Whether the device is started.
    pub fn is_done(&self) -> (res: bool)
        ensures
            res == (self.stage() == Stage::Done),
    {
        self.stage == Stage::Done
    }

    fn queue_stage(&self, queue: usize) -> (res: Stage)
        ensures
            res == queue_stage(self.plan(), queue as int),
    {
        if queue < self.queues.len() {
            Stage::VringNum { queue }
        } else {
            Stage::Done
        }
    }

    /// Goes on after an action.
    pub fn on_event(&mut self, event: &Event)
        requires
            stage_valid(old(self).plan(), old(self).stage()),
        ensures
            final(self).plan() == old(self).plan(),
            final(self).stage() == stage_after(old(self).plan(), old(self).stage(), event@),
            stage_valid(final(self).plan(), final(self).stage()),
    {
        let next: Stage = match (self.stage, event) {
            (Stage::Connect, Event::Done) => Stage::GetFeatures,
            (Stage::GetFeatures, Event::Done) => Stage::ReceiveFeatures,
            (Stage::ReceiveFeatures, Event::Received { buf, n }) => {
                if buf.len() != REPLY_SIZE {
                    Stage::Failed
                } else {
                    match self.frontend.recv_reply_u64(buf.as_slice(), *n) {
                        Ok(features) => Stage::SetFeatures { features },
                        Err(_) => Stage::Failed,
                    }
                }
            },
            (Stage::SetFeatures { .. }, Event::Done) => Stage::SetOwner,
            (Stage::SetOwner, Event::Done) => Stage::SetMemTable,
            (Stage::SetMemTable, Event::Done) => self.queue_stage(0),
            (Stage::SetMemTable, Event::Error) => self.queue_stage(0),
            (Stage::VringNum { queue }, Event::Done) => Stage::VringBase { queue },
            (Stage::VringBase { queue }, Event::Done) => Stage::VringAddr { queue },
            (Stage::VringAddr { queue }, Event::Done) => Stage::VringKick { queue },
            (Stage::VringKick { queue }, Event::Done) => Stage::NewCallFd { queue },
            (Stage::NewCallFd { queue }, Event::EventFd(fd)) => Stage::VringCall {
                queue,
                fd: *fd,
            },
            (Stage::VringCall { queue, .. }, Event::Done) => Stage::VringEnable { queue },
            (Stage::VringEnable { queue }, Event::Done) => {
                assert(queue < self.queues.len());
                self.queue_stage(queue + 1)
            },
            (Stage::Done, _) => Stage::Done,
            _ => Stage::Failed,
        };
        self.stage = next;
    }
}

} // verus!
