//! A virtio-fs device that leaves all file system work to an external daemon, which it sets up
//! over the vhost-user protocol.

use std::sync::atomic::AtomicI32;
use std::sync::Arc;

use vstd::prelude::*;
use vstd::utf8::encode_utf8;

use crate::activation::{Activation, GuestRegion, Plan, QueueLayout, Stage};
use crate::error::Error;
use crate::host::{virtio_f_version_1, virtio_ring_f_event_idx};
use crate::wire::{le32, u32_at, write_u32};
use crate::wire_laws::lemma_u32_first;

verus! {

/// The device type of a virtio file system.
pub const VIRTIO_ID_FS: u32 = 26;

/// The length of a mount tag.
pub const TAG_SIZE: usize = 36;

/// The features that the device offers: version 1 of the standard, and notifications by index.
pub const AVAIL_FEATURES: u64 = 0x1_2000_0000;

/// The configuration space: the mount tag, and the number of request queues.
#[derive(Debug)]
pub struct VirtioFsConfig {
    tag: Vec<u8>,
    num_request_queues: u32,
}

/// A mount tag: the first bytes of the identifier, filled up with zeros.
pub open spec fn tag_of(id: Seq<u8>) -> Seq<u8> {
    Seq::new(
        TAG_SIZE as nat,
        |i: int|
            if i < id.len() {
                id[i]
            } else {
                0
            },
    )
}

/// The configuration space of a file system with the mount tag `id` and one request queue.
pub open spec fn config_of(id: Seq<u8>) -> Seq<u8> {
    tag_of(id) + le32(1)
}

impl View for VirtioFsConfig {
    type V = Seq<u8>;

    closed spec fn view(&self) -> Seq<u8> {
        self.tag@ + le32(self.num_request_queues)
    }
}

impl Default for VirtioFsConfig {
    fn default() -> (res: Self)
        ensures
            res@ == tag_of(Seq::empty()) + le32(0),
    {
        let mut tag: Vec<u8> = Vec::new();
        tag.resize(TAG_SIZE, 0);
        assert(tag@ =~= tag_of(Seq::empty()));
        VirtioFsConfig { tag, num_request_queues: 0 }
    }
}

impl VirtioFsConfig {
    /// The configuration space of a file system with the mount tag `id` and one request queue.
    fn with_tag(id: &[u8]) -> (res: Self)
        ensures
            res@ == config_of(id@),
    {
        let mut tag: Vec<u8> = Vec::new();
        let mut i: usize = 0;
        while i < TAG_SIZE
            invariant
                i <= TAG_SIZE,
                tag@ == tag_of(id@).take(i as int),
            decreases TAG_SIZE - i,
        {
            let byte: u8 = if i < id.len() {
                id[i]
            } else {
                0
            };
            tag.push(byte);
            assert(tag@ =~= tag_of(id@).take(i + 1));
            i += 1;
        }
        assert(tag@ =~= tag_of(id@));
        VirtioFsConfig { tag, num_request_queues: 1 }
    }

    /// The bytes of the configuration space.
    fn bytes(&self) -> (res: Vec<u8>)
        ensures
            res@ == self@,
    {
        let mut bytes: Vec<u8> = Vec::new();
        bytes.extend_from_slice(self.tag.as_slice());
        write_u32(&mut bytes, self.num_request_queues);
        assert(bytes@ =~= self@);
        bytes
    }
}

/// Shared memory into which files are mapped.
#[derive(Debug, Clone, Copy, PartialEq, Eq, Structural)]
pub struct VirtioShmRegion {
    pub host_addr: u64,
    pub guest_addr: u64,
    pub size: usize,
}

/// Whether the guest's driver has started the device.
#[derive(Debug, Clone, Copy, PartialEq, Eq, Structural)]
pub enum DeviceState {
    Inactive,
    Activated,
}

/// Why a device could not be started.
#[derive(Debug, Clone, Copy, PartialEq, Eq, Structural)]
pub enum ActivateError {
    BadActivate,
}

/// A virtio-fs device whose file system an external daemon serves.
pub struct VhostUserFs {
    avail_features: u64,
    acked_features: u64,
    device_state: DeviceState,
    config: VirtioFsConfig,
    shm_region: Option<VirtioShmRegion>,
    socket_path: String,
    #[allow(dead_code)]
    exit_code: Arc<AtomicI32>,
}

/// The state of a device.
#[verifier::ext_equal]
pub struct Device {
    pub avail_features: u64,
    pub acked_features: u64,
    pub state: DeviceState,
    pub config: Seq<u8>,
    pub shm_region: Option<VirtioShmRegion>,
    pub socket_path: Seq<char>,
}

impl View for VhostUserFs {
    type V = Device;

    closed spec fn view(&self) -> Device {
        Device {
            avail_features: self.avail_features,
            acked_features: self.acked_features,
            state: self.device_state,
            config: self.config@,
            shm_region: self.shm_region,
            socket_path: self.socket_path@,
        }
    }
}

impl VhostUserFs {
    /// A new device.
    ///
    /// * `fs_id` is the mount tag that the guest sees.
    /// * `socket_path` is the socket of the external daemon.
    /// * `exit_code` is shared for the reporting of errors.
    pub fn new(fs_id: String, socket_path: String, exit_code: Arc<AtomicI32>) -> (res: Result<
        Self,
        Error,
    >)
        ensures
            res matches Ok(dev) && dev@ == (Device {
                avail_features: AVAIL_FEATURES,
                acked_features: 0,
                state: DeviceState::Inactive,
                config: config_of(encode_utf8(fs_id@)),
                shm_region: None,
                socket_path: socket_path@,
            }),
    {
        let version: u32 = virtio_f_version_1();
        let event_idx: u32 = virtio_ring_f_event_idx();
        assert((1u64 << 32u32) | (1u64 << 29u32) == 0x1_2000_0000u64) by (bit_vector);
        let avail_features: u64 = (1u64 << version) | (1u64 << event_idx);
        Ok(
            VhostUserFs {
                avail_features,
                acked_features: 0,
                device_state: DeviceState::Inactive,
                config: VirtioFsConfig::with_tag(fs_id.as_str().as_bytes()),
                shm_region: None,
                socket_path,
                exit_code,
            },
        )
    }

    /// Sets the shared memory into which files are mapped.
    pub fn set_shm_region(&mut self, shm_region: VirtioShmRegion)
        ensures
            final(self)@ == (Device { shm_region: Some(shm_region), ..old(self)@ }),
    {
        self.shm_region = Some(shm_region);
    }

    pub fn avail_features(&self) -> (res: u64)
        ensures
            res == self@.avail_features,
    {
        self.avail_features
    }

    pub fn acked_features(&self) -> (res: u64)
        ensures
            res == self@.acked_features,
    {
        self.acked_features
    }

    pub fn set_acked_features(&mut self, acked_features: u64)
        ensures
            final(self)@ == (Device { acked_features, ..old(self)@ }),
    {
        self.acked_features = acked_features;
    }

    pub fn device_type(&self) -> (res: u32)
        ensures
            res == VIRTIO_ID_FS,
    {
        VIRTIO_ID_FS
    }

    pub fn device_name(&self) -> (res: &str)
        ensures
            res@ == "vhost-user-fs"@,
    {
        "vhost-user-fs"
    }

    /// Reads the configuration space from `offset` on into `data`. What lies behind its end is not
    /// read: there `data` stays as it was.
    pub fn read_config(&self, offset: u64, data: &mut [u8])
        ensures
            final(data)@ == config_read(self@.config, offset, old(data)@),
    {
        let config = self.config.bytes();
        let config_len: usize = config.len();
        let len: usize = data.len();
        if offset < config_len as u64 && len as u64 <= u64::MAX - offset {
            let start: usize = offset as usize;
            let mut i: usize = 0;
            while i < len && i < config_len - start
                invariant
                    len == old(data)@.len() == data@.len(),
                    config_len == config@.len(),
                    i <= len,
                    start + i <= config_len,
                    data@ == config@.subrange(start as int, start + i) + old(data)@.skip(i as int),
                decreases len - i,
            {
                data[i] = config[start + i];
                assert(data@ =~= config@.subrange(start as int, start + i + 1) + old(data)@.skip(
                    i + 1,
                ));
                i += 1;
            }
        }
        assert(data@ =~= config_read(self@.config, offset, old(data)@));
    }

    /// The configuration space cannot be written.
    pub fn write_config(&mut self, offset: u64, data: &[u8])
        ensures
            final(self)@ == old(self)@,
    {
    }

    /// Begins to start the device, with the guest's memory and the queues that its driver set up.
    pub fn activate(&self, regions: Vec<GuestRegion>, queues: Vec<QueueLayout>) -> (res: Activation)
        ensures
            res.plan() == (Plan {
                socket_path: self@.socket_path,
                acked_features: self@.acked_features,
                regions: regions@,
                queues: queues@,
            }),
            res.stage() == Stage::Connect,
    {
        Activation::new(self.socket_path.as_str(), self.acked_features, regions, queues)
    }

    /// Ends the start: the device runs where every step of it succeeded, and stays as it was where
    /// one failed.
    pub fn finish_activation(&mut self, activation: &Activation) -> (res: Result<
        (),
        ActivateError,
    >)
        ensures
            activation.stage() == Stage::Done ==> {
                &&& res is Ok
                &&& final(self)@ == (Device { state: DeviceState::Activated, ..old(self)@ })
            },
            activation.stage() != Stage::Done ==> {
                &&& res == Err::<(), ActivateError>(ActivateError::BadActivate)
                &&& final(self)@ == old(self)@
            },
    {
        if !activation.is_done() {
            return Err(ActivateError::BadActivate);
        }
        self.device_state = DeviceState::Activated;
        Ok(())
    }

    pub fn is_activated(&self) -> (res: bool)
        ensures
            res == (self@.state == DeviceState::Activated),
    {
        self.device_state == DeviceState::Activated
    }

    pub fn shm_region(&self) -> (res: Option<&VirtioShmRegion>)
        ensures
            match res {
                Some(region) => self@.shm_region == Some(*region),
                None => self@.shm_region is None,
            },
    {
        self.shm_region.as_ref()
    }

    /// Stops the device.
    pub fn reset(&mut self) -> (res: bool)
        ensures
            final(self)@ == (Device { state: DeviceState::Inactive, ..old(self)@ }),
            res,
    {
        self.device_state = DeviceState::Inactive;
        true
    }
}

/// What a read of the configuration space makes of `data`: nothing where it starts behind the end
/// or would reach beyond the last address.
pub open spec fn config_read(config: Seq<u8>, offset: u64, data: Seq<u8>) -> Seq<u8> {
    if offset >= config.len() || offset + data.len() > u64::MAX {
        data
    } else if offset + data.len() <= config.len() {
        config.subrange(offset as int, offset + data.len())
    } else {
        config.skip(offset as int) + data.skip(config.len() - offset)
    }
}

/// The guest sees the mount tag: reading the tag gives the identifier, filled up with zeros, or its
/// first bytes where it is too long.
pub proof fn law_tag_is_visible(id: Seq<u8>, data: Seq<u8>)
    requires
        data.len() == TAG_SIZE,
    ensures
        config_read(config_of(id), 0, data) == tag_of(id),
        id.len() <= TAG_SIZE ==> tag_of(id).take(id.len() as int) == id,
        id.len() > TAG_SIZE ==> tag_of(id) == id.take(TAG_SIZE as int),
{
    assert(config_read(config_of(id), 0, data) =~= tag_of(id));
    if id.len() <= TAG_SIZE {
        assert(tag_of(id).take(id.len() as int) =~= id);
    } else {
        assert(tag_of(id) =~= id.take(TAG_SIZE as int));
    }
}

/// The configuration space is the 36 bytes of the tag and the number 1, for the one request queue.
pub proof fn law_configuration_layout(id: Seq<u8>)
    ensures
        config_of(id).len() == 40,
        u32_at(config_of(id).skip(36)) == 1,
        forall|i: int|
            0 <= i < 36 ==> #[trigger] config_of(id)[i] == if i < id.len() {
                id[i]
            } else {
                0
            },
{
    assert(config_of(id).skip(36) =~= le32(1) + Seq::empty());
    lemma_u32_first(config_of(id).skip(36), 1, Seq::empty());
}

/// A read of the configuration space gives each byte that stands there, and leaves the bytes behind
/// its end as they were.
pub proof fn law_configuration_is_read_where_it_stands(
    config: Seq<u8>,
    offset: u64,
    data: Seq<u8>,
)
    requires
        offset + data.len() <= u64::MAX,
    ensures
        config_read(config, offset, data).len() == data.len(),
        forall|i: int|
            0 <= i < data.len() ==> #[trigger] config_read(config, offset, data)[i] == if offset + i
                < config.len() {
                config[offset + i]
            } else {
                data[i]
            },
{
}

/// A read that would reach beyond the last address gives nothing.
pub proof fn law_read_beyond_the_last_address_gives_nothing(
    config: Seq<u8>,
    offset: u64,
    data: Seq<u8>,
)
    requires
        offset + data.len() >= 0x1_0000_0000_0000_0000,
    ensures
        config_read(config, offset, data) == data,
{
}

} // verus!
