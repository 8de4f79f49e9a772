//! Numbers that the host's C library and the virtio headers define, as they are on Linux and macOS.

use vstd::prelude::*;

verus! {

/// `libc::DT_DIR`, the directory entry type of a directory: 4.
#[verifier::external_body]
pub(crate) fn dt_dir() -> (res: u32)
    ensures
        res == 4,
{
    libc::DT_DIR as u32
}

/// `libc::DT_LNK`, the directory entry type of a symbolic link: 10.
#[verifier::external_body]
pub(crate) fn dt_lnk() -> (res: u32)
    ensures
        res == 10,
{
    libc::DT_LNK as u32
}

/// `libc::DT_REG`, the directory entry type of a regular file: 8.
#[verifier::external_body]
pub(crate) fn dt_reg() -> (res: u32)
    ensures
        res == 8,
{
    libc::DT_REG as u32
}

/// `libc::ST_RDONLY`, the flag of a file system that is mounted read-only: 1.
#[verifier::external_body]
pub(crate) fn st_rdonly() -> (res: u64)
    ensures
        res == 1,
{
    libc::ST_RDONLY as u64
}

/// `libc::ENOENT`, the host's number for a file that does not exist: 2.
#[verifier::external_body]
pub(crate) fn host_enoent() -> (res: i32)
    ensures
        res == 2,
{
    libc::ENOENT
}

/// `virtio_bindings::virtio_config::VIRTIO_F_VERSION_1`, the feature bit of devices that follow
/// version 1 of the virtio standard: 32.
#[verifier::external_body]
pub(crate) fn virtio_f_version_1() -> (res: u32)
    ensures
        res == 32,
{
    virtio_bindings::virtio_config::VIRTIO_F_VERSION_1
}

/// `virtio_bindings::virtio_ring::VIRTIO_RING_F_EVENT_IDX`, the feature bit of rings that
/// suppress notifications by index: 29.
#[verifier::external_body]
pub(crate) fn virtio_ring_f_event_idx() -> (res: u32)
    ensures
        res == 29,
{
    virtio_bindings::virtio_ring::VIRTIO_RING_F_EVENT_IDX
}

} // verus!
