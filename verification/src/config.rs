//! What is configured for a file system device.

use vstd::prelude::*;

verus! {

/// The configuration of a file system device.
#[derive(Clone, Debug)]
pub struct FsDeviceConfig {
    pub fs_id: String,
    pub shared_dir: String,
    pub shm_size: Option<usize>,
    pub allow_root_dir_delete: bool,
    pub read_only: bool,
    /// The socket of an external daemon. When set, the daemon serves the file system in place of
    /// the built-in server.
    pub socket_path: Option<String>,
}

} // verus!
