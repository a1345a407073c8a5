//! Verified core of an SSH transport: host-key blobs, the dial chain through
//! jump hosts, authentication, channel message handling, session teardown and
//! the SFTP metadata and open rules. The byte streams themselves are driven
//! from outside this crate; everything decided about them is decided here.
use vstd::prelude::*;

pub mod auth;
pub mod channel;
pub mod connect;
pub mod error;
pub mod host_key;
pub mod key_text;
pub mod known_hosts;
pub mod model;
pub mod operations;
pub mod session;
pub mod sftp;
pub mod text;

pub use error::SshSpikeError;
pub use model::{
    SshSpikeAuth, SshSpikeConnectParams, SshSpikeEvent, SshSpikeEventSink, SshSpikeHostKeyVerifier,
    SshSpikeJump,
};
pub use sftp::{SshSpikeDirEntry, SshSpikeFileMeta};

verus! {

/// Bumped whenever the exported surface of the `ssh_transport` namespace
/// changes, so that a stale binding fails loudly instead of misbehaving.
pub const SSH_TRANSPORT_BRIDGE_VERSION: u32 = 1;

/// The bridge version of the `ssh_transport` namespace.
pub fn ssh_transport_bridge_version() -> (version: u32)
    ensures
        version == SSH_TRANSPORT_BRIDGE_VERSION,
        version == 1,
{
    SSH_TRANSPORT_BRIDGE_VERSION
}

} // verus!
