//! Connection parameters, session events, and the callbacks that an
//! application implements.
use vstd::prelude::*;

verus! {

/// How to prove who is connecting.
#[derive(Debug, Clone)]
pub enum SshSpikeAuth {
    Password { password: String },
    /// A private key as OpenSSH, PEM or PuTTY text.
    PrivateKey { pem: String, passphrase: Option<String> },
}

/// One jump hop: an SSH connection of its own whose direct-tcpip channel
/// carries the transport of the next hop.
#[derive(Debug, Clone)]
pub struct SshSpikeJump {
    pub host: String,
    pub port: u16,
    pub username: String,
    pub auth: SshSpikeAuth,
}

/// Everything that is needed to open a session.
#[derive(Debug, Clone)]
pub struct SshSpikeConnectParams {
    pub host: String,
    pub port: u16,
    pub username: String,
    pub auth: SshSpikeAuth,
    pub cols: u32,
    pub rows: u32,
    /// The jump hops, outermost first; empty for a direct dial.
    pub via: Vec<SshSpikeJump>,
    /// Seconds between keepalives of the transport; 0 turns them off.
    pub keep_alive_seconds: u32,
}

/// What the interactive shell channel of a session reports.
#[derive(Debug, Clone, PartialEq)]
pub enum SshSpikeEvent {
    Data { data: Vec<u8> },
    ExitStatus { code: u32 },
    /// The server closed the channel: a deliberate end.
    Closed,
    /// The transport went away without closing the channel.
    Died,
}

/// Receives the events of a session.
pub trait SshSpikeEventSink: Send + Sync {
    /// The events that may be handed to this sink, all of them unless it says
    /// otherwise: a caller is held to them.
    open spec fn admits(&self, event: crate::channel::EventView) -> bool {
        true
    }

    fn on_event(&self, event: SshSpikeEvent)
        requires
            self.admits(event@),
    ;
}

/// Decides whether the key that an endpoint presents is to be trusted. With
/// jump hops every endpoint presents its own key, so the decision is asked for
/// per host and port.
pub trait SshSpikeHostKeyVerifier: Send + Sync {
    /// The questions that may be put to this verifier, all of them unless it
    /// says otherwise: a caller is held to them.
    open spec fn may_be_asked(
        &self,
        hostname: Seq<char>,
        port: u16,
        algorithm: Seq<char>,
        blob: Seq<u8>,
    ) -> bool {
        true
    }

    fn verify_host_key(
        &self,
        hostname: String,
        port: u16,
        algorithm: String,
        blob: Vec<u8>,
    ) -> bool
        requires
            self.may_be_asked(hostname@, port, algorithm@, blob@),
    ;
}

} // verus!
