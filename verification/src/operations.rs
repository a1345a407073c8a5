//! The operations of an open session: what is requested on its channels, and
//! how a request that fails is reported.
use crate::error::SshSpikeError;
use vstd::prelude::*;

verus! {

/// Any error of the SFTP client.
#[verifier::external_type_specification]
#[verifier::external_body]
pub struct ExSftpError(russh_sftp::client::error::Error);

/// An error of reading from or writing to a remote file.
#[verifier::external_type_specification]
#[verifier::external_body]
pub struct ExIoError(std::io::Error);

/// The error of a channel operation: opening a channel, a request on it,
/// sending on it, half-closing it, and binding or cancelling a remote forward.
pub fn channel_failed(cause: russh::Error) -> (e: SshSpikeError)
    ensures
        e matches SshSpikeError::Channel(text)
            && vstd::string::to_string_from_display_ensures::<russh::Error>(&cause, text),
{
    SshSpikeError::Channel(cause.to_string())
}

/// The error of an SFTP subsystem that does not start: a failure of the
/// channel, since there is no SFTP session yet.
pub fn sftp_start_failed(cause: russh_sftp::client::error::Error) -> (e: SshSpikeError)
    ensures
        e matches SshSpikeError::Channel(text) && vstd::string::to_string_from_display_ensures::<
            russh_sftp::client::error::Error,
        >(&cause, text),
{
    SshSpikeError::Channel(cause.to_string())
}

/// The error of an operation of a running SFTP session.
pub fn sftp_failed(cause: russh_sftp::client::error::Error) -> (e: SshSpikeError)
    ensures
        e matches SshSpikeError::Sftp(text) && vstd::string::to_string_from_display_ensures::<
            russh_sftp::client::error::Error,
        >(&cause, text),
{
    SshSpikeError::Sftp(cause.to_string())
}

/// The error of reading, writing, seeking or closing a remote file.
pub fn file_failed(cause: std::io::Error) -> (e: SshSpikeError)
    ensures
        e matches SshSpikeError::Sftp(text) && vstd::string::to_string_from_display_ensures::<
            std::io::Error,
        >(&cause, text),
{
    SshSpikeError::Sftp(cause.to_string())
}

/// A request on a session channel.
#[derive(Debug)]
pub enum ChannelRequest {
    Pty {
        want_reply: bool,
        term: &'static str,
        cols: u32,
        rows: u32,
        pix_width: u32,
        pix_height: u32,
    },
    Shell { want_reply: bool },
    Exec { want_reply: bool, command: String },
    Subsystem { want_reply: bool, name: &'static str },
}

/// A terminal of the given size, without a reply.
pub open spec fn is_pty_request(request: ChannelRequest, cols: u32, rows: u32) -> bool {
    request matches ChannelRequest::Pty {
        want_reply,
        term,
        cols: c,
        rows: r,
        pix_width,
        pix_height,
    } && !want_reply && term@ == "xterm-256color"@ && c == cols && r == rows && pix_width == 0
        && pix_height == 0
}

/// What is requested on the channel of the interactive shell, in order: a
/// terminal of the given size, and then the shell. Neither asks for a reply.
pub fn shell_requests(cols: u32, rows: u32) -> (requests: Vec<ChannelRequest>)
    ensures
        requests@.len() == 2,
        is_pty_request(requests@[0], cols, rows),
        requests@[0] matches ChannelRequest::Pty {
            want_reply,
            term,
            cols: c,
            rows: r,
            pix_width,
            pix_height,
        } && !want_reply && term@ == "xterm-256color"@ && c == cols && r == rows && pix_width == 0
            && pix_height == 0,
        requests@[1] == (ChannelRequest::Shell { want_reply: false }),
{
    let mut requests: Vec<ChannelRequest> = Vec::new();
    requests.push(
        ChannelRequest::Pty {
            want_reply: false,
            term: "xterm-256color",
            cols,
            rows,
            pix_width: 0,
            pix_height: 0,
        },
    );
    requests.push(ChannelRequest::Shell { want_reply: false });
    requests
}

/// What is requested to run a command: the command, without a reply.
pub fn exec_request(command: String) -> (request: ChannelRequest)
    ensures
        request == (ChannelRequest::Exec { want_reply: false, command }),
        request matches ChannelRequest::Exec { want_reply, command: c } && !want_reply && c@
            == command@,
{
    ChannelRequest::Exec { want_reply: false, command }
}

/// What is requested to start SFTP: the `sftp` subsystem, with a reply.
pub fn sftp_request() -> (request: ChannelRequest)
    ensures
        request matches ChannelRequest::Subsystem { want_reply, name } && want_reply && name@
            == "sftp"@,
{
    ChannelRequest::Subsystem { want_reply: true, name: "sftp" }
}

/// The size of a terminal in characters and pixels.
#[derive(Debug, Clone, Copy, PartialEq, Eq)]
pub struct WindowSize {
    pub cols: u32,
    pub rows: u32,
    pub pix_width: u32,
    pub pix_height: u32,
}

/// The window change for a new size in characters; the size in pixels is left
/// open.
pub fn window_change(cols: u32, rows: u32) -> (size: WindowSize)
    ensures
        size == (WindowSize { cols, rows, pix_width: 0, pix_height: 0 }),
        size.cols == cols,
        size.rows == rows,
        size.pix_width == 0,
        size.pix_height == 0,
{
    WindowSize { cols, rows, pix_width: 0, pix_height: 0 }
}

/// Where a direct-tcpip channel is to lead, and where it is said to come from.
#[derive(Debug)]
pub struct TunnelRequest {
    pub host: String,
    pub port: u32,
    pub origin_host: &'static str,
    pub origin_port: u32,
}

impl TunnelRequest {
    /// Whether this is the tunnel to the given endpoint, from the local host
    /// and no port in particular.
    pub open spec fn leads_to(self, host: Seq<char>, port: u32) -> bool {
        &&& self.host@ == host
        &&& self.port == port
        &&& self.origin_host@ == "127.0.0.1"@
        &&& self.origin_port == 0
    }
}

/// The direct-tcpip channel to an endpoint, as seen from the server.
pub fn tunnel_to(host: String, port: u32) -> (request: TunnelRequest)
    ensures
        request.leads_to(host@, port),
        request.host@ == host@,
        request.port == port,
        request.origin_host@ == "127.0.0.1"@,
        request.origin_port == 0,
{
    TunnelRequest { host, port, origin_host: "127.0.0.1", origin_port: 0 }
}

/// The port of a remote forward: the one that was asked for, or the one that the
/// server picked where it was left to.
pub open spec fn port_of_forward(requested: u32, reported: u32) -> u32 {
    if requested != 0 {
        requested
    } else {
        reported
    }
}

/// A port that was asked for is the port of the forward, whatever the server
/// reports, and a port that the server picked is the one it reports.
pub proof fn a_forward_has_the_port_asked_for(requested: u32, reported: u32, other: u32)
    ensures
        requested > 0 ==> port_of_forward(requested, reported) == requested,
        requested > 0 ==> port_of_forward(requested, reported) == port_of_forward(requested, other),
        port_of_forward(0, reported) == reported,
{
}

/// The port that the server bound for a remote forward, given the one that was
/// asked for and the one that was reported back. A server reports a port only
/// where it was left to pick one, which asking for port 0 does.
pub fn bound_port(requested: u32, reported: u32) -> (port: u32)
    ensures
        port == if requested == 0 {
            reported
        } else {
            requested
        },
        port == port_of_forward(requested, reported),
{
    if requested == 0 {
        reported
    } else {
        requested
    }
}

/// A connection to a remotely forwarded port, with the port it came in on. `C`
/// is its channel.
#[derive(Debug)]
pub struct Inbound<C> {
    pub bind_host: String,
    pub bind_port: u32,
    pub channel: C,
}

/// What becomes of a channel that the server opened for a forwarded port: it
/// is handed on with the address it came in on, where forwards are taken, and
/// dropped where they are not.
pub fn route_forward<C>(forwards: bool, address: &str, port: u32, channel: C) -> (inbound: Option<
    Inbound<C>,
>)
    ensures
        match inbound {
            Some(i) => forwards && i.bind_host@ == address@ && i.bind_port == port && i.channel
                == channel,
            None => !forwards,
        },
        inbound is Some <==> forwards,
{
    if forwards {
        Some(Inbound { bind_host: String::from_str(address), bind_port: port, channel })
    } else {
        None
    }
}

/// A tunnel leads to an endpoint exactly if it carries that host and that very
/// port, and says that it comes from the local host and port 0.
pub proof fn a_tunnel_carries_its_endpoint(request: TunnelRequest, host: Seq<char>, port: u32)
    ensures
        request.leads_to(host, port) <==> {
            &&& request.host@ == host
            &&& request.port == port
            &&& request.origin_host@ == "127.0.0.1"@
            &&& request.origin_port == 0
        },
{
}

/// One tunnel leads to one endpoint: two endpoints that it leads to are the
/// same, host and port.
pub proof fn a_tunnel_leads_to_one_endpoint(
    request: TunnelRequest,
    host: Seq<char>,
    port: u32,
    other_host: Seq<char>,
    other_port: u32,
)
    requires
        request.leads_to(host, port),
        request.leads_to(other_host, other_port),
    ensures
        host == other_host,
        port == other_port,
        request.port == port,
{
}

/// A request for a terminal carries the very size that was asked for, as the
/// kind of terminal `xterm-256color`, and wants no reply.
pub proof fn a_terminal_has_the_size_asked_for(
    want_reply: bool,
    term: &'static str,
    cols: u32,
    rows: u32,
    pix_width: u32,
    pix_height: u32,
    wanted_cols: u32,
    wanted_rows: u32,
)
    ensures
        is_pty_request(
            ChannelRequest::Pty { want_reply, term, cols, rows, pix_width, pix_height },
            wanted_cols,
            wanted_rows,
        ) <==> {
            &&& !want_reply
            &&& term@ == "xterm-256color"@
            &&& cols == wanted_cols
            &&& rows == wanted_rows
            &&& pix_width == 0
            &&& pix_height == 0
        },
{
}

} // verus!
