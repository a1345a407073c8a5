//! What a session holds, and what it answers once it is disconnected.
use ssh_transport::operations::{
    bound_port, channel_failed, exec_request, file_failed, route_forward, sftp_failed, sftp_request,
    sftp_start_failed, shell_requests, tunnel_to, window_change, ChannelRequest, WindowSize,
};
use ssh_transport::session::{
    closed, closing_steps, ClosingStep, DisconnectReason, Links, Owner, Slot,
    DISCONNECT_TIMEOUT_SECS,
};
use ssh_transport::text::push_decimal;
use ssh_transport::{
    ssh_transport_bridge_version, SshSpikeError, SSH_TRANSPORT_BRIDGE_VERSION,
};

#[test]
fn the_bridge_version_is_exported() {
    assert_eq!(ssh_transport_bridge_version(), 1);
    assert_eq!(SSH_TRANSPORT_BRIDGE_VERSION, 1);
}

#[test]
fn closed_resources_answer_by_their_owner() {
    assert_eq!(closed(Owner::Session).message(), "channel failed: session closed");
    assert_eq!(closed(Owner::Channel).message(), "channel failed: channel closed");
    assert_eq!(closed(Owner::RemoteFile).message(), "sftp failed: handle closed");
}

#[test]
fn a_slot_holds_its_resource_until_it_is_taken() {
    let mut slot = Slot::new(Owner::Channel, vec![1]);
    assert_eq!(slot.get().expect("open"), &vec![1]);
    slot.get_mut().expect("open").push(2);
    assert_eq!(slot.take(), Some(vec![1, 2]));
    assert_eq!(slot.take(), None);
    match slot.get() {
        Err(SshSpikeError::Channel(text)) => assert_eq!(text, "channel closed"),
        _ => panic!("the channel is closed"),
    }
    match slot.get_mut() {
        Err(SshSpikeError::Channel(text)) => assert_eq!(text, "channel closed"),
        _ => panic!("the channel is closed"),
    }
}

#[test]
fn links_are_torn_down_from_the_inside_out() {
    let mut links = Links::new("target", vec!["outer", "middle", "inner"]);
    assert_eq!(*links.get().expect("connected"), "target");
    let order = links.disconnect();
    for farewell in &order {
        assert_eq!(farewell.reason, DisconnectReason::ByApplication);
        assert_eq!((farewell.text, farewell.language), ("closed", "en"));
        assert_eq!(farewell.timeout_secs, 5);
    }
    let transports: Vec<&str> = order.into_iter().map(|f| f.transport).collect();
    assert_eq!(transports, vec!["target", "inner", "middle", "outer"]);
    match links.get() {
        Err(SshSpikeError::Channel(text)) => assert_eq!(text, "session closed"),
        _ => panic!("the session is closed"),
    }
    assert!(links.disconnect().is_empty());
    assert_eq!(DISCONNECT_TIMEOUT_SECS, 5);
}

#[test]
fn a_channel_ends_its_data_before_it_closes() {
    assert_eq!(closing_steps(), vec![ClosingStep::Eof, ClosingStep::Close]);
}

#[test]
fn an_open_channel_answers_again_and_again() {
    let mut slot = Slot::new(Owner::Channel, 'c');
    for _ in 0..3 {
        assert_eq!(slot.get().ok(), Some(&'c'));
    }
    slot.take();
    for _ in 0..3 {
        assert!(slot.get().is_err());
    }
}

#[test]
fn every_error_has_its_text() {
    let cases = [
        (SshSpikeError::Connect("x".to_string()), "connection failed: x"),
        (SshSpikeError::NoCommonAlgorithm("mac".to_string()), "no common algorithm (mac)"),
        (SshSpikeError::HostKeyRejected, "host key rejected by verifier"),
        (SshSpikeError::Auth("x".to_string()), "auth failed: x"),
        (SshSpikeError::Channel("x".to_string()), "channel failed: x"),
        (SshSpikeError::Sftp("x".to_string()), "sftp failed: x"),
    ];
    for (error, text) in cases {
        assert_eq!(error.message(), text);
    }
}

#[test]
fn failures_are_reported_by_layer() {
    match channel_failed(russh::Error::SendError) {
        SshSpikeError::Channel(text) => assert_eq!(text, russh::Error::SendError.to_string()),
        other => panic!("expected a channel failure, got {other:?}"),
    }
    match sftp_start_failed(russh_sftp::client::error::Error::Timeout) {
        SshSpikeError::Channel(text) => assert_eq!(text, "Timeout"),
        other => panic!("expected a channel failure, got {other:?}"),
    }
    match sftp_failed(russh_sftp::client::error::Error::Timeout) {
        SshSpikeError::Sftp(text) => assert_eq!(text, "Timeout"),
        other => panic!("expected an sftp failure, got {other:?}"),
    }
    match file_failed(std::io::Error::other("short write")) {
        SshSpikeError::Sftp(text) => assert_eq!(text, "short write"),
        other => panic!("expected an sftp failure, got {other:?}"),
    }
}

#[test]
fn a_shell_gets_a_terminal_first() {
    let requests = shell_requests(80, 24);
    assert_eq!(requests.len(), 2);
    match &requests[0] {
        ChannelRequest::Pty { want_reply, term, cols, rows, pix_width, pix_height } => {
            assert!(!want_reply);
            assert_eq!(*term, "xterm-256color");
            assert_eq!((*cols, *rows, *pix_width, *pix_height), (80, 24, 0, 0));
        }
        other => panic!("expected a terminal, got {other:?}"),
    }
    assert!(matches!(requests[1], ChannelRequest::Shell { want_reply: false }));
}

#[test]
fn commands_and_subsystems_are_requested() {
    match exec_request("echo ok-exec".to_string()) {
        ChannelRequest::Exec { want_reply, command } => {
            assert!(!want_reply);
            assert_eq!(command, "echo ok-exec");
        }
        other => panic!("expected a command, got {other:?}"),
    }
    match sftp_request() {
        ChannelRequest::Subsystem { want_reply, name } => {
            assert!(want_reply);
            assert_eq!(name, "sftp");
        }
        other => panic!("expected a subsystem, got {other:?}"),
    }
}

#[test]
fn a_resize_changes_characters_only() {
    assert_eq!(
        window_change(120, 40),
        WindowSize { cols: 120, rows: 40, pix_width: 0, pix_height: 0 }
    );
}

#[test]
fn tunnels_come_from_the_local_host() {
    let tunnel = tunnel_to("inner".to_string(), 2223);
    assert_eq!((tunnel.host.as_str(), tunnel.port), ("inner", 2223));
    assert_eq!((tunnel.origin_host, tunnel.origin_port), ("127.0.0.1", 0));
}

#[test]
fn forwards_are_handed_on_where_they_are_taken() {
    let inbound = route_forward(true, "127.0.0.1", 40123, 'c').expect("taken");
    assert_eq!((inbound.bind_host.as_str(), inbound.bind_port), ("127.0.0.1", 40123));
    assert_eq!(inbound.channel, 'c');
    assert!(route_forward(false, "127.0.0.1", 40123, 'c').is_none());
}

#[test]
fn the_bound_port_is_the_one_asked_for_or_picked() {
    assert_eq!(bound_port(0, 40123), 40123);
    // nothing is reported for a port that was asked for
    assert_eq!(bound_port(8022, 0), 8022);
}

#[test]
fn numbers_are_written_in_decimal() {
    for n in [0u64, 9, 10, 2235, 65535, u64::MAX] {
        let mut text = "port ".to_string();
        push_decimal(&mut text, n);
        assert_eq!(text, format!("port {n}"));
    }
}
