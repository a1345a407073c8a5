//! The transport settings, dial failures, and the chain of hops.
use ssh_transport::connect::{
    connect_error, map_connect_error, transport_config, tunnel_failed, ConnectFailure, DialChain,
    DialStep,
};
use ssh_transport::{
    SshSpikeAuth, SshSpikeConnectParams, SshSpikeError, SshSpikeJump,
};
use ssh_transport::session::Farewell;
use std::time::Duration;

const HOST: &str = "127.0.0.1";
const FWD_PORT: u16 = 2235;
const INNER_SSHD_PORT: u16 = 2223;
const USER: &str = "pwuser";

fn auth(password: &str) -> SshSpikeAuth {
    SshSpikeAuth::Password { password: password.to_string() }
}

fn hop(host: &str, port: u16) -> SshSpikeJump {
    SshSpikeJump {
        host: host.to_string(),
        port,
        username: USER.to_string(),
        auth: auth("hop"),
    }
}

fn params(via: Vec<SshSpikeJump>) -> SshSpikeConnectParams {
    SshSpikeConnectParams {
        host: HOST.to_string(),
        port: INNER_SSHD_PORT,
        username: USER.to_string(),
        auth: auth("target"),
        cols: 80,
        rows: 24,
        via,
        keep_alive_seconds: 15,
    }
}

/// The transports of farewells, in their order.
fn transports<H>(order: Vec<Farewell<H>>) -> Vec<H> {
    order.into_iter().map(|f| f.transport).collect()
}

#[test]
fn no_common_kex_maps_to_a_typed_variant_not_a_string() {
    let mapped = map_connect_error(russh::Error::NoCommonAlgo {
        kind: russh::AlgorithmKind::Kex,
        ours: vec!["sntrup761x25519-sha512".into()],
        theirs: vec!["diffie-hellman-group14-sha1".into()],
    });
    match mapped {
        SshSpikeError::NoCommonAlgorithm(kind) => assert_eq!(kind, "kex"),
        other => panic!("expected the typed variant, got {other:?}"),
    }
}

#[test]
fn every_negotiation_failure_is_named_after_its_kind() {
    let kinds = [
        russh::AlgorithmKind::Kex,
        russh::AlgorithmKind::Key,
        russh::AlgorithmKind::Cipher,
        russh::AlgorithmKind::Compression,
        russh::AlgorithmKind::Mac,
    ];
    for kind in kinds {
        let expected = format!("{kind:?}").to_lowercase();
        let mapped = map_connect_error(russh::Error::NoCommonAlgo {
            kind,
            ours: Vec::new(),
            theirs: Vec::new(),
        });
        match mapped {
            SshSpikeError::NoCommonAlgorithm(name) => assert_eq!(name, expected),
            other => panic!("expected a failed negotiation, got {other:?}"),
        }
    }
}

#[test]
fn an_unknown_key_is_a_rejected_one() {
    let err = map_connect_error(russh::Error::UnknownKey);
    assert!(matches!(err, SshSpikeError::HostKeyRejected));
    assert_eq!(err.message(), "host key rejected by verifier");
}

#[test]
fn other_dial_failures_keep_their_text() {
    let expected = russh::Error::ConnectionTimeout.to_string();
    match map_connect_error(russh::Error::ConnectionTimeout) {
        SshSpikeError::Connect(text) => assert_eq!(text, expected),
        other => panic!("expected a connection failure, got {other:?}"),
    }
    match connect_error(ConnectFailure::Other { error: russh::Error::ConnectionTimeout }) {
        SshSpikeError::Connect(text) => assert_eq!(text, expected),
        other => panic!("expected a connection failure, got {other:?}"),
    }
}

#[test]
fn keepalives_follow_the_parameter() {
    let on = transport_config(15);
    assert_eq!(on.keepalive_interval, Some(Duration::from_secs(15)));
    assert_eq!(on.inactivity_timeout, None);
    let off = transport_config(0);
    assert_eq!(off.keepalive_interval, None);
    assert_eq!(off.inactivity_timeout, None);
    assert_eq!(
        transport_config(u32::MAX).keepalive_interval,
        Some(Duration::from_secs(4294967295))
    );
}

#[test]
fn other_settings_are_left_at_their_defaults() {
    let config = transport_config(1);
    let default = russh::client::Config::default();
    assert_eq!(config.window_size, default.window_size);
    assert_eq!(config.maximum_packet_size, default.maximum_packet_size);
    assert_eq!(config.keepalive_max, default.keepalive_max);
}

#[test]
fn a_direct_dial_has_one_step() {
    let mut chain: DialChain<u32> = DialChain::new(params(Vec::new()));
    match chain.next() {
        DialStep::Direct { hop, forwards } => {
            assert_eq!(hop.host, HOST);
            assert_eq!(hop.port, INNER_SSHD_PORT);
            assert!(forwards);
        }
        _ => panic!("the target is dialed directly"),
    }
    assert!(chain.settle(7, Ok(())).is_ok());
    assert!(matches!(chain.next(), DialStep::Done));
    let mut links = chain.finish().expect("every hop is settled");
    assert_eq!(*links.get().expect("connected"), 7);
    assert_eq!(transports(links.disconnect()), vec![7]);
}

#[test]
fn jump_chain_reaches_a_target_that_has_no_direct_route() {
    let mut chain: DialChain<&str> = DialChain::new(params(vec![hop("outer", 1), hop("inner", 2)]));
    match chain.next() {
        DialStep::Direct { hop, forwards } => {
            assert_eq!((hop.host.as_str(), hop.port), ("outer", 1));
            assert!(!forwards);
        }
        _ => panic!("the outermost hop is dialed directly"),
    }
    chain.settle("first", Ok(())).expect("outer");
    match chain.next() {
        DialStep::Through { parent, hop, tunnel, forwards } => {
            assert_eq!(*parent, "first");
            assert_eq!((hop.host.as_str(), hop.port), ("inner", 2));
            assert_eq!((tunnel.host.as_str(), tunnel.port), ("inner", 2));
            assert_eq!((tunnel.origin_host, tunnel.origin_port), ("127.0.0.1", 0));
            assert!(!forwards);
        }
        _ => panic!("the second hop is dialed through the first"),
    }
    chain.settle("second", Ok(())).expect("inner");
    match chain.next() {
        DialStep::Through { parent, hop, forwards, .. } => {
            assert_eq!(*parent, "second");
            assert_eq!((hop.host.as_str(), hop.port), (HOST, INNER_SSHD_PORT));
            assert!(forwards);
        }
        _ => panic!("the target is dialed through the second hop"),
    }
    chain.settle("third", Ok(())).expect("target");
    let mut links = chain.finish().expect("every hop is settled");
    assert_eq!(*links.get().expect("connected"), "third");
    // torn down in the reverse of the order of the dial
    assert_eq!(transports(links.disconnect()), vec!["third", "second", "first"]);
    assert!(links.disconnect().is_empty());
}

#[test]
fn an_unfinished_chain_has_no_links() {
    let mut chain: DialChain<u8> = DialChain::new(params(vec![hop("outer", 1)]));
    chain.settle(1, Ok(())).expect("outer");
    assert!(chain.finish().is_none());
}

#[test]
fn jump_chain_auth_failure_names_the_failing_hop() {
    let mut chain: DialChain<u8> = DialChain::new(params(vec![hop(HOST, FWD_PORT)]));
    let err = chain
        .settle(1, Err(SshSpikeError::Auth("password rejected".to_string())))
        .err()
        .expect("the hop's wrong password must fail the dial");
    match err {
        SshSpikeError::Auth(detail) => {
            assert!(
                detail.starts_with("jump to 127.0.0.1:2235"),
                "the failure must name the failing hop, got: {detail}"
            );
            assert_eq!(detail, "jump to 127.0.0.1:2235: auth failed: password rejected");
        }
        other => panic!("expected Auth, got {other:?}"),
    }
    // the hop is still the next one
    assert!(matches!(chain.next(), DialStep::Direct { .. }));
}

#[test]
fn the_targets_own_auth_failure_keeps_its_wording() {
    let mut chain: DialChain<u8> = DialChain::new(params(vec![hop(HOST, FWD_PORT)]));
    chain.settle(1, Ok(())).expect("hop");
    match chain.settle(2, Err(SshSpikeError::Auth("key rejected".to_string()))) {
        Err(SshSpikeError::Auth(detail)) => assert_eq!(detail, "key rejected"),
        other => panic!("expected Auth, got {other:?}"),
    }
}

#[test]
fn a_tunnel_that_does_not_open_names_its_hop() {
    let cause = russh::Error::ChannelOpenFailure(
        russh::ChannelOpenFailure::AdministrativelyProhibited,
    );
    let shown = cause.to_string();
    match tunnel_failed(&hop("inner", 65535), cause) {
        SshSpikeError::Connect(text) => {
            assert_eq!(text, format!("jump to inner:65535 failed: {shown}"))
        }
        other => panic!("expected a connection failure, got {other:?}"),
    }
}
