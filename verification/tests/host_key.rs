//! The host-key check, on real keys and certificates.
use russh::keys::ssh_key::certificate::{Builder, CertType};
use russh::keys::ssh_key::private::Ed25519Keypair;
use russh::keys::{PrivateKey, PublicKeyOrCertificate};
use ssh_transport::auth::AuthRequest;
use ssh_transport::connect::map_connect_error;
use ssh_transport::host_key::{wire_key, HostKeyCheck, WireKey};
use ssh_transport::known_hosts::{blob_fingerprint, is_plausible_blob};
use ssh_transport::{SshSpikeAuth, SshSpikeError, SshSpikeHostKeyVerifier, SshSpikeJump};
use std::sync::Mutex;

const HOST: &str = "127.0.0.1";
const PW_PORT: u16 = 2233;

/// Records what it saw, and answers what it is told to.
struct Verifier {
    answer: bool,
    seen: Mutex<Vec<(String, String, Vec<u8>)>>,
}

impl Verifier {
    fn new(answer: bool) -> Verifier {
        Verifier { answer, seen: Mutex::new(Vec::new()) }
    }
}

impl SshSpikeHostKeyVerifier for Verifier {
    fn verify_host_key(
        &self,
        hostname: String,
        port: u16,
        algorithm: String,
        blob: Vec<u8>,
    ) -> bool {
        self.seen.lock().unwrap().push((format!("{hostname}:{port}"), algorithm, blob));
        self.answer
    }
}

fn private_key(seed: u8) -> PrivateKey {
    PrivateKey::from(Ed25519Keypair::from_seed(&[seed; 32]))
}

fn plain(seed: u8) -> PublicKeyOrCertificate {
    PublicKeyOrCertificate::PublicKey {
        key: private_key(seed).public_key().clone(),
        hash_alg: None,
    }
}

fn hop(host: &str, port: u16) -> SshSpikeJump {
    SshSpikeJump {
        host: host.to_string(),
        port,
        username: "pwuser".to_string(),
        auth: SshSpikeAuth::Password { password: "p".to_string() },
    }
}

fn check() -> HostKeyCheck {
    HostKeyCheck::for_hop(&hop(HOST, PW_PORT))
}

#[test]
fn host_key_rejection_fails_the_connect() {
    let verifier = Verifier::new(false);
    let mut check = check();
    assert_eq!(check.check_server_key(&verifier, &plain(1)).expect("a wire form"), false);
    // the refusal comes back from the transport as an unknown key
    let err = map_connect_error(russh::Error::UnknownKey);
    assert!(matches!(err, SshSpikeError::HostKeyRejected));
    // and nothing to log in with is handed out
    match check.login(&hop(HOST, PW_PORT)) {
        Err(err) => assert!(matches!(err, SshSpikeError::HostKeyRejected)),
        Ok(_) => panic!("the key was refused"),
    }
}

#[test]
fn a_login_is_handed_out_for_an_accepted_endpoint_only() {
    let verifier = Verifier::new(true);
    let mut check = check();
    assert!(check.login(&hop(HOST, PW_PORT)).is_err());
    check.check_server_key(&verifier, &plain(1)).expect("a wire form");
    let login = check.login(&hop(HOST, PW_PORT)).expect("the key was accepted");
    assert_eq!(login.username, "pwuser");
    assert!(matches!(login.request, AuthRequest::Password { password } if password == "p"));
    for other in [hop("elsewhere", PW_PORT), hop(HOST, PW_PORT + 1)] {
        assert!(matches!(check.login(&other), Err(SshSpikeError::HostKeyRejected)));
    }
    let mut broken = hop(HOST, PW_PORT);
    broken.auth = SshSpikeAuth::PrivateKey { pem: "no key".to_string(), passphrase: None };
    assert!(matches!(check.login(&broken), Err(SshSpikeError::Auth(_))));
}

#[test]
fn host_key_verifier_sees_a_plausible_wire_blob() {
    let verifier = Verifier::new(true);
    let mut check = check();
    assert_eq!(check.check_server_key(&verifier, &plain(1)).expect("a wire form"), true);
    let seen = verifier.seen.lock().unwrap();
    assert_eq!(seen.len(), 1, "exactly one host-key check per connect");
    let (endpoint, algorithm, blob) = &seen[0];
    assert_eq!(endpoint, &format!("{HOST}:{PW_PORT}"));
    assert!(
        algorithm.starts_with("ssh-") || algorithm.starts_with("ecdsa-"),
        "algorithm={algorithm}"
    );
    assert_eq!(algorithm, "ssh-ed25519");
    assert!(is_plausible_blob(blob));
    assert_eq!(blob, &private_key(1).public_key().to_bytes().unwrap());
}

#[test]
fn accepted_keys_are_logged_with_their_fingerprint() {
    let verifier = Verifier::new(true);
    let mut check = check();
    assert_eq!(check.accepted_count(), 0);
    assert_eq!(check.accepted_entry(0), None);
    check.check_server_key(&verifier, &plain(1)).expect("a wire form");
    check.check_server_key(&verifier, &plain(2)).expect("a wire form");
    assert_eq!(check.accepted_count(), 2);
    for (i, seed) in [1u8, 2].into_iter().enumerate() {
        let blob = private_key(seed).public_key().to_bytes().unwrap();
        let expected = format!("ssh-ed25519:{}", blob_fingerprint(&blob));
        assert_eq!(check.accepted_entry(i), Some(expected.as_str()));
    }
}

#[test]
fn refused_keys_are_not_logged() {
    let verifier = Verifier::new(false);
    let mut check = check();
    assert_eq!(check.check_server_key(&verifier, &plain(1)).expect("a wire form"), false);
    assert_eq!(check.accepted_count(), 0);
    assert_eq!(verifier.seen.lock().unwrap().len(), 1);
}

#[test]
fn a_verifier_behind_a_trait_object_is_asked() {
    let verifier: Box<dyn SshSpikeHostKeyVerifier> = Box::new(Verifier::new(true));
    let mut check = check();
    assert_eq!(check.check_server_key(verifier.as_ref(), &plain(3)).expect("a wire form"), true);
}

#[test]
fn a_certificate_stands_in_for_its_key() {
    let ca = private_key(9);
    let mut builder =
        Builder::new([7u8; 16], private_key(1).public_key(), 0, 4_000_000_000).unwrap();
    builder.serial(1).unwrap();
    builder.key_id("host").unwrap();
    builder.cert_type(CertType::Host).unwrap();
    builder.all_principals_valid().unwrap();
    let certificate = builder.sign(&ca).unwrap();
    let blob = certificate.to_bytes().unwrap();
    let wire = wire_key(&PublicKeyOrCertificate::Certificate(certificate)).expect("a wire form");
    assert_eq!(wire.blob, blob);
    assert_eq!(wire.algorithm, "ssh-ed25519");
    assert_ne!(wire.blob, private_key(1).public_key().to_bytes().unwrap());
}

#[test]
fn a_decision_is_taken_in_as_it_is() {
    let mut check = check();
    let wire = WireKey { algorithm: "ssh-rsa".to_string(), blob: Vec::new() };
    assert!(!check.decide(&wire, false));
    assert!(check.decide(&wire, true));
    assert_eq!(
        check.accepted_entry(0),
        Some("ssh-rsa:SHA256:47DEQpj8HBSa+/TImW+5JCeuQeRkm5NMpJWZG3hSuFU")
    );
}
