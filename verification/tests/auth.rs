//! Credentials and the answers to them.
use russh::keys::ssh_key::private::Ed25519Keypair;
use russh::keys::ssh_key::{Cipher, Kdf, LineEnding};
use russh::keys::PrivateKey;
use ssh_transport::auth::{auth_request, auth_verdict, key_request, AuthMethod, AuthRequest};
use ssh_transport::{SshSpikeAuth, SshSpikeError};

fn private_key() -> PrivateKey {
    PrivateKey::from(Ed25519Keypair::from_seed(&[42; 32]))
}

#[test]
fn a_password_is_sent_as_it_is() {
    let auth = SshSpikeAuth::Password { password: "conch-pw-1".to_string() };
    let request = auth_request(&auth).expect("nothing to read");
    assert!(matches!(request.method(), AuthMethod::Password));
    match request {
        AuthRequest::Password { password } => assert_eq!(password, "conch-pw-1"),
        AuthRequest::PublicKey { .. } => panic!("expected the password"),
    }
}

#[test]
fn a_private_key_is_read_from_its_text() {
    let pem = private_key().to_openssh(LineEnding::LF).unwrap().to_string();
    let request = auth_request(&SshSpikeAuth::PrivateKey { pem, passphrase: None }).expect("a key");
    assert!(matches!(request.method(), AuthMethod::PublicKey));
    match request {
        AuthRequest::PublicKey { key } => {
            assert_eq!(key.public_key(), private_key().public_key());
            assert_eq!(key.hash_alg(), None);
        }
        AuthRequest::Password { .. } => panic!("expected the key"),
    }
}

#[test]
fn an_encrypted_key_takes_its_passphrase() {
    let kdf = Kdf::Bcrypt { salt: vec![3; 16], rounds: 4 };
    let locked = private_key().encrypt_with(Cipher::Aes256Ctr, kdf, 7, "open sesame").unwrap();
    let pem = locked.to_openssh(LineEnding::LF).unwrap().to_string();
    let auth = |passphrase: Option<&str>| SshSpikeAuth::PrivateKey {
        pem: pem.clone(),
        passphrase: passphrase.map(|p| p.to_string()),
    };
    match auth_request(&auth(Some("open sesame"))) {
        Ok(AuthRequest::PublicKey { key }) => {
            assert_eq!(key.public_key().key_data(), private_key().public_key().key_data())
        }
        _ => panic!("expected the key"),
    }
    match auth_request(&auth(None)) {
        Err(SshSpikeError::Auth(text)) => {
            assert_eq!(text, russh::keys::Error::KeyIsEncrypted.to_string())
        }
        _ => panic!("expected an authentication failure"),
    }
    assert!(matches!(auth_request(&auth(Some("wrong"))), Err(SshSpikeError::Auth(_))));
}

#[test]
fn a_key_that_cannot_be_read_fails_with_the_cause() {
    let auth = SshSpikeAuth::PrivateKey {
        pem: "not a key".to_string(),
        passphrase: Some("secret".to_string()),
    };
    let expected = russh::keys::decode_secret_key("not a key", Some("secret"))
        .err()
        .expect("no key")
        .to_string();
    match auth_request(&auth) {
        Err(SshSpikeError::Auth(text)) => assert_eq!(text, expected),
        _ => panic!("expected an authentication failure"),
    }
}

#[test]
fn a_key_request_follows_what_was_read() {
    match key_request(Ok(private_key())) {
        Ok(AuthRequest::PublicKey { key }) => {
            assert_eq!(key.public_key(), private_key().public_key())
        }
        _ => panic!("expected the key"),
    }
    match key_request(Err(russh::keys::Error::CouldNotReadKey)) {
        Err(SshSpikeError::Auth(text)) => {
            assert_eq!(text, russh::keys::Error::CouldNotReadKey.to_string())
        }
        _ => panic!("expected an authentication failure"),
    }
}

#[test]
fn a_rejected_credential_is_an_authentication_failure() {
    assert!(auth_verdict(AuthMethod::Password, Ok(true)).is_ok());
    assert!(auth_verdict(AuthMethod::PublicKey, Ok(true)).is_ok());
    match auth_verdict(AuthMethod::Password, Ok(false)) {
        Err(e) => assert_eq!(e.message(), "auth failed: password rejected"),
        Ok(()) => panic!("the password was rejected"),
    }
    match auth_verdict(AuthMethod::PublicKey, Ok(false)) {
        Err(e) => assert_eq!(e.message(), "auth failed: key rejected"),
        Ok(()) => panic!("the key was rejected"),
    }
}

#[test]
fn a_request_without_an_answer_keeps_the_cause() {
    match auth_verdict(AuthMethod::Password, Err(russh::Error::Disconnect)) {
        Err(SshSpikeError::Auth(text)) => {
            assert_eq!(text, russh::Error::Disconnect.to_string())
        }
        _ => panic!("expected an authentication failure"),
    }
}
