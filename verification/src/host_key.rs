//! Host-key verification: the wire form of the key that an endpoint presents,
//! the question put to the verifier, and the log of what it accepted.
use crate::auth::{auth_request, AuthRequest};
use crate::error::SshSpikeError;
use crate::known_hosts::blob_fingerprint;
use crate::model::{SshSpikeAuth, SshSpikeHostKeyVerifier, SshSpikeJump};
use russh::keys::{Certificate, PublicKey, PublicKeyOrCertificate};
use vstd::prelude::*;

verus! {

/// What a server presents to prove who it is.
#[verifier::external_type_specification]
#[verifier::external_body]
pub struct ExPublicKeyOrCertificate(russh::keys::PublicKeyOrCertificate);

/// A public key.
#[verifier::external_type_specification]
#[verifier::external_body]
pub struct ExPublicKey(russh::keys::PublicKey);

/// A certificate of a public key.
#[verifier::external_type_specification]
#[verifier::external_body]
pub struct ExCertificate(russh::keys::Certificate);

/// An error of encoding a key.
#[verifier::external_type_specification]
#[verifier::external_body]
pub struct ExSshKeyError(russh::keys::ssh_key::Error);

/// The two forms in which a host key is presented.
pub enum Presented<'a> {
    Plain(&'a PublicKey),
    Certified(&'a Certificate),
}

/// The two forms in which a host key is presented, by value.
pub enum Form {
    Plain(PublicKey),
    Certified(Certificate),
}

/// The form in which a host key is presented.
pub uninterp spec fn form_of(key: PublicKeyOrCertificate) -> Form;

/// Tells the two variants of `PublicKeyOrCertificate` apart.
#[verifier::external_body]
fn presented(key: &PublicKeyOrCertificate) -> (r: Presented<'_>)
    ensures
        match r {
            Presented::Plain(k) => form_of(*key) == Form::Plain(*k),
            Presented::Certified(c) => form_of(*key) == Form::Certified(*c),
        },
{
    match key {
        PublicKeyOrCertificate::PublicKey { key, .. } => Presented::Plain(key),
        PublicKeyOrCertificate::Certificate(c) => Presented::Certified(c),
    }
}

/// The SSH wire encoding of a public key, where it has one.
pub uninterp spec fn key_wire(key: PublicKey) -> Option<Seq<u8>>;

/// The name of the algorithm of a public key.
pub uninterp spec fn key_algorithm(key: PublicKey) -> Seq<char>;

/// The SSH wire encoding of a certificate, where it has one.
pub uninterp spec fn certificate_wire(c: Certificate) -> Option<Seq<u8>>;

/// The name of the algorithm of the key that a certificate is for.
pub uninterp spec fn certificate_algorithm(c: Certificate) -> Seq<char>;

/// `PublicKey::to_bytes` gives the SSH wire encoding of the key, or the error
/// of a key that has none.
pub assume_specification[ russh::keys::PublicKey::to_bytes ](key: &PublicKey) -> (r: Result<
    Vec<u8>,
    russh::keys::ssh_key::Error,
>)
    ensures
        match r {
            Ok(bytes) => key_wire(*key) == Some(bytes@),
            Err(_) => key_wire(*key) is None,
        },
;

/// `Certificate::to_bytes` gives the SSH wire encoding of the certificate, or
/// the error of a certificate that has none.
pub assume_specification[ russh::keys::Certificate::to_bytes ](c: &Certificate) -> (r: Result<
    Vec<u8>,
    russh::keys::ssh_key::Error,
>)
    ensures
        match r {
            Ok(bytes) => certificate_wire(*c) == Some(bytes@),
            Err(_) => certificate_wire(*c) is None,
        },
;

/// `PublicKey::algorithm` by its name: a function of the key.
#[verifier::external_body]
fn algorithm_of_key(key: &PublicKey) -> (name: String)
    ensures
        name@ == key_algorithm(*key),
{
    key.algorithm().as_str().to_string()
}

/// The algorithm of `Certificate::public_key` by its name: a function of the
/// certificate.
#[verifier::external_body]
fn algorithm_of_certificate(c: &Certificate) -> (name: String)
    ensures
        name@ == certificate_algorithm(*c),
{
    c.public_key().algorithm().as_str().to_string()
}

/// A host key as it goes over the wire, with the name of its algorithm.
#[derive(Debug)]
pub struct WireKey {
    pub algorithm: String,
    pub blob: Vec<u8>,
}

/// `russh::Error::UnknownKey`.
#[verifier::external_body]
fn unknown_key() -> (e: russh::Error)
    ensures
        crate::connect::failure_of(e) is UnknownKey,
{
    russh::Error::UnknownKey
}

/// The wire bytes of what is presented: those of the key, or those of the
/// certificate, which stand in for the key.
pub open spec fn presented_wire(key: PublicKeyOrCertificate) -> Option<Seq<u8>> {
    match form_of(key) {
        Form::Plain(k) => key_wire(k),
        Form::Certified(c) => certificate_wire(c),
    }
}

/// The algorithm of the key that is presented, or that the presented
/// certificate is for.
pub open spec fn presented_algorithm(key: PublicKeyOrCertificate) -> Seq<char> {
    match form_of(key) {
        Form::Plain(k) => key_algorithm(k),
        Form::Certified(c) => certificate_algorithm(c),
    }
}

/// The wire form of what a server presents; a key that has none is unknown.
pub fn wire_key(key: &PublicKeyOrCertificate) -> (r: Result<WireKey, russh::Error>)
    ensures
        match presented_wire(*key) {
            Some(blob) => r matches Ok(wire) && wire.blob@ == blob && wire.algorithm@
                == presented_algorithm(*key),
            None => r matches Err(e) && crate::connect::failure_of(e) is UnknownKey,
        },
        match form_of(*key) {
            Form::Plain(k) => match key_wire(k) {
                Some(blob) => r matches Ok(wire) && wire.blob@ == blob && wire.algorithm@
                    == key_algorithm(k),
                None => r is Err,
            },
            Form::Certified(c) => match certificate_wire(c) {
                Some(blob) => r matches Ok(wire) && wire.blob@ == blob && wire.algorithm@
                    == certificate_algorithm(c),
                None => r is Err,
            },
        },
{
    match presented(key) {
        Presented::Plain(k) => match k.to_bytes() {
            Ok(blob) => Ok(WireKey { algorithm: algorithm_of_key(k), blob }),
            Err(_) => Err(unknown_key()),
        },
        Presented::Certified(c) => match c.to_bytes() {
            Ok(blob) => Ok(WireKey { algorithm: algorithm_of_certificate(c), blob }),
            Err(_) => Err(unknown_key()),
        },
    }
}

/// How an accepted key is logged: its algorithm and its fingerprint.
pub open spec fn log_entry(algorithm: Seq<char>, blob: Seq<u8>) -> Seq<char> {
    algorithm + ":"@ + crate::known_hosts::fingerprint(crate::known_hosts::sha256(blob))
}

/// Whether `ok` is an answer of the verifier to the question about this key
/// of this endpoint.
pub open spec fn answers<V: SshSpikeHostKeyVerifier + ?Sized>(
    verifier: &V,
    host: Seq<char>,
    port: u16,
    algorithm: Seq<char>,
    blob: Seq<u8>,
    ok: bool,
) -> bool {
    exists|h: String, a: String, b: Vec<u8>| #[trigger]
        call_ensures(V::verify_host_key, (verifier, h, port, a, b), ok) && h@ == host && a@
            == algorithm && b@ == blob
}

/// A user name, and what to ask the server to accept for it.
pub struct Login {
    pub username: String,
    pub request: AuthRequest,
}

/// Whether `r` is the login to a hop, given whether its key has been accepted.
pub open spec fn is_login(
    cleared: bool,
    hop: SshSpikeJump,
    r: Result<Login, SshSpikeError>,
) -> bool {
    if cleared {
        match r {
            Ok(login) => login.username@ == hop.username@ && crate::auth::is_auth_request(
                hop.auth,
                Ok(login.request),
            ),
            Err(e) => crate::auth::is_auth_request(hop.auth, Err(e)),
        }
    } else {
        r matches Err(e) && e is HostKeyRejected
    }
}

/// The host-key check of one endpoint, with the log of the keys it accepted.
pub struct HostKeyCheck {
    host: String,
    port: u16,
    accepted: Vec<String>,
}

impl HostKeyCheck {
    /// The host whose key is checked.
    pub closed spec fn host(self) -> Seq<char> {
        self.host@
    }

    /// The port of that host.
    pub closed spec fn port(self) -> u16 {
        self.port
    }

    /// The log of accepted keys, oldest first.
    pub closed spec fn accepted(self) -> Seq<Seq<char>> {
        self.accepted@.map_values(|entry: String| entry@)
    }

    /// The check of the endpoint of a hop, with an empty log.
    pub fn for_hop(hop: &SshSpikeJump) -> (check: Self)
        ensures
            check.host() == hop.host@,
            check.port() == hop.port,
            check.accepted() == Seq::<Seq<char>>::empty(),
    {
        let check = HostKeyCheck { host: hop.host.clone(), port: hop.port, accepted: Vec::new() };
        assert(check.accepted() =~= Seq::<Seq<char>>::empty());
        check
    }

    /// The number of keys that were accepted.
    pub fn accepted_count(&self) -> (n: usize)
        ensures
            n == self.accepted().len(),
    {
        self.accepted.len()
    }

    /// The log entry of an accepted key, oldest first.
    pub fn accepted_entry(&self, i: usize) -> (entry: Option<&str>)
        ensures
            match entry {
                Some(text) => i < self.accepted().len() && text@ == self.accepted()[i as int],
                None => i >= self.accepted().len(),
            },
    {
        if i < self.accepted.len() {
            Some(self.accepted[i].as_str())
        } else {
            None
        }
    }

    /// Whether a key of this hop's endpoint has been accepted.
    pub open spec fn clears(self, hop: SshSpikeJump) -> bool {
        self.accepted().len() > 0 && self.host() == hop.host@ && self.port() == hop.port
    }

    /// What to log in to a hop with: its own user name and credential, once
    /// its key has been accepted, and nothing before that.
    pub fn login(&self, hop: &SshSpikeJump) -> (r: Result<Login, SshSpikeError>)
        ensures
            is_login(self.clears(*hop), *hop, r),
            self.accepted().len() == 0 || self.host() != hop.host@ || self.port() != hop.port ==> (
            r matches Err(e) && e is HostKeyRejected),
            r matches Ok(login) ==> login.username@ == hop.username@,
            self.accepted().len() > 0 && self.host() == hop.host@ && self.port() == hop.port ==> (
            hop.auth matches SshSpikeAuth::Password { password } ==> (r matches Ok(login)
                && login.request matches AuthRequest::Password { password: sent } && sent@
                == password@)),
            self.accepted().len() > 0 && self.host() == hop.host@ && self.port() == hop.port ==> !(
            r matches Err(SshSpikeError::HostKeyRejected)),
    {
        if self.accepted.len() == 0 || !self.host.eq(&hop.host) || self.port != hop.port {
            return Err(SshSpikeError::HostKeyRejected);
        }
        match auth_request(&hop.auth) {
            Ok(request) => Ok(Login { username: hop.username.clone(), request }),
            Err(e) => Err(e),
        }
    }

    /// Takes in the decision on a key: an accepted one is logged.
    pub fn decide(&mut self, wire: &WireKey, ok: bool) -> (r: bool)
        ensures
            r == ok,
            final(self).host() == old(self).host(),
            final(self).port() == old(self).port(),
            final(self).accepted() == if ok {
                old(self).accepted().push(log_entry(wire.algorithm@, wire.blob@))
            } else {
                old(self).accepted()
            },
            ok ==> final(self).accepted().len() == old(self).accepted().len() + 1
                && final(self).accepted().last() == wire.algorithm@ + ":"@
                + crate::known_hosts::fingerprint(crate::known_hosts::sha256(wire.blob@)),
    {
        if ok {
            let mut entry = wire.algorithm.clone();
            entry.append(":");
            entry.append(blob_fingerprint(wire.blob.as_slice()).as_str());
            self.accepted.push(entry);
            assert(self.accepted() =~= old(self).accepted().push(
                log_entry(wire.algorithm@, wire.blob@),
            ));
        }
        ok
    }

    /// Puts the key that a server presents to the verifier, together with the
    /// endpoint it was presented for, and logs it if it is accepted. A key that
    /// has no wire form is unknown, without asking the verifier. The verifier
    /// need admit that one question and no other, so it is asked nothing else.
    pub fn check_server_key<V: SshSpikeHostKeyVerifier + ?Sized>(
        &mut self,
        verifier: &V,
        key: &PublicKeyOrCertificate,
    ) -> (r: Result<bool, russh::Error>)
        requires
            presented_wire(*key) matches Some(wire) ==> verifier.may_be_asked(
                old(self).host(),
                old(self).port(),
                presented_algorithm(*key),
                wire,
            ),
        ensures
            final(self).host() == old(self).host(),
            final(self).port() == old(self).port(),
            match presented_wire(*key) {
                Some(wire) => {
                    &&& r matches Ok(ok) && final(self).accepted() == if ok {
                        old(self).accepted().push(log_entry(presented_algorithm(*key), wire))
                    } else {
                        old(self).accepted()
                    }
                    &&& answers(
                        verifier,
                        old(self).host(),
                        old(self).port(),
                        presented_algorithm(*key),
                        wire,
                        r->Ok_0,
                    )
                },
                None => {
                    &&& r matches Err(e) && crate::connect::failure_of(e) is UnknownKey
                    &&& final(self).accepted() == old(self).accepted()
                },
            },
    {
        match wire_key(key) {
            Ok(wire) => {
                let host = self.host.clone();
                let algorithm = wire.algorithm.clone();
                let blob = wire.blob.clone();
                assert(blob@ =~= wire.blob@);
                let port: u16 = self.port;
                let ok = verifier.verify_host_key(host, port, algorithm, blob);
                assert(answers(verifier, self.host@, port, wire.algorithm@, wire.blob@, ok));
                Ok(self.decide(&wire, ok))
            },
            Err(e) => Err(e),
        }
    }
}

/// Nothing to log in with is handed out before a key of the very endpoint has
/// been accepted, and then it is the hop's own user name and credential.
pub proof fn no_login_before_an_accepted_key(
    check: HostKeyCheck,
    hop: SshSpikeJump,
    r: Result<Login, SshSpikeError>,
)
    requires
        is_login(check.clears(hop), hop, r),
        r is Ok,
    ensures
        check.accepted().len() > 0,
        check.host() == hop.host@,
        check.port() == hop.port,
        r->Ok_0.username@ == hop.username@,
        crate::auth::is_auth_request(hop.auth, Ok(r->Ok_0.request)),
{
}

/// What is presented goes over the wire as itself: a key as a key, by its own
/// algorithm, and a certificate as a certificate, by the algorithm of the key it
/// is for.
pub proof fn a_key_is_presented_as_itself(key: PublicKeyOrCertificate)
    ensures
        match form_of(key) {
            Form::Plain(k) => presented_wire(key) == key_wire(k) && presented_algorithm(key)
                == key_algorithm(k),
            Form::Certified(c) => presented_wire(key) == certificate_wire(c) && presented_algorithm(
                key,
            ) == certificate_algorithm(c),
        },
{
}

/// A log entry is the algorithm, a colon, and the fingerprint of the SHA-256
/// digest of the whole blob.
pub proof fn a_log_entry_names_the_key(algorithm: Seq<char>, blob: Seq<u8>)
    ensures
        log_entry(algorithm, blob) == algorithm + ":"@ + crate::known_hosts::fingerprint(
            crate::known_hosts::sha256(blob),
        ),
{
}

/// Two keys of one algorithm have the same log entry only if they have the same
/// digest.
pub proof fn log_entries_tell_digests_apart(algorithm: Seq<char>, a: Seq<u8>, b: Seq<u8>)
    requires
        log_entry(algorithm, a) == log_entry(algorithm, b),
    ensures
        crate::known_hosts::sha256(a) == crate::known_hosts::sha256(b),
{
    let n = (algorithm + ":"@).len() as int;
    let x = crate::known_hosts::sha256(a);
    let y = crate::known_hosts::sha256(b);
    assert(log_entry(algorithm, a).skip(n) =~= crate::known_hosts::fingerprint(x));
    assert(log_entry(algorithm, b).skip(n) =~= crate::known_hosts::fingerprint(y));
    crate::known_hosts::fingerprint_is_injective(x, y);
}

/// An answer of the verifier was given to the very question: the same host, port,
/// algorithm and blob.
pub proof fn an_answer_is_to_the_question<V: SshSpikeHostKeyVerifier + ?Sized>(
    verifier: &V,
    host: Seq<char>,
    port: u16,
    algorithm: Seq<char>,
    blob: Seq<u8>,
    ok: bool,
)
    requires
        answers(verifier, host, port, algorithm, blob, ok),
    ensures
        exists|h: String, a: String, b: Vec<u8>| #[trigger]
            call_ensures(V::verify_host_key, (verifier, h, port, a, b), ok) && h@ == host && a@
                == algorithm && b@ == blob,
{
}

/// A hop is cleared exactly if a key was accepted, and the check was of the hop's
/// own host and port.
pub proof fn a_hop_is_cleared_by_its_own_key(check: HostKeyCheck, hop: SshSpikeJump)
    ensures
        check.clears(hop) <==> {
            &&& check.accepted().len() > 0
            &&& check.host() == hop.host@
            &&& check.port() == hop.port
        },
{
}

/// A login to a hop whose key was accepted is the hop's own user name and
/// credential, or the failure of reading that credential; it is never refused for
/// the key. Before that it is refused for the key, whatever the credential.
pub proof fn a_login_follows_the_key(
    cleared: bool,
    hop: SshSpikeJump,
    r: Result<Login, SshSpikeError>,
)
    requires
        is_login(cleared, hop, r),
    ensures
        !cleared <==> (r matches Err(e) && e is HostKeyRejected),
        r matches Ok(login) ==> login.username@ == hop.username@,
        cleared ==> (hop.auth matches SshSpikeAuth::Password { password } ==> (r matches Ok(login)
            && login.request matches AuthRequest::Password { password: sent } && sent@
            == password@)),
        r matches Ok(login) ==> (login.request is PublicKey <==> hop.auth is PrivateKey),
{
}

} // verus!
