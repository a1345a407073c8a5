//! Authentication: what to send for a credential, and what the answer means.
use crate::error::{ErrorView, SshSpikeError};
use crate::key_text::fault_of;
use crate::model::SshSpikeAuth;
use russh::keys::{HashAlg, PrivateKey, PrivateKeyWithHashAlg};
use std::sync::Arc;
use vstd::prelude::*;

verus! {

/// A private key.
#[verifier::external_type_specification]
#[verifier::external_body]
pub struct ExPrivateKey(russh::keys::PrivateKey);

/// A hash function of an RSA signature.
#[verifier::external_type_specification]
#[verifier::external_body]
pub struct ExHashAlg(russh::keys::HashAlg);

/// A private key with the hash function it is to sign with.
#[verifier::external_type_specification]
#[verifier::external_body]
pub struct ExPrivateKeyWithHashAlg(russh::keys::PrivateKeyWithHashAlg);

/// An error of reading a key.
#[verifier::external_type_specification]
#[verifier::external_body]
pub struct ExKeysError(russh::keys::Error);

/// What reading a private key from its text, with an optional passphrase,
/// comes to.
pub uninterp spec fn decoded_key(secret: Seq<char>, password: Option<Seq<char>>) -> Result<
    PrivateKey,
    russh::keys::Error,
>;

/// The characters of an optional text.
pub open spec fn text_view(text: Option<&str>) -> Option<Seq<char>> {
    match text {
        Some(t) => Some(t@),
        None => None,
    }
}

/// `russh::keys::decode_secret_key` reads a key in OpenSSH, PKCS or PuTTY form,
/// decrypting it where a password is given. Both the key and the error are
/// functions of the two texts.
///
/// Two kinds of text on which it panics are left out. One holds a valid RSA key
/// in PKCS form, encrypted or not, whose primes take different numbers of
/// machine words: it inverts one modulo the other, which asserts that the two
/// have the same precision. The other is encrypted with scrypt at a cost of
/// zero, or at one that needs more memory than a vector can hold.
pub assume_specification[ russh::keys::decode_secret_key ](
    secret: &str,
    password: Option<&str>,
) -> (r: Result<PrivateKey, russh::keys::Error>)
    requires
        crate::key_text::key_fault(secret@, text_view(password)) is None,
    ensures
        r == decoded_key(secret@, text_view(password)),
;

/// A key paired with a hash function.
pub uninterp spec fn key_with_hash(
    key: PrivateKey,
    hash_alg: Option<HashAlg>,
) -> PrivateKeyWithHashAlg;

/// `PrivateKeyWithHashAlg::new` pairs a key with a hash function, which counts
/// for RSA keys only.
pub assume_specification[ russh::keys::PrivateKeyWithHashAlg::new ](
    key: Arc<russh::keys::PrivateKey>,
    hash_alg: Option<russh::keys::HashAlg>,
) -> (r: PrivateKeyWithHashAlg)
    ensures
        r == key_with_hash(*key, hash_alg),
;

/// What to ask the server to accept.
pub enum AuthRequest {
    Password { password: String },
    PublicKey { key: PrivateKeyWithHashAlg },
}

/// The request for a private key that was read, or the error of a key that
/// could not be read, with the text of the cause.
pub open spec fn is_key_request(
    decoded: Result<PrivateKey, russh::keys::Error>,
    r: Result<AuthRequest, SshSpikeError>,
) -> bool {
    match decoded {
        Ok(key) => r == Ok::<AuthRequest, SshSpikeError>(
            AuthRequest::PublicKey { key: key_with_hash(key, None) },
        ),
        Err(cause) => r matches Err(SshSpikeError::Auth(text))
            && vstd::string::to_string_from_display_ensures::<russh::keys::Error>(&cause, text),
    }
}

/// The request for a private key, once it was tried to read it.
pub fn key_request(decoded: Result<PrivateKey, russh::keys::Error>) -> (r: Result<
    AuthRequest,
    SshSpikeError,
>)
    ensures
        is_key_request(decoded, r),
        r is Ok <==> decoded is Ok,
        decoded matches Ok(key) ==> (r matches Ok(AuthRequest::PublicKey { key: k }) && k
            == key_with_hash(key, None)),
        decoded matches Err(cause) ==> (r matches Err(SshSpikeError::Auth(text))
            && vstd::string::to_string_from_display_ensures::<russh::keys::Error>(&cause, text)),
{
    match decoded {
        Ok(key) => Ok(
            AuthRequest::PublicKey { key: PrivateKeyWithHashAlg::new(Arc::new(key), None) },
        ),
        Err(cause) => Err(SshSpikeError::Auth(cause.to_string())),
    }
}

/// Whether `r` is what to ask the server to accept for a credential: the
/// password as it is, or the key that its text stands for. A text that holds no
/// key is an authentication failure with the text of the cause, and so is one
/// on which reading would panic.
pub open spec fn is_auth_request(
    auth: SshSpikeAuth,
    r: Result<AuthRequest, SshSpikeError>,
) -> bool {
    match auth {
        SshSpikeAuth::Password { password } => r == Ok::<AuthRequest, SshSpikeError>(
            AuthRequest::Password { password },
        ),
        SshSpikeAuth::PrivateKey { pem, passphrase } => {
            let password = match passphrase {
                Some(p) => Some(p@),
                None => None,
            };
            match crate::key_text::key_fault(pem@, password) {
                Some(fault) => r matches Err(e) && e@ == ErrorView::Auth(fault.shown()),
                None => is_key_request(decoded_key(pem@, password), r),
            }
        },
    }
}

/// What to ask the server to accept for a credential. A private key that
/// cannot be read fails here, before anything is sent.
pub fn auth_request(auth: &SshSpikeAuth) -> (r: Result<AuthRequest, SshSpikeError>)
    ensures
        is_auth_request(*auth, r),
        auth matches SshSpikeAuth::Password { password } ==> (
        r matches Ok(AuthRequest::Password { password: sent }) && sent@ == password@),
        auth is PrivateKey ==> !(r matches Ok(AuthRequest::Password { .. })),
        r matches Err(e) ==> e is Auth && auth is PrivateKey,
{
    match auth {
        SshSpikeAuth::Password { password } => Ok(
            AuthRequest::Password { password: password.clone() },
        ),
        SshSpikeAuth::PrivateKey { pem, passphrase } => {
            let password: Option<&str> = match passphrase {
                Some(p) => Some(p.as_str()),
                None => None,
            };
            match fault_of(pem.as_str(), password) {
                Some(fault) => Err(SshSpikeError::Auth(fault.text())),
                None => key_request(russh::keys::decode_secret_key(pem.as_str(), password)),
            }
        },
    }
}

/// The way a server is asked to authenticate a user.
#[derive(Debug, Clone, Copy)]
pub enum AuthMethod {
    Password,
    PublicKey,
}

impl AuthRequest {
    /// The way this request authenticates.
    pub open spec fn spec_method(self) -> AuthMethod {
        match self {
            AuthRequest::Password { .. } => AuthMethod::Password,
            AuthRequest::PublicKey { .. } => AuthMethod::PublicKey,
        }
    }

    /// The way this request authenticates.
    pub fn method(&self) -> (method: AuthMethod)
        ensures
            method == self.spec_method(),
            method is Password <==> self is Password,
            method is PublicKey <==> self is PublicKey,
    {
        match self {
            AuthRequest::Password { .. } => AuthMethod::Password,
            AuthRequest::PublicKey { .. } => AuthMethod::PublicKey,
        }
    }
}

/// The error of a credential that the server did not accept.
pub open spec fn rejection(method: AuthMethod) -> ErrorView {
    match method {
        AuthMethod::Password => ErrorView::Auth("password rejected"@),
        AuthMethod::PublicKey => ErrorView::Auth("key rejected"@),
    }
}

/// What the outcome of an authentication request means: an answer of the
/// server is a success or a rejection, and a request that got no answer fails
/// with the text of the cause.
pub fn auth_verdict(method: AuthMethod, outcome: Result<bool, russh::Error>) -> (r: Result<
    (),
    SshSpikeError,
>)
    ensures
        match outcome {
            Ok(true) => r is Ok,
            Ok(false) => r matches Err(e) && e@ == rejection(method),
            Err(cause) => r matches Err(SshSpikeError::Auth(text))
                && vstd::string::to_string_from_display_ensures::<russh::Error>(&cause, text),
        },
        outcome == Ok::<bool, russh::Error>(false) ==> (r matches Err(SshSpikeError::Auth(text))
            && match method {
            AuthMethod::Password => text@ == "password rejected"@,
            AuthMethod::PublicKey => text@ == "key rejected"@,
        }),
        r is Ok <==> outcome == Ok::<bool, russh::Error>(true),
{
    match outcome {
        Ok(success) => {
            if success {
                return Ok(());
            }
            let text = match method {
                AuthMethod::Password => "password rejected",
                AuthMethod::PublicKey => "key rejected",
            };
            Err(SshSpikeError::Auth(String::from_str(text)))
        },
        Err(cause) => Err(SshSpikeError::Auth(cause.to_string())),
    }
}

/// A rejection tells what was rejected.
pub proof fn a_rejection_tells_what_was_rejected()
    ensures
        rejection(AuthMethod::Password) == ErrorView::Auth("password rejected"@),
        rejection(AuthMethod::PublicKey) == ErrorView::Auth("key rejected"@),
{
}

/// A password is asked for by password and a key by public key.
pub proof fn a_request_goes_by_its_own_method(request: AuthRequest)
    ensures
        request.spec_method() is Password <==> request is Password,
        request.spec_method() is PublicKey <==> request is PublicKey,
{
}

/// A password is sent as it is, and always: no password fails before it is sent.
pub proof fn a_password_is_sent_as_it_is(password: String, r: Result<AuthRequest, SshSpikeError>)
    requires
        is_auth_request(SshSpikeAuth::Password { password }, r),
    ensures
        r matches Ok(AuthRequest::Password { password: sent }) && sent@ == password@,
{
}

/// A private key is never sent as a password, and one that is sent is the key that
/// its text and passphrase stand for. A text that holds none fails with the
/// cause, and a text that is not read fails with the fault.
pub proof fn a_key_is_sent_as_what_its_text_stands_for(
    pem: String,
    passphrase: Option<String>,
    r: Result<AuthRequest, SshSpikeError>,
)
    requires
        is_auth_request(SshSpikeAuth::PrivateKey { pem, passphrase }, r),
    ensures
        ({
            let password = match passphrase {
                Some(p) => Some(p@),
                None => None,
            };
            match crate::key_text::key_fault(pem@, password) {
                Some(fault) => r matches Err(SshSpikeError::Auth(text)) && text@ == fault.shown(),
                None => match decoded_key(pem@, password) {
                    Ok(key) => r matches Ok(AuthRequest::PublicKey { key: k }) && k
                        == key_with_hash(key, None),
                    Err(cause) => r matches Err(SshSpikeError::Auth(text))
                        && vstd::string::to_string_from_display_ensures::<russh::keys::Error>(
                        &cause,
                        text,
                    ),
                },
            }
        }),
{
}

/// A text that is there is viewed as its characters.
pub proof fn an_optional_text_is_viewed_as_it_is(text: &str)
    ensures
        text_view(Some(text)) == Some(text@),
        text_view(None) is None,
{
}

} // verus!
