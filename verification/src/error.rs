//! The typed error surface and the text each error renders to.
use vstd::prelude::*;

verus! {

/// What went wrong, by the layer that failed.
#[derive(Debug)]
pub enum SshSpikeError {
    Connect(String),
    /// Key exchange, host key or cipher negotiation found no overlap with
    /// what the server offered.
    NoCommonAlgorithm(String),
    HostKeyRejected,
    Auth(String),
    Channel(String),
    Sftp(String),
}

/// An error with its text as a sequence of characters.
pub enum ErrorView {
    Connect(Seq<char>),
    NoCommonAlgorithm(Seq<char>),
    HostKeyRejected,
    Auth(Seq<char>),
    Channel(Seq<char>),
    Sftp(Seq<char>),
}

impl View for SshSpikeError {
    type V = ErrorView;

    open spec fn view(&self) -> ErrorView {
        match self {
            SshSpikeError::Connect(t) => ErrorView::Connect(t@),
            SshSpikeError::NoCommonAlgorithm(t) => ErrorView::NoCommonAlgorithm(t@),
            SshSpikeError::HostKeyRejected => ErrorView::HostKeyRejected,
            SshSpikeError::Auth(t) => ErrorView::Auth(t@),
            SshSpikeError::Channel(t) => ErrorView::Channel(t@),
            SshSpikeError::Sftp(t) => ErrorView::Sftp(t@),
        }
    }
}

impl ErrorView {
    /// The text that an error is shown as.
    pub open spec fn message(self) -> Seq<char> {
        match self {
            ErrorView::Connect(t) => "connection failed: "@ + t,
            ErrorView::NoCommonAlgorithm(t) => "no common algorithm ("@ + t + ")"@,
            ErrorView::HostKeyRejected => "host key rejected by verifier"@,
            ErrorView::Auth(t) => "auth failed: "@ + t,
            ErrorView::Channel(t) => "channel failed: "@ + t,
            ErrorView::Sftp(t) => "sftp failed: "@ + t,
        }
    }
}

impl SshSpikeError {
    /// The text that this error is shown as.
    pub fn message(&self) -> (text: String)
        ensures
            text@ == self@.message(),
            match *self {
                SshSpikeError::Connect(t) => text@ == "connection failed: "@ + t@,
                SshSpikeError::NoCommonAlgorithm(t) => text@ == "no common algorithm ("@ + t@
                    + ")"@,
                SshSpikeError::HostKeyRejected => text@ == "host key rejected by verifier"@,
                SshSpikeError::Auth(t) => text@ == "auth failed: "@ + t@,
                SshSpikeError::Channel(t) => text@ == "channel failed: "@ + t@,
                SshSpikeError::Sftp(t) => text@ == "sftp failed: "@ + t@,
            },
    {
        match self {
            SshSpikeError::Connect(t) => String::from_str("connection failed: ").concat(t),
            SshSpikeError::NoCommonAlgorithm(t) => String::from_str("no common algorithm (").concat(
                t,
            ).concat(")"),
            SshSpikeError::HostKeyRejected => String::from_str("host key rejected by verifier"),
            SshSpikeError::Auth(t) => String::from_str("auth failed: ").concat(t),
            SshSpikeError::Channel(t) => String::from_str("channel failed: ").concat(t),
            SshSpikeError::Sftp(t) => String::from_str("sftp failed: ").concat(t),
        }
    }
}

/// A message ends in the whole text of its error, behind words that tell its
/// layer; a failed negotiation has it in brackets.
pub proof fn a_message_holds_the_whole_text(t: Seq<char>)
    ensures
        ErrorView::Connect(t).message() == "connection failed: "@ + t,
        ErrorView::NoCommonAlgorithm(t).message() == "no common algorithm ("@ + t + ")"@,
        ErrorView::Auth(t).message() == "auth failed: "@ + t,
        ErrorView::Channel(t).message() == "channel failed: "@ + t,
        ErrorView::Sftp(t).message() == "sftp failed: "@ + t,
        ErrorView::HostKeyRejected.message() == "host key rejected by verifier"@,
{
}

/// Two errors of one layer show the same message only if their texts are the
/// same.
pub proof fn messages_tell_texts_apart(a: Seq<char>, b: Seq<char>)
    ensures
        ErrorView::Connect(a).message() == ErrorView::Connect(b).message() ==> a == b,
        ErrorView::Auth(a).message() == ErrorView::Auth(b).message() ==> a == b,
        ErrorView::Channel(a).message() == ErrorView::Channel(b).message() ==> a == b,
        ErrorView::Sftp(a).message() == ErrorView::Sftp(b).message() ==> a == b,
{
    let n = "connection failed: "@.len() as int;
    assert(ErrorView::Connect(a).message().skip(n) =~= a);
    assert(ErrorView::Connect(b).message().skip(n) =~= b);
    let n = "auth failed: "@.len() as int;
    assert(ErrorView::Auth(a).message().skip(n) =~= a);
    assert(ErrorView::Auth(b).message().skip(n) =~= b);
    let n = "channel failed: "@.len() as int;
    assert(ErrorView::Channel(a).message().skip(n) =~= a);
    assert(ErrorView::Channel(b).message().skip(n) =~= b);
    let n = "sftp failed: "@.len() as int;
    assert(ErrorView::Sftp(a).message().skip(n) =~= a);
    assert(ErrorView::Sftp(b).message().skip(n) =~= b);
}

/// An error is viewed as its layer with its own text.
pub proof fn an_error_keeps_its_text(t: String)
    ensures
        SshSpikeError::Connect(t)@ == ErrorView::Connect(t@),
        SshSpikeError::NoCommonAlgorithm(t)@ == ErrorView::NoCommonAlgorithm(t@),
        SshSpikeError::HostKeyRejected@ == ErrorView::HostKeyRejected,
        SshSpikeError::Auth(t)@ == ErrorView::Auth(t@),
        SshSpikeError::Channel(t)@ == ErrorView::Channel(t@),
        SshSpikeError::Sftp(t)@ == ErrorView::Sftp(t@),
{
}

} // verus!
