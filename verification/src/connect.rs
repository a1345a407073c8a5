//! Opening a session: the transport settings, how a failed dial is reported,
//! and the chain of hops that is dialed one after the other.
use crate::error::{ErrorView, SshSpikeError};
use crate::model::{SshSpikeConnectParams, SshSpikeJump};
use crate::operations::{tunnel_to, TunnelRequest};
use crate::session::Links;
use crate::text::push_decimal;
use std::sync::Arc;
use vstd::prelude::*;

verus! {

/// The settings of a russh client connection.
#[verifier::external_type_specification]
#[verifier::external_body]
pub struct ExClientConfig(russh::client::Config);

/// Any error of russh.
#[verifier::external_type_specification]
#[verifier::external_body]
pub struct ExRusshError(russh::Error);

/// russh's default client settings with the given keepalive interval and
/// inactivity timeout, both in seconds.
pub uninterp spec fn config_with(
    keepalive_secs: Option<u64>,
    inactivity_secs: Option<u64>,
) -> russh::client::Config;

/// `russh::client::Config::default`, with `keepalive_interval` and
/// `inactivity_timeout` set to the given numbers of seconds: the settings
/// depend on these two alone.
#[verifier::external_body]
fn client_config(keepalive_secs: Option<u64>, inactivity_secs: Option<u64>) -> (config: Arc<
    russh::client::Config,
>)
    ensures
        *config == config_with(keepalive_secs, inactivity_secs),
{
    Arc::new(
        russh::client::Config {
            keepalive_interval: keepalive_secs.map(std::time::Duration::from_secs),
            inactivity_timeout: inactivity_secs.map(std::time::Duration::from_secs),
            ..Default::default()
        },
    )
}

/// The keepalive interval for a number of seconds, where 0 means none.
pub open spec fn keepalive_interval(keep_alive_seconds: u32) -> Option<u64> {
    if keep_alive_seconds == 0 {
        None
    } else {
        Some(keep_alive_seconds as u64)
    }
}

/// The settings of every transport of a session: keepalives at the given
/// interval, none for 0, and no inactivity timeout.
pub fn transport_config(keep_alive_seconds: u32) -> (config: Arc<russh::client::Config>)
    ensures
        *config == config_with(keepalive_interval(keep_alive_seconds), None),
        keep_alive_seconds == 0 ==> *config == config_with(None, None),
        keep_alive_seconds > 0 ==> *config == config_with(Some(keep_alive_seconds as u64), None),
{
    let interval: Option<u64> = if keep_alive_seconds == 0 {
        None
    } else {
        Some(keep_alive_seconds as u64)
    };
    client_config(interval, None)
}

/// Keepalives are off for 0 seconds and nothing else, and otherwise as far apart
/// as was asked for, to the second.
pub proof fn keepalives_come_as_often_as_asked(keep_alive_seconds: u32)
    ensures
        keepalive_interval(keep_alive_seconds) is None <==> keep_alive_seconds == 0,
        keepalive_interval(keep_alive_seconds) matches Some(secs) ==> secs == keep_alive_seconds,
{
}

/// What the two sides could not agree on.
#[derive(Debug, Clone, Copy, PartialEq, Eq)]
pub enum AlgorithmKind {
    Kex,
    Key,
    Cipher,
    Compression,
    Mac,
}

impl AlgorithmKind {
    /// The name of the kind in lower case.
    pub open spec fn name(self) -> Seq<char> {
        match self {
            AlgorithmKind::Kex => "kex"@,
            AlgorithmKind::Key => "key"@,
            AlgorithmKind::Cipher => "cipher"@,
            AlgorithmKind::Compression => "compression"@,
            AlgorithmKind::Mac => "mac"@,
        }
    }
}

/// The failures of a dial that are told apart.
pub enum ConnectFailure {
    /// The host key was not accepted.
    UnknownKey,
    /// The negotiation found no common algorithm of this kind.
    NoCommonAlgo { kind: AlgorithmKind },
    /// Anything else.
    Other { error: russh::Error },
}

/// Which of the failures that are told apart an error of russh is.
pub uninterp spec fn failure_of(e: russh::Error) -> ConnectFailure;

/// Tells the variants of `russh::Error` apart: `UnknownKey`, `NoCommonAlgo`
/// with its kind, and every other one, which is handed back unchanged.
#[verifier::external_body]
fn connect_failure(e: russh::Error) -> (failure: ConnectFailure)
    ensures
        failure == failure_of(e),
        failure matches ConnectFailure::Other { error } ==> error == e,
{
    match e {
        russh::Error::UnknownKey => ConnectFailure::UnknownKey,
        russh::Error::NoCommonAlgo { kind, .. } => ConnectFailure::NoCommonAlgo {
            kind: match kind {
                russh::AlgorithmKind::Kex => AlgorithmKind::Kex,
                russh::AlgorithmKind::Key => AlgorithmKind::Key,
                russh::AlgorithmKind::Cipher => AlgorithmKind::Cipher,
                russh::AlgorithmKind::Compression => AlgorithmKind::Compression,
                russh::AlgorithmKind::Mac => AlgorithmKind::Mac,
            },
        },
        error => ConnectFailure::Other { error },
    }
}

/// Whether `e` is how a failed dial is reported: a refused host key and a
/// failed negotiation have errors of their own, and the rest is a connection
/// failure with the text of the underlying error.
pub open spec fn reports(failure: ConnectFailure, e: SshSpikeError) -> bool {
    match failure {
        ConnectFailure::UnknownKey => e is HostKeyRejected,
        ConnectFailure::NoCommonAlgo { kind } => e@ == ErrorView::NoCommonAlgorithm(kind.name()),
        ConnectFailure::Other { error } => e matches SshSpikeError::Connect(text)
            && vstd::string::to_string_from_display_ensures::<russh::Error>(&error, text),
    }
}

/// The error that a failed dial is reported as.
pub fn connect_error(failure: ConnectFailure) -> (e: SshSpikeError)
    ensures
        reports(failure, e),
        match failure {
            ConnectFailure::UnknownKey => e is HostKeyRejected,
            ConnectFailure::NoCommonAlgo { kind } => e matches SshSpikeError::NoCommonAlgorithm(text)
                && match kind {
                AlgorithmKind::Kex => text@ == "kex"@,
                AlgorithmKind::Key => text@ == "key"@,
                AlgorithmKind::Cipher => text@ == "cipher"@,
                AlgorithmKind::Compression => text@ == "compression"@,
                AlgorithmKind::Mac => text@ == "mac"@,
            },
            ConnectFailure::Other { error } => e matches SshSpikeError::Connect(text)
                && vstd::string::to_string_from_display_ensures::<russh::Error>(&error, text),
        },
{
    match failure {
        ConnectFailure::UnknownKey => SshSpikeError::HostKeyRejected,
        ConnectFailure::NoCommonAlgo { kind } => {
            let name = match kind {
                AlgorithmKind::Kex => "kex",
                AlgorithmKind::Key => "key",
                AlgorithmKind::Cipher => "cipher",
                AlgorithmKind::Compression => "compression",
                AlgorithmKind::Mac => "mac",
            };
            SshSpikeError::NoCommonAlgorithm(String::from_str(name))
        },
        ConnectFailure::Other { error } => SshSpikeError::Connect(error.to_string()),
    }
}

/// The error that a failed dial is reported as, for an error of russh.
pub fn map_connect_error(e: russh::Error) -> (mapped: SshSpikeError)
    ensures
        reports(failure_of(e), mapped),
        mapped is HostKeyRejected <==> failure_of(e) is UnknownKey,
        mapped is NoCommonAlgorithm <==> failure_of(e) is NoCommonAlgo,
        mapped is Connect <==> failure_of(e) is Other,
        mapped is Connect ==> vstd::string::to_string_from_display_ensures::<russh::Error>(
            &e,
            mapped->Connect_0,
        ),
{
    connect_error(connect_failure(e))
}

/// Every kind of algorithm has its own name.
pub proof fn kinds_of_algorithms_are_named(a: AlgorithmKind, b: AlgorithmKind)
    ensures
        AlgorithmKind::Kex.name() == "kex"@,
        AlgorithmKind::Key.name() == "key"@,
        AlgorithmKind::Cipher.name() == "cipher"@,
        AlgorithmKind::Compression.name() == "compression"@,
        AlgorithmKind::Mac.name() == "mac"@,
        a.name() == b.name() ==> a == b,
{
    reveal_strlit("kex");
    reveal_strlit("key");
    reveal_strlit("cipher");
    reveal_strlit("compression");
    reveal_strlit("mac");
    let (x, y) = (a.name(), b.name());
    assert("kex"@[0] == 'k' && "key"@[0] == 'k' && "mac"@[0] == 'm');
    assert("kex"@[2] == 'x' && "key"@[2] == 'y' && "mac"@[2] == 'c');
    assert(x == y ==> x.len() == y.len() && x[0] == y[0] && x[2] == y[2]);
}

/// How a failed dial is reported tells the failures apart: a refused key, a failed
/// negotiation by the kind of algorithm, and the rest by the text of its cause.
pub proof fn reports_tell_failures_apart(failure: ConnectFailure, e: SshSpikeError)
    requires
        reports(failure, e),
    ensures
        e is HostKeyRejected <==> failure is UnknownKey,
        e is NoCommonAlgorithm <==> failure is NoCommonAlgo,
        e is Connect <==> failure is Other,
        failure matches ConnectFailure::NoCommonAlgo { kind } ==> (
        e matches SshSpikeError::NoCommonAlgorithm(text) && match kind {
            AlgorithmKind::Kex => text@ == "kex"@,
            AlgorithmKind::Key => text@ == "key"@,
            AlgorithmKind::Cipher => text@ == "cipher"@,
            AlgorithmKind::Compression => text@ == "compression"@,
            AlgorithmKind::Mac => text@ == "mac"@,
        }),
        failure matches ConnectFailure::Other { error } ==> (
        e matches SshSpikeError::Connect(text)
            && vstd::string::to_string_from_display_ensures::<russh::Error>(&error, text)),
{
}

/// A dial that ends at an unknown host key, which is what both a refusal of
/// the verifier and a key without a wire form come to, is a rejected key.
pub proof fn an_unknown_key_is_a_rejection(e: russh::Error, mapped: SshSpikeError)
    requires
        failure_of(e) is UnknownKey,
        reports(failure_of(e), mapped),
    ensures
        mapped is HostKeyRejected,
        mapped@.message() == "host key rejected by verifier"@,
{
}

/// The hops to dial, outermost first, and then the target.
pub open spec fn dial_list(params: SshSpikeConnectParams) -> Seq<SshSpikeJump> {
    params.via@.push(
        SshSpikeJump {
            host: params.host,
            port: params.port,
            username: params.username,
            auth: params.auth,
        },
    )
}

/// Every jump hop is dialed, in the order given and as it is, and then the target
/// with its own host, port, user name and credential; and nothing else.
pub proof fn every_hop_is_dialed_once(params: SshSpikeConnectParams)
    ensures
        dial_list(params).len() == params.via@.len() + 1,
        forall|i: int|
            0 <= i < params.via@.len() ==> #[trigger] dial_list(params)[i] == params.via@[i],
        dial_list(params).last().host == params.host,
        dial_list(params).last().port == params.port,
        dial_list(params).last().username == params.username,
        dial_list(params).last().auth == params.auth,
{
}

/// How a hop is named in an error: `jump to host:port`.
pub open spec fn hop_label(hop: SshSpikeJump) -> Seq<char> {
    "jump to "@ + hop.host@ + ":"@ + crate::text::decimal(hop.port as nat)
}

/// A hop is named by its whole host and by its port, which reads back as itself.
pub proof fn a_hop_is_named_by_its_endpoint(hop: SshSpikeJump, digits: Seq<char>)
    requires
        hop_label(hop) == "jump to "@ + hop.host@ + ":"@ + digits,
    ensures
        crate::text::digits_value(digits) == hop.port,
        hop_label(hop) == "jump to "@ + hop.host@ + ":"@ + crate::text::decimal(hop.port as nat),
{
    crate::text::decimal_reads_back(hop.port as nat);
    let n = ("jump to "@ + hop.host@ + ":"@).len() as int;
    assert(hop_label(hop).skip(n) =~= crate::text::decimal(hop.port as nat));
    assert(("jump to "@ + hop.host@ + ":"@ + digits).skip(n) =~= digits);
}

/// The name of a hop is `jump to `, its host, a colon and its port in decimal.
pub proof fn the_name_of_a_hop(hop: SshSpikeJump)
    ensures
        hop_label(hop) == "jump to "@ + hop.host@ + ":"@ + crate::text::decimal(hop.port as nat),
{
}

fn label(hop: &SshSpikeJump) -> (text: String)
    ensures
        text@ == hop_label(*hop),
        text@ == "jump to "@ + hop.host@ + ":"@ + crate::text::decimal(hop.port as nat),
{
    let mut text = String::from_str("jump to ");
    text.append(hop.host.as_str());
    text.append(":");
    push_decimal(&mut text, hop.port as u64);
    text
}

/// The error of a hop whose channel the hop before it could not open.
pub open spec fn tunnel_error(hop: SshSpikeJump, cause: Seq<char>) -> ErrorView {
    ErrorView::Connect(hop_label(hop) + " failed: "@ + cause)
}

/// Whether `e` is the error of a hop whose channel could not be opened for
/// the given cause.
pub open spec fn is_tunnel_error(hop: SshSpikeJump, cause: russh::Error, e: ErrorView) -> bool {
    exists|text: String| #[trigger]
        vstd::string::to_string_from_display_ensures::<russh::Error>(&cause, text) && e
            == tunnel_error(hop, text@)
}

/// The error of a hop whose channel the hop before it could not open.
pub fn tunnel_failed(hop: &SshSpikeJump, cause: russh::Error) -> (e: SshSpikeError)
    ensures
        is_tunnel_error(*hop, cause, e@),
        e matches SshSpikeError::Connect(text) && exists|shown: String| #[trigger]
            vstd::string::to_string_from_display_ensures::<russh::Error>(&cause, shown) && text@
                == "jump to "@ + hop.host@ + ":"@ + crate::text::decimal(hop.port as nat)
                + " failed: "@ + shown@,
{
    let shown = cause.to_string();
    let mut text = label(hop);
    text.append(" failed: ");
    text.append(shown.as_str());
    let e = SshSpikeError::Connect(text);
    assert(e@ == tunnel_error(*hop, shown@));
    e
}

/// The error of a chain whose hop `i` did not accept the credentials: that of
/// the target as it is, and that of a jump hop with the name of the hop.
pub open spec fn auth_error(hops: Seq<SshSpikeJump>, i: int, cause: ErrorView) -> ErrorView {
    if i + 1 == hops.len() {
        cause
    } else {
        ErrorView::Auth(hop_label(hops[i]) + ": "@ + cause.message())
    }
}

/// A tunnel that could not be opened is a failed connection, with the name of the
/// hop and the whole cause.
pub proof fn a_failed_tunnel_names_its_hop(hop: SshSpikeJump, cause: Seq<char>)
    ensures
        tunnel_error(hop, cause) == ErrorView::Connect(
            "jump to "@ + hop.host@ + ":"@ + crate::text::decimal(hop.port as nat) + " failed: "@
                + cause,
        ),
{
}

/// A credential that a jump hop did not accept is an authentication failure, with
/// the name of the hop and the whole message of the cause; one that the target
/// did not accept is reported as it is.
pub proof fn a_refused_hop_is_named(hops: Seq<SshSpikeJump>, i: int, cause: ErrorView)
    requires
        0 <= i < hops.len(),
    ensures
        i == hops.len() - 1 ==> auth_error(hops, i, cause) == cause,
        i < hops.len() - 1 ==> auth_error(hops, i, cause) == ErrorView::Auth(
            "jump to "@ + hops[i].host@ + ":"@ + crate::text::decimal(hops[i].port as nat) + ": "@
                + cause.message(),
        ),
{
}

/// The next thing to do to get to the target.
pub enum DialStep<'a, H> {
    /// Connect to the hop over TCP.
    Direct { hop: &'a SshSpikeJump, forwards: bool },
    /// Open the tunnel to the hop on `parent`, and connect to the hop over it.
    Through {
        parent: &'a H,
        hop: &'a SshSpikeJump,
        tunnel: TunnelRequest,
        forwards: bool,
    },
    /// Every hop is connected and authenticated.
    Done,
}

/// The dial of a chain of hops: which are still to be dialed, and the
/// connections to those that are authenticated. `H` is a connection.
pub struct DialChain<H> {
    hops: Vec<SshSpikeJump>,
    settled: Vec<H>,
}

impl<H> DialChain<H> {
    /// The hops, outermost first; the last one is the target.
    pub closed spec fn hops(self) -> Seq<SshSpikeJump> {
        self.hops@
    }

    /// The connections to the hops that are authenticated, in the order of
    /// the hops.
    pub closed spec fn settled(self) -> Seq<H> {
        self.settled@
    }

    /// There is a target, and no more connections than hops.
    pub open spec fn wf(self) -> bool {
        &&& self.hops().len() > 0
        &&& self.settled().len() <= self.hops().len()
    }

    /// Whether every hop is authenticated.
    pub open spec fn done(self) -> bool {
        self.settled().len() == self.hops().len()
    }

    /// Whether `step` is the next one: the first hop is dialed directly, every
    /// other one through the hop before it, and only the target takes remote
    /// forwards.
    pub open spec fn is_next(self, step: DialStep<'_, H>) -> bool {
        let i = self.settled().len() as int;
        match step {
            DialStep::Direct { hop, forwards } => {
                &&& i == 0
                &&& *hop == self.hops()[0]
                &&& forwards == (self.hops().len() == 1)
            },
            DialStep::Through { parent, hop, tunnel, forwards } => {
                &&& 0 < i < self.hops().len()
                &&& *parent == self.settled().last()
                &&& *hop == self.hops()[i]
                &&& tunnel.leads_to(hop.host@, hop.port as u32)
                &&& forwards == (i + 1 == self.hops().len())
            },
            DialStep::Done => self.done(),
        }
    }

    /// The dial for the given parameters, with nothing dialed yet.
    pub fn new(params: SshSpikeConnectParams) -> (chain: Self)
        ensures
            chain.wf(),
            chain.hops() == dial_list(params),
            chain.settled() == Seq::<H>::empty(),
            chain.hops().len() == params.via@.len() + 1,
            forall|i: int|
                0 <= i < params.via@.len() ==> #[trigger] chain.hops()[i] == params.via@[i],
            chain.hops().last().host == params.host,
            chain.hops().last().port == params.port,
            chain.hops().last().username == params.username,
            chain.hops().last().auth == params.auth,
    {
        let mut hops = params.via;
        hops.push(
            SshSpikeJump {
                host: params.host,
                port: params.port,
                username: params.username,
                auth: params.auth,
            },
        );
        DialChain { hops, settled: Vec::new() }
    }

    /// What to do next.
    pub fn next(&self) -> (step: DialStep<'_, H>)
        requires
            self.wf(),
        ensures
            self.is_next(step),
            step is Done <==> self.settled().len() == self.hops().len(),
            step is Direct <==> self.settled().len() == 0,
            match step {
                DialStep::Direct { hop, forwards } => {
                    &&& *hop == self.hops()[0]
                    &&& forwards <==> self.hops().len() == 1
                },
                DialStep::Through { parent, hop, tunnel, forwards } => {
                    &&& *parent == self.settled()[self.settled().len() - 1]
                    &&& *hop == self.hops()[self.settled().len() as int]
                    &&& tunnel.host@ == hop.host@
                    &&& tunnel.port == hop.port
                    &&& tunnel.origin_host@ == "127.0.0.1"@
                    &&& tunnel.origin_port == 0
                    &&& forwards <==> self.settled().len() + 1 == self.hops().len()
                },
                DialStep::Done => true,
            },
    {
        let i: usize = self.settled.len();
        if i == self.hops.len() {
            return DialStep::Done;
        }
        let forwards = self.hops.len() - i == 1;
        if i == 0 {
            DialStep::Direct { hop: &self.hops[0], forwards }
        } else {
            DialStep::Through {
                parent: &self.settled[i - 1],
                hop: &self.hops[i],
                tunnel: tunnel_to(self.hops[i].host.clone(), self.hops[i].port as u32),
                forwards,
            }
        }
    }

    /// Takes in the connection to the next hop and what became of its
    /// authentication. A failure is reported for the hop it belongs to, and
    /// the connection is dropped.
    pub fn settle(&mut self, conn: H, auth: Result<(), SshSpikeError>) -> (r: Result<
        (),
        SshSpikeError,
    >)
        requires
            old(self).wf(),
            !old(self).done(),
        ensures
            settles(*old(self), *final(self), conn, auth is Ok),
            match auth {
                Ok(_) => r is Ok,
                Err(cause) => r matches Err(e) && e@ == auth_error(
                    old(self).hops(),
                    old(self).settled().len() as int,
                    cause@,
                ),
            },
            final(self).hops() == old(self).hops(),
            match auth {
                Ok(_) => final(self).settled() == old(self).settled().push(conn),
                Err(cause) => {
                    let i = old(self).settled().len() as int;
                    let hop = old(self).hops()[i];
                    &&& final(self).settled() == old(self).settled()
                    &&& i + 1 == old(self).hops().len() ==> r == Err::<(), SshSpikeError>(cause)
                    &&& i + 1 < old(self).hops().len() ==> (r matches Err(SshSpikeError::Auth(text))
                        && text@ == "jump to "@ + hop.host@ + ":"@ + crate::text::decimal(
                        hop.port as nat,
                    ) + ": "@ + cause@.message())
                },
            },
    {
        match auth {
            Ok(_) => {
                self.settled.push(conn);
                Ok(())
            },
            Err(cause) => {
                let i: usize = self.settled.len();
                if self.hops.len() - i == 1 {
                    return Err(cause);
                }
                let mut text = label(&self.hops[i]);
                text.append(": ");
                text.append(cause.message().as_str());
                Err(SshSpikeError::Auth(text))
            },
        }
    }

    /// The links of the session, once every hop is authenticated.
    pub fn finish(self) -> (r: Option<Links<H>>)
        requires
            self.wf(),
        ensures
            match r {
                Some(links) => {
                    &&& self.done()
                    &&& links.handle() == Some(self.settled().last())
                    &&& links.parents() == self.settled().drop_last()
                },
                None => !self.done(),
            },
    {
        let mut settled = self.settled;
        if settled.len() != self.hops.len() {
            return None;
        }
        match settled.pop() {
            Some(target) => {
                assert(settled@ =~= self.settled@.drop_last());
                Some(Links::new(target, settled))
            },
            None => None,
        }
    }
}

/// The tunnel to a hop leads to that hop's own host and port, and nowhere else;
/// the first hop is dialed without one.
pub proof fn a_tunnel_leads_to_the_next_hop<H>(chain: DialChain<H>, step: DialStep<'_, H>)
    requires
        chain.wf(),
        chain.is_next(step),
    ensures
        step is Done <==> chain.settled().len() == chain.hops().len(),
        step is Direct <==> chain.settled().len() == 0,
        match step {
            DialStep::Direct { hop, .. } => *hop == chain.hops()[0],
            DialStep::Through { parent, hop, tunnel, .. } => {
                &&& *parent == chain.settled()[chain.settled().len() - 1]
                &&& *hop == chain.hops()[chain.settled().len() as int]
                &&& tunnel.host@ == hop.host@
                &&& tunnel.port == hop.port
                &&& tunnel.origin_host@ == "127.0.0.1"@
                &&& tunnel.origin_port == 0
            },
            DialStep::Done => true,
        },
{
}

/// A connection is kept exactly if its credential was accepted; the ones before it
/// are kept as they are, and so are the hops.
pub proof fn accepted_connections_are_kept<H>(
    before: DialChain<H>,
    after: DialChain<H>,
    conn: H,
    accepted: bool,
)
    requires
        settles(before, after, conn, accepted),
    ensures
        after.hops() == before.hops(),
        accepted ==> after.settled().len() == before.settled().len() + 1 && after.settled().last()
            == conn,
        !accepted ==> after.settled() == before.settled(),
        before.settled().is_prefix_of(after.settled()),
{
    assert(before.settled() =~= after.settled().subrange(0, before.settled().len() as int));
}

/// Whether taking in a connection leads from one state of a dial to another:
/// the connection is kept if its credential was accepted, and dropped if not.
pub open spec fn settles<H>(
    before: DialChain<H>,
    after: DialChain<H>,
    conn: H,
    accepted: bool,
) -> bool {
    &&& after.wf()
    &&& after.hops() == before.hops()
    &&& after.settled() == if accepted {
        before.settled().push(conn)
    } else {
        before.settled()
    }
}

/// Whether these are the states of one dial, from its start: connection `k`
/// leads from state `k` to the next, and only the last may not be accepted,
/// since a failure ends the dial.
pub open spec fn is_dial<H>(
    params: SshSpikeConnectParams,
    states: Seq<DialChain<H>>,
    conns: Seq<H>,
    accepted: Seq<bool>,
) -> bool {
    &&& states.len() == conns.len() + 1
    &&& accepted.len() == conns.len()
    &&& states[0].wf()
    &&& states[0].hops() == dial_list(params)
    &&& states[0].settled() == Seq::<H>::empty()
    &&& forall|k: int|
        #![trigger conns[k]]
        0 <= k < conns.len() ==> !states[k].done() && settles(
            states[k],
            states[k + 1],
            conns[k],
            accepted[k],
        )
    &&& forall|k: int| 0 <= k < accepted.len() - 1 ==> #[trigger] accepted[k]
}

/// The hop that is dialed once `i` others are settled: jump hop `i` with its
/// own host, port, user name and credential, and then the target with its own.
pub open spec fn is_hop(params: SshSpikeConnectParams, i: int, hop: SshSpikeJump) -> bool {
    if i < params.via@.len() {
        hop == params.via@[i]
    } else {
        &&& i == params.via@.len()
        &&& hop.host == params.host
        &&& hop.port == params.port
        &&& hop.username == params.username
        &&& hop.auth == params.auth
    }
}

/// A hop of a dial is a jump hop of the parameters, or their target.
pub proof fn hops_are_those_of_the_parameters(
    params: SshSpikeConnectParams,
    i: int,
    hop: SshSpikeJump,
)
    requires
        0 <= i <= params.via@.len(),
    ensures
        is_hop(params, i, hop) <==> hop == dial_list(params)[i],
        i < params.via@.len() ==> (is_hop(params, i, hop) <==> hop == params.via@[i]),
        i == params.via@.len() ==> (is_hop(params, i, hop) <==> (hop.host == params.host
            && hop.port == params.port && hop.username == params.username && hop.auth
            == params.auth)),
{
}

/// Along a dial the list of hops stays what the parameters say, and what is
/// settled are the connections taken in so far, all accepted, in order.
pub proof fn a_dial_grows_by_accepted_hops<H>(
    params: SshSpikeConnectParams,
    states: Seq<DialChain<H>>,
    conns: Seq<H>,
    accepted: Seq<bool>,
    k: int,
)
    requires
        is_dial(params, states, conns, accepted),
        0 <= k < states.len(),
    ensures
        states[k].wf(),
        states[k].hops() == dial_list(params),
        states[k].settled() == if k == 0 || accepted[k - 1] {
            conns.take(k)
        } else {
            conns.take(k - 1)
        },
    decreases k,
{
    if k == 0 {
        assert(conns.take(0) =~= Seq::<H>::empty());
    } else {
        a_dial_grows_by_accepted_hops(params, states, conns, accepted, k - 1);
        let conn = conns[k - 1];
        assert(settles(states[k - 1], states[k], conn, accepted[k - 1]));
        if k >= 2 {
            assert(accepted[k - 2]);
        }
        assert(conns.take(k - 1).push(conn) =~= conns.take(k));
    }
}

/// Every step of a dial is for the hop whose turn it is, with that hop's own
/// endpoint, user name and credential: the first directly, and every other
/// through the connection to the hop before it, which was accepted.
pub proof fn every_step_is_for_its_own_hop<H>(
    params: SshSpikeConnectParams,
    states: Seq<DialChain<H>>,
    conns: Seq<H>,
    accepted: Seq<bool>,
    k: int,
    step: DialStep<'_, H>,
)
    requires
        is_dial(params, states, conns, accepted),
        0 <= k < states.len(),
        k > 0 ==> accepted[k - 1],
        states[k].is_next(step),
    ensures
        match step {
            DialStep::Direct { hop, .. } => k == 0 && is_hop(params, 0, *hop),
            DialStep::Through { parent, hop, tunnel, .. } => {
                &&& k > 0
                &&& is_hop(params, k, *hop)
                &&& *parent == conns[k - 1]
                &&& accepted[k - 1]
                &&& tunnel.leads_to(hop.host@, hop.port as u32)
                &&& tunnel.host@ == hop.host@
                &&& tunnel.port == hop.port
            },
            DialStep::Done => k == params.via@.len() + 1,
        },
{
    a_dial_grows_by_accepted_hops(params, states, conns, accepted, k);
    assert(states[k].settled().len() == k);
}

/// The first connection that is not accepted ends a dial: no state of it had
/// settled that hop, so none ever got to a hop behind it.
pub proof fn the_first_failure_ends_a_dial<H>(
    params: SshSpikeConnectParams,
    states: Seq<DialChain<H>>,
    conns: Seq<H>,
    accepted: Seq<bool>,
    k: int,
)
    requires
        is_dial(params, states, conns, accepted),
        conns.len() > 0,
        !accepted.last(),
        0 <= k < states.len(),
    ensures
        states[k].settled().len() < conns.len(),
        !states[k].done(),
{
    a_dial_grows_by_accepted_hops(params, states, conns, accepted, k);
    let last = conns.len() - 1;
    a_dial_grows_by_accepted_hops(params, states, conns, accepted, last);
    let conn = conns[last];
    assert(settles(states[last], states[last + 1], conn, accepted[last]));
    if last > 0 {
        assert(accepted[last - 1]);
    }
}

/// Remote forwards are taken on the connection to the target, and on no hop
/// before it.
pub proof fn only_the_target_takes_forwards<H>(chain: DialChain<H>, step: DialStep<'_, H>)
    requires
        chain.wf(),
        chain.is_next(step),
    ensures
        match step {
            DialStep::Direct { forwards, .. } => forwards == (chain.settled().len() + 1
                == chain.hops().len()),
            DialStep::Through { forwards, .. } => forwards == (chain.settled().len() + 1
                == chain.hops().len()),
            DialStep::Done => chain.settled().len() == chain.hops().len(),
        },
{
}

/// A session is torn down in the reverse of the order in which its hops were
/// dialed.
pub proof fn teardown_reverses_the_dial<H>(chain: DialChain<H>, links: Links<H>)
    requires
        chain.wf(),
        chain.done(),
        links.handle() == Some(chain.settled().last()),
        links.parents() == chain.settled().drop_last(),
    ensures
        links.teardown() == chain.settled().reverse(),
{
    assert(links.teardown() =~= chain.settled().reverse());
}

} // verus!
