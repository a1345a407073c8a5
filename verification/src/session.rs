//! What a session, a channel and a remote file hold until they are
//! disconnected, and the order in which a session is torn down.
use crate::error::{ErrorView, SshSpikeError};
use vstd::prelude::*;

verus! {

/// Seconds that a single transport is given to confirm its disconnect.
pub const DISCONNECT_TIMEOUT_SECS: u64 = 5;

/// A step of closing a channel.
#[derive(Debug, Clone, Copy, PartialEq, Eq)]
pub enum ClosingStep {
    /// Tell the remote side that no more data comes.
    Eof,
    /// Close the channel.
    Close,
}

/// How a channel is closed: end of data first, and then the close. A step that
/// fails does not keep the next from being taken.
pub fn closing_steps() -> (steps: Vec<ClosingStep>)
    ensures
        steps@ == seq![ClosingStep::Eof, ClosingStep::Close],
        steps@.len() == 2,
        steps@[0] is Eof,
        steps@[1] is Close,
{
    let mut steps: Vec<ClosingStep> = Vec::new();
    steps.push(ClosingStep::Eof);
    steps.push(ClosingStep::Close);
    assert(steps@ =~= seq![ClosingStep::Eof, ClosingStep::Close]);
    steps
}

/// Why a transport is disconnected.
#[derive(Debug, Clone, Copy, PartialEq, Eq)]
pub enum DisconnectReason {
    ByApplication,
}

/// What a transport is disconnected with, and how long it is given to confirm
/// it. One that does not confirm it in time, or fails, does not keep the next
/// from being disconnected.
#[derive(Debug)]
pub struct Farewell<H> {
    pub transport: H,
    pub reason: DisconnectReason,
    pub text: &'static str,
    pub language: &'static str,
    pub timeout_secs: u64,
}

impl<H> Farewell<H> {
    /// Whether this is the farewell to a transport: by the application, with
    /// the text `closed` in English, in at most five seconds.
    pub open spec fn bids(self, transport: H) -> bool {
        &&& self.transport == transport
        &&& self.reason == DisconnectReason::ByApplication
        &&& self.text@ == "closed"@
        &&& self.language@ == "en"@
        &&& self.timeout_secs == 5
    }

    fn to(transport: H) -> (farewell: Self)
        ensures
            farewell.bids(transport),
            farewell.transport == transport,
            farewell.reason == DisconnectReason::ByApplication,
            farewell.text@ == "closed"@,
            farewell.language@ == "en"@,
            farewell.timeout_secs == 5,
    {
        Farewell {
            transport,
            reason: DisconnectReason::ByApplication,
            text: "closed",
            language: "en",
            timeout_secs: DISCONNECT_TIMEOUT_SECS,
        }
    }
}

/// What a slot belongs to.
#[derive(Debug, Clone, Copy)]
pub enum Owner {
    Session,
    Channel,
    RemoteFile,
}

/// The error of an operation on something that is already disconnected.
pub open spec fn closed_error(owner: Owner) -> ErrorView {
    match owner {
        Owner::Session => ErrorView::Channel("session closed"@),
        Owner::Channel => ErrorView::Channel("channel closed"@),
        Owner::RemoteFile => ErrorView::Sftp("handle closed"@),
    }
}

/// The error of an operation on something that is already disconnected.
pub fn closed(owner: Owner) -> (e: SshSpikeError)
    ensures
        e@ == closed_error(owner),
        match owner {
            Owner::Session => e matches SshSpikeError::Channel(text) && text@ == "session closed"@,
            Owner::Channel => e matches SshSpikeError::Channel(text) && text@ == "channel closed"@,
            Owner::RemoteFile => e matches SshSpikeError::Sftp(text) && text@ == "handle closed"@,
        },
{
    match owner {
        Owner::Session => SshSpikeError::Channel(String::from_str("session closed")),
        Owner::Channel => SshSpikeError::Channel(String::from_str("channel closed")),
        Owner::RemoteFile => SshSpikeError::Sftp(String::from_str("handle closed")),
    }
}

/// What is gone is named: the session and the channel by a failure of the channel,
/// and the remote file by one of SFTP.
pub proof fn what_is_closed_is_named()
    ensures
        closed_error(Owner::Session) == ErrorView::Channel("session closed"@),
        closed_error(Owner::Channel) == ErrorView::Channel("channel closed"@),
        closed_error(Owner::RemoteFile) == ErrorView::Sftp("handle closed"@),
{
}

/// A farewell is for one transport, says that the application closed it, and
/// gives it five seconds.
pub proof fn a_farewell_is_for_one_transport<H>(farewell: Farewell<H>, transport: H)
    ensures
        farewell.bids(transport) <==> {
            &&& farewell.transport == transport
            &&& farewell.reason == DisconnectReason::ByApplication
            &&& farewell.text@ == "closed"@
            &&& farewell.language@ == "en"@
            &&& farewell.timeout_secs == 5
        },
{
}

/// A resource that is there until it is taken out for good.
pub struct Slot<T> {
    owner: Owner,
    inner: Option<T>,
}

impl<T> Slot<T> {
    /// What the slot belongs to.
    pub closed spec fn owner(self) -> Owner {
        self.owner
    }

    /// The resource, while it is there.
    pub closed spec fn held(self) -> Option<T> {
        self.inner
    }

    /// A slot that holds `resource`.
    pub fn new(owner: Owner, resource: T) -> (slot: Self)
        ensures
            slot.owner() == owner,
            slot.held() == Some(resource),
    {
        Slot { owner, inner: Some(resource) }
    }

    /// The resource, or the closed error of the owner once it is gone.
    pub fn get(&self) -> (r: Result<&T, SshSpikeError>)
        ensures
            match r {
                Ok(resource) => self.held() == Some(*resource),
                Err(e) => self.held() is None && e@ == closed_error(self.owner()),
            },
    {
        match &self.inner {
            Some(resource) => Ok(resource),
            None => Err(closed(self.owner)),
        }
    }

    /// The resource for modification, or the closed error of the owner once it
    /// is gone.
    pub fn get_mut(&mut self) -> (r: Result<&mut T, SshSpikeError>)
        ensures
            final(self).owner() == old(self).owner(),
            match r {
                Ok(resource) => old(self).held() == Some(*resource) && final(self).held() == Some(
                    *final(resource),
                ),
                Err(e) => old(self).held() is None && final(self).held() is None && e@
                    == closed_error(old(self).owner()),
            },
    {
        let owner = self.owner;
        match &mut self.inner {
            Some(resource) => Ok(resource),
            None => Err(closed(owner)),
        }
    }

    /// Takes the resource out; there is none from then on.
    pub fn take(&mut self) -> (taken: Option<T>)
        ensures
            taken == old(self).held(),
            final(self).held() is None,
            final(self).owner() == old(self).owner(),
    {
        self.inner.take()
    }
}

/// The transports of a session: the one to the target, and those of the jump
/// hops that carry it, outermost first.
pub struct Links<H> {
    handle: Option<H>,
    parents: Vec<H>,
}

impl<H> Links<H> {
    /// The transport to the target, until the session is disconnected.
    pub closed spec fn handle(self) -> Option<H> {
        self.handle
    }

    /// The transports of the jump hops, outermost first.
    pub closed spec fn parents(self) -> Seq<H> {
        self.parents@
    }

    /// The transports in the order in which they are to be disconnected: the
    /// target first, then the hops from the innermost out. None once the
    /// target is gone.
    pub open spec fn teardown(self) -> Seq<H> {
        match self.handle() {
            Some(handle) => seq![handle] + self.parents().reverse(),
            None => Seq::empty(),
        }
    }

    /// The links of a session to `handle` through `parents`.
    pub fn new(handle: H, parents: Vec<H>) -> (links: Self)
        ensures
            links.handle() == Some(handle),
            links.parents() == parents@,
    {
        Links { handle: Some(handle), parents }
    }

    /// The transport to the target, or the closed error of a session.
    pub fn get(&self) -> (r: Result<&H, SshSpikeError>)
        ensures
            match r {
                Ok(handle) => self.handle() == Some(*handle),
                Err(e) => self.handle() is None && e@ == closed_error(Owner::Session),
            },
    {
        match &self.handle {
            Some(handle) => Ok(handle),
            None => Err(closed(Owner::Session)),
        }
    }

    /// Hands out every transport with its farewell, in the order in which they
    /// are to be disconnected; there are none from then on.
    pub fn disconnect(&mut self) -> (order: Vec<Farewell<H>>)
        ensures
            order@.len() == old(self).teardown().len(),
            forall|i: int|
                0 <= i < order@.len() ==> (#[trigger] order@[i]).bids(old(self).teardown()[i]),
            final(self).handle() is None,
            old(self).handle() is Some ==> final(self).parents() == Seq::<H>::empty(),
            old(self).handle() is None ==> final(self).parents() == old(self).parents(),
            old(self).handle() is None ==> order@.len() == 0,
            old(self).handle() matches Some(handle) ==> {
                let parents = old(self).parents();
                &&& order@.len() == 1 + parents.len()
                &&& order@[0].transport == handle
                &&& forall|i: int|
                    0 <= i < parents.len() ==> (#[trigger] order@[1 + i]).transport
                        == parents[parents.len() - 1 - i]
            },
            forall|i: int|
                0 <= i < order@.len() ==> (#[trigger] order@[i]).reason
                    == DisconnectReason::ByApplication && order@[i].text@ == "closed"@
                    && order@[i].language@ == "en"@ && order@[i].timeout_secs == 5,
    {
        let mut order: Vec<Farewell<H>> = Vec::new();
        let ghost teardown = self.teardown();
        if let Some(handle) = self.handle.take() {
            order.push(Farewell::to(handle));
            let ghost all = self.parents@;
            assert(teardown =~= seq![handle] + all.reverse());
            while self.parents.len() > 0
                invariant
                    self.handle is None,
                    teardown == seq![handle] + all.reverse(),
                    self.parents@.len() <= all.len(),
                    self.parents@ == all.take(self.parents@.len() as int),
                    order@.len() == 1 + all.len() - self.parents@.len(),
                    forall|i: int|
                        0 <= i < order@.len() ==> (#[trigger] order@[i]).bids(teardown[i]),
                decreases self.parents@.len(),
            {
                let ghost n = self.parents@.len() as int;
                if let Some(parent) = self.parents.pop() {
                    assert(parent == all[n - 1]);
                    assert(teardown[1 + all.len() - n] == parent);
                    order.push(Farewell::to(parent));
                }
                assert(self.parents@ =~= all.take(n - 1));
            }
        }
        order
    }
}

/// The target is disconnected first, then the innermost of the hops that carry it,
/// and so on to the outermost; each once, and none where the target is gone.
pub proof fn teardown_goes_from_the_inside_out<H>(links: Links<H>)
    ensures
        links.handle() is None ==> links.teardown().len() == 0,
        links.handle() matches Some(handle) ==> {
            let parents = links.parents();
            &&& links.teardown().len() == 1 + parents.len()
            &&& links.teardown()[0] == handle
            &&& forall|i: int|
                0 <= i < parents.len() ==> #[trigger] links.teardown()[1 + i]
                    == parents[parents.len() - 1 - i]
        },
{
}

/// A call on the sending half of a channel.
#[derive(Debug, Clone, Copy, PartialEq, Eq)]
pub enum HalfCall {
    Write,
    Eof,
    Disconnect,
}

/// Whether a call leads from one state of a channel to another: writing and
/// half-closing look at the channel, and only a disconnect takes it away.
pub open spec fn after_call<T>(before: Slot<T>, call: HalfCall, after: Slot<T>) -> bool {
    &&& after.owner() == before.owner()
    &&& after.held() == if call is Disconnect {
        None
    } else {
        before.held()
    }
}

/// Writing and half-closing leave a channel as it is, and a disconnect leaves none.
pub proof fn only_a_disconnect_takes_a_channel_away<T>(
    before: Slot<T>,
    call: HalfCall,
    after: Slot<T>,
)
    requires
        after_call(before, call, after),
    ensures
        after.owner() == before.owner(),
        call is Write || call is Eof ==> after.held() == before.held(),
        call is Disconnect ==> after.held() is None,
{
}

/// A channel answers every call until it is disconnected, a repeated half-close
/// like the first, and is closed for every call from then on.
pub proof fn a_channel_answers_until_it_is_disconnected<T>(
    states: Seq<Slot<T>>,
    calls: Seq<HalfCall>,
    k: int,
)
    requires
        states.len() == calls.len() + 1,
        states[0].held() is Some,
        forall|i: int|
            #![trigger calls[i]]
            0 <= i < calls.len() ==> after_call(states[i], calls[i], states[i + 1]),
        0 <= k < states.len(),
    ensures
        states[k].owner() == states[0].owner(),
        states[k].held() == if calls.take(k).contains(HalfCall::Disconnect) {
            None
        } else {
            states[0].held()
        },
    decreases k,
{
    if k > 0 {
        a_channel_answers_until_it_is_disconnected(states, calls, k - 1);
        let call = calls[k - 1];
        assert(after_call(states[k - 1], call, states[k]));
        assert(calls.take(k) =~= calls.take(k - 1).push(call));
        let before = calls.take(k - 1);
        if before.contains(HalfCall::Disconnect) {
            let j = choose|j: int|
                0 <= j < before.len() && #[trigger] before[j] == HalfCall::Disconnect;
            assert(calls.take(k)[j] == HalfCall::Disconnect);
        } else if call is Disconnect {
            assert(calls.take(k)[k - 1] == HalfCall::Disconnect);
        } else {
            assert forall|j: int| 0 <= j < k implies calls.take(k)[j] != HalfCall::Disconnect by {
                if j < k - 1 {
                    assert(before[j] == calls.take(k)[j]);
                }
            }
        }
    }
}

/// Once disconnected, links have nothing left to disconnect.
pub proof fn disconnected_links_stay_disconnected<H>(links: Links<H>)
    requires
        links.handle() is None,
    ensures
        links.teardown() == Seq::<H>::empty(),
{
}

} // verus!
