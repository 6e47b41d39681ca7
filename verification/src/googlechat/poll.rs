//! How polling the event channel goes on: when to poll, when to wait, when to
//! open a new tab or sign up anew, and when to give up.
//!
//! A poller keeps the number of the last array that it has taken and the number
//! of polls that have failed in a row. The one who runs it makes the calls and
//! waits; what to do next is decided here.
use vstd::prelude::*;
use vstd::arithmetic::power2::{lemma_pow2_strictly_increases, pow2};

use crate::error::{AuthError, ChannelError};
use crate::event::inbound::{DisconnectReason, EventV, InboundEvent, ReasonV};
use crate::text::{self, holds};
use crate::types::ids::PlatformId;

verus! {

/// Who makes the calls of a poller.
#[derive(Copy, Clone, Debug, PartialEq, Eq, Structural)]
pub enum Poller {
    /// A browser tab of its own. A session that is over ends it; where the tab is
    /// gone it goes on from a new one.
    Tab,
    /// The signed-in session in the browser, which can sign up anew.
    Session,
    /// Plain HTTP calls, which can sign up anew.
    Direct,
}

/// Where a poller stands.
#[derive(Copy, Clone, Debug, PartialEq, Eq, Structural)]
pub struct PollState {
    /// The number of the last array taken.
    pub aid: u64,
    /// The polls that have failed in a row.
    pub retries: u32,
}

/// What a poller does next.
#[derive(Debug)]
pub enum PollStep {
    /// Poll.
    Poll,
    /// Tell of the event and stop.
    Stop(InboundEvent),
    /// Tell of the event, wait for this many seconds, and go on.
    Wait(InboundEvent, u64),
    /// Tell of the event, open a new tab in place of the one that is gone, and go on.
    Reopen(InboundEvent),
    /// Sign up anew, then go on by `after_register`.
    Register,
}

/// The mathematical form of a [`PollStep`].
pub ghost enum StepV {
    Poll,
    Stop(EventV),
    Wait(EventV, u64),
    Reopen(EventV),
    Register,
}

impl View for PollStep {
    type V = StepV;

    open spec fn view(&self) -> StepV {
        match *self {
            PollStep::Poll => StepV::Poll,
            PollStep::Stop(e) => StepV::Stop(e@),
            PollStep::Wait(e, n) => StepV::Wait(e@, n),
            PollStep::Reopen(e) => StepV::Reopen(e@),
            PollStep::Register => StepV::Register,
        }
    }
}

/// The failures in a row after which a poller gives up.
pub open spec fn limit(poller: Poller) -> u32 {
    if poller == Poller::Tab {
        20
    } else {
        10
    }
}

/// The failures in a row after which a poller gives up.
pub fn max_retries(poller: Poller) -> (r: u32)
    ensures
        r == limit(poller),
{
    match poller {
        Poller::Tab => 20,
        _ => 10,
    }
}

/// The event that tells that the connection ended.
pub open spec fn ended(reason: ReasonV) -> EventV {
    EventV::Disconnected { platform: PlatformId::GoogleChat, reason }
}

/// The event that tells that the connection ended.
pub fn disconnected(reason: DisconnectReason) -> (r: InboundEvent)
    ensures
        r@ == ended(reason@),
{
    InboundEvent::Disconnected { platform: PlatformId::GoogleChat, reason }
}

/// The event that tells of another attempt.
pub open spec fn retrying(attempt: u32) -> EventV {
    EventV::Reconnecting { platform: PlatformId::GoogleChat, attempt }
}

/// The seconds to wait after the failure number `n`: two to the `n`, and no more
/// than two to the sixth.
pub open spec fn pause(n: u32) -> nat {
    pow2(
        if n < 6 {
            n as nat
        } else {
            6
        },
    )
}

/// The seconds to wait after the failure number `n`.
pub fn backoff(n: u32) -> (r: u64)
    ensures
        r == pause(n),
{
    proof {
        reveal(pow2);
        reveal_with_fuel(vstd::arithmetic::power::pow, 7);
    }
    match n {
        0 => 1,
        1 => 2,
        2 => 4,
        3 => 8,
        4 => 16,
        5 => 32,
        _ => 64,
    }
}

/// The wait is never shorter after a later failure, and between two seconds and
/// sixty-four from the first failure on.
pub proof fn law_pause_grows(m: u32, n: u32)
    requires
        1 <= m <= n,
    ensures
        2 <= pause(m) <= pause(n) <= 64,
{
    reveal(pow2);
    reveal_with_fuel(vstd::arithmetic::power::pow, 7);
    let a: nat = if m < 6 {
        m as nat
    } else {
        6
    };
    let b: nat = if n < 6 {
        n as nat
    } else {
        6
    };
    if a < b {
        lemma_pow2_strictly_increases(a, b);
    }
    if 1 < a {
        lemma_pow2_strictly_increases(1, a);
    }
    if b < 6 {
        lemma_pow2_strictly_increases(b, 6);
    }
}

/// The error of a signed-in call says that the session is over.
pub open spec fn says_expired(message: Seq<char>) -> bool {
    holds(message, "HTTP 401"@) || holds(message, "HTTP 403"@) || holds(message, "HTTP 400"@)
}

/// The tab that makes the calls is gone.
pub open spec fn says_gone(message: Seq<char>) -> bool {
    holds(message, "connection is closed"@) || holds(message, "not connected"@)
}

/// The error of the channel that the message of a failed call stands for.
pub fn fetch_error(message: String) -> (r: ChannelError)
    ensures
        if says_expired(message@) {
            r == ChannelError::SessionExpired
        } else {
            r matches ChannelError::Http(m) && m@ == message@
        },
{
    if text::contains(message.as_str(), "HTTP 401") || text::contains(message.as_str(), "HTTP 403")
        || text::contains(message.as_str(), "HTTP 400") {
        ChannelError::SessionExpired
    } else {
        ChannelError::Http(message)
    }
}

/// The event that tells that signing up failed when a poller was started.
pub fn start_failed(error: &AuthError) -> (r: InboundEvent)
    ensures
        r@ == ended(ReasonV::ServerError(error.text())),
{
    disconnected(DisconnectReason::ServerError(error.message()))
}

/// What a poller does before its next poll. Plain HTTP calls need the session's
/// number.
pub open spec fn step_before(poller: Poller, state: PollState, has_sid: bool) -> StepV {
    if state.retries >= limit(poller) {
        StepV::Stop(ended(ReasonV::MaxRetriesExceeded))
    } else if poller == Poller::Direct && !has_sid {
        StepV::Stop(ended(ReasonV::SessionExpired))
    } else {
        StepV::Poll
    }
}

/// Where a poller stands after a poll, and what it does next.
pub open spec fn step_after(
    poller: Poller,
    state: PollState,
    result: Result<u64, ChannelError>,
) -> (PollState, StepV) {
    match result {
        Ok(aid) => (PollState { aid, retries: 0 }, StepV::Poll),
        Err(e) => if e is SessionExpired {
            (
                state,
                if poller == Poller::Tab {
                    StepV::Stop(ended(ReasonV::SessionExpired))
                } else {
                    StepV::Register
                },
            )
        } else {
            let attempt = (state.retries + 1) as u32;
            (
                PollState { aid: state.aid, retries: attempt },
                if poller == Poller::Tab && says_gone(e.text()) {
                    StepV::Reopen(retrying(attempt))
                } else {
                    StepV::Wait(retrying(attempt), pause(attempt) as u64)
                },
            )
        },
    }
}

impl PollState {
    /// A poller that has taken nothing and not failed.
    pub fn new() -> (r: PollState)
        ensures
            r == (PollState { aid: 0, retries: 0 }),
    {
        PollState { aid: 0, retries: 0 }
    }

    /// What to do before the next poll.
    pub fn before_poll(&self, poller: Poller, has_sid: bool) -> (r: PollStep)
        ensures
            r@ == step_before(poller, *self, has_sid),
    {
        if self.retries >= max_retries(poller) {
            return PollStep::Stop(disconnected(DisconnectReason::MaxRetriesExceeded));
        }
        match poller {
            Poller::Direct => if !has_sid {
                return PollStep::Stop(disconnected(DisconnectReason::SessionExpired));
            },
            _ => {},
        }
        PollStep::Poll
    }

    /// Takes note of how a poll went, and gives what to do next. A poll is made
    /// only before the limit of failures is reached.
    pub fn after_poll(&mut self, poller: Poller, result: Result<u64, ChannelError>) -> (r: PollStep)
        requires
            old(self).retries < limit(poller),
        ensures
            (*final(self), r@) == step_after(poller, *old(self), result),
    {
        match result {
            Ok(aid) => {
                self.aid = aid;
                self.retries = 0;
                PollStep::Poll
            },
            Err(ChannelError::SessionExpired) => match poller {
                Poller::Tab => PollStep::Stop(disconnected(DisconnectReason::SessionExpired)),
                _ => PollStep::Register,
            },
            Err(e) => {
                let message = e.message();
                self.retries = self.retries + 1;
                let event = InboundEvent::Reconnecting {
                    platform: PlatformId::GoogleChat,
                    attempt: self.retries,
                };
                let gone = match poller {
                    Poller::Tab => text::contains(message.as_str(), "connection is closed")
                        || text::contains(message.as_str(), "not connected"),
                    _ => false,
                };
                if gone {
                    PollStep::Reopen(event)
                } else {
                    PollStep::Wait(event, backoff(self.retries))
                }
            },
        }
    }

    /// Goes on after signing up anew: the arrays are counted from the start
    /// again. Where it failed the session is over.
    pub fn after_register(&mut self, registered: bool) -> (r: PollStep)
        ensures
            final(self).retries == old(self).retries,
            if registered {
                final(self).aid == 0 && r@ == StepV::Poll
            } else {
                final(self).aid == old(self).aid && r@ == StepV::Stop(
                    ended(ReasonV::SessionExpired),
                )
            },
    {
        if registered {
            self.aid = 0;
            PollStep::Poll
        } else {
            PollStep::Stop(disconnected(DisconnectReason::SessionExpired))
        }
    }
}

/// Where a poller stands after the failures `errors` in a row.
pub open spec fn after_failures(
    poller: Poller,
    state: PollState,
    errors: Seq<ChannelError>,
) -> PollState
    decreases errors.len(),
{
    if errors.len() == 0 {
        state
    } else {
        step_after(
            poller,
            after_failures(poller, state, errors.drop_last()),
            Err(errors.last()),
        ).0
    }
}

/// A poller that has just had a reply gives up after exactly as many failures in
/// a row as its limit says: with fewer it polls on, with that many it stops.
pub proof fn law_gives_up_at_the_limit(poller: Poller, aid: u64, errors: Seq<ChannelError>)
    requires
        errors.len() <= limit(poller),
        forall|i: int| 0 <= i < errors.len() ==> !(#[trigger] errors[i] is SessionExpired),
    ensures
        after_failures(poller, (PollState { aid, retries: 0 }), errors).aid == aid,
        errors.len() < limit(poller) ==> step_before(
            poller,
            after_failures(poller, (PollState { aid, retries: 0 }), errors),
            true,
        ) == StepV::Poll,
        errors.len() == limit(poller) ==> step_before(
            poller,
            after_failures(poller, (PollState { aid, retries: 0 }), errors),
            true,
        ) == StepV::Stop(ended(ReasonV::MaxRetriesExceeded)),
{
    lemma_failures_count(poller, aid, errors);
}

proof fn lemma_failures_count(poller: Poller, aid: u64, errors: Seq<ChannelError>)
    requires
        errors.len() <= limit(poller),
        forall|i: int| 0 <= i < errors.len() ==> !(#[trigger] errors[i] is SessionExpired),
    ensures
        after_failures(poller, (PollState { aid, retries: 0 }), errors) == (PollState {
            aid,
            retries: errors.len() as u32,
        }),
    decreases errors.len(),
{
    if errors.len() > 0 {
        assert forall|i: int| 0 <= i < errors.drop_last().len() implies !(
        #[trigger] errors.drop_last()[i] is SessionExpired) by {
            assert(errors.drop_last()[i] == errors[i]);
        }
        lemma_failures_count(poller, aid, errors.drop_last());
        assert(errors.last() == errors[errors.len() - 1]);
    }
}

/// A poller in a tab of its own polls on through everything but two things: it ends
/// where the session is over, and where too many polls have failed in a row.
pub proof fn law_a_tab_polls_on(
    state: PollState,
    result: Result<u64, ChannelError>,
    has_sid: bool,
)
    ensures
        step_before(Poller::Tab, state, has_sid) is Stop <==> state.retries >= limit(Poller::Tab),
        step_before(Poller::Tab, state, has_sid) is Stop || step_before(Poller::Tab, state, has_sid)
            is Poll,
        step_after(Poller::Tab, state, result).1 is Stop <==> (result matches Err(e)
            && e is SessionExpired),
{
}

/// A reply clears the failures: whatever went before, a poller that has had one
/// stands as one that never failed.
pub proof fn law_a_reply_clears_the_failures(poller: Poller, state: PollState, aid: u64)
    ensures
        step_after(poller, state, Ok(aid)) == (PollState { aid, retries: 0 }, StepV::Poll),
{
}

} // verus!
