//! The watch loop as a state machine: an immediate first poll, then a
//! poll after every interval, until cancellation arrives. The caller
//! performs the fetch and the wait and hands back what happened; the
//! decisions are made here.

use crate::cursor::{never_behind, CursorState};
use crate::engine::{EngineOutcome, EngineResult, GroupEngine, KnownGroup};
use crate::event::{TransportEvent, KIND_MLS_MESSAGE};
use crate::pipeline::{cursors_after, emitted, receive_event, set_aside, view_of, DecryptedMessage};
use crate::plan::{fetch_since, since_bound, FetchFilter, FETCH_LIMIT};
use crate::text::{copy_texts, texts};
use vstd::prelude::*;

verus! {

/// Where the watch loop stands.
#[derive(Clone, Copy, Debug, PartialEq, Eq, Structural)]
pub enum WatchPhase {
    /// A poll cycle is due or under way.
    Polling,
    /// Waiting for the interval to pass, or for cancellation.
    Sleeping,
    /// Cancelled: the loop has ended.
    Terminated,
}

/// What happened outside the loop.
#[derive(Clone, Copy, Debug, PartialEq, Eq, Structural)]
pub enum WatchEvent {
    /// The fetch of this cycle returned, and its events were handled.
    FetchSucceeded,
    /// The fetch of this cycle failed or timed out.
    FetchFailed,
    /// The interval has passed.
    TimerElapsed,
    /// The cancellation signal arrived.
    Cancelled,
}

/// What the caller has to do next.
#[derive(Clone, Copy, Debug, PartialEq, Eq, Structural)]
pub enum WatchAction {
    /// Run one poll cycle: fetch with the loop's filter and hand every
    /// event to the loop.
    Poll,
    /// Write the cursors out if `persist` is set, then wait for `seconds`
    /// or for cancellation, whichever comes first.
    Sleep { seconds: u64, persist: bool },
    /// Stop: disconnect and return.
    Stop,
    /// Nothing new to do: go on with what is under way.
    Continue,
}

/// Why a watch loop did not start.
#[derive(Clone, Copy, Debug, PartialEq, Eq, Structural)]
pub enum WatchError {
    /// There is no group to watch.
    NoGroups,
}

/// A watch session: its phase, the groups it watches, the groups that the
/// engine knew when it started, the interval between polls, and the cursors,
/// which it owns while it runs.
pub struct Watch {
    pub phase: WatchPhase,
    pub targets: Vec<String>,
    pub groups: Vec<KnownGroup>,
    pub poll_interval: u64,
    pub cursors: CursorState,
}

/// The phase after an event. Cancellation ends the loop from every phase; a
/// finished fetch, failed or not, leads from polling to sleeping; the timer
/// leads from sleeping to polling. Every other event leaves the phase as it
/// is, and nothing leads out of `Terminated`.
pub open spec fn next_phase(phase: WatchPhase, event: WatchEvent) -> WatchPhase {
    match (phase, event) {
        (WatchPhase::Terminated, _) => WatchPhase::Terminated,
        (_, WatchEvent::Cancelled) => WatchPhase::Terminated,
        (WatchPhase::Polling, WatchEvent::FetchSucceeded) => WatchPhase::Sleeping,
        (WatchPhase::Polling, WatchEvent::FetchFailed) => WatchPhase::Sleeping,
        (WatchPhase::Sleeping, WatchEvent::TimerElapsed) => WatchPhase::Polling,
        (other, _) => other,
    }
}

/// What the caller has to do after an event. After a fetch that succeeded
/// the cursors are written out, whether or not a message was found; after
/// one that failed they are not, and the loop goes on all the same.
pub open spec fn action_after(phase: WatchPhase, event: WatchEvent, interval: u64) -> WatchAction {
    match (phase, event) {
        (WatchPhase::Terminated, _) => WatchAction::Stop,
        (_, WatchEvent::Cancelled) => WatchAction::Stop,
        (WatchPhase::Polling, WatchEvent::FetchSucceeded) => WatchAction::Sleep {
            seconds: interval,
            persist: true,
        },
        (WatchPhase::Polling, WatchEvent::FetchFailed) => WatchAction::Sleep {
            seconds: interval,
            persist: false,
        },
        (WatchPhase::Sleeping, WatchEvent::TimerElapsed) => WatchAction::Poll,
        (_, _) => WatchAction::Continue,
    }
}

/// What is due in a phase, before anything else has happened: a poll cycle
/// while polling, the wait while sleeping, and to stop once the loop has
/// ended.
pub open spec fn action_due(phase: WatchPhase, interval: u64) -> WatchAction {
    match phase {
        WatchPhase::Polling => WatchAction::Poll,
        WatchPhase::Sleeping => WatchAction::Sleep { seconds: interval, persist: false },
        WatchPhase::Terminated => WatchAction::Stop,
    }
}

/// The phase after a run of events.
pub open spec fn phase_after(phase: WatchPhase, events: Seq<WatchEvent>) -> WatchPhase
    decreases events.len(),
{
    if events.len() == 0 {
        phase
    } else {
        next_phase(phase_after(phase, events.drop_last()), events.last())
    }
}

impl Watch {
    /// Starts a watch session over the target groups. It refuses to start
    /// with no group to watch. A session starts in `Polling`: the first poll
    /// is made at once, before any wait.
    pub fn start(
        targets: Vec<String>,
        groups: Vec<KnownGroup>,
        poll_interval: u64,
        cursors: CursorState,
    ) -> (started: Result<Watch, WatchError>)
        ensures
            started.is_err() == (targets@.len() == 0),
            started.is_err() ==> started == Err::<Watch, WatchError>(WatchError::NoGroups),
            started.is_ok() ==> started.unwrap() == (Watch {
                phase: WatchPhase::Polling,
                targets,
                groups,
                poll_interval,
                cursors,
            }),
    {
        if targets.len() == 0 {
            return Err(WatchError::NoGroups);
        }
        Ok(Watch { phase: WatchPhase::Polling, targets, groups, poll_interval, cursors })
    }

    /// The filter of the next poll. A watch is always driven by the
    /// cursors: it takes no explicit lower bound.
    pub fn filter(&self) -> (filter: FetchFilter)
        ensures
            filter.kind == KIND_MLS_MESSAGE,
            texts(filter.group_ids@) == texts(self.targets@),
            filter.since == fetch_since(None, self.cursors@, texts(self.targets@)),
            filter.limit == FETCH_LIMIT,
    {
        FetchFilter {
            kind: KIND_MLS_MESSAGE,
            group_ids: copy_texts(&self.targets),
            since: since_bound(None, &self.cursors, &self.targets),
            limit: FETCH_LIMIT,
        }
    }

    /// Handles one fetched event of the running cycle, so that the caller
    /// can emit its message at once. Outside a poll cycle nothing is handed
    /// to the engine, and nothing comes out.
    pub fn receive(&mut self, engine: &GroupEngine, me: &[u8; 32], event: &TransportEvent) -> (delivered:
        Option<DecryptedMessage>)
        ensures
            old(self).phase != WatchPhase::Polling ==> delivered.is_none(),
            set_aside(me@, *event) ==> delivered.is_none(),
            exists|outcome: EngineOutcome| #[trigger]
                emitted(me@, old(self).groups@, *event, outcome) == view_of(delivered),
            final(self).cursors@ == cursors_after(old(self).cursors@, view_of(delivered)),
            never_behind(old(self).cursors@, final(self).cursors@),
            final(self).phase == old(self).phase,
            final(self).targets == old(self).targets,
            final(self).groups == old(self).groups,
            final(self).poll_interval == old(self).poll_interval,
    {
        match self.phase {
            WatchPhase::Polling => receive_event(
                engine,
                me,
                &self.groups,
                event,
                &mut self.cursors,
            ),
            _ => {
                proof {
                    let unasked = EngineOutcome::Processed(EngineResult::Unprocessable);
                    assert(emitted(me@, self.groups@, *event, unasked) == view_of(
                        None::<DecryptedMessage>,
                    ));
                }
                None
            },
        }
    }

    /// Takes in what happened outside, moves to the next phase, and says
    /// what to do next.
    pub fn on_event(&mut self, event: WatchEvent) -> (action: WatchAction)
        ensures
            final(self).phase == next_phase(old(self).phase, event),
            action == action_after(old(self).phase, event, old(self).poll_interval),
            final(self).targets == old(self).targets,
            final(self).groups == old(self).groups,
            final(self).poll_interval == old(self).poll_interval,
            final(self).cursors == old(self).cursors,
    {
        let action = match (self.phase, event) {
            (WatchPhase::Terminated, _) => WatchAction::Stop,
            (_, WatchEvent::Cancelled) => WatchAction::Stop,
            (WatchPhase::Polling, WatchEvent::FetchSucceeded) => WatchAction::Sleep {
                seconds: self.poll_interval,
                persist: true,
            },
            (WatchPhase::Polling, WatchEvent::FetchFailed) => WatchAction::Sleep {
                seconds: self.poll_interval,
                persist: false,
            },
            (WatchPhase::Sleeping, WatchEvent::TimerElapsed) => WatchAction::Poll,
            (_, _) => WatchAction::Continue,
        };
        let next = match (self.phase, event) {
            (WatchPhase::Terminated, _) => WatchPhase::Terminated,
            (_, WatchEvent::Cancelled) => WatchPhase::Terminated,
            (WatchPhase::Polling, WatchEvent::FetchSucceeded) => WatchPhase::Sleeping,
            (WatchPhase::Polling, WatchEvent::FetchFailed) => WatchPhase::Sleeping,
            (WatchPhase::Sleeping, WatchEvent::TimerElapsed) => WatchPhase::Polling,
            (other, _) => other,
        };
        self.phase = next;
        action
    }

    /// What the caller has to do in the phase that the loop is in. For a
    /// session that has just started this is the first poll.
    pub fn due(&self) -> (action: WatchAction)
        ensures
            action == action_due(self.phase, self.poll_interval),
    {
        match self.phase {
            WatchPhase::Polling => WatchAction::Poll,
            WatchPhase::Sleeping => WatchAction::Sleep { seconds: self.poll_interval, persist: false },
            WatchPhase::Terminated => WatchAction::Stop,
        }
    }

    /// Whether the loop has ended.
    pub fn is_terminated(&self) -> (ended: bool)
        ensures
            ended == (self.phase == WatchPhase::Terminated),
    {
        match self.phase {
            WatchPhase::Terminated => true,
            _ => false,
        }
    }
}

/// Cancellation ends the loop at once, from every phase: the next phase is
/// `Terminated` and the caller is told to stop, so no poll cycle begins
/// after it.
pub proof fn lemma_cancellation_terminates(phase: WatchPhase, interval: u64)
    ensures
        next_phase(phase, WatchEvent::Cancelled) == WatchPhase::Terminated,
        action_after(phase, WatchEvent::Cancelled, interval) == WatchAction::Stop,
{
}

/// Once the loop has ended it stays ended, and it never asks for a poll
/// again, whatever happens.
pub proof fn lemma_terminated_is_final(events: Seq<WatchEvent>, event: WatchEvent, interval: u64)
    ensures
        phase_after(WatchPhase::Terminated, events) == WatchPhase::Terminated,
        action_after(phase_after(WatchPhase::Terminated, events), event, interval)
            == WatchAction::Stop,
    decreases events.len(),
{
    if events.len() > 0 {
        lemma_terminated_is_final(events.drop_last(), event, interval);
    }
}

/// The loop only ends by cancellation: a run of events without one never
/// reaches `Terminated` from another phase.
pub proof fn lemma_only_cancellation_terminates(phase: WatchPhase, events: Seq<WatchEvent>)
    requires
        phase != WatchPhase::Terminated,
        forall|i: int| 0 <= i < events.len() ==> events[i] != WatchEvent::Cancelled,
    ensures
        phase_after(phase, events) != WatchPhase::Terminated,
    decreases events.len(),
{
    if events.len() > 0 {
        lemma_only_cancellation_terminates(phase, events.drop_last());
    }
}

/// A poll is asked for in one case only: the timer has passed while the loop
/// was sleeping.
pub proof fn lemma_poll_only_after_sleep(phase: WatchPhase, event: WatchEvent, interval: u64)
    ensures
        action_after(phase, event, interval) == WatchAction::Poll <==> (phase
            == WatchPhase::Sleeping && event == WatchEvent::TimerElapsed),
{
}

/// A failed fetch does not end the loop: it leads to the next wait like a
/// fetch that succeeded, only that the cursors are not written out.
pub proof fn lemma_failed_fetch_goes_on(interval: u64)
    ensures
        next_phase(WatchPhase::Polling, WatchEvent::FetchFailed) == WatchPhase::Sleeping,
        action_after(WatchPhase::Polling, WatchEvent::FetchFailed, interval) == (
        WatchAction::Sleep { seconds: interval, persist: false }),
{
}

} // verus!
