//! The inbound side: binding, and the loop that accepts connections and
//! hands each to a task of its own. The loop is a state machine: the
//! caller performs each action and reports what happened as the next
//! event.

use crate::error::{Error, OsErrorKind};
use vstd::prelude::*;

verus! {

/// How serving one connection ended.
#[derive(Clone, Copy, Debug, PartialEq, Eq, Structural)]
pub enum ServeEnd {
    /// The HTTP engine returned success.
    Completed,
    /// The HTTP engine returned an error.
    Failed {
        /// The cause of the error is that the peer is not connected.
        peer_not_connected: bool,
        /// The response had been handed over in full before the error.
        exchange_done: bool,
    },
}

/// What the caller of the loop reports to it.
#[derive(Clone, Copy, Debug, PartialEq, Eq, Structural)]
pub enum Event {
    /// An accept gave a connection.
    Accepted,
    /// An accept failed.
    AcceptFailed(OsErrorKind),
    /// A connection that had been handed to a task has ended.
    Ended(ServeEnd),
    /// Shutdown was asked for.
    Shutdown,
}

/// What the loop asks of its caller in answer to an event.
#[derive(Clone, Copy, Debug, PartialEq, Eq, Structural)]
pub enum Action {
    /// Hand the accepted connection to a new task.
    Spawn,
    /// Report this failure; nothing else changes.
    Report(Error),
    /// The connection was served; there is nothing to report.
    Served,
    /// Issue no further accept; let the connections in flight end.
    Drain,
}

/// The state of a serving loop, as numbers.
pub struct LoopModel {
    /// Whether the loop issues accepts.
    pub accepting: bool,
    /// How many connections have been handed out and have not ended.
    pub in_flight: nat,
}

/// What the end of a served connection is reported as: nothing after
/// success; a benign disconnect where the peer was merely gone after a
/// finished exchange; a serve failure for anything else.
pub open spec fn classify_end(end: ServeEnd) -> Option<Error> {
    match end {
        ServeEnd::Completed => None,
        ServeEnd::Failed { peer_not_connected, exchange_done } => if peer_not_connected
            && exchange_done {
            Some(Error::BenignDisconnect)
        } else {
            Some(Error::ServeFailure)
        },
    }
}

/// The action that answers an event.
pub open spec fn action_for(event: Event) -> Action {
    match event {
        Event::Accepted => Action::Spawn,
        Event::AcceptFailed(kind) => Action::Report(Error::AcceptFailure(kind)),
        Event::Ended(end) => match classify_end(end) {
            None => Action::Served,
            Some(e) => Action::Report(e),
        },
        Event::Shutdown => Action::Drain,
    }
}

/// The state after an event.
pub open spec fn next_state(state: LoopModel, event: Event) -> LoopModel {
    match event {
        Event::Accepted => LoopModel { accepting: state.accepting, in_flight: state.in_flight + 1 },
        Event::AcceptFailed(_) => state,
        Event::Ended(_) => LoopModel {
            accepting: state.accepting,
            in_flight: if state.in_flight > 0 {
                (state.in_flight - 1) as nat
            } else {
                0
            },
        },
        Event::Shutdown => LoopModel { accepting: false, in_flight: state.in_flight },
    }
}

/// The state after a run of events, in order.
pub open spec fn run(state: LoopModel, events: Seq<Event>) -> LoopModel
    decreases events.len(),
{
    if events.len() == 0 {
        state
    } else {
        next_state(run(state, events.drop_last()), events.last())
    }
}

/// How many of `events` are accepted connections.
pub open spec fn accepted(events: Seq<Event>) -> nat
    decreases events.len(),
{
    if events.len() == 0 {
        0
    } else if events.last() is Accepted {
        accepted(events.drop_last()) + 1
    } else {
        accepted(events.drop_last())
    }
}

/// How many of `events` are ends of connections.
pub open spec fn ended(events: Seq<Event>) -> nat
    decreases events.len(),
{
    if events.len() == 0 {
        0
    } else if events.last() is Ended {
        ended(events.drop_last()) + 1
    } else {
        ended(events.drop_last())
    }
}

/// Reports how serving one connection ended. See [`classify_end`].
pub fn classify(end: ServeEnd) -> (report: Option<Error>)
    ensures
        report == classify_end(end),
        report matches Some(e) ==> !e.is_returned(),
{
    match end {
        ServeEnd::Completed => None,
        ServeEnd::Failed { peer_not_connected, exchange_done } => if peer_not_connected
            && exchange_done {
            Some(Error::BenignDisconnect)
        } else {
            Some(Error::ServeFailure)
        },
    }
}

/// A serving loop over one bound socket.
#[derive(Debug)]
pub struct ServeLoop {
    accepting: bool,
    in_flight: usize,
}

impl View for ServeLoop {
    type V = LoopModel;

    closed spec fn view(&self) -> LoopModel {
        LoopModel { accepting: self.accepting, in_flight: self.in_flight as nat }
    }
}

impl ServeLoop {
    /// The loop over a socket that has just been bound: it accepts, and
    /// nothing is in flight.
    pub fn new() -> (serve: ServeLoop)
        ensures
            serve@ == (LoopModel { accepting: true, in_flight: 0 }),
    {
        ServeLoop { accepting: true, in_flight: 0 }
    }

    /// The loop for the outcome of binding a socket path, or a
    /// `BindFailure` that holds what the system said.
    pub fn bind(bound: Result<(), OsErrorKind>) -> (serve: Result<ServeLoop, Error>)
        ensures
            match bound {
                Ok(()) => serve matches Ok(s) && s@ == (LoopModel { accepting: true, in_flight: 0 }),
                Err(kind) => serve matches Err(e) && e == Error::BindFailure(kind),
            },
    {
        match bound {
            Ok(()) => Ok(ServeLoop::new()),
            Err(kind) => Err(Error::BindFailure(kind)),
        }
    }

    /// Whether the next thing to do is to accept a connection.
    pub fn wants_accept(&self) -> (wanted: bool)
        ensures
            wanted == self@.accepting,
    {
        self.accepting
    }

    /// How many connections are in flight.
    pub fn in_flight(&self) -> (n: usize)
        ensures
            n == self@.in_flight,
    {
        self.in_flight
    }

    /// Whether the loop is over: shutdown was asked for and every
    /// connection that was handed out has ended.
    pub fn is_finished(&self) -> (finished: bool)
        ensures
            finished == (!self@.accepting && self@.in_flight == 0),
    {
        !self.accepting && self.in_flight == 0
    }

    /// Takes one event and answers with the action for it.
    ///
    /// Only `Shutdown` stops the accepting; a failed accept and the end of
    /// a connection, however it ended, leave it as it was.
    pub fn step(&mut self, event: Event) -> (action: Action)
        requires
            event is Accepted ==> old(self)@.in_flight < usize::MAX,
        ensures
            final(self)@ == next_state(old(self)@, event),
            action == action_for(event),
    {
        match event {
            Event::Accepted => {
                self.in_flight = self.in_flight + 1;
                Action::Spawn
            },
            Event::AcceptFailed(kind) => Action::Report(Error::AcceptFailure(kind)),
            Event::Ended(end) => {
                if self.in_flight > 0 {
                    self.in_flight = self.in_flight - 1;
                }
                match classify(end) {
                    None => Action::Served,
                    Some(e) => Action::Report(e),
                }
            },
            Event::Shutdown => {
                self.accepting = false;
                Action::Drain
            },
        }
    }
}

/// No failure stops the loop: after any event but `Shutdown` the loop
/// accepts exactly if it did before.
pub proof fn lemma_only_shutdown_stops(state: LoopModel, event: Event)
    requires
        !(event is Shutdown),
    ensures
        next_state(state, event).accepting == state.accepting,
{
}

/// The same over any run of events: a loop that accepts still accepts
/// after the run, unless `Shutdown` was among the events.
pub proof fn lemma_accepting_until_shutdown(state: LoopModel, events: Seq<Event>)
    requires
        state.accepting,
        forall|i: int| 0 <= i < events.len() ==> !(#[trigger] events[i] is Shutdown),
    ensures
        run(state, events).accepting,
    decreases events.len(),
{
    if events.len() > 0 {
        let front = events.drop_last();
        assert forall|i: int| 0 <= i < front.len() implies !(#[trigger] front[i] is Shutdown) by {
            assert(front[i] == events[i]);
        }
        lemma_accepting_until_shutdown(state, front);
    }
}

/// Shutdown holds: once the loop has stopped accepting, no event makes it
/// accept again.
pub proof fn lemma_shutdown_is_final(state: LoopModel, events: Seq<Event>)
    requires
        !state.accepting,
    ensures
        !run(state, events).accepting,
    decreases events.len(),
{
    if events.len() > 0 {
        lemma_shutdown_is_final(state, events.drop_last());
    }
}

/// Every failure that the loop reports is one that stays with its accept
/// or its connection: none is returned to the caller of the loop.
pub proof fn lemma_reports_are_isolated(event: Event)
    ensures
        action_for(event) matches Action::Report(e) ==> !e.is_returned(),
        event is AcceptFailed ==> action_for(event) is Report,
        event is Accepted ==> action_for(event) is Spawn,
{
}

/// A peer that is gone after a finished exchange is a benign disconnect,
/// never a serve failure; any other error is a serve failure.
pub proof fn lemma_benign_disconnect(peer_not_connected: bool, exchange_done: bool)
    ensures
        classify_end(ServeEnd::Failed { peer_not_connected, exchange_done }) == Some(
            Error::BenignDisconnect,
        ) <==> peer_not_connected && exchange_done,
        classify_end(ServeEnd::Failed { peer_not_connected, exchange_done }) == Some(
            Error::ServeFailure,
        ) <==> !(peer_not_connected && exchange_done),
{
}

/// As long as no connection ends that was never handed out, the number in
/// flight is the number accepted less the number ended.
pub proof fn lemma_in_flight_count(state: LoopModel, events: Seq<Event>)
    requires
        forall|k: int|
            0 <= k <= events.len() ==> ended(#[trigger] events.take(k)) <= state.in_flight
                + accepted(events.take(k)),
    ensures
        run(state, events).in_flight == state.in_flight + accepted(events) - ended(events),
    decreases events.len(),
{
    if events.len() > 0 {
        let front = events.drop_last();
        assert forall|k: int| 0 <= k <= front.len() implies ended(#[trigger] front.take(k))
            <= state.in_flight + accepted(front.take(k)) by {
            assert(front.take(k) =~= events.take(k));
        }
        lemma_in_flight_count(state, front);
        assert(events.take(events.len() as int) =~= events);
        assert(events.take(events.len() - 1) =~= front);
    }
}

} // verus!
