//! The life of one connection: the order of its steps, what the handler
//! does at each, and where a failure leads.

use vstd::prelude::*;

verus! {

/// Pause between the steps of closing on the static content port, and
/// when a listener gives its socket back after a failed accept.
pub const STATIC_LINGER_MS: u64 = 500;

/// Pause between the steps of closing on the control port.
pub const CONTROL_LINGER_MS: u64 = 50;

/// The steps of closing a connection, in their order. A graceful close
/// alone can leave the socket half-open, so an abort follows it.
#[derive(Clone, Copy, Debug, PartialEq, Eq, Structural)]
pub enum DrainStep {
    /// Flush what is still to be sent.
    Flush,
    /// Pause before the graceful close.
    Linger,
    /// Close gracefully.
    Close,
    /// Pause before the abort.
    Settle,
    /// Abort.
    Abort,
}

/// Where a connection stands.
#[derive(Clone, Copy, Debug, PartialEq, Eq, Structural)]
pub enum ConnectionState {
    /// Waiting for a peer.
    Listening,
    /// A peer connected.
    Accepted,
    /// The request is being read.
    Reading,
    /// The request was read and parsed.
    Parsed,
    /// The request was handled and the response is composed.
    Dispatched,
    /// The response is being sent.
    Responding,
    /// The connection is being closed.
    Draining(DrainStep),
    /// The connection is closed.
    Closed,
}

/// What the handler does next.
#[derive(Clone, Copy, Debug, PartialEq, Eq, Structural)]
pub enum Action {
    /// Wait for a peer and accept it.
    Accept,
    /// Take a fresh pair of buffers.
    Prepare,
    /// Read the request up to the end of its headers and parse it.
    Read,
    /// Handle the request and compose the response.
    Dispatch,
    /// Send the composed response.
    SendHead,
    /// Send what follows the composed response, if anything does.
    SendBody,
    /// Flush the socket.
    Flush,
    /// Wait for this many milliseconds.
    Wait(u64),
    /// Close the socket gracefully.
    Close,
    /// Abort the socket.
    Abort,
    /// Go back to listening.
    Listen,
}

/// What the handler does in a state, with `linger_ms` as the pause between
/// the steps of closing.
pub open spec fn action_in(state: ConnectionState, linger_ms: u64) -> Action {
    match state {
        ConnectionState::Listening => Action::Accept,
        ConnectionState::Accepted => Action::Prepare,
        ConnectionState::Reading => Action::Read,
        ConnectionState::Parsed => Action::Dispatch,
        ConnectionState::Dispatched => Action::SendHead,
        ConnectionState::Responding => Action::SendBody,
        ConnectionState::Draining(DrainStep::Flush) => Action::Flush,
        ConnectionState::Draining(DrainStep::Linger) => Action::Wait(linger_ms),
        ConnectionState::Draining(DrainStep::Close) => Action::Close,
        ConnectionState::Draining(DrainStep::Settle) => Action::Wait(linger_ms),
        ConnectionState::Draining(DrainStep::Abort) => Action::Abort,
        ConnectionState::Closed => Action::Listen,
    }
}

/// The state after the action of `state` succeeded (`ok`) or failed.
///
/// A failed accept, read, parse or send leads straight to closing, without
/// a response. Closing goes through all of its steps whatever happens: a
/// failed flush does not stop it.
pub open spec fn next_state(state: ConnectionState, ok: bool) -> ConnectionState {
    match state {
        ConnectionState::Listening => if ok {
            ConnectionState::Accepted
        } else {
            ConnectionState::Draining(DrainStep::Flush)
        },
        ConnectionState::Accepted => ConnectionState::Reading,
        ConnectionState::Reading => if ok {
            ConnectionState::Parsed
        } else {
            ConnectionState::Draining(DrainStep::Flush)
        },
        ConnectionState::Parsed => ConnectionState::Dispatched,
        ConnectionState::Dispatched => if ok {
            ConnectionState::Responding
        } else {
            ConnectionState::Draining(DrainStep::Flush)
        },
        ConnectionState::Responding => ConnectionState::Draining(DrainStep::Flush),
        ConnectionState::Draining(DrainStep::Flush) => ConnectionState::Draining(DrainStep::Linger),
        ConnectionState::Draining(DrainStep::Linger) => ConnectionState::Draining(DrainStep::Close),
        ConnectionState::Draining(DrainStep::Close) => ConnectionState::Draining(DrainStep::Settle),
        ConnectionState::Draining(DrainStep::Settle) => ConnectionState::Draining(DrainStep::Abort),
        ConnectionState::Draining(DrainStep::Abort) => ConnectionState::Closed,
        ConnectionState::Closed => ConnectionState::Listening,
    }
}

/// The state after a run of actions with the given outcomes.
pub open spec fn run(state: ConnectionState, outcomes: Seq<bool>) -> ConnectionState
    decreases outcomes.len(),
{
    if outcomes.len() == 0 {
        state
    } else {
        next_state(run(state, outcomes.drop_last()), outcomes.last())
    }
}

/// What the handler does in `state`.
pub fn action(state: ConnectionState, linger_ms: u64) -> (r: Action)
    ensures
        r == action_in(state, linger_ms),
{
    match state {
        ConnectionState::Listening => Action::Accept,
        ConnectionState::Accepted => Action::Prepare,
        ConnectionState::Reading => Action::Read,
        ConnectionState::Parsed => Action::Dispatch,
        ConnectionState::Dispatched => Action::SendHead,
        ConnectionState::Responding => Action::SendBody,
        ConnectionState::Draining(step) => match step {
            DrainStep::Flush => Action::Flush,
            DrainStep::Linger => Action::Wait(linger_ms),
            DrainStep::Close => Action::Close,
            DrainStep::Settle => Action::Wait(linger_ms),
            DrainStep::Abort => Action::Abort,
        },
        ConnectionState::Closed => Action::Listen,
    }
}

/// The state after the action of `state` succeeded (`ok`) or failed.
pub fn step(state: ConnectionState, ok: bool) -> (r: ConnectionState)
    ensures
        r == next_state(state, ok),
{
    let closing = ConnectionState::Draining(DrainStep::Flush);
    match state {
        ConnectionState::Listening => if ok {
            ConnectionState::Accepted
        } else {
            closing
        },
        ConnectionState::Accepted => ConnectionState::Reading,
        ConnectionState::Reading => if ok {
            ConnectionState::Parsed
        } else {
            closing
        },
        ConnectionState::Parsed => ConnectionState::Dispatched,
        ConnectionState::Dispatched => if ok {
            ConnectionState::Responding
        } else {
            closing
        },
        ConnectionState::Responding => closing,
        ConnectionState::Draining(step) => match step {
            DrainStep::Flush => ConnectionState::Draining(DrainStep::Linger),
            DrainStep::Linger => ConnectionState::Draining(DrainStep::Close),
            DrainStep::Close => ConnectionState::Draining(DrainStep::Settle),
            DrainStep::Settle => ConnectionState::Draining(DrainStep::Abort),
            DrainStep::Abort => ConnectionState::Closed,
        },
        ConnectionState::Closed => ConnectionState::Listening,
    }
}

/// Once closing has begun it runs to the end: five actions later the
/// connection is closed, whatever their outcomes.
pub proof fn lemma_draining_closes(outcomes: Seq<bool>)
    requires
        outcomes.len() == 5,
    ensures
        run(ConnectionState::Draining(DrainStep::Flush), outcomes) == ConnectionState::Closed,
{
    reveal_with_fuel(run, 6);
    let start = ConnectionState::Draining(DrainStep::Flush);
    let o4 = outcomes.drop_last();
    let o3 = o4.drop_last();
    let o2 = o3.drop_last();
    let o1 = o2.drop_last();
    let o0 = o1.drop_last();
    assert(run(start, o0) == start);
    assert(run(start, o1) == ConnectionState::Draining(DrainStep::Linger));
    assert(run(start, o2) == ConnectionState::Draining(DrainStep::Close));
    assert(run(start, o3) == ConnectionState::Draining(DrainStep::Settle));
    assert(run(start, o4) == ConnectionState::Draining(DrainStep::Abort));
}

/// While a connection is being closed nothing is read, handled or sent:
/// the only actions are those of closing.
pub proof fn lemma_draining_only_closes(step: DrainStep, ok: bool, linger_ms: u64)
    ensures
        match action_in(ConnectionState::Draining(step), linger_ms) {
            Action::Flush | Action::Wait(_) | Action::Close | Action::Abort => true,
            _ => false,
        },
        next_state(ConnectionState::Draining(step), ok) is Draining || next_state(
            ConnectionState::Draining(step),
            ok,
        ) is Closed,
{
}

/// A failed accept, a failed read and a failed send each lead to closing
/// at once: after a failed read no response is composed or sent.
pub proof fn lemma_failure_starts_closing(state: ConnectionState)
    requires
        state is Listening || state is Reading || state is Dispatched,
    ensures
        next_state(state, false) == ConnectionState::Draining(DrainStep::Flush),
{
}

} // verus!
