//! The states of a node control connection and its test session.

use crate::error::{ErrorCode, NetToolError};
use vstd::prelude::*;

verus! {

/// The states of a connection and its session.
#[derive(Clone, Copy, Debug, PartialEq, Eq, Structural)]
pub enum NodeConnectionState {
    /// Not connected.
    Disconnected,
    /// The transport connects.
    Connecting,
    /// The TLS handshake runs.
    TlsHandshake,
    /// Hello messages are exchanged.
    Hello,
    /// The persistent identity is verified.
    Authenticating,
    /// Capabilities are exchanged.
    CapabilityNegotiation,
    /// Commands are accepted.
    Ready,
    /// A test is checked and its resources are reserved.
    Preparing,
    /// Both data planes are ready.
    TestReady,
    /// The test runs.
    Running,
    /// The final result is gathered.
    Finalizing,
    /// The test is complete.
    Completed,
    /// The connection or the test failed.
    Failed,
    /// The test was cancelled.
    Canceled,
}

impl NodeConnectionState {
    /// The name of the state.
    pub open spec fn name(self) -> Seq<char> {
        match self {
            NodeConnectionState::Disconnected => "Disconnected"@,
            NodeConnectionState::Connecting => "Connecting"@,
            NodeConnectionState::TlsHandshake => "TlsHandshake"@,
            NodeConnectionState::Hello => "Hello"@,
            NodeConnectionState::Authenticating => "Authenticating"@,
            NodeConnectionState::CapabilityNegotiation => "CapabilityNegotiation"@,
            NodeConnectionState::Ready => "Ready"@,
            NodeConnectionState::Preparing => "Preparing"@,
            NodeConnectionState::TestReady => "TestReady"@,
            NodeConnectionState::Running => "Running"@,
            NodeConnectionState::Finalizing => "Finalizing"@,
            NodeConnectionState::Completed => "Completed"@,
            NodeConnectionState::Failed => "Failed"@,
            NodeConnectionState::Canceled => "Canceled"@,
        }
    }

    fn name_of(self) -> (r: &'static str)
        ensures
            r@ == self.name(),
    {
        match self {
            NodeConnectionState::Disconnected => "Disconnected",
            NodeConnectionState::Connecting => "Connecting",
            NodeConnectionState::TlsHandshake => "TlsHandshake",
            NodeConnectionState::Hello => "Hello",
            NodeConnectionState::Authenticating => "Authenticating",
            NodeConnectionState::CapabilityNegotiation => "CapabilityNegotiation",
            NodeConnectionState::Ready => "Ready",
            NodeConnectionState::Preparing => "Preparing",
            NodeConnectionState::TestReady => "TestReady",
            NodeConnectionState::Running => "Running",
            NodeConnectionState::Finalizing => "Finalizing",
            NodeConnectionState::Completed => "Completed",
            NodeConnectionState::Failed => "Failed",
            NodeConnectionState::Canceled => "Canceled",
        }
    }
}

/// The state that follows when all goes well. A completed test makes the connection ready
/// again; what failed or was cancelled disconnects.
pub open spec fn successor(s: NodeConnectionState) -> NodeConnectionState {
    match s {
        NodeConnectionState::Disconnected => NodeConnectionState::Connecting,
        NodeConnectionState::Connecting => NodeConnectionState::TlsHandshake,
        NodeConnectionState::TlsHandshake => NodeConnectionState::Hello,
        NodeConnectionState::Hello => NodeConnectionState::Authenticating,
        NodeConnectionState::Authenticating => NodeConnectionState::CapabilityNegotiation,
        NodeConnectionState::CapabilityNegotiation => NodeConnectionState::Ready,
        NodeConnectionState::Ready => NodeConnectionState::Preparing,
        NodeConnectionState::Preparing => NodeConnectionState::TestReady,
        NodeConnectionState::TestReady => NodeConnectionState::Running,
        NodeConnectionState::Running => NodeConnectionState::Finalizing,
        NodeConnectionState::Finalizing => NodeConnectionState::Completed,
        NodeConnectionState::Completed => NodeConnectionState::Ready,
        NodeConnectionState::Failed => NodeConnectionState::Disconnected,
        NodeConnectionState::Canceled => NodeConnectionState::Disconnected,
    }
}

/// Whether a state may fail: all that are under way may.
pub open spec fn may_fail(s: NodeConnectionState) -> bool {
    !(s is Disconnected || s is Completed || s is Failed || s is Canceled)
}

/// Whether a state may be cancelled: a test from its preparation to its end may.
pub open spec fn may_cancel(s: NodeConnectionState) -> bool {
    s is Preparing || s is TestReady || s is Running || s is Finalizing
}

/// Whether one state may follow another.
pub open spec fn allowed(current: NodeConnectionState, next: NodeConnectionState) -> bool {
    ||| next == successor(current)
    ||| next is Failed && may_fail(current)
    ||| next is Canceled && may_cancel(current)
}

fn is_allowed(current: NodeConnectionState, next: NodeConnectionState) -> (r: bool)
    ensures
        r == allowed(current, next),
{
    match current {
        NodeConnectionState::Disconnected => matches!(next, NodeConnectionState::Connecting),
        NodeConnectionState::Connecting => matches!(
            next,
            NodeConnectionState::TlsHandshake | NodeConnectionState::Failed
        ),
        NodeConnectionState::TlsHandshake => matches!(
            next,
            NodeConnectionState::Hello | NodeConnectionState::Failed
        ),
        NodeConnectionState::Hello => matches!(
            next,
            NodeConnectionState::Authenticating | NodeConnectionState::Failed
        ),
        NodeConnectionState::Authenticating => matches!(
            next,
            NodeConnectionState::CapabilityNegotiation | NodeConnectionState::Failed
        ),
        NodeConnectionState::CapabilityNegotiation => matches!(
            next,
            NodeConnectionState::Ready | NodeConnectionState::Failed
        ),
        NodeConnectionState::Ready => matches!(
            next,
            NodeConnectionState::Preparing | NodeConnectionState::Failed
        ),
        NodeConnectionState::Preparing => matches!(
            next,
            NodeConnectionState::TestReady | NodeConnectionState::Failed
                | NodeConnectionState::Canceled
        ),
        NodeConnectionState::TestReady => matches!(
            next,
            NodeConnectionState::Running | NodeConnectionState::Failed
                | NodeConnectionState::Canceled
        ),
        NodeConnectionState::Running => matches!(
            next,
            NodeConnectionState::Finalizing | NodeConnectionState::Failed
                | NodeConnectionState::Canceled
        ),
        NodeConnectionState::Finalizing => matches!(
            next,
            NodeConnectionState::Completed | NodeConnectionState::Failed
                | NodeConnectionState::Canceled
        ),
        NodeConnectionState::Completed => matches!(next, NodeConnectionState::Ready),
        NodeConnectionState::Failed | NodeConnectionState::Canceled => matches!(
            next,
            NodeConnectionState::Disconnected
        ),
    }
}

/// A machine that takes legal transitions only.
#[derive(Debug)]
pub struct NodeStateMachine {
    state: NodeConnectionState,
}

impl View for NodeStateMachine {
    type V = NodeConnectionState;

    closed spec fn view(&self) -> NodeConnectionState {
        self.state
    }
}

impl NodeStateMachine {
    /// Creates a disconnected machine.
    #[must_use]
    pub fn new() -> (r: Self)
        ensures
            r@ == NodeConnectionState::Disconnected,
    {
        NodeStateMachine { state: NodeConnectionState::Disconnected }
    }

    /// Returns the current state.
    #[must_use]
    pub fn state(&self) -> (r: NodeConnectionState)
        ensures
            r == self@,
    {
        self.state
    }

    /// Takes a transition.
    ///
    /// # Errors
    ///
    /// Fails, and stays where it is, when the transition is not legal.
    pub fn transition(&mut self, next: NodeConnectionState) -> (r: Result<(), NetToolError>)
        ensures
            match r {
                Ok(_) => allowed(old(self)@, next) && final(self)@ == next,
                Err(e) => {
                    &&& !allowed(old(self)@, next)
                    &&& final(self)@ == old(self)@
                    &&& e.is(
                        ErrorCode::InvalidState,
                        "invalid node state transition: "@ + old(self)@.name() + " -> "@
                            + next.name(),
                        false,
                    )
                },
            },
    {
        if !is_allowed(self.state, next) {
            let mut message = "invalid node state transition: ".to_owned();
            message.append(self.state.name_of());
            message.append(" -> ");
            message.append(next.name_of());
            return Err(NetToolError::new(ErrorCode::InvalidState, message.as_str(), false));
        }
        self.state = next;
        Ok(())
    }
}

impl Default for NodeStateMachine {
    fn default() -> (r: Self)
        ensures
            r@ == NodeConnectionState::Disconnected,
    {
        NodeStateMachine::new()
    }
}

/// Whether a sequence of states is a run of the machine.
pub open spec fn is_run(states: Seq<NodeConnectionState>) -> bool {
    forall|i: int|
        0 <= i && i + 1 < states.len() ==> allowed(#[trigger] states[i], states[i + 1])
}

/// A test runs only after its preparation: in every run that begins disconnected, a running
/// state has a ready test right before it, and that one a preparation.
pub proof fn law_running_was_prepared(states: Seq<NodeConnectionState>, i: int)
    requires
        states.len() > 0,
        states[0] is Disconnected,
        is_run(states),
        0 <= i < states.len(),
        states[i] is Running,
    ensures
        i >= 2,
        states[i - 1] is TestReady,
        states[i - 2] is Preparing,
{
    assert(allowed(states[i - 1], states[i - 1 + 1]));
    assert(allowed(states[i - 2], states[i - 2 + 1]));
}

/// No command is accepted before the identity of the peer was verified and capabilities were
/// exchanged, in a run that begins disconnected.
pub proof fn law_ready_was_authenticated(states: Seq<NodeConnectionState>, i: int)
    requires
        states.len() > 0,
        states[0] is Disconnected,
        is_run(states),
        0 <= i < states.len(),
        states[i] is Ready,
    ensures
        exists|j: int|
            0 <= j && j + 1 < i && states[j] is Authenticating && #[trigger] states[j
                + 1] is CapabilityNegotiation,
    decreases i,
{
    assert(allowed(states[i - 1], states[i - 1 + 1]));
    if states[i - 1] is CapabilityNegotiation {
        assert(allowed(states[i - 2], states[i - 2 + 1]));
        let j = i - 2;
        assert(states[j + 1] is CapabilityNegotiation);
    } else {
        // a completed test: walk back to where the connection was ready before
        assert(allowed(states[i - 2], states[i - 2 + 1]));
        assert(allowed(states[i - 3], states[i - 3 + 1]));
        assert(allowed(states[i - 4], states[i - 4 + 1]));
        assert(allowed(states[i - 5], states[i - 5 + 1]));
        assert(allowed(states[i - 6], states[i - 6 + 1]));
        law_ready_was_authenticated(states, i - 6);
    }
}

/// A failed or cancelled connection can only disconnect.
pub proof fn law_failure_disconnects(current: NodeConnectionState, next: NodeConnectionState)
    requires
        current is Failed || current is Canceled,
    ensures
        allowed(current, next) <==> next is Disconnected,
{
}

/// Which states may follow each state: the next step where all goes well, the failure of what is
/// under way, and the cancellation of a test from its preparation to its end.
pub proof fn law_transitions(current: NodeConnectionState, next: NodeConnectionState)
    ensures
        allowed(current, next) <==> match current {
            NodeConnectionState::Disconnected => next is Connecting,
            NodeConnectionState::Connecting => next is TlsHandshake || next is Failed,
            NodeConnectionState::TlsHandshake => next is Hello || next is Failed,
            NodeConnectionState::Hello => next is Authenticating || next is Failed,
            NodeConnectionState::Authenticating => next is CapabilityNegotiation
                || next is Failed,
            NodeConnectionState::CapabilityNegotiation => next is Ready || next is Failed,
            NodeConnectionState::Ready => next is Preparing || next is Failed,
            NodeConnectionState::Preparing => next is TestReady || next is Failed
                || next is Canceled,
            NodeConnectionState::TestReady => next is Running || next is Failed
                || next is Canceled,
            NodeConnectionState::Running => next is Finalizing || next is Failed
                || next is Canceled,
            NodeConnectionState::Finalizing => next is Completed || next is Failed
                || next is Canceled,
            NodeConnectionState::Completed => next is Ready,
            NodeConnectionState::Failed => next is Disconnected,
            NodeConnectionState::Canceled => next is Disconnected,
        },
{
}

/// A test can be cancelled only while it can also fail, and no state follows itself.
pub proof fn law_cancelled_could_have_failed(current: NodeConnectionState)
    ensures
        allowed(current, NodeConnectionState::Canceled) ==> allowed(
            current,
            NodeConnectionState::Failed,
        ),
        !allowed(current, current),
{
}

} // verus!
