//! The local bridge server's protocol logic, as a state machine: validate a
//! client's session token, forward the validated client's events in arrival
//! order, and emit exactly one end marker per run.
//!
//! The surrounding listener (sockets, timeouts, the worker thread) performs
//! each returned action; every decision is made here.

use vstd::prelude::*;

use crate::events::{EndReason, LogEvent, LogEventView};
use crate::token::tokens_match;

verus! {

/// What the bridge has observed so far of its single logical client.
#[derive(Clone, Copy, Debug, PartialEq, Eq, Structural)]
pub enum BridgeState {
    /// No client has presented the configured token yet; the server keeps
    /// waiting, up to its bounded startup timeout.
    AwaitingHandshake,
    /// A client presented the configured token; its events are forwarded.
    Connected,
    /// The run is over; the end marker has been emitted and nothing further
    /// is accepted.
    Done(EndReason),
}

/// One thing the listener observed on the wire.
pub enum BridgeInput {
    /// A client opened a connection and presented this session token.
    Handshake(Vec<u8>),
    /// The connected client reported a log event.
    Event(LogEvent),
    /// The connected client sent the explicit finish frame.
    Finish,
    /// The connection closed without a finish frame.
    Disconnect,
    /// The bounded startup timeout elapsed.
    Timeout,
}

/// Mathematical model of a [`BridgeInput`].
pub enum BridgeInputView {
    Handshake(Seq<u8>),
    Event(LogEventView),
    Finish,
    Disconnect,
    Timeout,
}

impl View for BridgeInput {
    type V = BridgeInputView;

    open spec fn view(&self) -> BridgeInputView {
        match self {
            BridgeInput::Handshake(t) => BridgeInputView::Handshake(t@),
            BridgeInput::Event(e) => BridgeInputView::Event(e@),
            BridgeInput::Finish => BridgeInputView::Finish,
            BridgeInput::Disconnect => BridgeInputView::Disconnect,
            BridgeInput::Timeout => BridgeInputView::Timeout,
        }
    }
}

/// What the listener must do in response to an input.
pub enum BridgeAction {
    /// Nothing: the input does not concern the current state.
    Ignore,
    /// The token matched: keep the connection and stream its events.
    Accept,
    /// Token mismatch: reject the connection and keep waiting. Non-fatal.
    Reject,
    /// Push this event onto the message channel, in arrival order.
    Forward(LogEvent),
    /// Push the single end marker onto the message channel and stop.
    EmitEnd(EndReason),
}

/// Mathematical model of a [`BridgeAction`].
pub enum BridgeActionView {
    Ignore,
    Accept,
    Reject,
    Forward(LogEventView),
    EmitEnd(EndReason),
}

impl View for BridgeAction {
    type V = BridgeActionView;

    open spec fn view(&self) -> BridgeActionView {
        match self {
            BridgeAction::Ignore => BridgeActionView::Ignore,
            BridgeAction::Accept => BridgeActionView::Accept,
            BridgeAction::Reject => BridgeActionView::Reject,
            BridgeAction::Forward(e) => BridgeActionView::Forward(e@),
            BridgeAction::EmitEnd(r) => BridgeActionView::EmitEnd(*r),
        }
    }
}

/// Mathematical model of the bridge: the configured token, the connection
/// state, and every event forwarded onto the channel so far, in order.
pub struct BridgeView {
    pub expected: Seq<u8>,
    pub state: BridgeState,
    pub forwarded: Seq<LogEventView>,
}

/// A fresh bridge for a run correlated by `expected`.
pub open spec fn bridge_init(expected: Seq<u8>) -> BridgeView {
    BridgeView { expected: expected, state: BridgeState::AwaitingHandshake, forwarded: Seq::empty() }
}

/// One transition of the bridge's state machine.
///
/// Token validation is an exact, case-sensitive comparison. A mismatched
/// handshake is rejected and changes nothing, so a wrong client contributes
/// zero events. A timeout while still waiting ends the run with
/// `NoConnection`. Once `Done`, every input is ignored: exactly one end
/// marker is ever emitted.
pub open spec fn bridge_step(b: BridgeView, input: BridgeInputView) -> (BridgeView, BridgeActionView) {
    match b.state {
        BridgeState::Done(_) => (b, BridgeActionView::Ignore),
        BridgeState::AwaitingHandshake => match input {
            BridgeInputView::Handshake(t) => if t == b.expected {
                (
                    BridgeView { expected: b.expected, state: BridgeState::Connected, forwarded: b.forwarded },
                    BridgeActionView::Accept,
                )
            } else {
                (b, BridgeActionView::Reject)
            },
            BridgeInputView::Timeout => (
                BridgeView {
                    expected: b.expected,
                    state: BridgeState::Done(EndReason::NoConnection),
                    forwarded: b.forwarded,
                },
                BridgeActionView::EmitEnd(EndReason::NoConnection),
            ),
            _ => (b, BridgeActionView::Ignore),
        },
        BridgeState::Connected => match input {
            BridgeInputView::Event(e) => (
                BridgeView {
                    expected: b.expected,
                    state: BridgeState::Connected,
                    forwarded: b.forwarded.push(e),
                },
                BridgeActionView::Forward(e),
            ),
            BridgeInputView::Finish => (
                BridgeView {
                    expected: b.expected,
                    state: BridgeState::Done(EndReason::Finished),
                    forwarded: b.forwarded,
                },
                BridgeActionView::EmitEnd(EndReason::Finished),
            ),
            BridgeInputView::Disconnect => (
                BridgeView {
                    expected: b.expected,
                    state: BridgeState::Done(EndReason::Disconnected),
                    forwarded: b.forwarded,
                },
                BridgeActionView::EmitEnd(EndReason::Disconnected),
            ),
            _ => (b, BridgeActionView::Ignore),
        },
    }
}

/// The bridge server's decision core.
pub struct Bridge {
    pub expected: Vec<u8>,
    pub state: BridgeState,
    pub forwarded: Ghost<Seq<LogEventView>>,
}

impl Bridge {
    pub open spec fn view(&self) -> BridgeView {
        BridgeView { expected: self.expected@, state: self.state, forwarded: self.forwarded@ }
    }

    /// A fresh bridge configured with this run's session token.
    pub fn new(expected: Vec<u8>) -> (r: Bridge)
        ensures
            r@ == bridge_init(expected@),
    {
        let ghost v = expected@;
        let b = Bridge {
            expected,
            state: BridgeState::AwaitingHandshake,
            forwarded: Ghost(Seq::empty()),
        };
        proof {
            assert(b@ =~= bridge_init(v));
        }
        b
    }

    /// Consume one observation and decide what the listener must do.
    pub fn step(&mut self, input: BridgeInput) -> (action: BridgeAction)
        ensures
            (final(self)@, action@) == bridge_step(old(self)@, input@),
            final(self)@.expected == old(self)@.expected,
    {
        match self.state {
            BridgeState::Done(_) => BridgeAction::Ignore,
            BridgeState::AwaitingHandshake => match input {
                BridgeInput::Handshake(t) => {
                    if tokens_match(&self.expected, &t) {
                        self.state = BridgeState::Connected;
                        BridgeAction::Accept
                    } else {
                        BridgeAction::Reject
                    }
                },
                BridgeInput::Timeout => {
                    self.state = BridgeState::Done(EndReason::NoConnection);
                    BridgeAction::EmitEnd(EndReason::NoConnection)
                },
                _ => BridgeAction::Ignore,
            },
            BridgeState::Connected => match input {
                BridgeInput::Event(e) => {
                    proof {
                        self.forwarded@ = self.forwarded@.push(e@);
                    }
                    BridgeAction::Forward(e)
                },
                BridgeInput::Finish => {
                    self.state = BridgeState::Done(EndReason::Finished);
                    BridgeAction::EmitEnd(EndReason::Finished)
                },
                BridgeInput::Disconnect => {
                    self.state = BridgeState::Done(EndReason::Disconnected);
                    BridgeAction::EmitEnd(EndReason::Disconnected)
                },
                _ => BridgeAction::Ignore,
            },
        }
    }
}

/// The bridge's state after consuming `inputs` in order.
pub open spec fn bridge_run(b: BridgeView, inputs: Seq<BridgeInputView>) -> BridgeView
    decreases inputs.len(),
{
    if inputs.len() == 0 {
        b
    } else {
        bridge_run(bridge_step(b, inputs[0]).0, inputs.skip(1))
    }
}

/// The actions a run of the bridge produces, in order, one per input.
pub open spec fn bridge_actions(b: BridgeView, inputs: Seq<BridgeInputView>) -> Seq<
    BridgeActionView,
>
    decreases inputs.len(),
{
    if inputs.len() == 0 {
        Seq::empty()
    } else {
        seq![bridge_step(b, inputs[0]).1] + bridge_actions(
            bridge_step(b, inputs[0]).0,
            inputs.skip(1),
        )
    }
}

/// How many of the actions emit an end marker.
pub open spec fn count_end_markers(actions: Seq<BridgeActionView>) -> nat
    decreases actions.len(),
{
    if actions.len() == 0 {
        0
    } else {
        (if actions[0] is EmitEnd {
            1nat
        } else {
            0nat
        }) + count_end_markers(actions.skip(1))
    }
}

pub proof fn lemma_bridge_actions_len(b: BridgeView, inputs: Seq<BridgeInputView>)
    ensures
        bridge_actions(b, inputs).len() == inputs.len(),
    decreases inputs.len(),
{
    if inputs.len() > 0 {
        lemma_bridge_actions_len(bridge_step(b, inputs[0]).0, inputs.skip(1));
    }
}

/// A finished bridge does nothing: every action after `Done` is `Ignore`.
pub proof fn lemma_done_bridge_only_ignores(b: BridgeView, inputs: Seq<BridgeInputView>)
    requires
        b.state is Done,
    ensures
        forall|i: int|
            0 <= i < inputs.len() ==> bridge_actions(b, inputs)[i] == BridgeActionView::Ignore,
        count_end_markers(bridge_actions(b, inputs)) == 0,
    decreases inputs.len(),
{
    if inputs.len() > 0 {
        lemma_done_bridge_only_ignores(b, inputs.skip(1));
        let acts = bridge_actions(b, inputs);
        let rest = bridge_actions(b, inputs.skip(1));
        lemma_bridge_actions_len(b, inputs.skip(1));
        assert(acts == seq![BridgeActionView::Ignore] + rest);
        assert(acts.skip(1) =~= rest);
        assert(forall|i: int|
            1 <= i < inputs.len() ==> (seq![BridgeActionView::Ignore] + rest)[i] == rest[i - 1]);
        assert(forall|i: int| 1 <= i < inputs.len() ==> acts[i] == rest[i - 1]);
    }
}

/// The message channel's discipline: over any whole run, the bridge emits at
/// most one end marker, and once it has, every later action is `Ignore` — in
/// particular, no event is forwarded after the end marker.
pub proof fn lemma_exactly_one_end_marker(b: BridgeView, inputs: Seq<BridgeInputView>)
    ensures
        count_end_markers(bridge_actions(b, inputs)) <= 1,
        forall|i: int, j: int|
            0 <= i < j < inputs.len() && bridge_actions(b, inputs)[i] is EmitEnd ==> bridge_actions(
                b,
                inputs,
            )[j] == BridgeActionView::Ignore,
    decreases inputs.len(),
{
    if b.state is Done {
        lemma_done_bridge_only_ignores(b, inputs);
    } else if inputs.len() > 0 {
        let (b1, a1) = bridge_step(b, inputs[0]);
        let acts = bridge_actions(b, inputs);
        let rest = bridge_actions(b1, inputs.skip(1));
        lemma_bridge_actions_len(b1, inputs.skip(1));
        assert(acts == seq![a1] + rest);
        assert(acts.skip(1) =~= rest);
        assert(forall|i: int| 1 <= i < inputs.len() ==> (seq![a1] + rest)[i] == rest[i - 1]);
        assert(forall|i: int| 1 <= i < inputs.len() ==> acts[i] == rest[i - 1]);
        if a1 is EmitEnd {
            lemma_done_bridge_only_ignores(b1, inputs.skip(1));
        } else {
            lemma_exactly_one_end_marker(b1, inputs.skip(1));
        }
    }
}

/// Whether an input is a handshake presenting exactly the token `expected`.
pub open spec fn is_valid_handshake(input: BridgeInputView, expected: Seq<u8>) -> bool {
    match input {
        BridgeInputView::Handshake(t) => t == expected,
        _ => false,
    }
}

/// A client that never presents the configured token contributes zero events
/// to the message channel: from the waiting state, any sequence of inputs
/// without a valid handshake forwards nothing, and the bridge is still either
/// waiting or timed out.
pub proof fn lemma_mismatched_client_forwards_nothing(b: BridgeView, inputs: Seq<BridgeInputView>)
    requires
        b.state == BridgeState::AwaitingHandshake || b.state == BridgeState::Done(
            EndReason::NoConnection,
        ),
        forall|i: int| 0 <= i < inputs.len() ==> !is_valid_handshake(inputs[i], b.expected),
    ensures
        bridge_run(b, inputs).forwarded == b.forwarded,
        bridge_run(b, inputs).state == BridgeState::AwaitingHandshake || bridge_run(
            b,
            inputs,
        ).state == BridgeState::Done(EndReason::NoConnection),
    decreases inputs.len(),
{
    if inputs.len() > 0 {
        let (b1, _) = bridge_step(b, inputs[0]);
        assert(!is_valid_handshake(inputs[0], b.expected));
        assert(b1.forwarded == b.forwarded);
        assert(b1.expected == b.expected);
        assert(forall|i: int|
            0 <= i < inputs.skip(1).len() ==> inputs.skip(1)[i] == inputs[i + 1]);
        lemma_mismatched_client_forwards_nothing(b1, inputs.skip(1));
    }
}

/// Whether some input in the sequence is the startup timeout.
pub open spec fn has_timeout(inputs: Seq<BridgeInputView>) -> bool {
    exists|i: int| 0 <= i < inputs.len() && inputs[i] is Timeout
}

/// If no valid client ever connects and the startup timeout fires, the run
/// ends in the `NoConnection` outcome — the bridge emits the end marker
/// rather than waiting forever.
pub proof fn lemma_timeout_yields_no_connection(b: BridgeView, inputs: Seq<BridgeInputView>)
    requires
        b.state == BridgeState::AwaitingHandshake || b.state == BridgeState::Done(
            EndReason::NoConnection,
        ),
        forall|i: int| 0 <= i < inputs.len() ==> !is_valid_handshake(inputs[i], b.expected),
        has_timeout(inputs) || b.state == BridgeState::Done(EndReason::NoConnection),
    ensures
        bridge_run(b, inputs).state == BridgeState::Done(EndReason::NoConnection),
        bridge_run(b, inputs).forwarded == b.forwarded,
    decreases inputs.len(),
{
    lemma_mismatched_client_forwards_nothing(b, inputs);
    if inputs.len() > 0 {
        let (b1, _) = bridge_step(b, inputs[0]);
        assert(forall|i: int|
            0 <= i < inputs.skip(1).len() ==> inputs.skip(1)[i] == inputs[i + 1]);
        if b.state == BridgeState::Done(EndReason::NoConnection) || inputs[0] is Timeout {
            lemma_timeout_yields_no_connection(b1, inputs.skip(1));
        } else {
            let i = choose|i: int| 0 <= i < inputs.len() && inputs[i] is Timeout;
            assert(inputs.skip(1)[i - 1] is Timeout);
            lemma_timeout_yields_no_connection(b1, inputs.skip(1));
        }
    }
}

} // verus!
