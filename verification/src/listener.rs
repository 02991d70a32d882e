//! The owner's pipe listener, in its asynchronous (overlapped) form.
//!
//! The listener owns one pipe instance and drives it through an explicit
//! state machine with states `Connecting` and `Reading`. Each completion of
//! an overlapped operation wakes the loop, which feeds the completion into
//! [`PipeListener::on_event`] and performs the returned action. A client
//! that disconnects early or sends a malformed payload costs only its own
//! connection: the pipe is disconnected and immediately re-armed, so the
//! owner is never left unable to accept the next launch. The embedding
//! binary runs the loop on a dedicated background thread and hands each
//! delivered message to the application callback.

use vstd::prelude::*;
use crate::message::{prefix_until_nul, receive_spec, MessageError, MAX_PAYLOAD_LEN};

verus! {

/// The two states of one pipe instance.
#[derive(Clone, Copy, Debug, PartialEq, Eq, Structural)]
pub enum PipeState {
    /// A connect operation is armed; no client is attached yet.
    Connecting,
    /// A client is attached and a read of its single message is pending.
    Reading,
}

/// A completion handed to the listener by the I/O subsystem.
#[derive(Debug)]
pub enum IoEvent {
    /// The armed connect completed: a client is attached.
    ConnectCompleted,
    /// The pending read completed with the given payload bytes.
    ReadCompleted(Vec<u8>),
    /// The pending read failed, or completed with zero bytes: the client
    /// disconnected early.
    ReadFailed,
    /// The operation is still pending; nothing happened yet.
    OperationPending,
}

/// What the loop must do after feeding one event to the state machine.
#[derive(Debug)]
pub enum ListenerAction {
    /// Issue the overlapped read for the newly attached client.
    IssueRead,
    /// Hand this accepted message to the application callback, then
    /// disconnect the pipe instance and re-arm a connect.
    Deliver(Vec<u8>),
    /// Disconnect the pipe instance and re-arm a connect; the connection
    /// produced no message.
    Rearm,
    /// Wait again on the completion event.
    Wait,
}

/// The state the machine moves to on one event.
pub open spec fn next_state(state: PipeState, event: IoEvent) -> PipeState {
    match (state, event) {
        (PipeState::Connecting, IoEvent::ConnectCompleted) => PipeState::Reading,
        (PipeState::Reading, IoEvent::ReadCompleted(_)) => PipeState::Connecting,
        (PipeState::Reading, IoEvent::ReadFailed) => PipeState::Connecting,
        _ => state,
    }
}

/// The message one event delivers, if any: a read completion while reading,
/// whose payload the bounded-message rules accept.
pub open spec fn event_delivery(state: PipeState, event: IoEvent) -> Option<Seq<u8>> {
    match (state, event) {
        (PipeState::Reading, IoEvent::ReadCompleted(payload)) => match receive_spec(payload@) {
            Ok(message) => Some(message),
            Err(_) => None,
        },
        _ => None,
    }
}

/// All messages delivered when the machine processes `events` in order,
/// starting from `state`.
pub open spec fn delivered_from(state: PipeState, events: Seq<IoEvent>) -> Seq<Seq<u8>>
    decreases events.len(),
{
    if events.len() == 0 {
        Seq::empty()
    } else {
        let head = match event_delivery(state, events[0]) {
            Some(message) => seq![message],
            None => Seq::<Seq<u8>>::empty(),
        };
        head + delivered_from(next_state(state, events[0]), events.drop_first())
    }
}

/// One pipe instance and its connection state machine.
pub struct PipeListener {
    state: PipeState,
}

impl PipeListener {
    /// The current state of the pipe instance.
    pub closed spec fn spec_state(self) -> PipeState {
        self.state
    }

    /// A fresh listener: the pipe instance is created with a connect armed.
    pub fn new() -> (r: PipeListener)
        ensures
            r.spec_state() == PipeState::Connecting,
    {
        PipeListener { state: PipeState::Connecting }
    }

    /// Feeds one I/O completion into the state machine and returns the
    /// action the loop must perform. Every connection outcome — a message,
    /// an early disconnect, a rejected payload — puts the instance back
    /// into `Connecting`, so the next client can always be accepted.
    pub fn on_event(&mut self, event: IoEvent) -> (action: ListenerAction)
        ensures
            final(self).spec_state() == next_state(old(self).spec_state(), event),
            match event_delivery(old(self).spec_state(), event) {
                Some(message) => action matches ListenerAction::Deliver(m) && m@ == message,
                None => !(action matches ListenerAction::Deliver(_)),
            },
            (old(self).spec_state() == PipeState::Connecting && (event matches
            IoEvent::ConnectCompleted)) ==> (action matches ListenerAction::IssueRead),
            (old(self).spec_state() == PipeState::Reading && ((event matches IoEvent::ReadFailed)
                || (event matches IoEvent::ReadCompleted(p) && p@.len() > MAX_PAYLOAD_LEN))) ==> (
            action matches ListenerAction::Rearm),
            (event matches IoEvent::OperationPending) ==> (action matches ListenerAction::Wait),
    {
        match event {
            IoEvent::ConnectCompleted => {
                match self.state {
                    PipeState::Connecting => {
                        self.state = PipeState::Reading;
                        ListenerAction::IssueRead
                    },
                    PipeState::Reading => ListenerAction::Wait,
                }
            },
            IoEvent::ReadCompleted(payload) => {
                match self.state {
                    PipeState::Connecting => ListenerAction::Wait,
                    PipeState::Reading => {
                        self.state = PipeState::Connecting;
                        match crate::message::receive_message(&payload) {
                            Ok(message) => ListenerAction::Deliver(message),
                            Err(_) => ListenerAction::Rearm,
                        }
                    },
                }
            },
            IoEvent::ReadFailed => {
                match self.state {
                    PipeState::Connecting => ListenerAction::Wait,
                    PipeState::Reading => {
                        self.state = PipeState::Connecting;
                        ListenerAction::Rearm
                    },
                }
            },
            IoEvent::OperationPending => ListenerAction::Wait,
        }
    }

    /// Drives the machine over a whole sequence of completions and collects
    /// every delivered message, in completion order.
    pub fn run_events(&mut self, events: Vec<IoEvent>) -> (delivered: Vec<Vec<u8>>)
        ensures
            delivered@.map_values(|m: Vec<u8>| m@) == delivered_from(
                old(self).spec_state(),
                events@,
            ),
    {
        let ghost all_events = events@;
        let ghost start_state = self.spec_state();
        let mut delivered: Vec<Vec<u8>> = Vec::new();
        let mut events = events;
        while events.len() > 0
            invariant
                delivered@.map_values(|m: Vec<u8>| m@) + delivered_from(self.spec_state(), events@)
                    == delivered_from(start_state, all_events),
            decreases events.len(),
        {
            let ghost pre_state = self.spec_state();
            let ghost pre_events = events@;
            let ghost pre_delivered = delivered@;
            let event = events.remove(0);
            let action = self.on_event(event);
            match action {
                ListenerAction::Deliver(message) => {
                    delivered.push(message);
                },
                _ => {},
            }
            proof {
                assert(pre_events.drop_first() =~= events@);
                assert(delivered_from(pre_state, pre_events) == (match event_delivery(
                    pre_state,
                    pre_events[0],
                ) {
                    Some(message) => seq![message],
                    None => Seq::<Seq<u8>>::empty(),
                }) + delivered_from(self.spec_state(), events@));
                assert(delivered@.map_values(|m: Vec<u8>| m@) =~= pre_delivered.map_values(
                    |m: Vec<u8>| m@,
                ) + (match event_delivery(pre_state, pre_events[0]) {
                    Some(message) => seq![message],
                    None => Seq::<Seq<u8>>::empty(),
                }));
            }
        }
        proof {
            assert(delivered_from(self.spec_state(), events@) =~= Seq::<Seq<u8>>::empty());
            assert(delivered@.map_values(|m: Vec<u8>| m@) + Seq::<Seq<u8>>::empty()
                =~= delivered@.map_values(|m: Vec<u8>| m@));
        }
        delivered
    }
}

/// A client that disconnects mid-read costs nothing but its own connection:
/// the listener behaves on everything that follows exactly like a freshly
/// armed one, so the next, unrelated client is accepted without a restart.
pub proof fn lemma_recovers_after_disconnect(tail: Seq<IoEvent>)
    ensures
        delivered_from(PipeState::Reading, seq![IoEvent::ReadFailed] + tail) == delivered_from(
            PipeState::Connecting,
            tail,
        ),
{
    let events = seq![IoEvent::ReadFailed] + tail;
    assert(events[0] == IoEvent::ReadFailed);
    assert(events.drop_first() =~= tail);
}

/// An oversized payload is rejected without delivering anything and without
/// touching what follows: the listener behaves on the rest exactly like a
/// freshly armed one, so no later message is corrupted or lost.
pub proof fn lemma_oversized_isolated(big: Vec<u8>, tail: Seq<IoEvent>)
    requires
        big@.len() > MAX_PAYLOAD_LEN,
    ensures
        delivered_from(PipeState::Reading, seq![IoEvent::ReadCompleted(big)] + tail)
            == delivered_from(PipeState::Connecting, tail),
{
    let events = seq![IoEvent::ReadCompleted(big)] + tail;
    assert(events[0] == IoEvent::ReadCompleted(big));
    assert(events.drop_first() =~= tail);
    assert(receive_spec(big@) == Err::<Seq<u8>, MessageError>(MessageError::TooLong));
}

/// The completions of a burst of clients, each connecting and then having
/// its one message read, in the order the connects complete.
pub open spec fn client_session_events(payloads: Seq<Vec<u8>>) -> Seq<IoEvent>
    decreases payloads.len(),
{
    if payloads.len() == 0 {
        Seq::empty()
    } else {
        seq![IoEvent::ConnectCompleted, IoEvent::ReadCompleted(payloads[0])]
            + client_session_events(payloads.drop_first())
    }
}

/// No silent drops: when any number of clients launch against one owner and
/// each connect and read completes, every message is delivered to the
/// callback, in completion order.
pub proof fn lemma_all_clients_delivered(payloads: Seq<Vec<u8>>)
    requires
        forall|i: int| 0 <= i < payloads.len() ==> payloads[i]@.len() <= MAX_PAYLOAD_LEN,
    ensures
        delivered_from(PipeState::Connecting, client_session_events(payloads)).len()
            == payloads.len(),
        forall|i: int|
            0 <= i < payloads.len() ==> delivered_from(
                PipeState::Connecting,
                client_session_events(payloads),
            )[i] == prefix_until_nul(payloads[i]@),
    decreases payloads.len(),
{
    if payloads.len() == 0 {
    } else {
        let events = client_session_events(payloads);
        let after_connect = seq![IoEvent::ReadCompleted(payloads[0])] + client_session_events(
            payloads.drop_first(),
        );
        assert(events[0] == IoEvent::ConnectCompleted);
        assert(events.drop_first() =~= after_connect);
        assert(after_connect[0] == IoEvent::ReadCompleted(payloads[0]));
        assert(after_connect.drop_first() =~= client_session_events(payloads.drop_first()));
        assert(receive_spec(payloads[0]@) == Ok::<Seq<u8>, MessageError>(prefix_until_nul(
            payloads[0]@,
        )));
        lemma_all_clients_delivered(payloads.drop_first());
        let rest = delivered_from(
            PipeState::Connecting,
            client_session_events(payloads.drop_first()),
        );
        assert(delivered_from(PipeState::Reading, after_connect) == seq![prefix_until_nul(
            payloads[0]@,
        )] + rest);
        assert(delivered_from(PipeState::Connecting, events) == Seq::<Seq<u8>>::empty()
            + delivered_from(PipeState::Reading, after_connect));
        assert(delivered_from(PipeState::Connecting, events) =~= seq![prefix_until_nul(
            payloads[0]@,
        )] + rest);
        assert forall|i: int| 0 <= i < payloads.len() implies delivered_from(
            PipeState::Connecting,
            events,
        )[i] == prefix_until_nul(payloads[i]@) by {
            if i > 0 {
                assert(rest[i - 1] == prefix_until_nul(payloads.drop_first()[i - 1]@));
                assert(payloads.drop_first()[i - 1] == payloads[i]);
            }
        }
    }
}

} // verus!
