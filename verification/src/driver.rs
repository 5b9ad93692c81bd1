use crate::events::NetEvent;
use crate::resource_id::ResourceId;
use vstd::prelude::*;

verus! {

/// What the event processor reports for one resource, before the
/// engine's callback turns it into an application event.
pub enum AdapterEvent {
    /// A peer was accepted at the given listener.
    Added(ResourceId),
    /// One decoded application payload.
    Data(Vec<u8>),
    /// The remote disconnected and was removed.
    Removed,
}

/// Translates a driver event into the application-facing network event,
/// as the engine's callback does before pushing onto the event queue.
pub fn net_event_from_adapter(ev: AdapterEvent) -> (r: NetEvent)
    ensures
        ev matches AdapterEvent::Added(listener) ==> r == NetEvent::Connected(listener),
        ev matches AdapterEvent::Data(payload) ==> r == NetEvent::Message(payload),
        ev is Removed ==> r == NetEvent::Disconnected,
{
    match ev {
        AdapterEvent::Added(listener) => NetEvent::Connected(listener),
        AdapterEvent::Data(payload) => NetEvent::Message(payload),
        AdapterEvent::Removed => NetEvent::Disconnected,
    }
}

/// The kinds of event one endpoint can observe, in the order the driver
/// emits them.
#[derive(Clone, Copy, PartialEq, Eq, Structural, Debug)]
pub enum LifeEvent {
    Connected,
    Data,
    Disconnected,
}

/// The shape every endpoint's event stream keeps: a `Connected` first,
/// then any number of `Data`, then at most one final `Disconnected` —
/// absent only while the endpoint is still alive.
pub open spec fn is_lifecycle(s: Seq<LifeEvent>) -> bool {
    s.len() == 0 || (s[0] == LifeEvent::Connected && forall|i: int|
        1 <= i < s.len() ==> s[i] == LifeEvent::Data || (i == s.len() - 1 && s[i]
            == LifeEvent::Disconnected))
}

#[derive(Clone, Copy, PartialEq, Eq, Structural, Debug)]
enum Phase {
    Fresh,
    Alive,
    Closed,
}

/// Tracks the events the driver emitted for one endpoint. The driver
/// announces the endpoint once, delivers data only while it is alive,
/// and closes it at most once; the recorded history therefore always
/// matches `Connected · Data* · Disconnected?`.
pub struct EndpointLifecycle {
    phase: Phase,
    history: Ghost<Seq<LifeEvent>>,
}

impl EndpointLifecycle {
    /// Every event emitted for this endpoint so far, in order.
    pub closed spec fn spec_history(self) -> Seq<LifeEvent> {
        self.history@
    }

    pub closed spec fn spec_fresh(self) -> bool {
        self.phase is Fresh
    }

    pub closed spec fn spec_alive(self) -> bool {
        self.phase is Alive
    }

    pub closed spec fn spec_closed(self) -> bool {
        self.phase is Closed
    }

    pub closed spec fn wf(self) -> bool {
        &&& (self.phase is Fresh ==> self.history@.len() == 0)
        &&& (self.phase is Alive ==> self.history@.len() >= 1 && self.history@[0]
            == LifeEvent::Connected && forall|i: int|
            1 <= i < self.history@.len() ==> self.history@[i] == LifeEvent::Data)
        &&& (self.phase is Closed ==> self.history@.len() >= 2 && self.history@[0]
            == LifeEvent::Connected && self.history@.last() == LifeEvent::Disconnected && forall|
            i: int,
        |
            1 <= i < self.history@.len() - 1 ==> self.history@[i] == LifeEvent::Data)
    }

    /// A new endpoint nothing was emitted for yet.
    pub fn new() -> (r: EndpointLifecycle)
        ensures
            r.wf(),
            r.spec_fresh(),
            r.spec_history() == Seq::<LifeEvent>::empty(),
    {
        EndpointLifecycle { phase: Phase::Fresh, history: Ghost(Seq::empty()) }
    }

    /// Records the one `Connected` that announces the endpoint.
    pub fn on_connected(&mut self)
        requires
            old(self).wf(),
            old(self).spec_fresh(),
        ensures
            final (self).wf(),
            final (self).spec_alive(),
            final (self).spec_history() == old(self).spec_history().push(LifeEvent::Connected),
    {
        self.phase = Phase::Alive;
        proof {
            self.history@ = self.history@.push(LifeEvent::Connected);
        }
    }

    /// Records one payload delivery; only an alive endpoint gets data.
    pub fn on_data(&mut self)
        requires
            old(self).wf(),
            old(self).spec_alive(),
        ensures
            final (self).wf(),
            final (self).spec_alive(),
            final (self).spec_history() == old(self).spec_history().push(LifeEvent::Data),
    {
        proof {
            self.history@ = self.history@.push(LifeEvent::Data);
        }
    }

    /// Records the final `Disconnected`; the endpoint is closed for good.
    pub fn on_disconnected(&mut self)
        requires
            old(self).wf(),
            old(self).spec_alive(),
        ensures
            final (self).wf(),
            final (self).spec_closed(),
            final (self).spec_history() == old(self).spec_history().push(
                LifeEvent::Disconnected,
            ),
    {
        self.phase = Phase::Closed;
        proof {
            self.history@ = self.history@.push(LifeEvent::Disconnected);
        }
    }
}

/// The event sequence on an endpoint matches
/// `Connected · Data* · Disconnected?`, the final `Disconnected` absent
/// exactly while the endpoint is alive (or the engine stopped first).
pub proof fn lemma_endpoint_event_stream_shape(lc: EndpointLifecycle)
    requires
        lc.wf(),
    ensures
        is_lifecycle(lc.spec_history()),
        lc.spec_closed() ==> lc.spec_history().last() == LifeEvent::Disconnected,
        lc.spec_alive() ==> forall|i: int|
            0 < i < lc.spec_history().len() ==> lc.spec_history()[i] != LifeEvent::Disconnected,
{
}

} // verus!
