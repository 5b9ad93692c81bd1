use crate::endpoint::Endpoint;
use crate::resource_id::ResourceId;
use vstd::prelude::*;

verus! {

/// How long `pop_event` consumers may wait before synthesizing `Idle`,
/// and the bound on the poll wakeup used by the engine's event loop.
pub const SAMPLING_TIMEOUT_MS: u64 = 50;

/// A typed network event, as the engine's callback delivers it.
#[derive(Clone, PartialEq, Eq, Debug)]
pub enum NetEvent {
    /// A peer was accepted at the given listener.
    Connected(ResourceId),
    /// One application payload.
    Message(Vec<u8>),
    /// The peer closed or a fatal error removed the resource.
    Disconnected,
}

/// What the application pops from the queue.
#[derive(Clone, PartialEq, Eq, Debug)]
pub enum Event<S> {
    /// Delivered exactly once, on the first pop.
    Start,
    /// Pushed by the engine's event-processing thread.
    Network(Endpoint, NetEvent),
    /// Pushed by the application, immediately or at a deadline.
    Signal(S),
    /// Synthesized by the consumer when nothing else was available for a
    /// whole sampling window.
    Idle,
}

/// An entry of the immediate FIFO.
#[derive(Clone, PartialEq, Eq, Debug)]
pub enum QueueEntry<S> {
    Network(Endpoint, NetEvent),
    Signal(S),
}

/// A timed signal waiting for its deadline. `seq` is the push order, used
/// to break deadline ties first-pushed-first.
#[derive(Clone, PartialEq, Eq, Debug)]
pub struct TimedEntry<S> {
    pub deadline_ms: u64,
    pub seq: u64,
    pub signal: S,
}

/// The mathematical state of an event queue.
#[verifier::ext_equal]
pub struct QueueModel<S> {
    pub start_pending: bool,
    pub immediate: Seq<QueueEntry<S>>,
    pub timed: Seq<TimedEntry<S>>,
    pub next_seq: u64,
}

/// Timed-entry order: by deadline, ties by push order.
pub open spec fn entry_earlier<S>(a: TimedEntry<S>, b: TimedEntry<S>) -> bool {
    a.deadline_ms < b.deadline_ms || (a.deadline_ms == b.deadline_ms && a.seq < b.seq)
}

/// A timed entry whose deadline has arrived.
pub open spec fn entry_ripe<S>(e: TimedEntry<S>, now_ms: u64) -> bool {
    e.deadline_ms <= now_ms
}

/// The index of the first earliest ripe entry among `ts[0 .. n]`.
pub open spec fn min_ripe_upto<S>(ts: Seq<TimedEntry<S>>, now_ms: u64, n: int) -> Option<int>
    decreases n,
{
    if n <= 0 || n > ts.len() {
        None
    } else {
        let prev = min_ripe_upto(ts, now_ms, n - 1);
        if !entry_ripe(ts[n - 1], now_ms) {
            prev
        } else {
            match prev {
                None => Some(n - 1),
                Some(j) => if entry_earlier(ts[n - 1], ts[j]) {
                    Some(n - 1)
                } else {
                    Some(j)
                },
            }
        }
    }
}

/// What `min_ripe_upto` finds: a ripe entry no other ripe entry beats.
pub proof fn lemma_min_ripe_props<S>(ts: Seq<TimedEntry<S>>, now_ms: u64, n: int)
    requires
        n <= ts.len(),
    ensures
        min_ripe_upto(ts, now_ms, n) is None ==> forall|k: int|
            0 <= k < n ==> !entry_ripe(#[trigger] ts[k], now_ms),
        min_ripe_upto(ts, now_ms, n) matches Some(j) ==> 0 <= j < n && entry_ripe(ts[j], now_ms)
            && forall|k: int|
            0 <= k < n && entry_ripe(#[trigger] ts[k], now_ms) ==> !entry_earlier(ts[k], ts[j]),
    decreases n,
{
    if n > 0 {
        lemma_min_ripe_props(ts, now_ms, n - 1);
    }
}

/// Removes the ripe entries, earliest first; returns what remains (in its
/// original order) and what was taken (in delivery order).
pub open spec fn spec_drain<S>(ts: Seq<TimedEntry<S>>, now_ms: u64) -> (
    Seq<TimedEntry<S>>,
    Seq<TimedEntry<S>>,
)
    decreases ts.len(),
    via spec_drain_decreases::<S>
{
    match min_ripe_upto(ts, now_ms, ts.len() as int) {
        None => (ts, seq![]),
        Some(i) => {
            let rest = spec_drain(ts.remove(i), now_ms);
            (rest.0, seq![ts[i]] + rest.1)
        },
    }
}

#[via_fn]
proof fn spec_drain_decreases<S>(ts: Seq<TimedEntry<S>>, now_ms: u64) {
    lemma_min_ripe_props(ts, now_ms, ts.len() as int);
}

pub open spec fn spec_event_of<S>(e: QueueEntry<S>) -> Event<S> {
    match e {
        QueueEntry::Network(ep, ne) => Event::Network(ep, ne),
        QueueEntry::Signal(s) => Event::Signal(s),
    }
}

/// Distinct push orders, all older than the next one to issue.
pub open spec fn spec_queue_wf<S>(m: QueueModel<S>) -> bool {
    &&& forall|i: int, j: int|
        0 <= i < j < m.timed.len() ==> (#[trigger] m.timed[i]).seq != (#[trigger] m.timed[j]).seq
    &&& forall|i: int| 0 <= i < m.timed.len() ==> (#[trigger] m.timed[i]).seq < m.next_seq
}

pub open spec fn spec_new_queue<S>() -> QueueModel<S> {
    QueueModel {
        start_pending: true,
        immediate: Seq::empty(),
        timed: Seq::empty(),
        next_seq: 0,
    }
}

pub open spec fn spec_push_immediate<S>(m: QueueModel<S>, e: QueueEntry<S>) -> QueueModel<S> {
    QueueModel {
        start_pending: m.start_pending,
        immediate: m.immediate.push(e),
        timed: m.timed,
        next_seq: m.next_seq,
    }
}

pub open spec fn spec_push_timed<S>(m: QueueModel<S>, signal: S, deadline_ms: u64) -> QueueModel<
    S,
>
    recommends
        m.next_seq < u64::MAX,
{
    QueueModel {
        start_pending: m.start_pending,
        immediate: m.immediate,
        timed: m.timed.push(TimedEntry { deadline_ms, seq: m.next_seq, signal }),
        next_seq: (m.next_seq + 1) as u64,
    }
}

/// One pop: the start latch first; then the ripe timed signals move to
/// the back of the immediate FIFO, earliest deadline first; then the FIFO
/// head is delivered. `None` means no event is available at `now_ms`.
pub open spec fn spec_pop<S>(m: QueueModel<S>, now_ms: u64) -> (QueueModel<S>, Option<Event<S>>) {
    if m.start_pending {
        (
            QueueModel {
                start_pending: false,
                immediate: m.immediate,
                timed: m.timed,
                next_seq: m.next_seq,
            },
            Some(Event::Start),
        )
    } else {
        let drained = spec_drain(m.timed, now_ms);
        let imm2 = m.immediate + drained.1.map_values(
            |e: TimedEntry<S>| QueueEntry::Signal(e.signal),
        );
        if imm2.len() > 0 {
            (
                QueueModel {
                    start_pending: false,
                    immediate: imm2.drop_first(),
                    timed: drained.0,
                    next_seq: m.next_seq,
                },
                Some(spec_event_of(imm2[0])),
            )
        } else {
            (
                QueueModel {
                    start_pending: false,
                    immediate: m.immediate,
                    timed: drained.0,
                    next_seq: m.next_seq,
                },
                None,
            )
        }
    }
}

/// Something would come out of a pop at `now_ms`.
pub open spec fn spec_event_available<S>(m: QueueModel<S>, now_ms: u64) -> bool {
    ||| m.start_pending
    ||| m.immediate.len() > 0
    ||| exists|i: int| 0 <= i < m.timed.len() && entry_ripe(#[trigger] m.timed[i], now_ms)
}

/// FIFO delivery of immediate signals: on a queue past its `Start` with an
/// empty immediate FIFO, pushing signal `a` and then signal `b` makes the
/// next two pops deliver `Signal(a)` and then `Signal(b)`, whatever timed
/// signals ripen in between — ripe timed signals join behind the FIFO.
pub proof fn lemma_signal_fifo<S>(m: QueueModel<S>, a: S, b: S, now1_ms: u64, now2_ms: u64)
    requires
        !m.start_pending,
        m.immediate.len() == 0,
    ensures
        ({
            let m1 = spec_push_immediate(spec_push_immediate(m, QueueEntry::Signal(a)),
                QueueEntry::Signal(b));
            let pop1 = spec_pop(m1, now1_ms);
            let pop2 = spec_pop(pop1.0, now2_ms);
            pop1.1 == Some(Event::Signal(a)) && pop2.1 == Some(Event::Signal(b))
        }),
{
    let m1 = spec_push_immediate(spec_push_immediate(m, QueueEntry::Signal(a)),
        QueueEntry::Signal(b));
    let d1 = spec_drain(m1.timed, now1_ms).1.map_values(
        |e: TimedEntry<S>| QueueEntry::Signal(e.signal),
    );
    let imm2 = m1.immediate + d1;
    assert(imm2[0] == QueueEntry::Signal(a));
    let pop1 = spec_pop(m1, now1_ms);
    assert(pop1.0.immediate =~= seq![QueueEntry::Signal(b)] + d1);
    let d2 = spec_drain(pop1.0.timed, now2_ms).1.map_values(
        |e: TimedEntry<S>| QueueEntry::Signal(e.signal),
    );
    let imm3 = pop1.0.immediate + d2;
    assert(imm3[0] == QueueEntry::Signal(b));
}

/// Timed signals are delivered by deadline: on an otherwise empty queue
/// past its `Start`, a signal `a` scheduled for a later deadline than a
/// signal `b` scheduled after it is popped after it, once both deadlines
/// have arrived.
pub proof fn lemma_timed_signal_order<S>(
    m: QueueModel<S>,
    a: S,
    b: S,
    deadline_a_ms: u64,
    deadline_b_ms: u64,
    now1_ms: u64,
    now2_ms: u64,
)
    requires
        !m.start_pending,
        m.immediate.len() == 0,
        m.timed.len() == 0,
        m.next_seq < u64::MAX,
        deadline_b_ms < deadline_a_ms,
        deadline_a_ms <= now1_ms,
    ensures
        ({
            let m1 = spec_push_timed(m, a, deadline_a_ms);
            let m2 = spec_push_timed(m1, b, deadline_b_ms);
            let pop1 = spec_pop(m2, now1_ms);
            let pop2 = spec_pop(pop1.0, now2_ms);
            pop1.1 == Some(Event::Signal(b)) && pop2.1 == Some(Event::Signal(a))
        }),
{
    let ea = TimedEntry { deadline_ms: deadline_a_ms, seq: m.next_seq, signal: a };
    let eb = TimedEntry { deadline_ms: deadline_b_ms, seq: (m.next_seq + 1) as u64, signal: b };
    let m2 = spec_push_timed(spec_push_timed(m, a, deadline_a_ms), b, deadline_b_ms);
    let ts = m2.timed;
    assert(ts =~= seq![ea, eb]);
    assert(min_ripe_upto(ts, now1_ms, 0) is None);
    assert(min_ripe_upto(ts, now1_ms, 1) == Some(0int));
    assert(entry_earlier(eb, ea));
    assert(min_ripe_upto(ts, now1_ms, 2) == Some(1int));
    let ts1 = ts.remove(1);
    assert(ts1 =~= seq![ea]);
    assert(min_ripe_upto(ts1, now1_ms, 0) is None);
    assert(min_ripe_upto(ts1, now1_ms, 1) == Some(0int));
    let ts2 = ts1.remove(0);
    assert(ts2 =~= Seq::<TimedEntry<S>>::empty());
    assert(min_ripe_upto(ts2, now1_ms, 0) is None);
    assert(spec_drain(ts2, now1_ms) == (ts2, Seq::<TimedEntry<S>>::empty()));
    assert(spec_drain(ts1, now1_ms).1 =~= seq![ea]);
    assert(spec_drain(ts, now1_ms).1 =~= seq![eb, ea]);
    let f = |e: TimedEntry<S>| QueueEntry::Signal(e.signal);
    let imm2 = m2.immediate + spec_drain(ts, now1_ms).1.map_values(f);
    assert(imm2 =~= seq![QueueEntry::Signal(b), QueueEntry::Signal(a)]);
    let pop1 = spec_pop(m2, now1_ms);
    assert(pop1.1 == Some(Event::Signal(b)));
    assert(pop1.0.immediate =~= seq![QueueEntry::Signal(a)]);
    assert(pop1.0.timed =~= Seq::<TimedEntry<S>>::empty());
    assert(min_ripe_upto(pop1.0.timed, now2_ms, 0) is None);
    let imm3 = pop1.0.immediate + spec_drain(pop1.0.timed, now2_ms).1.map_values(f);
    assert(imm3[0] == QueueEntry::Signal(a));
}

/// Everything a drain takes was ripe, and is an entry of the queue it
/// was taken from.
pub proof fn lemma_drained_entries<S>(ts: Seq<TimedEntry<S>>, now_ms: u64)
    ensures
        forall|k: int|
            0 <= k < spec_drain(ts, now_ms).1.len() ==> entry_ripe(
                #[trigger] spec_drain(ts, now_ms).1[k],
                now_ms,
            ) && ts.contains(spec_drain(ts, now_ms).1[k]),
    decreases ts.len(),
{
    lemma_min_ripe_props(ts, now_ms, ts.len() as int);
    match min_ripe_upto(ts, now_ms, ts.len() as int) {
        None => {},
        Some(i) => {
            let rest = ts.remove(i);
            ts.remove_ensures(i);
            lemma_drained_entries(rest, now_ms);
            let drained = spec_drain(ts, now_ms).1;
            assert forall|k: int| 0 <= k < drained.len() implies entry_ripe(
                #[trigger] drained[k],
                now_ms,
            ) && ts.contains(drained[k]) by {
                if k == 0 {
                    assert(drained[0] == ts[i]);
                } else {
                    let e = spec_drain(rest, now_ms).1[k - 1];
                    assert(entry_ripe(e, now_ms) && rest.contains(e));
                    let m = choose|m: int| 0 <= m < rest.len() && rest[m] == e;
                    if m < i {
                        assert(ts[m] == e);
                    } else {
                        assert(ts[m + 1] == e);
                    }
                }
            }
        },
    }
}

/// The general delivery order of timed signals: a drain hands them out
/// earliest deadline first, deadline ties broken by push order — no later
/// entry of the drained sequence beats an earlier one.
pub proof fn lemma_drain_delivery_order<S>(ts: Seq<TimedEntry<S>>, now_ms: u64)
    ensures
        forall|i: int, j: int|
            0 <= i < j < spec_drain(ts, now_ms).1.len() ==> !entry_earlier(
                #[trigger] spec_drain(ts, now_ms).1[j],
                #[trigger] spec_drain(ts, now_ms).1[i],
            ),
    decreases ts.len(),
{
    lemma_min_ripe_props(ts, now_ms, ts.len() as int);
    match min_ripe_upto(ts, now_ms, ts.len() as int) {
        None => {},
        Some(m) => {
            let rest = ts.remove(m);
            ts.remove_ensures(m);
            lemma_drain_delivery_order(rest, now_ms);
            lemma_drained_entries(rest, now_ms);
            let drained = spec_drain(ts, now_ms).1;
            assert forall|i: int, j: int| 0 <= i < j < drained.len() implies !entry_earlier(
                #[trigger] drained[j],
                #[trigger] drained[i],
            ) by {
                if i == 0 {
                    let e = spec_drain(rest, now_ms).1[j - 1];
                    assert(drained[j] == e);
                    assert(entry_ripe(e, now_ms) && rest.contains(e));
                    let k = choose|k: int| 0 <= k < rest.len() && rest[k] == e;
                    if k < m {
                        assert(ts[k] == e);
                        assert(!entry_earlier(ts[k], ts[m]));
                    } else {
                        assert(ts[k + 1] == e);
                        assert(!entry_earlier(ts[k + 1], ts[m]));
                    }
                } else {
                    assert(drained[i] == spec_drain(rest, now_ms).1[i - 1]);
                    assert(drained[j] == spec_drain(rest, now_ms).1[j - 1]);
                }
            }
        },
    }
}

/// A pop comes back empty — and only then may the consumer go on to
/// synthesize `Idle` — exactly when nothing is available: no pending
/// `Start`, an empty immediate FIFO, and no timed signal whose deadline
/// has arrived.
pub proof fn lemma_idle_only_when_empty<S>(m: QueueModel<S>, now_ms: u64)
    ensures
        spec_pop(m, now_ms).1 is None <==> !spec_event_available(m, now_ms),
{
    if !m.start_pending {
        lemma_min_ripe_props(m.timed, now_ms, m.timed.len() as int);
        match min_ripe_upto(m.timed, now_ms, m.timed.len() as int) {
            None => {
                assert(spec_drain(m.timed, now_ms).1.len() == 0);
            },
            Some(i) => {
                assert(spec_drain(m.timed, now_ms).1.len() > 0);
                assert(entry_ripe(m.timed[i], now_ms));
            },
        }
    }
}

/// The merged event queue: a start latch, an immediate FIFO fed by the
/// engine and by `push_signal`, and timed signals that join the FIFO when
/// their deadline arrives. Single consumer; time is passed in explicitly
/// as a monotonic millisecond clock.
pub struct EventQueue<S> {
    start_pending: bool,
    immediate: Vec<QueueEntry<S>>,
    timed: Vec<TimedEntry<S>>,
    next_seq: u64,
}

impl<S> EventQueue<S> {
    pub closed spec fn model(self) -> QueueModel<S> {
        QueueModel {
            start_pending: self.start_pending,
            immediate: self.immediate@,
            timed: self.timed@,
            next_seq: self.next_seq,
        }
    }

    pub open spec fn wf(self) -> bool {
        spec_queue_wf(self.model())
    }

    pub fn new() -> (r: EventQueue<S>)
        ensures
            r.model() == spec_new_queue::<S>(),
            r.wf(),
    {
        let q = EventQueue {
            start_pending: true,
            immediate: Vec::new(),
            timed: Vec::new(),
            next_seq: 0,
        };
        proof {
            assert(q.model() =~= spec_new_queue::<S>());
        }
        q
    }

    /// Schedules a signal for immediate delivery, behind what is already
    /// queued.
    pub fn push_signal(&mut self, signal: S)
        requires
            old(self).wf(),
        ensures
            final (self).model() == spec_push_immediate(
                old(self).model(),
                QueueEntry::Signal(signal),
            ),
            final (self).wf(),
    {
        let ghost m0 = self.model();
        self.immediate.push(QueueEntry::Signal(signal));
        proof {
            assert(self.model() =~= spec_push_immediate(m0, QueueEntry::Signal(signal)));
        }
    }

    /// Pushes a network event, as the engine's callback does from the
    /// event-processing thread.
    pub fn push_network(&mut self, endpoint: Endpoint, net_event: NetEvent)
        requires
            old(self).wf(),
        ensures
            final (self).model() == spec_push_immediate(
                old(self).model(),
                QueueEntry::Network(endpoint, net_event),
            ),
            final (self).wf(),
    {
        let ghost m0 = self.model();
        self.immediate.push(QueueEntry::Network(endpoint, net_event));
        proof {
            assert(self.model() =~= spec_push_immediate(
                m0,
                QueueEntry::Network(endpoint, net_event),
            ));
        }
    }

    /// Schedules a signal to become deliverable `delay_ms` after `now_ms`.
    pub fn push_timed_signal(&mut self, signal: S, delay_ms: u64, now_ms: u64)
        requires
            old(self).wf(),
            now_ms + delay_ms <= u64::MAX,
            old(self).model().next_seq < u64::MAX,
        ensures
            final (self).model() == spec_push_timed(
                old(self).model(),
                signal,
                (now_ms + delay_ms) as u64,
            ),
            final (self).wf(),
    {
        let ghost m0 = self.model();
        let deadline_ms = now_ms + delay_ms;
        self.timed.push(TimedEntry { deadline_ms, seq: self.next_seq, signal });
        self.next_seq = self.next_seq + 1;
        proof {
            assert(self.model() =~= spec_push_timed(m0, signal, deadline_ms));
        }
    }

    /// How many timed signals were ever scheduled: the push order the
    /// next one gets. Callers check it leaves room before scheduling.
    pub fn timed_pushes(&self) -> (r: u64)
        ensures
            r == self.model().next_seq,
    {
        self.next_seq
    }

    /// Whether a pop at `now_ms` would deliver an event.
    pub fn event_available(&self, now_ms: u64) -> (r: bool)
        ensures
            r == spec_event_available(self.model(), now_ms),
    {
        if self.start_pending || self.immediate.len() > 0 {
            return true;
        }
        let mut i: usize = 0;
        while i < self.timed.len()
            invariant
                i <= self.timed@.len(),
                forall|k: int| 0 <= k < i ==> !entry_ripe(#[trigger] self.timed@[k], now_ms),
            decreases self.timed@.len() - i,
        {
            if self.timed[i].deadline_ms <= now_ms {
                proof {
                    assert(entry_ripe(self.model().timed[i as int], now_ms));
                }
                return true;
            }
            i = i + 1;
        }
        false
    }

    /// The index of the first earliest ripe timed entry, if any is ripe.
    fn find_min_ripe(timed: &Vec<TimedEntry<S>>, now_ms: u64) -> (r: Option<usize>)
        ensures
            match r {
                Some(i) => min_ripe_upto(timed@, now_ms, timed@.len() as int) == Some(i as int),
                None => min_ripe_upto(timed@, now_ms, timed@.len() as int) is None,
            },
    {
        let mut best: usize = 0;
        let mut found = false;
        let mut i: usize = 0;
        while i < timed.len()
            invariant
                i <= timed@.len(),
                found ==> best < i && min_ripe_upto(timed@, now_ms, i as int) == Some(
                    best as int,
                ),
                !found ==> min_ripe_upto(timed@, now_ms, i as int) is None,
            decreases timed@.len() - i,
        {
            if timed[i].deadline_ms <= now_ms {
                if !found {
                    best = i;
                    found = true;
                } else {
                    let better = timed[i].deadline_ms < timed[best].deadline_ms || (
                    timed[i].deadline_ms == timed[best].deadline_ms && timed[i].seq
                        < timed[best].seq);
                    if better {
                        best = i;
                    }
                }
            }
            i = i + 1;
        }
        if found {
            Some(best)
        } else {
            None
        }
    }

    /// Pops the next event at `now_ms`: the one `Start`, else the head of
    /// the FIFO after the ripe timed signals joined it in deadline order.
    /// `None` when nothing is available; the consumer blocks, or reports
    /// `Idle` once a whole sampling window passed this way.
    pub fn pop_event(&mut self, now_ms: u64) -> (r: Option<Event<S>>)
        requires
            old(self).wf(),
        ensures
            final (self).wf(),
            final (self).model() == spec_pop(old(self).model(), now_ms).0,
            r == spec_pop(old(self).model(), now_ms).1,
    {
        let ghost m0 = self.model();
        if self.start_pending {
            self.start_pending = false;
            proof {
                assert(self.model() =~= spec_pop(m0, now_ms).0);
            }
            return Some(Event::Start);
        }
        let ghost orig_timed = self.timed@;
        let ghost orig_imm = self.immediate@;
        let ghost mut done: Seq<TimedEntry<S>> = seq![];
        proof {
            assert forall|p: int, q: int| 0 <= p < q < self.timed@.len() implies (
            #[trigger] self.timed@[p]).seq != (#[trigger] self.timed@[q]).seq by {
                assert(m0.timed[p].seq != m0.timed[q].seq);
            }
            assert forall|p: int| 0 <= p < self.timed@.len() implies (
            #[trigger] self.timed@[p]).seq < m0.next_seq by {
                assert(m0.timed[p].seq < m0.next_seq);
            }
        }
        let mut more = true;
        while more
            invariant
                self.start_pending == false,
                self.next_seq == m0.next_seq,
                m0.start_pending == false,
                m0.immediate == orig_imm,
                m0.timed == orig_timed,
                forall|p: int, q: int|
                    0 <= p < q < self.timed@.len() ==> (#[trigger] self.timed@[p]).seq != (
                    #[trigger] self.timed@[q]).seq,
                forall|p: int|
                    0 <= p < self.timed@.len() ==> (#[trigger] self.timed@[p]).seq
                        < m0.next_seq,
                spec_drain(orig_timed, now_ms).0 == spec_drain(self.timed@, now_ms).0,
                spec_drain(orig_timed, now_ms).1 == done + spec_drain(self.timed@, now_ms).1,
                self.immediate@ == orig_imm + done.map_values(
                    |e: TimedEntry<S>| QueueEntry::Signal(e.signal),
                ),
                !more ==> min_ripe_upto(self.timed@, now_ms, self.timed@.len() as int) is None,
            decreases self.timed@.len() + (if more {
                1int
            } else {
                0int
            }),
        {
            match Self::find_min_ripe(&self.timed, now_ms) {
                None => {
                    more = false;
                },
                Some(i) => {
                    let ghost cur = self.timed@;
                    proof {
                        lemma_min_ripe_props(cur, now_ms, cur.len() as int);
                    }
                    let entry = self.timed.remove(i);
                    self.immediate.push(QueueEntry::Signal(entry.signal));
                    proof {
                        let f = |e: TimedEntry<S>| QueueEntry::Signal(e.signal);
                        cur.remove_ensures(i as int);
                        assert(cur.remove(i as int) =~= self.timed@);
                        assert(spec_drain(cur, now_ms).0 == spec_drain(self.timed@, now_ms).0);
                        assert(spec_drain(cur, now_ms).1 == seq![cur[i as int]] + spec_drain(
                            self.timed@,
                            now_ms,
                        ).1);
                        assert((done + seq![cur[i as int]]) + spec_drain(self.timed@, now_ms).1
                            =~= done + spec_drain(cur, now_ms).1);
                        assert((done + seq![cur[i as int]]).map_values(f) =~= done.map_values(f)
                            + seq![f(cur[i as int])]);
                        assert(self.immediate@ =~= orig_imm + (done + seq![
                            cur[i as int],
                        ]).map_values(f));
                        done = done + seq![cur[i as int]];
                        assert forall|p: int, q: int|
                            0 <= p < q < self.timed@.len() implies (
                        #[trigger] self.timed@[p]).seq != (#[trigger] self.timed@[q]).seq by {
                            if p < i as int {
                                assert(cur.remove(i as int)[p] == cur[p]);
                            } else {
                                assert(cur.remove(i as int)[p] == cur[p + 1]);
                            }
                            if q < i as int {
                                assert(cur.remove(i as int)[q] == cur[q]);
                            } else {
                                assert(cur.remove(i as int)[q] == cur[q + 1]);
                            }
                        }
                        assert forall|p: int| 0 <= p < self.timed@.len() implies (
                        #[trigger] self.timed@[p]).seq < m0.next_seq by {
                            if p < i as int {
                                assert(cur.remove(i as int)[p] == cur[p]);
                            } else {
                                assert(cur.remove(i as int)[p] == cur[p + 1]);
                            }
                        }
                    }
                },
            }
        }
        proof {
            assert(spec_drain(self.timed@, now_ms).0 =~= self.timed@);
            assert(spec_drain(self.timed@, now_ms).1 =~= Seq::<TimedEntry<S>>::empty());
            assert(done + Seq::<TimedEntry<S>>::empty() =~= done);
            assert(spec_drain(orig_timed, now_ms).1 == done);
        }
        let ghost imm2 = m0.immediate + spec_drain(m0.timed, now_ms).1.map_values(
            |e: TimedEntry<S>| QueueEntry::Signal(e.signal),
        );
        proof {
            assert(self.immediate@ =~= imm2);
        }
        if self.immediate.len() > 0 {
            let entry = self.immediate.remove(0);
            proof {
                assert(self.immediate@ =~= imm2.drop_first());
                assert(self.model() =~= spec_pop(m0, now_ms).0);
            }
            match entry {
                QueueEntry::Network(ep, ne) => Some(Event::Network(ep, ne)),
                QueueEntry::Signal(s) => Some(Event::Signal(s)),
            }
        } else {
            proof {
                assert(self.model() =~= spec_pop(m0, now_ms).0);
            }
            None
        }
    }
}

} // verus!
