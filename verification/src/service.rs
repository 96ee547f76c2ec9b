//! The evaluation service: the single task that owns the runtime handle
//! and serializes every evaluation. It consumes events — an incoming
//! request, queue closure, or the process-wide interrupt — one at a time.
//! A request is evaluated and answered with exactly zero or one reply:
//! zero precisely when the result is the nil value. Closure and interrupt
//! stop the service; a stopped service finishes no further request and
//! produces no further reply.

use vstd::prelude::*;

use crate::eval::eval_spec;
use crate::queue::{EvalRequest, IntakeQueue, ReqView};
use crate::render::render_spec;
use crate::runtime::Rayforce;

verus! {

/// The service is between requests, or stopped for good. Evaluation of a
/// request begins and ends within one `handle` call (the engine call is
/// synchronous), so the transient evaluating state is never observable
/// between events.
#[derive(Clone, Copy, Debug, PartialEq, Eq, Structural)]
pub enum ServiceState {
    Idle,
    Stopped,
}

/// One event consumed by the service.
pub enum ServiceEvent {
    /// A request dequeued from the intake queue.
    Incoming(EvalRequest),
    /// The intake queue closed: no adapter can submit again.
    Closed,
    /// The process-wide interrupt fired.
    Interrupt,
}

/// The mathematical value of an event.
pub enum EventView {
    Incoming(ReqView),
    Closed,
    Interrupt,
}

impl View for ServiceEvent {
    type V = EventView;

    open spec fn view(&self) -> EventView {
        match self {
            ServiceEvent::Incoming(req) => EventView::Incoming(req@),
            ServiceEvent::Closed => EventView::Closed,
            ServiceEvent::Interrupt => EventView::Interrupt,
        }
    }
}

/// What one event produced.
pub enum ServiceOutcome {
    /// The rendered result, owed to the request's reply sink.
    Replied { sink: usize, text: Vec<u8> },
    /// The request completed silently: its result was nil.
    Completed { sink: usize },
    /// The request was not processed: the service had already stopped.
    Dropped { sink: usize },
    /// The service is stopped.
    Stopped,
}

/// The mathematical value of an outcome.
pub enum OutcomeView {
    Replied { sink: usize, text: Seq<u8> },
    Completed { sink: usize },
    Dropped { sink: usize },
    Stopped,
}

impl View for ServiceOutcome {
    type V = OutcomeView;

    open spec fn view(&self) -> OutcomeView {
        match self {
            ServiceOutcome::Replied { sink, text } => OutcomeView::Replied {
                sink: *sink,
                text: text@,
            },
            ServiceOutcome::Completed { sink } => OutcomeView::Completed { sink: *sink },
            ServiceOutcome::Dropped { sink } => OutcomeView::Dropped { sink: *sink },
            ServiceOutcome::Stopped => OutcomeView::Stopped,
        }
    }
}

/// A request completes silently exactly when its result is nil.
pub open spec fn is_silent(text: Seq<u8>) -> bool {
    eval_spec(text) is Null
}

/// The rendered result of a request.
pub open spec fn reply_text(text: Seq<u8>) -> Seq<u8> {
    render_spec(eval_spec(text))
}

/// The reply owed for one request: none exactly when the result is nil,
/// otherwise exactly one rendered result.
pub open spec fn reply_spec(text: Seq<u8>) -> Option<Seq<u8>> {
    if is_silent(text) {
        None
    } else {
        Some(reply_text(text))
    }
}

/// The service state after one event.
pub open spec fn step_state(st: ServiceState, ev: EventView) -> ServiceState {
    match ev {
        EventView::Incoming(_) => st,
        EventView::Closed => ServiceState::Stopped,
        EventView::Interrupt => ServiceState::Stopped,
    }
}

/// The outcome of one event.
pub open spec fn step_outcome(st: ServiceState, ev: EventView) -> OutcomeView {
    match ev {
        EventView::Incoming(req) => if st is Idle {
            if is_silent(req.text) {
                OutcomeView::Completed { sink: req.sink }
            } else {
                OutcomeView::Replied { sink: req.sink, text: reply_text(req.text) }
            }
        } else {
            OutcomeView::Dropped { sink: req.sink }
        },
        EventView::Closed => OutcomeView::Stopped,
        EventView::Interrupt => OutcomeView::Stopped,
    }
}

/// The outcomes of a whole event sequence, one per event.
pub open spec fn run_spec(st: ServiceState, evs: Seq<EventView>) -> Seq<OutcomeView>
    decreases evs.len(),
{
    if evs.len() == 0 {
        Seq::empty()
    } else {
        seq![step_outcome(st, evs[0])] + run_spec(step_state(st, evs[0]), evs.drop_first())
    }
}

/// The mathematical value of an event vector.
pub open spec fn events_model(evs: Seq<ServiceEvent>) -> Seq<EventView> {
    Seq::new(evs.len(), |i: int| evs[i]@)
}

/// The mathematical value of an outcome vector.
pub open spec fn outcomes_model(outs: Seq<ServiceOutcome>) -> Seq<OutcomeView> {
    Seq::new(outs.len(), |i: int| outs[i]@)
}

/// Each pending request of the intake queue, as an `Incoming` event.
pub open spec fn queue_events(reqs: Seq<ReqView>) -> Seq<EventView> {
    reqs.map_values(|r: ReqView| EventView::Incoming(r))
}

/// The single task owning the runtime handle; all evaluation goes through
/// it, which is what confines every value to one task.
pub struct EvalService {
    runtime: Rayforce,
    state: ServiceState,
}

impl EvalService {
    pub closed spec fn state_spec(self) -> ServiceState {
        self.state
    }

    /// A service ready to process requests, owning the runtime.
    pub fn new(runtime: Rayforce) -> (s: Self)
        ensures
            s.state_spec() is Idle,
    {
        EvalService { runtime, state: ServiceState::Idle }
    }

    /// The current lifecycle state.
    pub fn state(&self) -> (st: ServiceState)
        ensures
            st == self.state_spec(),
    {
        self.state
    }

    /// Consume one event: evaluate and answer a request, or stop on
    /// closure or interrupt. A failed delivery of a reply is the caller's
    /// affair and never stops the service.
    pub fn handle(&mut self, ev: ServiceEvent) -> (out: ServiceOutcome)
        ensures
            final(self).state_spec() == step_state(old(self).state_spec(), ev@),
            out@ == step_outcome(old(self).state_spec(), ev@),
    {
        match ev {
            ServiceEvent::Incoming(req) => {
                match self.state {
                    ServiceState::Idle => {
                        let result = self.runtime.eval_str(req.text.as_slice());
                        if result.is_nil() {
                            ServiceOutcome::Completed { sink: req.sink }
                        } else {
                            let text = result.render();
                            ServiceOutcome::Replied { sink: req.sink, text }
                        }
                    },
                    ServiceState::Stopped => ServiceOutcome::Dropped { sink: req.sink },
                }
            },
            ServiceEvent::Closed => {
                self.state = ServiceState::Stopped;
                ServiceOutcome::Stopped
            },
            ServiceEvent::Interrupt => {
                self.state = ServiceState::Stopped;
                ServiceOutcome::Stopped
            },
        }
    }

    /// Consume a whole event sequence in order, producing one outcome per
    /// event.
    pub fn run_events(&mut self, events: Vec<ServiceEvent>) -> (outs: Vec<ServiceOutcome>)
        ensures
            outcomes_model(outs@) == run_spec(old(self).state_spec(), events_model(events@)),
    {
        let ghost whole = events_model(events@);
        let ghost start = self.state_spec();
        let mut evs = events;
        let mut outs: Vec<ServiceOutcome> = Vec::new();
        while evs.len() > 0
            invariant
                run_spec(start, whole) == outcomes_model(outs@) + run_spec(
                    self.state_spec(),
                    events_model(evs@),
                ),
            decreases evs.len(),
        {
            let ghost pending = events_model(evs@);
            let ghost st = self.state_spec();
            let ghost done = outcomes_model(outs@);
            let ev = evs.remove(0);
            let out = self.handle(ev);
            outs.push(out);
            proof {
                assert(events_model(evs@) =~= pending.drop_first());
                assert(run_spec(st, pending) == seq![step_outcome(st, pending[0])] + run_spec(
                    step_state(st, pending[0]),
                    pending.drop_first(),
                ));
                assert(outcomes_model(outs@) =~= done.push(out@));
                assert(done.push(out@) + run_spec(self.state_spec(), events_model(evs@)) =~= done
                    + (seq![out@] + run_spec(self.state_spec(), events_model(evs@))));
            }
        }
        proof {
            assert(events_model(evs@) =~= Seq::<EventView>::empty());
            assert(outcomes_model(outs@) + Seq::<OutcomeView>::empty() =~= outcomes_model(outs@));
        }
        outs
    }

    /// Drain the intake queue in arrival order until it is empty,
    /// consuming each request as one `Incoming` event.
    pub fn drain_queue(&mut self, q: &mut IntakeQueue) -> (outs: Vec<ServiceOutcome>)
        ensures
            final(q)@ == Seq::<ReqView>::empty(),
            final(q).cap_spec() == old(q).cap_spec(),
            outcomes_model(outs@) == run_spec(old(self).state_spec(), queue_events(old(q)@)),
    {
        let ghost whole = queue_events(old(q)@);
        let ghost start = self.state_spec();
        let mut outs: Vec<ServiceOutcome> = Vec::new();
        loop
            invariant
                q.cap_spec() == old(q).cap_spec(),
                start == old(self).state_spec(),
                whole == queue_events(old(q)@),
                run_spec(start, whole) == outcomes_model(outs@) + run_spec(
                    self.state_spec(),
                    queue_events(q@),
                ),
            decreases q@.len(),
        {
            let ghost pending = queue_events(q@);
            let ghost st = self.state_spec();
            let ghost done = outcomes_model(outs@);
            match q.dequeue() {
                None => {
                    proof {
                        assert(pending =~= Seq::<EventView>::empty());
                        assert(done + Seq::<OutcomeView>::empty() =~= done);
                    }
                    return outs;
                },
                Some(req) => {
                    let ghost rv = req@;
                    let out = self.handle(ServiceEvent::Incoming(req));
                    outs.push(out);
                    proof {
                        assert(queue_events(q@) =~= pending.drop_first());
                        assert(pending[0] == EventView::Incoming(rv));
                        assert(run_spec(st, pending) == seq![step_outcome(st, pending[0])]
                            + run_spec(step_state(st, pending[0]), pending.drop_first()));
                        assert(outcomes_model(outs@) =~= done.push(out@));
                        assert(done.push(out@) + run_spec(self.state_spec(), queue_events(q@))
                            =~= done + (seq![out@] + run_spec(
                            self.state_spec(),
                            queue_events(q@),
                        )));
                    }
                },
            }
        }
    }
}

/// The reply sink an event belongs to.
pub open spec fn event_sink(ev: EventView) -> usize {
    match ev {
        EventView::Incoming(req) => req.sink,
        _ => 0,
    }
}

/// The request text an event carries.
pub open spec fn event_text(ev: EventView) -> Seq<u8> {
    match ev {
        EventView::Incoming(req) => req.text,
        _ => Seq::empty(),
    }
}

/// A run answers exactly one outcome per event.
pub proof fn lemma_run_len(st: ServiceState, evs: Seq<EventView>)
    ensures
        run_spec(st, evs).len() == evs.len(),
    decreases evs.len(),
{
    if evs.len() > 0 {
        lemma_run_len(step_state(st, evs[0]), evs.drop_first());
    }
}

/// Every outcome of an idle service stands at the index of its own
/// request: processing neither reorders requests nor lets one session
/// overtake another. For any one reply sink this is first-in, first-out
/// in that session's own submission order, and across sessions the
/// outcomes follow the global enqueue order.
pub proof fn lemma_outcomes_positional(st: ServiceState, evs: Seq<EventView>)
    requires
        st is Idle,
        forall|i: int| 0 <= i < evs.len() ==> (#[trigger] evs[i]) is Incoming,
    ensures
        run_spec(st, evs).len() == evs.len(),
        forall|i: int|
            0 <= i < evs.len() ==> run_spec(st, evs)[i] == step_outcome(
                ServiceState::Idle,
                #[trigger] evs[i],
            ),
    decreases evs.len(),
{
    lemma_run_len(st, evs);
    assert(st == ServiceState::Idle);
    if evs.len() > 0 {
        let rest = evs.drop_first();
        assert(forall|i: int| 0 <= i < rest.len() ==> #[trigger] rest[i] == evs[i + 1]);
        assert(step_state(st, evs[0]) == ServiceState::Idle);
        lemma_outcomes_positional(ServiceState::Idle, rest);
        assert forall|i: int| 0 <= i < evs.len() implies run_spec(st, evs)[i] == step_outcome(
            ServiceState::Idle,
            #[trigger] evs[i],
        ) by {
            if i == 0 {
                assert(run_spec(st, evs)[0] == step_outcome(st, evs[0]));
            } else {
                assert(rest[i - 1] == evs[i]);
                assert(run_spec(st, evs)[i] == run_spec(ServiceState::Idle, rest)[i - 1]);
                assert(run_spec(ServiceState::Idle, rest)[i - 1] == step_outcome(
                    ServiceState::Idle,
                    rest[i - 1],
                ));
            }
        }
    }
}

/// Submitting well-formed expressions in sequence yields exactly as many
/// replies, in submission order: when every event is a request whose
/// result is not nil, the run consists of one reply per request, at the
/// request's own position, carrying the request's rendered result.
pub proof fn lemma_n_requests_n_replies(st: ServiceState, evs: Seq<EventView>)
    requires
        st is Idle,
        forall|i: int| 0 <= i < evs.len() ==> (#[trigger] evs[i]) is Incoming,
        forall|i: int| 0 <= i < evs.len() ==> !is_silent(event_text(#[trigger] evs[i])),
    ensures
        run_spec(st, evs).len() == evs.len(),
        forall|i: int|
            0 <= i < evs.len() ==> run_spec(st, evs)[i] == (OutcomeView::Replied {
                sink: event_sink(#[trigger] evs[i]),
                text: reply_text(event_text(evs[i])),
            }),
{
    lemma_outcomes_positional(st, evs);
}

/// A request whose result is nil yields no reply and does not stop the
/// service: the request completes silently and the service stays idle,
/// ready for the session's next request.
pub proof fn lemma_nil_result_is_silent(st: ServiceState, req: ReqView)
    requires
        st is Idle,
        is_silent(req.text),
    ensures
        step_outcome(st, EventView::Incoming(req)) == (OutcomeView::Completed { sink: req.sink }),
        step_state(st, EventView::Incoming(req)) is Idle,
{
}

/// A stopped service never replies again.
pub proof fn lemma_stopped_never_replies(evs: Seq<EventView>)
    ensures
        run_spec(ServiceState::Stopped, evs).len() == evs.len(),
        forall|j: int|
            0 <= j < evs.len() ==> !((#[trigger] run_spec(ServiceState::Stopped, evs)[j])
                is Replied),
    decreases evs.len(),
{
    lemma_run_len(ServiceState::Stopped, evs);
    if evs.len() > 0 {
        assert(step_state(ServiceState::Stopped, evs[0]) is Stopped);
        lemma_stopped_never_replies(evs.drop_first());
        assert forall|j: int|
            0 <= j < evs.len() implies !((#[trigger] run_spec(ServiceState::Stopped, evs)[j])
            is Replied) by {
            if j > 0 {
                assert(run_spec(ServiceState::Stopped, evs)[j] == run_spec(
                    ServiceState::Stopped,
                    evs.drop_first(),
                )[j - 1]);
            }
        }
    }
}

/// Once the process-wide interrupt is observed, the service processes
/// none of the remaining queue: no event after the interrupt produces a
/// reply, however many requests were still pending.
pub proof fn lemma_interrupt_stops_service(st: ServiceState, evs: Seq<EventView>, k: int)
    requires
        0 <= k < evs.len(),
        evs[k] is Interrupt,
    ensures
        run_spec(st, evs).len() == evs.len(),
        forall|j: int|
            k < j < evs.len() ==> !((#[trigger] run_spec(st, evs)[j]) is Replied),
    decreases evs.len(),
{
    lemma_run_len(st, evs);
    let rest = evs.drop_first();
    if k == 0 {
        assert(step_state(st, evs[0]) is Stopped);
        lemma_stopped_never_replies(rest);
        assert forall|j: int| k < j < evs.len() implies !((#[trigger] run_spec(st, evs)[j])
            is Replied) by {
            assert(run_spec(st, evs)[j] == run_spec(ServiceState::Stopped, rest)[j - 1]);
        }
    } else {
        assert(rest[k - 1] is Interrupt);
        lemma_interrupt_stops_service(step_state(st, evs[0]), rest, k - 1);
        assert forall|j: int| k < j < evs.len() implies !((#[trigger] run_spec(st, evs)[j])
            is Replied) by {
            assert(run_spec(st, evs)[j] == run_spec(step_state(st, evs[0]), rest)[j - 1]);
        }
    }
}

/// The reply sink an outcome belongs to.
pub open spec fn outcome_sink(o: OutcomeView) -> usize {
    match o {
        OutcomeView::Replied { sink, .. } => sink,
        OutcomeView::Completed { sink } => sink,
        OutcomeView::Dropped { sink } => sink,
        OutcomeView::Stopped => 0,
    }
}

/// The outcomes belonging to the session with reply sink `s`.
pub open spec fn sink_outcome_pred(s: usize) -> spec_fn(OutcomeView) -> bool {
    |o: OutcomeView| outcome_sink(o) == s
}

/// The events belonging to the session with reply sink `s`.
pub open spec fn sink_event_pred(s: usize) -> spec_fn(EventView) -> bool {
    |e: EventView| event_sink(e) == s
}

/// The outcome an idle service owes one event.
pub open spec fn outcome_of() -> spec_fn(EventView) -> OutcomeView {
    |e: EventView| step_outcome(ServiceState::Idle, e)
}

proof fn lemma_filter_map_commute(q: Seq<EventView>, s: usize)
    ensures
        q.map_values(outcome_of()).filter(sink_outcome_pred(s)) == q.filter(
            sink_event_pred(s),
        ).map_values(outcome_of()),
    decreases q.len(),
{
    reveal(Seq::filter);
    if q.len() == 0 {
        assert(q.map_values(outcome_of()).filter(sink_outcome_pred(s)) =~= q.filter(
            sink_event_pred(s),
        ).map_values(outcome_of()));
    } else {
        let t = q.drop_last();
        let x = q.last();
        lemma_filter_map_commute(t, s);
        let m = q.map_values(outcome_of());
        assert(m.drop_last() =~= t.map_values(outcome_of()));
        assert(m.last() == outcome_of()(x));
        assert(outcome_sink(step_outcome(ServiceState::Idle, x)) == event_sink(x));
        if event_sink(x) == s {
            assert(q.filter(sink_event_pred(s)) == t.filter(sink_event_pred(s)).push(x));
            assert(t.filter(sink_event_pred(s)).push(x).map_values(outcome_of()) =~= t.filter(
                sink_event_pred(s),
            ).map_values(outcome_of()).push(outcome_of()(x)));
        } else {
            assert(q.filter(sink_event_pred(s)) == t.filter(sink_event_pred(s)));
        }
    }
}

/// Concurrent sessions each observe first-in, first-out ordering of their
/// own requests: restricting a run's outcomes to one reply sink yields
/// exactly the outcomes of that sink's requests, in the order that
/// session submitted them; across sessions, outcomes follow the one
/// global enqueue order.
pub proof fn lemma_per_session_fifo(st: ServiceState, evs: Seq<EventView>, s: usize)
    requires
        st is Idle,
        forall|i: int| 0 <= i < evs.len() ==> (#[trigger] evs[i]) is Incoming,
    ensures
        run_spec(st, evs).filter(sink_outcome_pred(s)) == evs.filter(
            sink_event_pred(s),
        ).map_values(outcome_of()),
{
    lemma_outcomes_positional(st, evs);
    assert(run_spec(st, evs) =~= evs.map_values(outcome_of()));
    lemma_filter_map_commute(evs, s);
}

} // verus!
