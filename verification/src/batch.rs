//! The batch runner: dispatches the requests of one batch under a permit
//! limit and files each outcome under the index of its request.

use crate::outcome::Outcome;
use crate::text::{ends_with, has_suffix};
use vstd::prelude::*;

verus! {

/// What the driver of a batch does next.
#[derive(Clone, Copy, Debug, PartialEq, Eq, Structural)]
pub enum BatchAction {
    /// Start the request with this index.
    Dispatch(usize),
    /// Wait for a running request to complete.
    Wait,
    /// Every request has completed.
    Finished,
}

/// Something that happens to a batch.
pub enum BatchEvent {
    /// The driver asks for a request to start.
    Dispatch,
    /// The request with this index completed with this outcome.
    Complete(int, Outcome),
}

/// Mathematical state of a batch: the permit limit, the number of requests
/// started so far (they start in index order), and one slot per request.
pub struct BatchView {
    pub permits: nat,
    pub dispatched: nat,
    pub slots: Seq<Option<Outcome>>,
}

/// Number of empty slots among the first `upto`.
pub open spec fn pending(slots: Seq<Option<Outcome>>, upto: int) -> nat
    decreases upto,
{
    if upto <= 0 {
        0
    } else {
        pending(slots, upto - 1) + if slots[upto - 1] is None {
            1nat
        } else {
            0nat
        }
    }
}

impl BatchView {
    /// A batch of `total` requests, none started.
    pub open spec fn initial(total: nat, permits: nat) -> BatchView {
        BatchView { permits, dispatched: 0, slots: Seq::new(total, |i: int| None) }
    }

    /// Requests started and not yet completed.
    pub open spec fn in_flight(self) -> nat {
        pending(self.slots, self.dispatched as int)
    }

    /// Only started requests have outcomes, no more requests are in flight
    /// than there are permits, and a batch with requests has a permit.
    pub open spec fn wf(self) -> bool {
        &&& self.dispatched <= self.slots.len()
        &&& forall|i: int| self.dispatched <= i < self.slots.len() ==> self.slots[i] is None
        &&& self.in_flight() <= self.permits
        &&& self.permits == 0 ==> self.slots.len() == 0
    }

    /// A request is left to start and a permit is free.
    pub open spec fn can_dispatch(self) -> bool {
        self.dispatched < self.slots.len() && self.in_flight() < self.permits
    }

    /// Every request has started and completed.
    pub open spec fn finished(self) -> bool {
        self.dispatched == self.slots.len() && self.in_flight() == 0
    }

    /// Start the next request if that is possible; else wait, unless all
    /// is done.
    pub open spec fn next_action(self) -> BatchAction {
        if self.can_dispatch() {
            BatchAction::Dispatch(self.dispatched as usize)
        } else if self.finished() {
            BatchAction::Finished
        } else {
            BatchAction::Wait
        }
    }

    /// The state once the next request has started.
    pub open spec fn dispatch(self) -> BatchView {
        BatchView { dispatched: self.dispatched + 1, ..self }
    }

    /// A completion counts for a request that has started and has no
    /// outcome yet.
    pub open spec fn accepts(self, index: int) -> bool {
        0 <= index < self.dispatched && index < self.slots.len() && self.slots[index] is None
    }

    /// The state once a completion has been reported; one that does not
    /// count changes nothing.
    pub open spec fn complete(self, index: int, outcome: Outcome) -> BatchView {
        if self.accepts(index) {
            BatchView { slots: self.slots.update(index, Some(outcome)), ..self }
        } else {
            self
        }
    }

    /// The state after one event.
    pub open spec fn apply(self, event: BatchEvent) -> BatchView {
        match event {
            BatchEvent::Dispatch => if self.can_dispatch() {
                self.dispatch()
            } else {
                self
            },
            BatchEvent::Complete(index, outcome) => self.complete(index, outcome),
        }
    }

    /// The state after a sequence of events, in order.
    pub open spec fn apply_all(self, events: Seq<BatchEvent>) -> BatchView
        decreases events.len(),
    {
        if events.len() == 0 {
            self
        } else {
            self.apply_all(events.drop_last()).apply(events.last())
        }
    }
}

proof fn lemma_pending_none_left(slots: Seq<Option<Outcome>>, upto: int)
    requires
        pending(slots, upto) == 0,
    ensures
        forall|i: int| 0 <= i < upto ==> slots[i] is Some,
    decreases upto,
{
    if upto > 0 {
        lemma_pending_none_left(slots, upto - 1);
    }
}

proof fn lemma_pending_fill(slots: Seq<Option<Outcome>>, upto: int, index: int, outcome: Outcome)
    requires
        0 <= index < slots.len(),
        upto <= slots.len(),
        slots[index] is None,
    ensures
        pending(slots.update(index, Some(outcome)), upto) + if index < upto {
            1nat
        } else {
            0nat
        } == pending(slots, upto),
    decreases upto,
{
    if upto > 0 {
        lemma_pending_fill(slots, upto - 1, index, outcome);
    }
}

/// Every event keeps a well-formed batch well-formed, with the same number
/// of slots and the same permit limit.
pub proof fn lemma_apply_keeps_wf(state: BatchView, event: BatchEvent)
    requires
        state.wf(),
    ensures
        state.apply(event).wf(),
        state.apply(event).slots.len() == state.slots.len(),
        state.apply(event).permits == state.permits,
{
    match event {
        BatchEvent::Dispatch => {},
        BatchEvent::Complete(index, outcome) => {
            if state.accepts(index) {
                lemma_pending_fill(state.slots, state.dispatched as int, index, outcome);
            }
        },
    }
}

/// At no point of any run are more requests in flight than there are
/// permits.
pub proof fn lemma_apply_all_keeps_wf(state: BatchView, events: Seq<BatchEvent>)
    requires
        state.wf(),
    ensures
        state.apply_all(events).wf(),
        state.apply_all(events).in_flight() <= state.permits,
        state.apply_all(events).slots.len() == state.slots.len(),
        state.apply_all(events).permits == state.permits,
    decreases events.len(),
{
    if events.len() > 0 {
        lemma_apply_all_keeps_wf(state, events.drop_last());
        lemma_apply_keeps_wf(state.apply_all(events.drop_last()), events.last());
    }
}

/// With a single permit the requests run strictly in turn: whenever the
/// next request may start, every request before it has its outcome.
pub proof fn lemma_single_permit_runs_in_turn(state: BatchView)
    requires
        state.wf(),
        state.permits == 1,
        state.next_action() is Dispatch,
    ensures
        state.next_action() == BatchAction::Dispatch(state.dispatched as usize),
        forall|i: int| 0 <= i < state.dispatched ==> state.slots[i] is Some,
{
    lemma_pending_none_left(state.slots, state.dispatched as int);
}

/// An outcome, once filed, stays under its index whatever happens later.
pub proof fn lemma_filed_outcome_stays(state: BatchView, events: Seq<BatchEvent>, index: int)
    requires
        0 <= index < state.slots.len(),
        state.slots[index] is Some,
    ensures
        state.apply_all(events).slots.len() == state.slots.len(),
        state.apply_all(events).slots[index] == state.slots[index],
    decreases events.len(),
{
    if events.len() > 0 {
        lemma_filed_outcome_stays(state, events.drop_last(), index);
        let before = state.apply_all(events.drop_last());
        match events.last() {
            BatchEvent::Dispatch => {},
            BatchEvent::Complete(other, outcome) => {
                assert(before.accepts(other) ==> other != index);
            },
        }
    }
}

/// The outcome that a request completes with ends up under the index of
/// that request, and the number of slots never changes, in whatever order
/// the completions arrive: if the `at`-th event of a run is an accepted
/// completion of request `index`, the final state holds its outcome there.
pub proof fn lemma_outcomes_in_request_order(
    state: BatchView,
    events: Seq<BatchEvent>,
    at: int,
    index: int,
    outcome: Outcome,
)
    requires
        state.wf(),
        0 <= at < events.len(),
        events[at] == BatchEvent::Complete(index, outcome),
        state.apply_all(events.take(at)).accepts(index),
    ensures
        state.apply_all(events).slots.len() == state.slots.len(),
        0 <= index < state.slots.len(),
        state.apply_all(events).slots[index] == Some(outcome),
    decreases events.len(),
{
    lemma_apply_all_keeps_wf(state, events.take(at));
    lemma_apply_all_keeps_wf(state, events);
    if at == events.len() - 1 {
        assert(events.take(at) =~= events.drop_last());
    } else {
        assert(events.drop_last().take(at) =~= events.take(at));
        lemma_outcomes_in_request_order(state, events.drop_last(), at, index, outcome);
        lemma_apply_all_keeps_wf(state, events.drop_last());
    }
}

/// Whatever a slot holds at the end of a run was reported for its request:
/// a slot that was empty and is filled holds the outcome of a completion of
/// that very index, accepted at some point of the run.
pub proof fn lemma_filed_outcome_was_reported(
    state: BatchView,
    events: Seq<BatchEvent>,
    index: int,
) -> (at: int)
    requires
        0 <= index < state.slots.len(),
        state.slots[index] is None,
        state.apply_all(events).slots[index] is Some,
    ensures
        0 <= at < events.len(),
        events[at] == BatchEvent::Complete(index, state.apply_all(events).slots[index]->0),
        state.apply_all(events.take(at)).accepts(index),
    decreases events.len(),
{
    let before = state.apply_all(events.drop_last());
    lemma_slot_count_stays(state, events.drop_last());
    if before.slots[index] is Some {
        let at = lemma_filed_outcome_was_reported(state, events.drop_last(), index);
        assert(events.drop_last().take(at) =~= events.take(at));
        match events.last() {
            BatchEvent::Dispatch => {},
            BatchEvent::Complete(other, outcome) => {
                assert(before.accepts(other) ==> other != index);
            },
        }
        at
    } else {
        assert(events.take(events.len() - 1) =~= events.drop_last());
        events.len() - 1
    }
}

proof fn lemma_slot_count_stays(state: BatchView, events: Seq<BatchEvent>)
    ensures
        state.apply_all(events).slots.len() == state.slots.len(),
    decreases events.len(),
{
    if events.len() > 0 {
        lemma_slot_count_stays(state, events.drop_last());
    }
}

/// With a single permit, in any run from the start, a request is handed out
/// only after the request before it has completed: if the `at`-th event
/// hands out a request other than the first, an earlier event of the run is
/// the accepted completion of its predecessor.
pub proof fn lemma_single_permit_serialises(total: nat, events: Seq<BatchEvent>, at: int) -> (done:
    int)
    requires
        0 <= at < events.len(),
        events[at] == BatchEvent::Dispatch,
        BatchView::initial(total, 1).apply_all(events.take(at)).can_dispatch(),
        BatchView::initial(total, 1).apply_all(events.take(at)).dispatched > 0,
    ensures
        0 <= done < at,
        events[done] matches BatchEvent::Complete(index, _) && index == BatchView::initial(
            total,
            1,
        ).apply_all(events.take(at)).dispatched - 1,
        BatchView::initial(total, 1).apply_all(events.take(done)).accepts(
            BatchView::initial(total, 1).apply_all(events.take(at)).dispatched - 1,
        ),
{
    let start = BatchView::initial(total, 1);
    let before = start.apply_all(events.take(at));
    lemma_apply_all_keeps_wf(start, events.take(at));
    lemma_single_permit_runs_in_turn(before);
    let done = lemma_filed_outcome_was_reported(start, events.take(at), before.dispatched - 1);
    assert(events.take(at).take(done) =~= events.take(done));
    done
}

/// Runs one batch: hands out the requests in index order while permits are
/// free and keeps one outcome slot per request.
pub struct BatchRunner {
    permits: usize,
    dispatched: usize,
    in_flight: usize,
    slots: Vec<Option<Outcome>>,
}

impl View for BatchRunner {
    type V = BatchView;

    closed spec fn view(&self) -> BatchView {
        BatchView {
            permits: self.permits as nat,
            dispatched: self.dispatched as nat,
            slots: self.slots@,
        }
    }
}

impl BatchRunner {
    /// The state is well-formed and the count of requests in flight is
    /// right.
    pub closed spec fn wf(&self) -> bool {
        &&& self@.wf()
        &&& self.in_flight == self@.in_flight()
    }

    /// A runner for `total` requests with `permits` permits. Without a
    /// permit no request could ever start, so a batch that has requests
    /// needs at least one.
    pub fn new(total: usize, permits: usize) -> (runner: Option<BatchRunner>)
        ensures
            runner is Some <==> (permits > 0 || total == 0),
            runner matches Some(r) ==> r.wf() && r@ == BatchView::initial(
                total as nat,
                permits as nat,
            ),
    {
        if permits == 0 && total > 0 {
            return None;
        }
        let mut slots: Vec<Option<Outcome>> = Vec::new();
        let mut i: usize = 0;
        while i < total
            invariant
                i <= total,
                slots@.len() == i,
                forall|j: int| 0 <= j < i ==> slots@[j] is None,
            decreases total - i,
        {
            slots.push(None);
            i = i + 1;
        }
        assert(slots@ =~= Seq::new(total as nat, |i: int| None));
        Some(BatchRunner { permits, dispatched: 0, in_flight: 0, slots })
    }

    /// Number of requests in the batch.
    pub fn total(&self) -> (n: usize)
        ensures
            n == self@.slots.len(),
    {
        self.slots.len()
    }

    /// Number of requests started and not yet completed.
    pub fn in_flight(&self) -> (n: usize)
        requires
            self.wf(),
        ensures
            n == self@.in_flight(),
            n <= self@.permits,
    {
        self.in_flight
    }

    /// Decides what the driver does next, and counts a request as started
    /// when it hands one out.
    pub fn next_action(&mut self) -> (action: BatchAction)
        requires
            old(self).wf(),
        ensures
            final(self).wf(),
            action == old(self)@.next_action(),
            final(self)@ == old(self)@.apply(BatchEvent::Dispatch),
            action is Wait ==> final(self)@.in_flight() > 0,
    {
        if self.dispatched < self.slots.len() && self.in_flight < self.permits {
            let index: usize = self.dispatched;
            self.dispatched = self.dispatched + 1;
            self.in_flight = self.in_flight + 1;
            BatchAction::Dispatch(index)
        } else if self.dispatched == self.slots.len() && self.in_flight == 0 {
            BatchAction::Finished
        } else {
            BatchAction::Wait
        }
    }

    /// Files the outcome of a request under its index. Returns whether the
    /// completion counted: the request had started and had no outcome yet.
    pub fn complete(&mut self, index: usize, outcome: Outcome) -> (accepted: bool)
        requires
            old(self).wf(),
        ensures
            final(self).wf(),
            accepted == old(self)@.accepts(index as int),
            final(self)@ == old(self)@.complete(index as int, outcome),
    {
        if index < self.dispatched && self.slots[index].is_none() {
            proof {
                lemma_pending_fill(self.slots@, self.dispatched as int, index as int, outcome);
            }
            self.slots.set(index, Some(outcome));
            self.in_flight = self.in_flight - 1;
            true
        } else {
            false
        }
    }

    /// The outcomes in request order, once every request has completed.
    pub fn into_report(self) -> (report: Option<Vec<Outcome>>)
        requires
            self.wf(),
        ensures
            report is Some <==> self@.finished(),
            report matches Some(outcomes) ==> {
                &&& outcomes@.len() == self@.slots.len()
                &&& forall|i: int|
                    0 <= i < outcomes@.len() ==> self@.slots[i] == Some(#[trigger] outcomes@[i])
            },
    {
        if self.dispatched != self.slots.len() || self.in_flight != 0 {
            return None;
        }
        proof {
            lemma_pending_none_left(self.slots@, self.dispatched as int);
        }
        let mut outcomes: Vec<Outcome> = Vec::new();
        let mut i: usize = 0;
        while i < self.slots.len()
            invariant
                i <= self.slots.len(),
                outcomes@.len() == i,
                forall|j: int| 0 <= j < self.slots@.len() ==> self.slots@[j] is Some,
                forall|j: int| 0 <= j < i ==> self.slots@[j] == Some(#[trigger] outcomes@[j]),
            decreases self.slots.len() - i,
        {
            match self.slots[i] {
                Some(outcome) => {
                    outcomes.push(outcome);
                },
                None => {},
            }
            i = i + 1;
        }
        Some(outcomes)
    }
}

/// A batch file whose name ends like this runs its requests one at a time.
pub open spec fn is_sequential_name(file_name: Seq<char>) -> bool {
    has_suffix(file_name, "synchronic.json"@)
}

/// The permit count for a batch file: one for a file that asks for
/// sequential execution by its name, else the configured count.
pub fn effective_permits(file_name: &str, configured: usize) -> (permits: usize)
    ensures
        permits == if is_sequential_name(file_name@) {
            1
        } else {
            configured
        },
{
    if ends_with(file_name, "synchronic.json") {
        1
    } else {
        configured
    }
}

/// The indices of the requests that failed, in ascending order.
pub fn failed_indices(report: &Vec<Outcome>) -> (failed: Vec<usize>)
    ensures
        forall|k: int|
            0 <= k < failed@.len() ==> (#[trigger] failed@[k]) < report@.len()
                && report@[failed@[k] as int] is Failure,
        forall|j: int, k: int| 0 <= j < k < failed@.len() ==> failed@[j] < failed@[k],
        forall|i: int|
            0 <= i < report@.len() && (#[trigger] report@[i]) is Failure ==> failed@.contains(
                i as usize,
            ),
{
    let mut failed: Vec<usize> = Vec::new();
    let mut i: usize = 0;
    while i < report.len()
        invariant
            i <= report.len(),
            forall|k: int|
                0 <= k < failed@.len() ==> (#[trigger] failed@[k]) < i
                    && report@[failed@[k] as int] is Failure,
            forall|j: int, k: int| 0 <= j < k < failed@.len() ==> failed@[j] < failed@[k],
            forall|j: int|
                0 <= j < i && (#[trigger] report@[j]) is Failure ==> failed@.contains(j as usize),
        decreases report.len() - i,
    {
        if !report[i].is_success() {
            let ghost before = failed@;
            failed.push(i);
            proof {
                assert(failed@[before.len() as int] == i);
                assert forall|j: int|
                    0 <= j < i + 1 && (#[trigger] report@[j]) is Failure implies failed@.contains(
                    j as usize,
                ) by {
                    if j < i {
                        let k = choose|k: int| 0 <= k < before.len() && before[k] == j as usize;
                        assert(failed@[k] == j as usize);
                    }
                }
            }
        }
        i = i + 1;
    }
    failed
}

} // verus!
