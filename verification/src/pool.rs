//! An ordered pool of fetches in flight.
//!
//! Completions may be reported in any order; the pool hands the outcomes out
//! in the order in which the fetches were submitted.  An outcome behind a
//! fetch that is still pending waits for it, however long ago it arrived.

use vstd::prelude::*;
use crate::row::{FetchOutcome, OutcomeView};

verus! {

/// One submitted fetch, as plain text: the id it is for, and its value once
/// it has completed.
pub struct SlotView {
    pub id: Seq<char>,
    pub value: Option<Seq<char>>,
}

impl SlotView {
    /// The outcome of a completed fetch.
    pub open spec fn outcome(self) -> OutcomeView {
        OutcomeView { id: self.id, value: self.value->0 }
    }
}

/// A pool, as plain values: the submitted fetches in their order, and how
/// many of them have been handed out from the front.
pub struct PoolView {
    pub slots: Seq<SlotView>,
    pub resolved: nat,
}

impl PoolView {
    /// The pool to which nothing has been submitted.
    pub open spec fn empty() -> PoolView {
        PoolView { slots: Seq::empty(), resolved: 0 }
    }

    /// Every outcome that was handed out had arrived.
    pub open spec fn wf(self) -> bool {
        &&& self.resolved <= self.slots.len()
        &&& forall|k: int| 0 <= k < self.resolved ==> (#[trigger] self.slots[k]).value is Some
    }

    /// All that was submitted has been handed out.
    pub open spec fn is_complete(self) -> bool {
        self.resolved == self.slots.len()
    }

    /// The pool after a fetch for `id` has been submitted; its handle is the
    /// number of fetches submitted before it.
    pub open spec fn submit(self, id: Seq<char>) -> PoolView {
        PoolView { slots: self.slots.push(SlotView { id, value: None }), ..self }
    }

    /// Whether a completion reported for `handle` is taken: the handle names
    /// a submitted fetch that has not completed yet.
    pub open spec fn accepts(self, handle: int) -> bool {
        0 <= handle < self.slots.len() && self.slots[handle].value is None
    }

    /// The pool after the fetch `handle` has been reported to have produced
    /// `value`.  A report for no fetch, or a second one for the same fetch,
    /// changes nothing.
    pub open spec fn complete(self, handle: int, value: Seq<char>) -> PoolView {
        if self.accepts(handle) {
            PoolView {
                slots: self.slots.update(
                    handle,
                    SlotView { value: Some(value), ..self.slots[handle] },
                ),
                ..self
            }
        } else {
            self
        }
    }

    /// Whether the fetch at the front has completed.
    pub open spec fn front_ready(self) -> bool {
        self.resolved < self.slots.len() && self.slots[self.resolved as int].value is Some
    }

    /// What the next poll hands out: the outcome of the fetch at the front,
    /// once that fetch has completed.
    pub open spec fn next_ready(self) -> Option<OutcomeView> {
        if self.front_ready() {
            Some(self.slots[self.resolved as int].outcome())
        } else {
            None
        }
    }

    /// The pool after a poll.
    pub open spec fn after_poll(self) -> PoolView {
        if self.front_ready() {
            PoolView { resolved: self.resolved + 1, ..self }
        } else {
            self
        }
    }

    /// The outcomes handed out so far, in the order in which they were.
    pub open spec fn drained(self) -> Seq<OutcomeView> {
        Seq::new(self.resolved, |k: int| self.slots[k].outcome())
    }

    /// The ids of the submitted fetches, in the order of submission.
    pub open spec fn submitted_ids(self) -> Seq<Seq<char>> {
        Seq::new(self.slots.len(), |k: int| self.slots[k].id)
    }
}

/// What has been handed out is a prefix of what was submitted, in the same
/// order, and a poll extends it by at most the next submitted fetch: no
/// outcome overtakes one that was submitted before it.
pub proof fn lemma_drained_in_submission_order(pool: PoolView)
    requires
        pool.wf(),
    ensures
        pool.after_poll().wf(),
        pool.drained().len() == pool.resolved,
        forall|k: int|
            0 <= k < pool.resolved ==> (#[trigger] pool.drained()[k]).id == pool.submitted_ids()[k],
        pool.next_ready() matches Some(outcome) ==> outcome.id
            == pool.slots[pool.resolved as int].id,
        pool.after_poll().drained() == match pool.next_ready() {
            Some(outcome) => pool.drained().push(outcome),
            None => pool.drained(),
        },
        pool.after_poll().slots == pool.slots,
{
}

/// While the fetch at the front is pending, a completion reported for any
/// other fetch leaves the pool with nothing to hand out.
pub proof fn lemma_poll_waits_for_front(pool: PoolView, handle: int, value: Seq<char>)
    requires
        pool.wf(),
        !pool.is_complete(),
        !pool.front_ready(),
        handle != pool.resolved,
    ensures
        pool.complete(handle, value).wf(),
        pool.complete(handle, value).next_ready() is None,
        pool.complete(handle, value).after_poll() == pool.complete(handle, value),
{
}

/// Submissions and completions do not touch what has been handed out.
pub proof fn lemma_drained_is_stable(pool: PoolView, id: Seq<char>, handle: int, value: Seq<char>)
    requires
        pool.wf(),
    ensures
        pool.submit(id).wf(),
        pool.submit(id).drained() == pool.drained(),
        pool.complete(handle, value).wf(),
        pool.complete(handle, value).drained() == pool.drained(),
{
}

/// Two fetches submitted as first and second, of which the second completes
/// first: nothing is handed out until the first has completed, then the
/// first outcome, then the second.
pub proof fn lemma_second_waits_for_first(
    first_id: Seq<char>,
    second_id: Seq<char>,
    first_value: Seq<char>,
    second_value: Seq<char>,
)
    ensures
        ({
            let submitted = PoolView::empty().submit(first_id).submit(second_id);
            let second_done = submitted.complete(1, second_value);
            let both_done = second_done.complete(0, first_value);
            &&& second_done.next_ready() is None
            &&& second_done.after_poll() == second_done
            &&& both_done.next_ready() == Some(OutcomeView { id: first_id, value: first_value })
            &&& both_done.after_poll().next_ready() == Some(
                OutcomeView { id: second_id, value: second_value },
            )
            &&& both_done.after_poll().after_poll().is_complete()
        }),
{
}

/// One thing that happens to a pool.
pub enum PoolEvent {
    /// A fetch for the id is submitted.
    Submit(Seq<char>),
    /// The fetch under the handle is reported to have produced the value.
    Complete(int, Seq<char>),
    /// The pool is polled.
    Poll,
}

impl PoolView {
    /// The pool after `event`.
    pub open spec fn after(self, event: PoolEvent) -> PoolView {
        match event {
            PoolEvent::Submit(id) => self.submit(id),
            PoolEvent::Complete(handle, value) => self.complete(handle, value),
            PoolEvent::Poll => self.after_poll(),
        }
    }

    /// The pool after the events of `events`, in order.
    pub open spec fn after_all(self, events: Seq<PoolEvent>) -> PoolView
        decreases events.len(),
    {
        if events.len() == 0 {
            self
        } else {
            self.after_all(events.drop_last()).after(events.last())
        }
    }

    /// What the polls among `events` hand out, in order.
    pub open spec fn handed_out(self, events: Seq<PoolEvent>) -> Seq<OutcomeView>
        decreases events.len(),
    {
        if events.len() == 0 {
            Seq::empty()
        } else {
            let earlier = self.handed_out(events.drop_last());
            match events.last() {
                PoolEvent::Poll => match self.after_all(events.drop_last()).next_ready() {
                    Some(outcome) => earlier.push(outcome),
                    None => earlier,
                },
                _ => earlier,
            }
        }
    }
}

/// Whatever happens to a pool, and in whatever order the fetches complete:
/// what the polls hand out, one after the other, are the outcomes of the
/// fetches in the order of their submission, each under the id it was
/// submitted for and with the value that was first reported for it.
pub proof fn lemma_handed_out_in_submission_order(pool: PoolView, events: Seq<PoolEvent>)
    requires
        pool.wf(),
    ensures
        ({
            let end = pool.after_all(events);
            &&& end.wf()
            &&& pool.resolved <= end.resolved
            &&& pool.slots.len() <= end.slots.len()
            &&& end.drained() == pool.drained() + pool.handed_out(events)
            &&& forall|k: int|
                0 <= k < pool.handed_out(events).len() ==> (#[trigger] pool.handed_out(events)[k])
                    == end.slots[pool.resolved + k].outcome()
            &&& forall|k: int|
                0 <= k < pool.slots.len() ==> (#[trigger] end.slots[k]).id == pool.slots[k].id
            &&& forall|k: int|
                0 <= k < pool.slots.len() && pool.slots[k].value is Some ==> (
                #[trigger] end.slots[k]) == pool.slots[k]
        }),
    decreases events.len(),
{
    if events.len() > 0 {
        let before = pool.after_all(events.drop_last());
        lemma_handed_out_in_submission_order(pool, events.drop_last());
        lemma_drained_in_submission_order(before);
        match events.last() {
            PoolEvent::Submit(id) => {
                lemma_drained_is_stable(before, id, 0, Seq::empty());
            },
            PoolEvent::Complete(handle, value) => {
                lemma_drained_is_stable(before, Seq::empty(), handle, value);
            },
            PoolEvent::Poll => {},
        }
        let end = pool.after_all(events);
        assert(end.drained() =~= pool.drained() + pool.handed_out(events));
        assert forall|k: int| 0 <= k < pool.handed_out(events).len() implies (
        #[trigger] pool.handed_out(events)[k]) == end.slots[pool.resolved + k].outcome() by {
            assert(end.drained()[pool.resolved + k] == pool.handed_out(events)[k]);
        }
    } else {
        assert(pool.drained() + pool.handed_out(events) =~= pool.drained());
    }
}

struct Slot {
    id: String,
    value: Option<String>,
}

impl View for Slot {
    type V = SlotView;

    closed spec fn view(&self) -> SlotView {
        SlotView {
            id: self.id@,
            value: match self.value {
                Some(text) => Some(text@),
                None => None,
            },
        }
    }
}

impl DeepView for Slot {
    type V = SlotView;

    closed spec fn deep_view(&self) -> SlotView {
        self@
    }
}

/// The fetches of one batch, in the order of their submission.
pub struct TaskPool {
    slots: Vec<Slot>,
    resolved: usize,
}

impl View for TaskPool {
    type V = PoolView;

    closed spec fn view(&self) -> PoolView {
        PoolView { slots: self.slots.deep_view(), resolved: self.resolved as nat }
    }
}

impl TaskPool {
    /// What holds of every pool: see `PoolView::wf`.
    pub open spec fn wf(&self) -> bool {
        self@.wf()
    }

    /// The pool to which nothing has been submitted.
    pub fn new() -> (pool: TaskPool)
        ensures
            pool.wf(),
            pool@ == PoolView::empty(),
    {
        let pool = TaskPool { slots: Vec::new(), resolved: 0 };
        proof {
            assert(pool@.slots =~= Seq::<SlotView>::empty());
        }
        pool
    }

    /// Submits a fetch for `id` and returns its handle.
    pub fn submit(&mut self, id: String) -> (handle: usize)
        requires
            old(self).wf(),
        ensures
            final(self).wf(),
            final(self)@ == old(self)@.submit(id@),
            handle == old(self)@.slots.len(),
    {
        let handle = self.slots.len();
        self.slots.push(Slot { id, value: None });
        proof {
            assert(self@.slots =~= old(self)@.slots.push(SlotView { id: id@, value: None }));
        }
        handle
    }

    /// Reports that the fetch `handle` has produced `value`.  Returns whether
    /// the report was taken.
    pub fn complete(&mut self, handle: usize, value: String) -> (taken: bool)
        requires
            old(self).wf(),
        ensures
            final(self).wf(),
            final(self)@ == old(self)@.complete(handle as int, value@),
            taken == old(self)@.accepts(handle as int),
    {
        if handle < self.slots.len() && self.slots[handle].value.is_none() {
            let slot = &mut self.slots[handle];
            slot.value = Some(value);
            proof {
                assert(self@.slots =~= old(self)@.slots.update(
                    handle as int,
                    SlotView { value: Some(value@), ..old(self)@.slots[handle as int] },
                ));
            }
            true
        } else {
            false
        }
    }

    /// Hands out the outcome of the fetch at the front, once that fetch has
    /// completed.  Never waits: while the front is pending this returns
    /// `None`, whatever has arrived behind it.
    pub fn poll_next_ready(&mut self) -> (outcome: Option<FetchOutcome>)
        requires
            old(self).wf(),
        ensures
            final(self).wf(),
            final(self)@ == old(self)@.after_poll(),
            outcome.deep_view() == old(self)@.next_ready(),
    {
        if self.resolved < self.slots.len() {
            let slot = &self.slots[self.resolved];
            match &slot.value {
                Some(text) => {
                    let outcome = FetchOutcome { id: slot.id.clone(), value: text.clone() };
                    self.resolved += 1;
                    Some(outcome)
                },
                None => None,
            }
        } else {
            None
        }
    }

    /// Whether all that was submitted has been handed out.
    pub fn is_complete(&self) -> (done: bool)
        requires
            self.wf(),
        ensures
            done == self@.is_complete(),
    {
        self.resolved == self.slots.len()
    }

    /// How many outcomes have been handed out.
    pub fn resolved_count(&self) -> (count: usize)
        ensures
            count == self@.resolved,
    {
        self.resolved
    }

    /// How many fetches have been submitted.
    pub fn submitted_count(&self) -> (count: usize)
        ensures
            count == self@.slots.len(),
    {
        self.slots.len()
    }

    /// Whether the fetch `handle` has been submitted and has not completed.
    pub fn is_pending(&self, handle: usize) -> (pending: bool)
        ensures
            pending == self@.accepts(handle as int),
    {
        handle < self.slots.len() && self.slots[handle].value.is_none()
    }
}

} // verus!
