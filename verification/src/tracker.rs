//! The state that the presentation loop owns: the table of tracked items,
//! the fetches in flight, and the receiving end of the scheduler's channel.
//!
//! Every operation returns at once.  Fetches are started by the embedding
//! program, which is handed a `FetchRequest` for each and reports how it
//! ended; `tick` moves what has completed into the table.

use std::sync::mpsc::{Receiver, Sender};
use vstd::prelude::*;
use crate::channel::{clone_sender, open_channel, try_receive};
use crate::clock::get_current_date_time;
use crate::ident::{is_row_id, new_row_id};
use crate::pool::{PoolView, SlotView, TaskPool};
use crate::row::{
    request_for, value_or_empty, value_or_empty_spec, FetchError, FetchOutcome, FetchRequest,
    OutcomeView, RequestView, RowView, ValueData,
};
use crate::scheduler::{
    period_secs_spec, Phase, RefreshScheduler, SchedulerError, SchedulerView,
    DEFAULT_CUSTOM_TIME_INTERVAL,
};
use crate::table::{
    apply_batch, apply_batch_spec, apply_result, apply_result_spec, clone_table, count_flags,
    count_set, find_row,
    fresh_row, lemma_apply_batch_keeps_rows, lemma_apply_result_present, lemma_retain_marks,
    lemma_retain_together, mark_ids, marks_for_ids, remove_marked, remove_rows, retain_unmarked,
};

verus! {

/// Why the tracker refused a request.
#[derive(Clone, Copy, Debug, PartialEq, Eq, Structural)]
pub enum TrackerError {
    /// A fetch of the same kind is in flight already.
    AlreadyInProgress,
    /// No value has been fetched for the row to add.
    NoFetchedValue,
}

/// The tracker, as plain values.
pub struct TrackerView {
    /// The rows of the table.
    pub table: Seq<RowView>,
    /// For each row, whether it is selected.
    pub selected: Seq<bool>,
    /// The configured refresh period, in minutes.
    pub interval: u64,
    /// The value fetched for the row that is being drafted.
    pub draft_value: Seq<char>,
    /// The pool of the fetch made for the draft, while there is one.
    pub single: Option<PoolView>,
    /// The pool of the refresh of the whole table, while there is one.
    pub refresh: Option<PoolView>,
    /// Whether the background scheduler has been handed out.
    pub scheduled: bool,
}

/// The pool of a refresh of the whole table: one pending fetch for each row,
/// in the rows' order.
pub open spec fn refresh_pool(table: Seq<RowView>) -> PoolView {
    PoolView {
        slots: Seq::new(table.len(), |k: int| SlotView { id: table[k].id, value: None }),
        resolved: 0,
    }
}

/// The fetches of a refresh of the whole table: one for each row, in the
/// rows' order, each under its row's position as its handle.
pub open spec fn refresh_requests(table: Seq<RowView>) -> Seq<RequestView> {
    Seq::new(table.len(), |k: int| request_for(table[k], k as nat))
}

/// The pool of the fetch made for a draft: one pending fetch, for no row.
pub open spec fn single_pool() -> PoolView {
    PoolView::empty().submit(Seq::empty())
}

impl TrackerView {
    /// Each row has its selection flag, and the pools are as pools are.
    pub open spec fn wf(self) -> bool {
        &&& self.selected.len() == self.table.len()
        &&& self.single matches Some(pool) ==> pool.wf() && pool.slots.len() == 1
        &&& self.refresh matches Some(pool) ==> pool.wf()
    }

    /// The tracker with an empty table.
    pub open spec fn empty() -> TrackerView {
        TrackerView {
            table: Seq::empty(),
            selected: Seq::empty(),
            interval: DEFAULT_CUSTOM_TIME_INTERVAL,
            draft_value: Seq::empty(),
            single: None,
            refresh: None,
            scheduled: false,
        }
    }

    /// The tracker after a fetch for the draft has been requested.
    pub open spec fn request_fetch(self) -> TrackerView {
        if self.single is Some {
            self
        } else {
            TrackerView { single: Some(single_pool()), ..self }
        }
    }

    /// The tracker after the fetch for the draft has been reported to have
    /// produced `value`.
    pub open spec fn complete_fetch(self, value: Seq<char>) -> TrackerView {
        match self.single {
            Some(pool) => TrackerView { single: Some(pool.complete(0, value)), ..self },
            None => self,
        }
    }

    /// The tracker after a refresh of the whole table has been requested.
    pub open spec fn start_refresh_all(self) -> TrackerView {
        if self.refresh is Some {
            self
        } else {
            TrackerView { refresh: Some(refresh_pool(self.table)), ..self }
        }
    }

    /// The tracker after the fetch `handle` of the refresh has been reported
    /// to have produced `value`.
    pub open spec fn complete_refresh(self, handle: int, value: Seq<char>) -> TrackerView {
        match self.refresh {
            Some(pool) => TrackerView { refresh: Some(pool.complete(handle, value)), ..self },
            None => self,
        }
    }

    /// The tracker after the pool of the draft's fetch has been drained: once
    /// the fetch has completed, its value is the draft's and the pool is gone.
    pub open spec fn drain_fetch(self) -> TrackerView {
        match self.single {
            Some(pool) => match pool.next_ready() {
                Some(outcome) => TrackerView {
                    draft_value: outcome.value,
                    single: None,
                    ..self
                },
                None => self,
            },
            None => self,
        }
    }

    /// The tracker after one outcome of the refresh has been drained at time
    /// `now`: the outcome at the front of the pool, once it has arrived, is
    /// applied to the table, and a pool that has handed out all its outcomes
    /// is gone.
    pub open spec fn drain_refresh(self, now: Seq<char>) -> TrackerView {
        match self.refresh {
            Some(pool) => TrackerView {
                table: match pool.next_ready() {
                    Some(outcome) => apply_result_spec(self.table, outcome.id, outcome.value, now),
                    None => self.table,
                },
                refresh: if pool.after_poll().is_complete() {
                    None
                } else {
                    Some(pool.after_poll())
                },
                ..self
            },
            None => self,
        }
    }

    /// The tracker after as many outcomes of the refresh have been drained as
    /// `stamps` has times, one at each of them in order.
    pub open spec fn drain_refresh_all(self, stamps: Seq<Seq<char>>) -> TrackerView
        decreases stamps.len(),
    {
        if stamps.len() == 0 {
            self
        } else {
            self.drain_refresh_all(stamps.drop_last()).drain_refresh(stamps.last())
        }
    }

    /// The tracker after a batch of the scheduler has been applied, the
    /// outcome at position `k` at time `stamps[k]`.
    pub open spec fn apply_batch(
        self,
        batch: Seq<OutcomeView>,
        stamps: Seq<Seq<char>>,
    ) -> TrackerView {
        TrackerView { table: apply_batch_spec(self.table, batch, stamps), ..self }
    }

    /// The tracker after what the channel held, if anything, has been taken.
    pub open spec fn receive(
        self,
        batch: Option<Seq<OutcomeView>>,
        stamps: Seq<Seq<char>>,
    ) -> TrackerView {
        match batch {
            Some(outcomes) => self.apply_batch(outcomes, stamps),
            None => self,
        }
    }

    /// The tracker after one tick: the draft's pool is drained, then one
    /// outcome of the refresh at time `now`, then the channel.
    pub open spec fn tick(
        self,
        now: Seq<char>,
        batch: Option<Seq<OutcomeView>>,
        stamps: Seq<Seq<char>>,
    ) -> TrackerView {
        self.drain_fetch().drain_refresh(now).receive(batch, stamps)
    }

    /// The tracker after `row` has been added: it is the last row, it is not
    /// selected, and the draft is empty again.
    pub open spec fn add_row(self, row: RowView) -> TrackerView {
        TrackerView {
            table: self.table.push(row),
            selected: self.selected.push(false),
            draft_value: Seq::empty(),
            ..self
        }
    }

    /// The tracker after the rows that `marks` marks have been removed.
    pub open spec fn remove(self, marks: Seq<bool>) -> TrackerView {
        TrackerView {
            table: retain_unmarked(self.table, marks),
            selected: retain_unmarked(self.selected, marks),
            ..self
        }
    }
}

/// The tracker's state.
pub struct TrackerState {
    table_data: Vec<ValueData>,
    selected_rows: Vec<bool>,
    custom_time_interval: u64,
    new_row_value: String,
    fetching_value: bool,
    fetch_value: TaskPool,
    fetching_latest_values: bool,
    fetch_latest_values: TaskPool,
    scheduled_job_setup: bool,
    outbox: Sender<Vec<FetchOutcome>>,
    inbox: Receiver<Vec<FetchOutcome>>,
}

impl View for TrackerState {
    type V = TrackerView;

    closed spec fn view(&self) -> TrackerView {
        TrackerView {
            table: self.table_data.deep_view(),
            selected: self.selected_rows@,
            interval: self.custom_time_interval,
            draft_value: self.new_row_value@,
            single: if self.fetching_value {
                Some(self.fetch_value@)
            } else {
                None
            },
            refresh: if self.fetching_latest_values {
                Some(self.fetch_latest_values@)
            } else {
                None
            },
            scheduled: self.scheduled_job_setup,
        }
    }
}

impl TrackerState {
    /// What holds of every tracker: see `TrackerView::wf`.
    pub open spec fn wf(&self) -> bool {
        self@.wf()
    }

    /// A tracker with an empty table and the default refresh period.
    pub fn new() -> (state: TrackerState)
        ensures
            state.wf(),
            state@ == TrackerView::empty(),
    {
        let (outbox, inbox) = open_channel();
        let state = TrackerState {
            table_data: Vec::new(),
            selected_rows: Vec::new(),
            custom_time_interval: DEFAULT_CUSTOM_TIME_INTERVAL,
            new_row_value: String::new(),
            fetching_value: false,
            fetch_value: TaskPool::new(),
            fetching_latest_values: false,
            fetch_latest_values: TaskPool::new(),
            scheduled_job_setup: false,
            outbox,
            inbox,
        };
        proof {
            assert(state@.table =~= Seq::<RowView>::empty());
        }
        state
    }

    /// Asks for the value of a page to be fetched for the row that is being
    /// drafted.  Returns the fetch to start.  While such a fetch is in flight
    /// a second request is refused and changes nothing.
    pub fn request_fetch(&mut self, link: String, css_selector: String) -> (request: Result<
        FetchRequest,
        TrackerError,
    >)
        requires
            old(self).wf(),
        ensures
            final(self).wf(),
            final(self)@ == old(self)@.request_fetch(),
            match request {
                Ok(fetch) => old(self)@.single is None && fetch@ == (RequestView {
                    handle: 0,
                    id: Seq::empty(),
                    link: link@,
                    css_selector: css_selector@,
                }),
                Err(error) => old(self)@.single is Some && error
                    == TrackerError::AlreadyInProgress,
            },
    {
        if self.fetching_value {
            return Err(TrackerError::AlreadyInProgress);
        }
        let mut pool = TaskPool::new();
        let handle = pool.submit(String::new());
        self.fetch_value = pool;
        self.fetching_value = true;
        Ok(FetchRequest { handle, id: String::new(), link, css_selector })
    }

    /// Reports how the fetch for the draft ended.  A failed fetch counts as
    /// the empty value.  Returns whether the report was taken: it is not
    /// where no such fetch is in flight, or where it has been reported before.
    pub fn complete_fetch(&mut self, result: Result<String, FetchError>) -> (taken: bool)
        requires
            old(self).wf(),
        ensures
            final(self).wf(),
            final(self)@ == old(self)@.complete_fetch(value_or_empty_spec(result)),
            taken == (old(self)@.single matches Some(pool) && pool.accepts(0)),
    {
        if !self.fetching_value {
            return false;
        }
        let value = value_or_empty(result);
        self.fetch_value.complete(0, value)
    }

    /// Asks for every row of the table to be fetched anew.  Returns the
    /// fetches to start, one for each row in the rows' order.  While such a
    /// refresh is in flight a second request is refused and changes nothing.
    pub fn start_refresh_all(&mut self) -> (requests: Result<Vec<FetchRequest>, TrackerError>)
        requires
            old(self).wf(),
        ensures
            final(self).wf(),
            final(self)@ == old(self)@.start_refresh_all(),
            match requests {
                Ok(fetches) => old(self)@.refresh is None && fetches.deep_view()
                    == refresh_requests(old(self)@.table),
                Err(error) => old(self)@.refresh is Some && error
                    == TrackerError::AlreadyInProgress,
            },
    {
        if self.fetching_latest_values {
            return Err(TrackerError::AlreadyInProgress);
        }
        let mut pool = TaskPool::new();
        let mut fetches: Vec<FetchRequest> = Vec::new();
        let mut i: usize = 0;
        while i < self.table_data.len()
            invariant
                i <= self.table_data.len(),
                pool.wf(),
                pool@.resolved == 0,
                pool@.slots.len() == i,
                fetches.len() == i,
                forall|k: int|
                    0 <= k < i ==> #[trigger] pool@.slots[k] == (SlotView {
                        id: self.table_data.deep_view()[k].id,
                        value: None,
                    }),
                forall|k: int|
                    0 <= k < i ==> #[trigger] fetches.deep_view()[k] == request_for(
                        self.table_data.deep_view()[k],
                        k as nat,
                    ),
            decreases self.table_data.len() - i,
        {
            let row = &self.table_data[i];
            let ghost before = fetches.deep_view();
            pool.submit(row.id.clone());
            fetches.push(FetchRequest::for_row(row, i));
            proof {
                assert(fetches.deep_view() =~= before.push(request_for(row@, i as nat)));
            }
            i += 1;
        }
        proof {
            assert(pool@.slots =~= refresh_pool(self.table_data.deep_view()).slots);
        }
        self.fetch_latest_values = pool;
        self.fetching_latest_values = true;
        Ok(fetches)
    }

    /// Reports how the fetch `handle` of the refresh ended.  A failed fetch
    /// counts as the empty value.  Returns whether the report was taken: it
    /// is not where no refresh is in flight, where the handle names none of
    /// its fetches, or where that fetch has been reported before.
    pub fn complete_refresh(&mut self, handle: usize, result: Result<String, FetchError>) -> (taken:
        bool)
        requires
            old(self).wf(),
        ensures
            final(self).wf(),
            final(self)@ == old(self)@.complete_refresh(
                handle as int,
                value_or_empty_spec(result),
            ),
            taken == (old(self)@.refresh matches Some(pool) && pool.accepts(handle as int)),
    {
        if !self.fetching_latest_values {
            return false;
        }
        let value = value_or_empty(result);
        self.fetch_latest_values.complete(handle, value)
    }

    /// Writes the value fetched for `id` to the first row with that id,
    /// stamped with the time of the call: the row's latest value becomes its
    /// previous one, and `value` its latest.  A result for an id that no row
    /// has is dropped.  Returns whether a row was written.
    pub fn apply_result(&mut self, id: &String, value: String) -> (applied: bool)
        requires
            old(self).wf(),
        ensures
            final(self).wf(),
            exists|now: Seq<char>|
                final(self)@ == (TrackerView {
                    table: #[trigger] apply_result_spec(old(self)@.table, id@, value@, now),
                    ..old(self)@
                }),
            applied == find_row(old(self)@.table, id@).is_some(),
            !applied ==> final(self)@ == old(self)@,
    {
        let ghost rows = self.table_data.deep_view();
        let applied = apply_result(&mut self.table_data, id, value);
        proof {
            let now = choose|now: Seq<char>|
                self.table_data.deep_view() == #[trigger] apply_result_spec(rows, id@, value@, now);
            if applied {
                lemma_apply_result_present(rows, id@, value@, now);
            }
        }
        applied
    }

    /// Drains the pool of the draft's fetch: once the fetch has completed,
    /// its value becomes the draft's and the pool is cleared.
    pub fn drain_fetch(&mut self)
        requires
            old(self).wf(),
        ensures
            final(self).wf(),
            final(self)@ == old(self)@.drain_fetch(),
    {
        if !self.fetching_value {
            return;
        }
        match self.fetch_value.poll_next_ready() {
            Some(outcome) => {
                self.new_row_value = outcome.value;
                self.fetching_value = false;
                self.fetch_value = TaskPool::new();
            },
            None => {},
        }
    }

    /// Drains one outcome of the refresh: the outcome at the front of the
    /// pool, once it has arrived, is applied to the table with the time of
    /// the call; an outcome for a row that is gone is dropped.  A pool that
    /// has handed out as many outcomes as fetches were submitted is cleared.
    pub fn drain_refresh(&mut self)
        requires
            old(self).wf(),
        ensures
            final(self).wf(),
            exists|now: Seq<char>| final(self)@ == #[trigger] old(self)@.drain_refresh(now),
    {
        if !self.fetching_latest_values {
            return;
        }
        let ghost rows = self.table_data.deep_view();
        let ghost mut now: Seq<char> = Seq::empty();
        match self.fetch_latest_values.poll_next_ready() {
            Some(outcome) => {
                apply_result(&mut self.table_data, &outcome.id, outcome.value);
                proof {
                    now = choose|now: Seq<char>|
                        self.table_data.deep_view() == #[trigger] apply_result_spec(
                            rows,
                            outcome.id@,
                            outcome.value@,
                            now,
                        );
                    if find_row(rows, outcome.id@) is Some {
                        lemma_apply_result_present(rows, outcome.id@, outcome.value@, now);
                    }
                }
            },
            None => {},
        }
        if self.fetch_latest_values.is_complete() {
            self.fetching_latest_values = false;
            self.fetch_latest_values = TaskPool::new();
        }
        proof {
            assert(self@ == old(self)@.drain_refresh(now));
        }
    }

    /// Applies a batch of the scheduler to the table: every outcome in
    /// order, each with the time at which it is applied.  Outcomes for rows
    /// that are gone are dropped.
    pub fn apply_batch(&mut self, batch: &Vec<FetchOutcome>)
        requires
            old(self).wf(),
        ensures
            final(self).wf(),
            exists|stamps: Seq<Seq<char>>|
                stamps.len() == batch.len() && final(self)@ == #[trigger] old(self)@.apply_batch(
                    batch.deep_view(),
                    stamps,
                ),
    {
        let ghost rows = self.table_data.deep_view();
        apply_batch(&mut self.table_data, batch);
        proof {
            let stamps = choose|stamps: Seq<Seq<char>>|
                stamps.len() == batch.len() && self.table_data.deep_view()
                    == #[trigger] apply_batch_spec(rows, batch.deep_view(), stamps);
            lemma_apply_batch_keeps_rows(rows, batch.deep_view(), stamps);
            assert(self@ == old(self)@.apply_batch(batch.deep_view(), stamps));
        }
    }

    /// Takes one batch from the scheduler's channel, where one has arrived,
    /// and applies it to the table.  Never waits.
    pub fn drain_channel(&mut self)
        requires
            old(self).wf(),
        ensures
            final(self).wf(),
            exists|batch: Option<Seq<OutcomeView>>, stamps: Seq<Seq<char>>|
                final(self)@ == #[trigger] old(self)@.receive(batch, stamps),
    {
        match try_receive(&self.inbox) {
            Some(batch) => {
                self.apply_batch(&batch);
                proof {
                    let stamps = choose|stamps: Seq<Seq<char>>|
                        stamps.len() == batch.len() && self@ == #[trigger] old(self)@.apply_batch(
                            batch.deep_view(),
                            stamps,
                        );
                    assert(self@ == old(self)@.receive(Some(batch.deep_view()), stamps));
                }
            },
            None => {
                proof {
                    assert(self@ == old(self)@.receive(None, Seq::empty()));
                }
            },
        }
    }

    /// One tick of the presentation loop: drains the pool of the draft's
    /// fetch, then one outcome of the refresh, then the scheduler's channel.
    /// Never waits.
    pub fn tick(&mut self)
        requires
            old(self).wf(),
        ensures
            final(self).wf(),
            exists|now: Seq<char>, batch: Option<Seq<OutcomeView>>, stamps: Seq<Seq<char>>|
                final(self)@ == #[trigger] old(self)@.tick(now, batch, stamps),
    {
        self.drain_fetch();
        let ghost drained = self@;
        self.drain_refresh();
        let ghost refreshed = self@;
        self.drain_channel();
        proof {
            let now = choose|now: Seq<char>| refreshed == #[trigger] drained.drain_refresh(now);
            let (batch, stamps) = choose|batch: Option<Seq<OutcomeView>>, stamps: Seq<Seq<char>>|
                self@ == #[trigger] refreshed.receive(batch, stamps);
            assert(self@ == old(self)@.tick(now, batch, stamps));
        }
    }

    /// Adds the drafted row to the table under the id `id`, as made at time
    /// `now`: its previous and latest value are both the value that was
    /// fetched for the draft.  The row is the last one and is not selected,
    /// and the draft is empty afterwards.  Refused, with nothing changed,
    /// while no value has been fetched.
    pub fn add_new_row_as(
        &mut self,
        id: String,
        name: String,
        link: String,
        css_selector: String,
        now: String,
    ) -> (added: Result<(), TrackerError>)
        requires
            old(self).wf(),
        ensures
            final(self).wf(),
            match added {
                Ok(_) => old(self)@.draft_value.len() > 0 && final(self)@ == old(self)@.add_row(
                    fresh_row(id@, name@, link@, css_selector@, old(self)@.draft_value, now@),
                ),
                Err(error) => old(self)@.draft_value.len() == 0 && error
                    == TrackerError::NoFetchedValue && final(self)@ == old(self)@,
            },
    {
        if self.new_row_value.as_str().is_empty() {
            return Err(TrackerError::NoFetchedValue);
        }
        let mut value = String::new();
        std::mem::swap(&mut self.new_row_value, &mut value);
        let row = ValueData::fresh(id, name, link, css_selector, value, now);
        self.table_data.push(row);
        self.selected_rows.push(false);
        proof {
            let added = fresh_row(
                id@,
                name@,
                link@,
                css_selector@,
                old(self)@.draft_value,
                now@,
            );
            assert(self@.table =~= old(self)@.table.push(added));
        }
        Ok(())
    }

    /// Adds the drafted row to the table, under a fresh id and as made at the
    /// time of the call: see `add_new_row_as`.
    pub fn add_new_row(&mut self, name: String, link: String, css_selector: String) -> (added:
        Result<(), TrackerError>)
        requires
            old(self).wf(),
        ensures
            final(self).wf(),
            match added {
                Ok(_) => old(self)@.draft_value.len() > 0 && exists|id: Seq<char>, now: Seq<char>|
                    is_row_id(id) && final(self)@ == old(self)@.add_row(
                        #[trigger] fresh_row(
                            id,
                            name@,
                            link@,
                            css_selector@,
                            old(self)@.draft_value,
                            now,
                        ),
                    ),
                Err(error) => old(self)@.draft_value.len() == 0 && error
                    == TrackerError::NoFetchedValue && final(self)@ == old(self)@,
            },
    {
        if self.new_row_value.as_str().is_empty() {
            return Err(TrackerError::NoFetchedValue);
        }
        let id = new_row_id();
        let now = get_current_date_time();
        self.add_new_row_as(id, name, link, css_selector, now)
    }

    /// Empties the draft: the value fetched for it is forgotten.
    pub fn reset_new_row_fields(&mut self)
        requires
            old(self).wf(),
        ensures
            final(self).wf(),
            final(self)@ == (TrackerView { draft_value: Seq::empty(), ..old(self)@ }),
    {
        self.new_row_value = String::new();
    }

    /// Selects or deselects the row at `index`.  An index past the last row
    /// changes nothing.
    pub fn set_selected(&mut self, index: usize, selected: bool)
        requires
            old(self).wf(),
        ensures
            final(self).wf(),
            final(self)@ == (TrackerView {
                selected: if index < old(self)@.selected.len() {
                    old(self)@.selected.update(index as int, selected)
                } else {
                    old(self)@.selected
                },
                ..old(self)@
            }),
    {
        if index < self.selected_rows.len() {
            self.selected_rows.set(index, selected);
        }
    }

    /// How many rows are selected.
    pub fn selected_count(&self) -> (count: usize)
        ensures
            count == count_set(self@.selected),
    {
        count_flags(&self.selected_rows)
    }

    /// Whether any row is selected.
    pub fn delete_selected_rows(&self) -> (any: bool)
        requires
            self.wf(),
        ensures
            any == self@.selected.contains(true),
    {
        let mut i: usize = 0;
        while i < self.selected_rows.len()
            invariant
                i <= self.selected_rows.len(),
                forall|k: int| 0 <= k < i ==> !self.selected_rows@[k],
            decreases self.selected_rows.len() - i,
        {
            if self.selected_rows[i] {
                return true;
            }
            i += 1;
        }
        false
    }

    /// Removes the selected rows.  The rows that stay keep their order and
    /// are not selected.  Fetches in flight for removed rows are not
    /// cancelled: their outcomes are dropped when they arrive.
    pub fn perform_delete(&mut self)
        requires
            old(self).wf(),
        ensures
            final(self).wf(),
            final(self)@ == old(self)@.remove(old(self)@.selected),
            forall|k: int| 0 <= k < final(self)@.selected.len() ==> !final(self)@.selected[k],
    {
        let marks = self.selected_rows.clone();
        remove_rows(&mut self.table_data, &marks);
        remove_marked(&mut self.selected_rows, &marks);
        proof {
            lemma_retain_marks(marks@, marks@);
            lemma_retain_together(old(self)@.table, marks@, marks@);
        }
    }

    /// Removes the rows whose id is one of `ids`.  The rows that stay keep
    /// their order and their selection.  Fetches in flight for removed rows
    /// are not cancelled: their outcomes are dropped when they arrive.
    pub fn delete(&mut self, ids: &Vec<String>)
        requires
            old(self).wf(),
        ensures
            final(self).wf(),
            final(self)@ == old(self)@.remove(marks_for_ids(old(self)@.table, ids.deep_view())),
    {
        let marks = mark_ids(&self.table_data, ids);
        remove_rows(&mut self.table_data, &marks);
        remove_marked(&mut self.selected_rows, &marks);
        proof {
            lemma_retain_together(old(self)@.table, old(self)@.selected, marks@);
        }
    }

    /// Hands out the background scheduler, once: a scheduler whose timer is
    /// registered for the configured period, with a copy of the table as its
    /// snapshot and a sending end of the tracker's channel.  Refused, with
    /// nothing changed, where the scheduler has been handed out before or the
    /// configured number of minutes is no period.
    pub fn arm_scheduler(&mut self) -> (armed: Result<RefreshScheduler, SchedulerError>)
        requires
            old(self).wf(),
        ensures
            final(self).wf(),
            match armed {
                Ok(scheduler) => {
                    &&& !old(self)@.scheduled
                    &&& period_secs_spec(old(self)@.interval) is Some
                    &&& scheduler.wf()
                    &&& scheduler@ == (SchedulerView {
                        phase: Phase::Armed,
                        period_secs: period_secs_spec(old(self)@.interval)->0,
                        table: old(self)@.table,
                        cursor: 0,
                        batch: Seq::empty(),
                    })
                    &&& final(self)@ == (TrackerView { scheduled: true, ..old(self)@ })
                },
                Err(error) => {
                    &&& final(self)@ == old(self)@
                    &&& error == if old(self)@.scheduled {
                        SchedulerError::AlreadyArmed
                    } else {
                        SchedulerError::InvalidInterval
                    }
                    &&& old(self)@.scheduled || period_secs_spec(old(self)@.interval) is None
                },
            },
    {
        if self.scheduled_job_setup {
            return Err(SchedulerError::AlreadyArmed);
        }
        let mut scheduler = RefreshScheduler::new(clone_sender(&self.outbox));
        match scheduler.arm(self.custom_time_interval, clone_table(&self.table_data)) {
            Ok(_) => {
                self.scheduled_job_setup = true;
                Ok(scheduler)
            },
            Err(error) => Err(error),
        }
    }

    /// A tracker with the given table, selection and refresh period, and
    /// nothing in flight.  Where the selection does not have one flag for
    /// each row, no row is selected.
    pub fn restore(
        table_data: Vec<ValueData>,
        selected_rows: Vec<bool>,
        custom_time_interval: u64,
    ) -> (state: TrackerState)
        ensures
            state.wf(),
            state@ == (TrackerView {
                table: table_data.deep_view(),
                selected: if selected_rows.len() == table_data.len() {
                    selected_rows@
                } else {
                    Seq::new(table_data.len() as nat, |k: int| false)
                },
                interval: custom_time_interval,
                ..TrackerView::empty()
            }),
    {
        let mut selected_rows = selected_rows;
        if selected_rows.len() != table_data.len() {
            selected_rows = Vec::new();
            let mut i: usize = 0;
            while i < table_data.len()
                invariant
                    i <= table_data.len(),
                    selected_rows.len() == i,
                    forall|k: int| 0 <= k < i ==> !selected_rows[k],
                decreases table_data.len() - i,
            {
                selected_rows.push(false);
                i += 1;
            }
            proof {
                assert(selected_rows@ =~= Seq::new(table_data.len() as nat, |k: int| false));
            }
        }
        let (outbox, inbox) = open_channel();
        TrackerState {
            table_data,
            selected_rows,
            custom_time_interval,
            new_row_value: String::new(),
            fetching_value: false,
            fetch_value: TaskPool::new(),
            fetching_latest_values: false,
            fetch_latest_values: TaskPool::new(),
            scheduled_job_setup: false,
            outbox,
            inbox,
        }
    }

    /// Sets the refresh period, in minutes.  A scheduler that has been
    /// handed out keeps the period it was armed with.
    pub fn set_custom_time_interval(&mut self, minutes: u64)
        requires
            old(self).wf(),
        ensures
            final(self).wf(),
            final(self)@ == (TrackerView { interval: minutes, ..old(self)@ }),
    {
        self.custom_time_interval = minutes;
    }

    /// The configured refresh period, in minutes.
    pub fn custom_time_interval(&self) -> (minutes: u64)
        ensures
            minutes == self@.interval,
    {
        self.custom_time_interval
    }

    /// The rows of the table.
    pub fn table_data(&self) -> (rows: &Vec<ValueData>)
        ensures
            rows.deep_view() == self@.table,
    {
        &self.table_data
    }

    /// For each row, whether it is selected.
    pub fn selected_rows(&self) -> (flags: &Vec<bool>)
        ensures
            flags@ == self@.selected,
    {
        &self.selected_rows
    }

    /// The value fetched for the row that is being drafted.
    pub fn new_row_value(&self) -> (value: &String)
        ensures
            value@ == self@.draft_value,
    {
        &self.new_row_value
    }

    /// Whether a fetch for the draft is in flight.
    pub fn is_fetching_value(&self) -> (busy: bool)
        ensures
            busy == self@.single.is_some(),
    {
        self.fetching_value
    }

    /// Whether a refresh of the whole table is in flight.
    pub fn is_fetching_latest_values(&self) -> (busy: bool)
        ensures
            busy == self@.refresh.is_some(),
    {
        self.fetching_latest_values
    }
}

/// A refresh requested twice with nothing completed in between: the second
/// request is refused and changes nothing, and one pool is in flight.
pub proof fn lemma_refresh_twice(tracker: TrackerView)
    requires
        tracker.wf(),
    ensures
        tracker.start_refresh_all().wf(),
        tracker.start_refresh_all().refresh is Some,
        tracker.start_refresh_all().start_refresh_all() == tracker.start_refresh_all(),
        tracker.refresh is None ==> tracker.start_refresh_all().refresh == Some(
            refresh_pool(tracker.table),
        ),
{
}

/// Rows may be removed while their fetches are in flight.  Removing rows
/// leaves the pools as they are; the outcome that then arrives for a removed
/// row is drained like any other and changes no row; and each drained
/// outcome, applied or dropped, brings the pool one step nearer to the point
/// where it has handed out as many outcomes as were submitted and is cleared.
pub proof fn lemma_removed_row(tracker: TrackerView, marks: Seq<bool>, now: Seq<char>)
    requires
        tracker.wf(),
        tracker.refresh is Some,
    ensures
        tracker.remove(marks).refresh == tracker.refresh,
        tracker.remove(marks).single == tracker.single,
        ({
            let pool = tracker.refresh->0;
            let after = tracker.drain_refresh(now);
            &&& (pool.next_ready() matches Some(outcome) && find_row(tracker.table, outcome.id)
                is None) ==> after.table == tracker.table
            &&& pool.front_ready() && pool.resolved + 1 < pool.slots.len() ==> after.refresh
                == Some(PoolView { resolved: pool.resolved + 1, ..pool })
            &&& pool.front_ready() && pool.resolved + 1 == pool.slots.len() ==> after.refresh
                is None
            &&& pool.is_complete() ==> after.refresh is None
            &&& !pool.front_ready() && !pool.is_complete() ==> after == tracker
        }),
{
}

/// The outcomes that a pool has still to hand out, once all its fetches have
/// completed.
pub open spec fn outstanding(pool: PoolView) -> Seq<OutcomeView> {
    Seq::new(
        (pool.slots.len() - pool.resolved) as nat,
        |k: int| pool.slots[pool.resolved + k].outcome(),
    )
}

/// A refresh whose fetches have all completed runs out, whatever has become
/// of the table meanwhile: draining it once for each outcome that is left
/// applies these outcomes in the order of submission, those for rows that
/// are gone to no effect, and with the last of them the pool is cleared.
pub proof fn lemma_refresh_runs_out(tracker: TrackerView, stamps: Seq<Seq<char>>, drained: int)
    requires
        tracker.wf(),
        tracker.refresh is Some,
        !tracker.refresh->0.is_complete(),
        forall|k: int|
            tracker.refresh->0.resolved <= k < tracker.refresh->0.slots.len() ==> (
            #[trigger] tracker.refresh->0.slots[k]).value is Some,
        stamps.len() == tracker.refresh->0.slots.len() - tracker.refresh->0.resolved,
        0 <= drained <= stamps.len(),
    ensures
        ({
            let pool = tracker.refresh->0;
            let now = tracker.drain_refresh_all(stamps.take(drained));
            &&& now.wf()
            &&& now.table == apply_batch_spec(
                tracker.table,
                outstanding(pool).take(drained),
                stamps,
            )
            &&& now.refresh == if drained < stamps.len() {
                Some(PoolView { resolved: (pool.resolved + drained) as nat, ..pool })
            } else {
                None
            }
            &&& now == TrackerView { table: now.table, refresh: now.refresh, ..tracker }
        }),
    decreases drained,
{
    let pool = tracker.refresh->0;
    if drained > 0 {
        lemma_refresh_runs_out(tracker, stamps, drained - 1);
        let before = tracker.drain_refresh_all(stamps.take(drained - 1));
        assert(stamps.take(drained).drop_last() == stamps.take(drained - 1));
        assert(outstanding(pool).take(drained).drop_last() == outstanding(pool).take(drained - 1));
        let outcome = outstanding(pool)[drained - 1];
        if find_row(before.table, outcome.id) is Some {
            lemma_apply_result_present(
                before.table,
                outcome.id,
                outcome.value,
                stamps[drained - 1],
            );
        }
    } else {
        assert(outstanding(pool).take(0) =~= Seq::<OutcomeView>::empty());
    }
}

/// A tick keeps the table's shape: no row is added or removed, and each row
/// keeps its id, its name, its page and its locator.
pub proof fn lemma_tick_keeps_rows(
    tracker: TrackerView,
    now: Seq<char>,
    batch: Option<Seq<OutcomeView>>,
    stamps: Seq<Seq<char>>,
)
    requires
        tracker.wf(),
    ensures
        tracker.tick(now, batch, stamps).wf(),
        tracker.tick(now, batch, stamps).table.len() == tracker.table.len(),
        forall|j: int|
            0 <= j < tracker.table.len() ==> {
                let after = #[trigger] tracker.tick(now, batch, stamps).table[j];
                &&& after.id == tracker.table[j].id
                &&& after.name == tracker.table[j].name
                &&& after.link == tracker.table[j].link
                &&& after.css_selector == tracker.table[j].css_selector
            },
{
    let drained = tracker.drain_fetch();
    let refreshed = drained.drain_refresh(now);
    match drained.refresh {
        Some(pool) => match pool.next_ready() {
            Some(outcome) => {
                if find_row(drained.table, outcome.id) is Some {
                    lemma_apply_result_present(drained.table, outcome.id, outcome.value, now);
                }
            },
            None => {},
        },
        None => {},
    }
    match batch {
        Some(outcomes) => {
            lemma_apply_batch_keeps_rows(refreshed.table, outcomes, stamps);
        },
        None => {},
    }
}

} // verus!
