//! The background refresh: a timer that, each time it fires, fetches every
//! row of a snapshot of the table one after the other, decides for each
//! whether its value has changed, and hands the batch of outcomes over.
//!
//! The scheduler decides; the thread that owns it does the work.  After
//! `fire` it asks `next_request` what to fetch, performs the fetch, and hands
//! the result to `record`, which says whether a notification is due.  Once
//! every row has been fetched, `deliver` sends the batch and the scheduler
//! waits for the timer again.

use std::sync::mpsc::Sender;
use vstd::prelude::*;
use crate::channel::send_batch;
use crate::row::{
    request_for, value_or_empty, value_or_empty_spec, FetchError, FetchOutcome, FetchRequest,
    OutcomeView, RequestView, RowView, ValueData,
};
use crate::table::{apply_batch, apply_batch_spec};

verus! {

/// The refresh period, in minutes, where none has been configured.
pub const DEFAULT_CUSTOM_TIME_INTERVAL: u64 = 40;

/// The refresh period in seconds that a number of minutes stands for.  Zero
/// minutes is no period, nor is one whose seconds do not fit the machine word.
pub open spec fn period_secs_spec(minutes: u64) -> Option<u64> {
    if 1 <= minutes && minutes * 60 <= u64::MAX {
        Some((minutes * 60) as u64)
    } else {
        None
    }
}

/// The refresh period in seconds that a number of minutes stands for.
pub fn period_secs(minutes: u64) -> (secs: Option<u64>)
    ensures
        secs == period_secs_spec(minutes),
{
    if minutes == 0 {
        None
    } else {
        minutes.checked_mul(60)
    }
}

/// Whether a freshly fetched value is news: the fetch produced something, and
/// it differs from the value seen last.
pub open spec fn should_notify(old_value: Seq<char>, new_value: Seq<char>) -> bool {
    new_value.len() > 0 && new_value != old_value
}

/// A change to tell the user about, as plain text.
pub struct NoticeView {
    pub name: Seq<char>,
    pub old_value: Seq<char>,
    pub new_value: Seq<char>,
}

/// A change to tell the user about: the name of the row, the value it had,
/// and the value it has now.
pub struct Notice {
    pub name: String,
    pub old_value: String,
    pub new_value: String,
}

impl View for Notice {
    type V = NoticeView;

    open spec fn view(&self) -> NoticeView {
        NoticeView { name: self.name@, old_value: self.old_value@, new_value: self.new_value@ }
    }
}

impl DeepView for Notice {
    type V = NoticeView;

    open spec fn deep_view(&self) -> NoticeView {
        self@
    }
}

/// The change, if any, that a value fetched for `row` amounts to.
pub open spec fn notice_for(row: RowView, value: Seq<char>) -> Option<NoticeView> {
    if should_notify(row.latest_value, value) {
        Some(NoticeView { name: row.name, old_value: row.latest_value, new_value: value })
    } else {
        None
    }
}

/// Where the scheduler stands in its cycle.
#[derive(Clone, Copy, Debug, PartialEq, Eq, Structural)]
pub enum Phase {
    /// No timer is registered.
    Idle,
    /// A timer is registered and has not fired, or its last cycle is done.
    Armed,
    /// The timer has fired and the rows of the snapshot are being fetched.
    Running,
}

/// Why the scheduler refused a request.
#[derive(Clone, Copy, Debug, PartialEq, Eq, Structural)]
pub enum SchedulerError {
    /// A timer is registered already; a new period needs a new scheduler.
    AlreadyArmed,
    /// The number of minutes is no period.
    InvalidInterval,
    /// No timer is registered, or the cycle it started is still running.
    NotArmed,
}

/// How an attempt to deliver the batch went.
#[derive(Clone, Copy, Debug, PartialEq, Eq, Structural)]
pub enum Delivery {
    /// No cycle is running, or rows of it are still to be fetched.
    NotDue,
    /// The batch was handed to the channel.
    Sent,
    /// The cycle is done, but nobody listens on the channel any more.
    Lost,
}

/// The scheduler, as plain values.
pub struct SchedulerView {
    pub phase: Phase,
    pub period_secs: u64,
    pub table: Seq<RowView>,
    pub cursor: nat,
    pub batch: Seq<OutcomeView>,
}

impl SchedulerView {
    /// While a cycle runs, the batch holds one outcome for each row fetched
    /// so far, under that row's id and in the rows' order; between cycles it
    /// is empty.
    pub open spec fn wf(self) -> bool {
        &&& self.cursor <= self.table.len()
        &&& self.batch.len() == self.cursor
        &&& forall|k: int|
            0 <= k < self.cursor ==> (#[trigger] self.batch[k]).id == self.table[k].id
        &&& self.phase != Phase::Running ==> self.cursor == 0
    }

    /// Whether a timer may be registered for `minutes`.
    pub open spec fn arm_result(self, minutes: u64) -> Result<u64, SchedulerError> {
        if self.phase != Phase::Idle {
            Err(SchedulerError::AlreadyArmed)
        } else {
            match period_secs_spec(minutes) {
                Some(secs) => Ok(secs),
                None => Err(SchedulerError::InvalidInterval),
            }
        }
    }

    /// The scheduler after a request to register a timer for `minutes`, with
    /// `snapshot` as the table to refresh.
    pub open spec fn arm(self, minutes: u64, snapshot: Seq<RowView>) -> SchedulerView {
        match self.arm_result(minutes) {
            Ok(secs) => SchedulerView {
                phase: Phase::Armed,
                period_secs: secs,
                table: snapshot,
                ..self
            },
            Err(_) => self,
        }
    }

    /// The scheduler after the timer has fired.  A newer snapshot, where one
    /// is at hand, takes the place of the scheduler's own.
    pub open spec fn fire(self, snapshot: Option<Seq<RowView>>) -> SchedulerView {
        if self.phase == Phase::Armed {
            SchedulerView {
                phase: Phase::Running,
                table: match snapshot {
                    Some(rows) => rows,
                    None => self.table,
                },
                ..self
            }
        } else {
            self
        }
    }

    /// Whether a row of the running cycle is still to be fetched.
    pub open spec fn fetching(self) -> bool {
        self.phase == Phase::Running && self.cursor < self.table.len()
    }

    /// The fetch to perform next.
    pub open spec fn next_request(self) -> Option<RequestView> {
        if self.fetching() {
            Some(request_for(self.table[self.cursor as int], self.cursor))
        } else {
            None
        }
    }

    /// The change, if any, that `value`, fetched for the row that is next,
    /// amounts to.
    pub open spec fn notice(self, value: Seq<char>) -> Option<NoticeView> {
        if self.fetching() {
            notice_for(self.table[self.cursor as int], value)
        } else {
            None
        }
    }

    /// The scheduler after `value` has been fetched for the row that is next.
    pub open spec fn record(self, value: Seq<char>) -> SchedulerView {
        if self.fetching() {
            SchedulerView {
                cursor: self.cursor + 1,
                batch: self.batch.push(
                    OutcomeView { id: self.table[self.cursor as int].id, value },
                ),
                ..self
            }
        } else {
            self
        }
    }

    /// Whether the running cycle has fetched all its rows.
    pub open spec fn due(self) -> bool {
        self.phase == Phase::Running && self.cursor == self.table.len()
    }

    /// The scheduler after its batch has been delivered, where it was due:
    /// the batch has been applied to the scheduler's own table, the outcome
    /// at position `k` at time `stamps[k]`, and the timer is awaited again.
    pub open spec fn deliver(self, stamps: Seq<Seq<char>>) -> SchedulerView {
        if self.due() {
            SchedulerView {
                phase: Phase::Armed,
                table: apply_batch_spec(self.table, self.batch, stamps),
                cursor: 0,
                batch: Seq::empty(),
                ..self
            }
        } else {
            self
        }
    }

    /// The scheduler after the values of `values` have been recorded in
    /// order.
    pub open spec fn record_all(self, values: Seq<Seq<char>>) -> SchedulerView
        decreases values.len(),
    {
        if values.len() == 0 {
            self
        } else {
            self.record_all(values.drop_last()).record(values.last())
        }
    }
}

/// A cycle that records one value for each row of its snapshot ends with a
/// batch that pairs each row's id with the value fetched for it, in the
/// rows' order, and is then due.  Along the way the value recorded for a row
/// raises a notice exactly where it is news for that row.
pub proof fn lemma_cycle(start: SchedulerView, values: Seq<Seq<char>>, done: int)
    requires
        start.wf(),
        start.phase == Phase::Running,
        start.cursor == 0,
        0 <= done <= values.len() <= start.table.len(),
    ensures
        ({
            let now = start.record_all(values.take(done));
            &&& now.wf()
            &&& now.phase == Phase::Running
            &&& now.table == start.table
            &&& now.period_secs == start.period_secs
            &&& now.cursor == done
            &&& now.batch == Seq::new(
                done as nat,
                |k: int| OutcomeView { id: start.table[k].id, value: values[k] },
            )
            &&& done == start.table.len() ==> now.due()
            &&& done < values.len() ==> now.notice(values[done]) == notice_for(
                start.table[done],
                values[done],
            )
        }),
    decreases done,
{
    if done > 0 {
        lemma_cycle(start, values, done - 1);
        assert(values.take(done).drop_last() == values.take(done - 1));
    }
}

/// The background refresh scheduler.
pub struct RefreshScheduler {
    phase: Phase,
    period_secs: u64,
    table: Vec<ValueData>,
    cursor: usize,
    batch: Vec<FetchOutcome>,
    outbox: Sender<Vec<FetchOutcome>>,
}

impl View for RefreshScheduler {
    type V = SchedulerView;

    closed spec fn view(&self) -> SchedulerView {
        SchedulerView {
            phase: self.phase,
            period_secs: self.period_secs,
            table: self.table.deep_view(),
            cursor: self.cursor as nat,
            batch: self.batch.deep_view(),
        }
    }
}

impl RefreshScheduler {
    /// What holds of every scheduler: see `SchedulerView::wf`.
    pub open spec fn wf(&self) -> bool {
        self@.wf()
    }

    /// A scheduler without a timer, which will deliver into `outbox`.
    pub fn new(outbox: Sender<Vec<FetchOutcome>>) -> (scheduler: RefreshScheduler)
        ensures
            scheduler.wf(),
            scheduler@ == (SchedulerView {
                phase: Phase::Idle,
                period_secs: 0,
                table: Seq::empty(),
                cursor: 0,
                batch: Seq::empty(),
            }),
    {
        let scheduler = RefreshScheduler {
            phase: Phase::Idle,
            period_secs: 0,
            table: Vec::new(),
            cursor: 0,
            batch: Vec::new(),
            outbox,
        };
        proof {
            assert(scheduler@.table =~= Seq::<RowView>::empty());
            assert(scheduler@.batch =~= Seq::<OutcomeView>::empty());
        }
        scheduler
    }

    /// Registers the timer: every `minutes` minutes the rows of `snapshot`
    /// are to be refreshed.  Returns the period in seconds.  Refused, with
    /// nothing changed, where a timer is registered already or `minutes` is
    /// no period.
    pub fn arm(&mut self, minutes: u64, snapshot: Vec<ValueData>) -> (armed: Result<
        u64,
        SchedulerError,
    >)
        requires
            old(self).wf(),
        ensures
            final(self).wf(),
            armed == old(self)@.arm_result(minutes),
            final(self)@ == old(self)@.arm(minutes, snapshot.deep_view()),
    {
        if self.phase != Phase::Idle {
            return Err(SchedulerError::AlreadyArmed);
        }
        match period_secs(minutes) {
            Some(secs) => {
                self.phase = Phase::Armed;
                self.period_secs = secs;
                self.table = snapshot;
                Ok(secs)
            },
            None => Err(SchedulerError::InvalidInterval),
        }
    }

    /// The timer has fired: a cycle starts.  Refused, with nothing changed,
    /// where no timer is registered or a cycle is running still.
    pub fn fire(&mut self, snapshot: Option<Vec<ValueData>>) -> (started: Result<
        (),
        SchedulerError,
    >)
        requires
            old(self).wf(),
        ensures
            final(self).wf(),
            started is Ok <==> old(self)@.phase == Phase::Armed,
            started is Err ==> started == Err::<(), SchedulerError>(SchedulerError::NotArmed),
            final(self)@ == old(self)@.fire(snapshot.deep_view()),
    {
        if self.phase != Phase::Armed {
            return Err(SchedulerError::NotArmed);
        }
        match snapshot {
            Some(rows) => {
                self.table = rows;
            },
            None => {},
        }
        self.phase = Phase::Running;
        Ok(())
    }

    /// The fetch to perform next, while rows of the running cycle are left.
    pub fn next_request(&self) -> (request: Option<FetchRequest>)
        requires
            self.wf(),
        ensures
            request.deep_view() == self@.next_request(),
    {
        if self.phase == Phase::Running && self.cursor < self.table.len() {
            Some(FetchRequest::for_row(&self.table[self.cursor], self.cursor))
        } else {
            None
        }
    }

    /// Takes the result of the fetch that `next_request` asked for.  A failed
    /// fetch counts as the empty value.  Returns the notice to show, where
    /// the value is news.  Without a fetch outstanding nothing changes.
    pub fn record(&mut self, result: Result<String, FetchError>) -> (notice: Option<Notice>)
        requires
            old(self).wf(),
        ensures
            final(self).wf(),
            final(self)@ == old(self)@.record(value_or_empty_spec(result)),
            notice.deep_view() == old(self)@.notice(value_or_empty_spec(result)),
    {
        if !(self.phase == Phase::Running && self.cursor < self.table.len()) {
            return None;
        }
        let value = value_or_empty(result);
        let row = &self.table[self.cursor];
        let notice = if !value.as_str().is_empty() && value != row.latest_value {
            Some(
                Notice {
                    name: row.name.clone(),
                    old_value: row.latest_value.clone(),
                    new_value: value.clone(),
                },
            )
        } else {
            None
        };
        let outcome = FetchOutcome { id: row.id.clone(), value };
        self.batch.push(outcome);
        self.cursor += 1;
        proof {
            assert(self@.batch =~= old(self)@.batch.push(
                OutcomeView {
                    id: old(self)@.table[old(self)@.cursor as int].id,
                    value: value_or_empty_spec(result),
                },
            ));
        }
        notice
    }

    /// Ends the cycle once every row of it has been fetched: the batch is
    /// applied to the scheduler's own table, each outcome with the time at
    /// which it is applied, the scheduler awaits the timer again, and the
    /// batch is returned.  Before that nothing happens.
    pub fn finish(&mut self) -> (batch: Option<Vec<FetchOutcome>>)
        requires
            old(self).wf(),
        ensures
            final(self).wf(),
            match batch {
                Some(outcomes) => old(self)@.due() && outcomes.deep_view() == old(self)@.batch,
                None => !old(self)@.due(),
            },
            exists|stamps: Seq<Seq<char>>|
                stamps.len() == old(self)@.batch.len() && final(self)@
                    == #[trigger] old(self)@.deliver(stamps),
    {
        if !(self.phase == Phase::Running && self.cursor == self.table.len()) {
            proof {
                let stamps = Seq::new(self@.batch.len(), |k: int| Seq::<char>::empty());
                assert(self@ == self@.deliver(stamps));
            }
            return None;
        }
        let mut batch: Vec<FetchOutcome> = Vec::new();
        std::mem::swap(&mut self.batch, &mut batch);
        apply_batch(&mut self.table, &batch);
        self.phase = Phase::Armed;
        self.cursor = 0;
        proof {
            let stamps = choose|stamps: Seq<Seq<char>>|
                stamps.len() == batch.len() && self.table.deep_view()
                    == #[trigger] apply_batch_spec(
                    old(self).table.deep_view(),
                    batch.deep_view(),
                    stamps,
                );
            assert(self@.batch =~= Seq::<OutcomeView>::empty());
            assert(self@ == old(self)@.deliver(stamps));
        }
        Some(batch)
    }

    /// Delivers the batch once every row of the cycle has been fetched: the
    /// cycle is ended as by `finish`, and the batch that `finish` returns is
    /// sent down the channel as one message.  Before that nothing happens.
    pub fn deliver(&mut self) -> (delivery: Delivery)
        requires
            old(self).wf(),
        ensures
            final(self).wf(),
            delivery == Delivery::NotDue <==> !old(self)@.due(),
            exists|stamps: Seq<Seq<char>>|
                stamps.len() == old(self)@.batch.len() && final(self)@
                    == #[trigger] old(self)@.deliver(stamps),
    {
        match self.finish() {
            Some(batch) => {
                if send_batch(&self.outbox, batch) {
                    Delivery::Sent
                } else {
                    Delivery::Lost
                }
            },
            None => Delivery::NotDue,
        }
    }

    /// Where the scheduler stands in its cycle.
    pub fn phase(&self) -> (phase: Phase)
        ensures
            phase == self@.phase,
    {
        self.phase
    }

    /// The period of the registered timer, in seconds.
    pub fn period(&self) -> (secs: u64)
        ensures
            secs == self@.period_secs,
    {
        self.period_secs
    }

    /// The scheduler's own copy of the table.
    pub fn table(&self) -> (rows: &Vec<ValueData>)
        ensures
            rows.deep_view() == self@.table,
    {
        &self.table
    }
}

} // verus!
