//! The table of tracked items and the application of fetched values to it.

use vstd::prelude::*;
use crate::clock::get_current_date_time;
use crate::row::{FetchOutcome, OutcomeView, RowView, ValueData};

verus! {

/// Whether `i` is the index of the first row with the given id.
pub open spec fn first_match(rows: Seq<RowView>, id: Seq<char>, i: int) -> bool {
    &&& 0 <= i < rows.len()
    &&& rows[i].id == id
    &&& forall|j: int| 0 <= j < i ==> (#[trigger] rows[j]).id != id
}

/// The index of the first row with the given id, where there is one.
pub open spec fn find_row(rows: Seq<RowView>, id: Seq<char>) -> Option<int> {
    if exists|i: int| first_match(rows, id, i) {
        Some(choose|i: int| first_match(rows, id, i))
    } else {
        None
    }
}

/// A row after a freshly fetched value has been written to it.
pub open spec fn refreshed(row: RowView, value: Seq<char>, now: Seq<char>) -> RowView {
    RowView { previous_value: row.latest_value, latest_value: value, last_updated: now, ..row }
}

/// The table after the value fetched for `id` has been applied at time `now`.
pub open spec fn apply_result_spec(
    rows: Seq<RowView>,
    id: Seq<char>,
    value: Seq<char>,
    now: Seq<char>,
) -> Seq<RowView> {
    match find_row(rows, id) {
        Some(i) => rows.update(i, refreshed(rows[i], value, now)),
        None => rows,
    }
}

/// A first match is the only one: `find_row` returns it.
pub proof fn lemma_first_match_found(rows: Seq<RowView>, id: Seq<char>, i: int)
    requires
        first_match(rows, id, i),
    ensures
        find_row(rows, id) == Some(i),
{
}

/// Where no row has the id, `find_row` returns `None`.
pub proof fn lemma_no_match(rows: Seq<RowView>, id: Seq<char>)
    requires
        forall|j: int| 0 <= j < rows.len() ==> (#[trigger] rows[j]).id != id,
    ensures
        find_row(rows, id) is None,
{
}

/// A value applied for an id that a row has lands in the first such row and
/// nowhere else: afterwards that row's latest value is the applied one and its
/// previous value is what its latest value was before.  The ids stay as they
/// were, so that whatever is applied next finds the rows it would have found.
pub proof fn lemma_apply_result_present(
    rows: Seq<RowView>,
    id: Seq<char>,
    value: Seq<char>,
    now: Seq<char>,
)
    requires
        find_row(rows, id) is Some,
    ensures
        ({
            let i = find_row(rows, id)->0;
            let after = apply_result_spec(rows, id, value, now);
            &&& 0 <= i < rows.len()
            &&& rows[i].id == id
            &&& after.len() == rows.len()
            &&& after[i].latest_value == value
            &&& after[i].previous_value == rows[i].latest_value
            &&& after[i].last_updated == now
            &&& after[i].id == rows[i].id
            &&& after[i].name == rows[i].name
            &&& after[i].link == rows[i].link
            &&& after[i].css_selector == rows[i].css_selector
            &&& forall|j: int| 0 <= j < rows.len() && j != i ==> after[j] == rows[j]
            &&& forall|other: Seq<char>| find_row(after, other) == find_row(rows, other)
        }),
{
    let after = apply_result_spec(rows, id, value, now);
    assert forall|other: Seq<char>| find_row(after, other) == find_row(rows, other) by {
        lemma_find_row_by_ids(rows, after, other);
    }
}

/// A value applied for an id that no row has changes nothing.
pub proof fn lemma_apply_result_absent(
    rows: Seq<RowView>,
    id: Seq<char>,
    value: Seq<char>,
    now: Seq<char>,
)
    requires
        find_row(rows, id) is None,
    ensures
        apply_result_spec(rows, id, value, now) == rows,
{
}

/// The same value applied twice in a row: the first application moves the
/// row's latest value to its previous one, the second finds the value already
/// there, so that afterwards both values of the row are the applied one.
/// From then on a further application changes the time stamp only.
pub proof fn lemma_apply_result_twice(
    rows: Seq<RowView>,
    id: Seq<char>,
    value: Seq<char>,
    first: Seq<char>,
    second: Seq<char>,
)
    requires
        find_row(rows, id) is Some,
    ensures
        ({
            let i = find_row(rows, id)->0;
            let once = apply_result_spec(rows, id, value, first);
            let twice = apply_result_spec(once, id, value, second);
            &&& once[i].latest_value == value
            &&& once[i].previous_value == rows[i].latest_value
            &&& twice[i].latest_value == value
            &&& twice[i].previous_value == value
            &&& rows[i].latest_value == value ==> twice[i].previous_value
                == once[i].previous_value
            &&& twice == rows.update(
                i,
                RowView {
                    previous_value: value,
                    latest_value: value,
                    last_updated: second,
                    ..rows[i]
                },
            )
            &&& forall|third: Seq<char>|
                apply_result_spec(twice, id, value, third) == twice.update(
                    i,
                    RowView { last_updated: third, ..twice[i] },
                )
        }),
{
    let i = find_row(rows, id)->0;
    let once = apply_result_spec(rows, id, value, first);
    lemma_apply_result_present(rows, id, value, first);
    lemma_apply_result_present(once, id, value, second);
    let twice = apply_result_spec(once, id, value, second);
    assert forall|third: Seq<char>|
        apply_result_spec(twice, id, value, third) == twice.update(
            i,
            RowView { last_updated: third, ..twice[i] },
        ) by {
        lemma_apply_result_present(twice, id, value, third);
    }
}

/// Two tables whose rows carry the same ids find the same rows.
pub proof fn lemma_find_row_by_ids(rows: Seq<RowView>, others: Seq<RowView>, id: Seq<char>)
    requires
        rows.len() == others.len(),
        forall|j: int| 0 <= j < rows.len() ==> (#[trigger] rows[j]).id == others[j].id,
    ensures
        find_row(others, id) == find_row(rows, id),
{
    match find_row(rows, id) {
        Some(i) => {
            assert forall|j: int| 0 <= j < i implies (#[trigger] others[j]).id != id by {
                assert(rows[j].id != id);
            }
            lemma_first_match_found(others, id, i);
        },
        None => {
            assert forall|j: int| 0 <= j < others.len() implies (#[trigger] others[j]).id
                != id by {
                if rows[j].id == id {
                    lemma_some_match(rows, id, j);
                }
            }
            lemma_no_match(others, id);
        },
    }
}

/// Where some row has the id, there is a first one.
pub proof fn lemma_some_match(rows: Seq<RowView>, id: Seq<char>, j: int)
    requires
        0 <= j < rows.len(),
        rows[j].id == id,
    ensures
        find_row(rows, id) is Some,
        find_row(rows, id)->0 <= j,
    decreases j,
{
    if forall|k: int| 0 <= k < j ==> (#[trigger] rows[k]).id != id {
        lemma_first_match_found(rows, id, j);
    } else {
        let k = choose|k: int| 0 <= k < j && (#[trigger] rows[k]).id == id;
        lemma_some_match(rows, id, k);
    }
}

/// The index of the first row of `table` whose id is `id`.
pub fn position(table: &Vec<ValueData>, id: &String) -> (found: Option<usize>)
    ensures
        found matches Some(i) ==> i < table.len(),
        match found {
            Some(i) => find_row(table.deep_view(), id@) == Some(i as int),
            None => find_row(table.deep_view(), id@) is None,
        },
{
    let mut i: usize = 0;
    while i < table.len()
        invariant
            i <= table.len(),
            forall|j: int| 0 <= j < i ==> (#[trigger] table.deep_view()[j]).id != id@,
        decreases table.len() - i,
    {
        if table[i].id == *id {
            proof {
                lemma_first_match_found(table.deep_view(), id@, i as int);
            }
            return Some(i);
        }
        i += 1;
    }
    proof {
        lemma_no_match(table.deep_view(), id@);
    }
    None
}

/// Writes a freshly fetched value to the row at `index`.
fn refresh_row(table: &mut Vec<ValueData>, index: usize, value: String, now: String)
    requires
        index < old(table).len(),
    ensures
        final(table).deep_view() == old(table).deep_view().update(
            index as int,
            refreshed(old(table).deep_view()[index as int], value@, now@),
        ),
{
    let row = &mut table[index];
    row.previous_value = row.latest_value.clone();
    row.latest_value = value;
    row.last_updated = now;
}

/// Writes the value fetched for `id` at time `now` to the first row with
/// that id: its latest value becomes its previous one, `value` its latest.
/// Where no row has the id, the table stays as it is.
pub fn apply_result_at(
    table: &mut Vec<ValueData>,
    id: &String,
    value: String,
    now: String,
) -> (applied: bool)
    ensures
        final(table).deep_view() == apply_result_spec(old(table).deep_view(), id@, value@, now@),
        applied == find_row(old(table).deep_view(), id@).is_some(),
{
    match position(table, id) {
        Some(index) => {
            refresh_row(table, index, value, now);
            true
        },
        None => false,
    }
}

/// Writes the value fetched for `id` to the first row with that id, stamped
/// with the time of the call.  A result for an id that no row has is dropped.
pub fn apply_result(table: &mut Vec<ValueData>, id: &String, value: String) -> (applied: bool)
    ensures
        exists|now: Seq<char>|
            final(table).deep_view() == #[trigger] apply_result_spec(
                old(table).deep_view(),
                id@,
                value@,
                now,
            ),
        applied == find_row(old(table).deep_view(), id@).is_some(),
        !applied ==> final(table).deep_view() == old(table).deep_view(),
{
    match position(table, id) {
        Some(index) => {
            let now = get_current_date_time();
            refresh_row(table, index, value, now);
            proof {
                assert(table.deep_view() == apply_result_spec(
                    old(table).deep_view(),
                    id@,
                    value@,
                    now@,
                ));
            }
            true
        },
        None => {
            proof {
                let now = Seq::<char>::empty();
                assert(table.deep_view() == apply_result_spec(table.deep_view(), id@, value@, now));
            }
            false
        },
    }
}

/// The table after the outcomes of `batch` have been applied in order, the
/// one at position `k` at time `stamps[k]`.
pub open spec fn apply_batch_spec(
    rows: Seq<RowView>,
    batch: Seq<OutcomeView>,
    stamps: Seq<Seq<char>>,
) -> Seq<RowView>
    decreases batch.len(),
{
    if batch.len() == 0 {
        rows
    } else {
        apply_result_spec(
            apply_batch_spec(rows, batch.drop_last(), stamps),
            batch.last().id,
            batch.last().value,
            stamps[batch.len() - 1],
        )
    }
}

/// Only the stamps at the positions of the batch matter.
pub proof fn lemma_apply_batch_stamps(
    rows: Seq<RowView>,
    batch: Seq<OutcomeView>,
    stamps: Seq<Seq<char>>,
    others: Seq<Seq<char>>,
)
    requires
        forall|k: int| 0 <= k < batch.len() ==> stamps[k] == others[k],
    ensures
        apply_batch_spec(rows, batch, stamps) == apply_batch_spec(rows, batch, others),
    decreases batch.len(),
{
    if batch.len() > 0 {
        lemma_apply_batch_stamps(rows, batch.drop_last(), stamps, others);
    }
}

/// Applying a batch changes rows in place: the table keeps its length, and
/// each row keeps its id, its name, its page and its locator.
pub proof fn lemma_apply_batch_keeps_rows(
    rows: Seq<RowView>,
    batch: Seq<OutcomeView>,
    stamps: Seq<Seq<char>>,
)
    ensures
        apply_batch_spec(rows, batch, stamps).len() == rows.len(),
        forall|j: int|
            0 <= j < rows.len() ==> {
                let after = #[trigger] apply_batch_spec(rows, batch, stamps)[j];
                &&& after.id == rows[j].id
                &&& after.name == rows[j].name
                &&& after.link == rows[j].link
                &&& after.css_selector == rows[j].css_selector
            },
    decreases batch.len(),
{
    if batch.len() > 0 {
        lemma_apply_batch_keeps_rows(rows, batch.drop_last(), stamps);
        let before = apply_batch_spec(rows, batch.drop_last(), stamps);
        let last = batch.last();
        if find_row(before, last.id) is Some {
            lemma_apply_result_present(before, last.id, last.value, stamps[batch.len() - 1]);
        }
    }
}

/// In any sequence of applications, each one whose id a row has writes that
/// row and no other: after it the row's latest value is the applied one, and
/// its previous value is what its latest value was just before.
pub proof fn lemma_apply_batch_step(
    rows: Seq<RowView>,
    batch: Seq<OutcomeView>,
    stamps: Seq<Seq<char>>,
    k: int,
)
    requires
        0 <= k < batch.len(),
        find_row(rows, batch[k].id) is Some,
    ensures
        ({
            let i = find_row(rows, batch[k].id)->0;
            let before = apply_batch_spec(rows, batch.take(k), stamps);
            let after = apply_batch_spec(rows, batch.take(k + 1), stamps);
            &&& 0 <= i < rows.len()
            &&& before.len() == rows.len()
            &&& after.len() == rows.len()
            &&& after[i].latest_value == batch[k].value
            &&& after[i].previous_value == before[i].latest_value
            &&& after[i].last_updated == stamps[k]
            &&& forall|j: int| 0 <= j < rows.len() && j != i ==> after[j] == before[j]
        }),
{
    let before = apply_batch_spec(rows, batch.take(k), stamps);
    assert(batch.take(k + 1).drop_last() == batch.take(k));
    lemma_apply_batch_keeps_rows(rows, batch.take(k), stamps);
    lemma_find_row_by_ids(rows, before, batch[k].id);
    lemma_apply_result_present(before, batch[k].id, batch[k].value, stamps[k]);
}

/// Applies the outcomes of `batch` to the table in order, each stamped with
/// the time at which it is applied.  Outcomes for ids that no row has are
/// dropped; the others are applied all the same.
pub fn apply_batch(table: &mut Vec<ValueData>, batch: &Vec<FetchOutcome>)
    ensures
        exists|stamps: Seq<Seq<char>>|
            stamps.len() == batch.len() && final(table).deep_view() == #[trigger] apply_batch_spec(
                old(table).deep_view(),
                batch.deep_view(),
                stamps,
            ),
{
    let ghost mut stamps: Seq<Seq<char>> = Seq::empty();
    let mut i: usize = 0;
    while i < batch.len()
        invariant
            i <= batch.len(),
            stamps.len() == i,
            table.deep_view() == apply_batch_spec(
                old(table).deep_view(),
                batch.deep_view().take(i as int),
                stamps,
            ),
        decreases batch.len() - i,
    {
        let ghost before = table.deep_view();
        let ghost done = batch.deep_view().take(i as int);
        let ghost earlier = stamps;
        apply_result(table, &batch[i].id, batch[i].value.clone());
        proof {
            let now = choose|now: Seq<char>|
                table.deep_view() == #[trigger] apply_result_spec(
                    before,
                    batch[i as int].id@,
                    batch[i as int].value@,
                    now,
                );
            stamps = stamps.push(now);
            let next = batch.deep_view().take(i + 1);
            assert(next.drop_last() == done);
            lemma_apply_batch_stamps(old(table).deep_view(), done, earlier, stamps);
        }
        i += 1;
    }
    proof {
        assert(batch.deep_view().take(i as int) == batch.deep_view());
    }
}

/// Whether `marks` marks the position `k`.  Positions past the last mark
/// are not marked.
pub open spec fn marked(marks: Seq<bool>, k: int) -> bool {
    0 <= k < marks.len() && marks[k]
}

/// The items of `items` whose position `marks` does not mark, in their
/// order.
pub open spec fn retain_unmarked<A>(items: Seq<A>, marks: Seq<bool>) -> Seq<A>
    decreases items.len(),
{
    if items.len() == 0 {
        Seq::empty()
    } else if marked(marks, items.len() - 1) {
        retain_unmarked(items.drop_last(), marks)
    } else {
        retain_unmarked(items.drop_last(), marks).push(items.last())
    }
}

/// Of two sequences of one length, as much is retained of the one as of the
/// other.
pub proof fn lemma_retain_together<A, B>(items: Seq<A>, others: Seq<B>, marks: Seq<bool>)
    requires
        items.len() == others.len(),
    ensures
        retain_unmarked(items, marks).len() == retain_unmarked(others, marks).len(),
    decreases items.len(),
{
    if items.len() > 0 {
        lemma_retain_together(items.drop_last(), others.drop_last(), marks);
    }
}

/// Of flags, those that are retained where `marks` marks the set ones are
/// clear.
pub proof fn lemma_retain_marks(flags: Seq<bool>, marks: Seq<bool>)
    requires
        forall|k: int| 0 <= k < flags.len() ==> (flags[k] ==> marked(marks, k)),
    ensures
        forall|k: int|
            0 <= k < retain_unmarked(flags, marks).len() ==> !(#[trigger] retain_unmarked(
                flags,
                marks,
            )[k]),
    decreases flags.len(),
{
    if flags.len() > 0 {
        lemma_retain_marks(flags.drop_last(), marks);
        let rest = retain_unmarked(flags.drop_last(), marks);
        let all = retain_unmarked(flags, marks);
        assert forall|k: int| 0 <= k < all.len() implies !(#[trigger] all[k]) by {
            if k < rest.len() {
                assert(!rest[k]);
            } else {
                assert(!flags.last());
            }
        }
    }
}

/// Retaining rows and then reading them is reading them and then retaining.
proof fn lemma_retain_rows(rows: Seq<ValueData>, marks: Seq<bool>)
    ensures
        retain_unmarked(rows, marks).map_values(|row: ValueData| row@) == retain_unmarked(
            rows.map_values(|row: ValueData| row@),
            marks,
        ),
    decreases rows.len(),
{
    let read = |row: ValueData| row@;
    if rows.len() > 0 {
        lemma_retain_rows(rows.drop_last(), marks);
        assert(rows.map_values(read).drop_last() == rows.drop_last().map_values(read));
    }
}

/// Removes from `items` every item whose position `marks` marks, and keeps
/// the others in their order.
pub fn remove_marked<T>(items: &mut Vec<T>, marks: &Vec<bool>)
    ensures
        final(items)@ == retain_unmarked(old(items)@, marks@),
{
    let ghost before = items@;
    let total = items.len();
    let mut seen: usize = 0;
    let mut kept: usize = 0;
    while seen < total
        invariant
            total == before.len(),
            seen <= total,
            kept <= seen,
            kept == retain_unmarked(before.take(seen as int), marks@).len(),
            items@ == retain_unmarked(before.take(seen as int), marks@) + before.skip(seen as int),
        decreases total - seen,
    {
        proof {
            assert(before.take(seen + 1).drop_last() == before.take(seen as int));
        }
        if seen < marks.len() && marks[seen] {
            items.remove(kept);
        } else {
            kept += 1;
        }
        seen += 1;
    }
}

/// Removes from the table every row whose position `marks` marks.
pub fn remove_rows(table: &mut Vec<ValueData>, marks: &Vec<bool>)
    ensures
        final(table).deep_view() == retain_unmarked(old(table).deep_view(), marks@),
{
    let ghost before = *table;
    remove_marked(table, marks);
    proof {
        let read = |row: ValueData| row@;
        lemma_retain_rows(before@, marks@);
        assert(before.deep_view() == before@.map_values(read));
    }
}

/// How many of `flags` are set.
pub open spec fn count_set(flags: Seq<bool>) -> nat
    decreases flags.len(),
{
    if flags.len() == 0 {
        0
    } else if flags.last() {
        count_set(flags.drop_last()) + 1
    } else {
        count_set(flags.drop_last())
    }
}

/// How many of `flags` are set.
pub fn count_flags(flags: &Vec<bool>) -> (count: usize)
    ensures
        count == count_set(flags@),
{
    let mut count: usize = 0;
    let mut i: usize = 0;
    while i < flags.len()
        invariant
            i <= flags.len(),
            count <= i,
            count == count_set(flags@.take(i as int)),
        decreases flags.len() - i,
    {
        proof {
            assert(flags@.take(i + 1).drop_last() == flags@.take(i as int));
        }
        if flags[i] {
            count += 1;
        }
        i += 1;
    }
    proof {
        assert(flags@.take(i as int) == flags@);
    }
    count
}

/// For each row, whether its id is one of `ids`.
pub open spec fn marks_for_ids(rows: Seq<RowView>, ids: Seq<Seq<char>>) -> Seq<bool> {
    Seq::new(rows.len(), |i: int| ids.contains(rows[i].id))
}

/// Whether `id` is one of `ids`.
pub fn contains_id(ids: &Vec<String>, id: &String) -> (found: bool)
    ensures
        found == ids.deep_view().contains(id@),
{
    let mut i: usize = 0;
    while i < ids.len()
        invariant
            i <= ids.len(),
            forall|j: int| 0 <= j < i ==> ids.deep_view()[j] != id@,
        decreases ids.len() - i,
    {
        if ids[i] == *id {
            proof {
                assert(ids.deep_view()[i as int] == id@);
            }
            return true;
        }
        i += 1;
    }
    false
}

/// Marks the rows of the table whose id is one of `ids`.
pub fn mark_ids(table: &Vec<ValueData>, ids: &Vec<String>) -> (marks: Vec<bool>)
    ensures
        marks@ == marks_for_ids(table.deep_view(), ids.deep_view()),
{
    let mut marks: Vec<bool> = Vec::new();
    let mut i: usize = 0;
    while i < table.len()
        invariant
            i <= table.len(),
            marks.len() == i,
            forall|j: int|
                0 <= j < i ==> marks[j] == ids.deep_view().contains(
                    (#[trigger] table.deep_view()[j]).id,
                ),
        decreases table.len() - i,
    {
        let hit = contains_id(ids, &table[i].id);
        marks.push(hit);
        i += 1;
    }
    marks
}

/// A copy of the table, row for row.
pub fn clone_table(table: &Vec<ValueData>) -> (copy: Vec<ValueData>)
    ensures
        copy.deep_view() == table.deep_view(),
{
    let mut copy: Vec<ValueData> = Vec::new();
    let mut i: usize = 0;
    while i < table.len()
        invariant
            i <= table.len(),
            copy.len() == i,
            forall|j: int| 0 <= j < i ==> copy[j]@ == table[j]@,
        decreases table.len() - i,
    {
        copy.push(table[i].clone());
        i += 1;
    }
    copy
}

/// The row that is made of a fetched first value: both of its values are
/// that one.
pub open spec fn fresh_row(
    id: Seq<char>,
    name: Seq<char>,
    link: Seq<char>,
    css_selector: Seq<char>,
    value: Seq<char>,
    now: Seq<char>,
) -> RowView {
    RowView {
        id,
        name,
        link,
        css_selector,
        previous_value: value,
        latest_value: value,
        last_updated: now,
    }
}

impl ValueData {
    /// A new row whose previous and latest value are both `value`.
    pub fn fresh(
        id: String,
        name: String,
        link: String,
        css_selector: String,
        value: String,
        now: String,
    ) -> (row: ValueData)
        ensures
            row@ == fresh_row(id@, name@, link@, css_selector@, value@, now@),
    {
        ValueData {
            id,
            name,
            link,
            css_selector,
            previous_value: value.clone(),
            latest_value: value,
            last_updated: now,
        }
    }
}

} // verus!
