use vstd::prelude::*;
use crate::task::TaskModel;

verus! {

/// The abstract state of the store: the rows of the task table in ascending
/// id order, and the id counter from which the next insert is numbered.
#[verifier::ext_equal]
pub struct StoreModel {
    pub tasks: Seq<TaskModel>,
    pub counter: int,
}

/// Ids strictly increase along the sequence (so each id occurs at most once).
pub open spec fn ascending(rows: Seq<TaskModel>) -> bool {
    forall|i: int, j: int| 0 <= i < j < rows.len() ==> rows[i].id < rows[j].id
}

/// Every id is at least 1, as the store assigns them.
pub open spec fn ids_positive(rows: Seq<TaskModel>) -> bool {
    forall|i: int| 0 <= i < rows.len() ==> rows[i].id >= 1
}

/// The largest id among the rows, or 0 when there are none.
pub open spec fn max_id_of(rows: Seq<TaskModel>) -> int
    decreases rows.len(),
{
    if rows.len() == 0 {
        0
    } else if rows.last().id >= max_id_of(rows.drop_last()) {
        rows.last().id
    } else {
        max_id_of(rows.drop_last())
    }
}

/// How many rows carry the given id.
pub open spec fn count_id(rows: Seq<TaskModel>, id: int) -> int
    decreases rows.len(),
{
    if rows.len() == 0 {
        0
    } else {
        count_id(rows.drop_last(), id) + if rows.last().id == id { 1int } else { 0int }
    }
}

/// The rows with the given id taken out, order kept.
pub open spec fn remove_id(rows: Seq<TaskModel>, id: int) -> Seq<TaskModel>
    decreases rows.len(),
{
    if rows.len() == 0 {
        rows
    } else if rows.last().id == id {
        remove_id(rows.drop_last(), id)
    } else {
        remove_id(rows.drop_last(), id).push(rows.last())
    }
}

/// Every row with the given id gets done = true; all else is untouched.
pub open spec fn mark_ids(rows: Seq<TaskModel>, id: int) -> Seq<TaskModel> {
    rows.map_values(
        |r: TaskModel|
            if r.id == id {
                TaskModel { id: r.id, title: r.title, done: true }
            } else {
                r
            },
    )
}

/// The id SQLite assigns to the next inserted row: one more than the larger
/// of the counter and the largest existing id.
pub open spec fn next_id_from(rows: Seq<TaskModel>, counter: int) -> int {
    if counter >= max_id_of(rows) {
        counter + 1
    } else {
        max_id_of(rows) + 1
    }
}

impl StoreModel {
    /// Well-formedness: rows in strictly ascending id order, ids from 1 up,
    /// counter never negative and never behind the largest id — so on every
    /// well-formed state the next insert is numbered counter + 1.
    pub open spec fn wf(self) -> bool {
        ascending(self.tasks) && ids_positive(self.tasks) && self.counter >= 0 && self.counter
            >= max_id_of(self.tasks)
    }

    /// The id the next inserted task receives.
    pub open spec fn next_id(self) -> int {
        next_id_from(self.tasks, self.counter)
    }
}

/// Adding a task appends a fresh undone row under the next id and moves the
/// counter up to that id.
pub open spec fn add_model(s: StoreModel, title: Seq<char>) -> StoreModel {
    StoreModel {
        tasks: s.tasks.push(TaskModel { id: s.next_id(), title: title, done: false }),
        counter: s.next_id(),
    }
}

/// Marking done rewrites matching rows; the counter is untouched.
pub open spec fn mark_done_model(s: StoreModel, id: int) -> StoreModel {
    StoreModel { tasks: mark_ids(s.tasks, id), counter: s.counter }
}

/// Deleting removes matching rows and, when something was removed, resets the
/// counter to the largest remaining id (0 when none remain).
pub open spec fn delete_model(s: StoreModel, id: int) -> StoreModel {
    if count_id(s.tasks, id) > 0 {
        StoreModel {
            tasks: remove_id(s.tasks, id),
            counter: max_id_of(remove_id(s.tasks, id)),
        }
    } else {
        s
    }
}

pub proof fn lemma_max_id_bound(rows: Seq<TaskModel>)
    ensures
        max_id_of(rows) >= 0,
        forall|i: int| 0 <= i < rows.len() ==> rows[i].id <= max_id_of(rows),
    decreases rows.len(),
{
    if rows.len() > 0 {
        lemma_max_id_bound(rows.drop_last());
        assert(forall|i: int| 0 <= i < rows.len() - 1 ==> rows[i] == rows.drop_last()[i]);
    }
}

pub proof fn lemma_max_id_is_some_id(rows: Seq<TaskModel>)
    ensures
        max_id_of(rows) == 0 || exists|i: int|
            0 <= i < rows.len() && rows[i].id == max_id_of(rows),
    decreases rows.len(),
{
    if rows.len() > 0 {
        lemma_max_id_is_some_id(rows.drop_last());
        if rows.last().id >= max_id_of(rows.drop_last()) {
            assert(rows[rows.len() - 1].id == max_id_of(rows));
        } else {
            if max_id_of(rows.drop_last()) != 0 {
                let i = choose|i: int|
                    0 <= i < rows.drop_last().len() && rows.drop_last()[i].id == max_id_of(
                        rows.drop_last(),
                    );
                assert(rows[i].id == max_id_of(rows));
            }
        }
    }
}

pub proof fn lemma_max_id_last(rows: Seq<TaskModel>)
    requires
        ascending(rows),
        ids_positive(rows),
        rows.len() > 0,
    ensures
        max_id_of(rows) == rows.last().id,
{
    lemma_max_id_bound(rows);
    lemma_max_id_is_some_id(rows);
    assert(rows[rows.len() - 1].id <= max_id_of(rows));
    assert(rows[rows.len() - 1].id >= 1);
    let i = choose|i: int| 0 <= i < rows.len() && rows[i].id == max_id_of(rows);
    assert(rows[i].id <= rows[rows.len() - 1].id);
}

pub proof fn lemma_count_id_zero(rows: Seq<TaskModel>, id: int)
    ensures
        count_id(rows, id) >= 0,
        (count_id(rows, id) == 0) <==> (forall|i: int|
            0 <= i < rows.len() ==> rows[i].id != id),
    decreases rows.len(),
{
    if rows.len() > 0 {
        lemma_count_id_zero(rows.drop_last(), id);
        assert(forall|i: int| 0 <= i < rows.len() - 1 ==> rows[i] == rows.drop_last()[i]);
        assert(rows.last() == rows[rows.len() - 1]);
    }
}

pub proof fn lemma_count_id_single(rows: Seq<TaskModel>, id: int, k: int)
    requires
        ascending(rows),
        0 <= k < rows.len(),
        rows[k].id == id,
    ensures
        count_id(rows, id) == 1,
    decreases rows.len(),
{
    assert(forall|i: int| 0 <= i < rows.len() - 1 ==> rows[i] == rows.drop_last()[i]);
    if k == rows.len() - 1 {
        lemma_count_id_zero(rows.drop_last(), id);
        assert(forall|i: int| 0 <= i < rows.len() - 1 ==> rows[i].id < rows[k].id);
    } else {
        assert(rows[k].id < rows[rows.len() - 1].id);
        lemma_count_id_single(rows.drop_last(), id, k);
    }
}

pub proof fn lemma_remove_id_absent(rows: Seq<TaskModel>, id: int)
    requires
        forall|i: int| 0 <= i < rows.len() ==> rows[i].id != id,
    ensures
        remove_id(rows, id) == rows,
    decreases rows.len(),
{
    if rows.len() > 0 {
        assert(forall|i: int| 0 <= i < rows.len() - 1 ==> rows[i] == rows.drop_last()[i]);
        lemma_remove_id_absent(rows.drop_last(), id);
        assert(rows.drop_last().push(rows.last()) =~= rows);
    }
}

pub proof fn lemma_remove_id_at(rows: Seq<TaskModel>, id: int, k: int)
    requires
        ascending(rows),
        0 <= k < rows.len(),
        rows[k].id == id,
    ensures
        remove_id(rows, id) == rows.subrange(0, k) + rows.subrange(k + 1, rows.len() as int),
    decreases rows.len(),
{
    assert(forall|i: int| 0 <= i < rows.len() - 1 ==> rows[i] == rows.drop_last()[i]);
    if k == rows.len() - 1 {
        assert(forall|i: int| 0 <= i < rows.len() - 1 ==> rows[i].id < rows[k].id);
        lemma_remove_id_absent(rows.drop_last(), id);
        assert(rows.drop_last() =~= rows.subrange(0, k));
        assert(rows.subrange(0, k) + rows.subrange(k + 1, rows.len() as int) =~= rows.subrange(
            0,
            k,
        ));
    } else {
        assert(rows[k].id < rows[rows.len() - 1].id);
        lemma_remove_id_at(rows.drop_last(), id, k);
        assert((rows.drop_last().subrange(0, k) + rows.drop_last().subrange(
            k + 1,
            rows.len() - 1,
        )).push(rows.last()) =~= rows.subrange(0, k) + rows.subrange(k + 1, rows.len() as int));
    }
}

pub proof fn lemma_remove_id_wf(rows: Seq<TaskModel>, id: int)
    requires
        ascending(rows),
        ids_positive(rows),
    ensures
        ascending(remove_id(rows, id)),
        ids_positive(remove_id(rows, id)),
{
    lemma_count_id_zero(rows, id);
    if count_id(rows, id) == 0 {
        lemma_remove_id_absent(rows, id);
    } else {
        let k = choose|k: int| 0 <= k < rows.len() && rows[k].id == id;
        lemma_remove_id_at(rows, id, k);
    }
}

pub proof fn lemma_mark_ids_props(rows: Seq<TaskModel>, id: int)
    ensures
        mark_ids(rows, id).len() == rows.len(),
        forall|i: int|
            0 <= i < rows.len() ==> mark_ids(rows, id)[i].id == rows[i].id && mark_ids(rows, id)[i].title
                == rows[i].title,
        forall|i: int|
            0 <= i < rows.len() ==> mark_ids(rows, id)[i].done == (rows[i].done || rows[i].id
                == id),
        forall|i: int| 0 <= i < rows.len() && rows[i].id != id ==> mark_ids(rows, id)[i] == rows[i],
{
}

} // verus!
