//! The store's laws, each proved over the abstract model that the public
//! operations' contracts are stated in: what a run of additions yields, how
//! marking and deleting behave on present and absent ids, how the id counter
//! falls back after a deletion, and that titles survive storage unchanged.

use vstd::prelude::*;
use crate::task::TaskModel;
use crate::model::{
    StoreModel, add_model, mark_done_model, delete_model, count_id, remove_id, max_id_of,
    mark_ids, lemma_max_id_bound, lemma_max_id_last, lemma_count_id_zero, lemma_count_id_single,
    lemma_max_id_is_some_id, lemma_remove_id_at, lemma_remove_id_wf, lemma_mark_ids_props,
};

verus! {

/// The store after the given titles are added one after another, in order.
pub open spec fn add_all(s: StoreModel, titles: Seq<Seq<char>>) -> StoreModel
    decreases titles.len(),
{
    if titles.len() == 0 {
        s
    } else {
        add_model(add_all(s, titles.drop_last()), titles.last())
    }
}

/// One addition: the store stays well formed, the earlier rows are untouched,
/// and the new row sits at the end, undone, under the given title, with the
/// id counter + 1 — on a well-formed store the counter is never behind the
/// largest id, so that id is above every id that was there before.
pub proof fn lemma_add_model(s: StoreModel, title: Seq<char>)
    requires
        s.wf(),
    ensures
        ({
            let t = add_model(s, title);
            &&& t.wf()
            &&& t.tasks.len() == s.tasks.len() + 1
            &&& t.tasks.subrange(0, s.tasks.len() as int) == s.tasks
            &&& t.tasks.last().id == s.next_id()
            &&& t.tasks.last().id == s.counter + 1
            &&& t.tasks.last().id > max_id_of(s.tasks)
            &&& t.tasks.last().title == title
            &&& !t.tasks.last().done
            &&& t.counter == t.tasks.last().id
        }),
{
    lemma_max_id_bound(s.tasks);
    assert(add_model(s, title).tasks.subrange(0, s.tasks.len() as int) =~= s.tasks);
}

/// Adding any number of tasks one after another keeps the store well formed
/// (so a listing shows ascending ids), leaves the rows that were already
/// there as they were, and appends exactly the given titles in order, each
/// stored with done = false.
pub proof fn lemma_add_then_list(s: StoreModel, titles: Seq<Seq<char>>)
    requires
        s.wf(),
    ensures
        ({
            let t = add_all(s, titles);
            &&& t.wf()
            &&& t.tasks.len() == s.tasks.len() + titles.len()
            &&& t.tasks.subrange(0, s.tasks.len() as int) == s.tasks
            &&& forall|i: int|
                s.tasks.len() <= i < t.tasks.len() ==> !t.tasks[i].done && t.tasks[i].title
                    == titles[i - s.tasks.len()]
        }),
    decreases titles.len(),
{
    if titles.len() > 0 {
        let prev = add_all(s, titles.drop_last());
        lemma_add_then_list(s, titles.drop_last());
        lemma_add_model(prev, titles.last());
        let t = add_all(s, titles);
        assert(t.tasks.subrange(0, s.tasks.len() as int) =~= s.tasks);
        assert(forall|i: int|
            s.tasks.len() <= i < prev.tasks.len() ==> t.tasks[i] == prev.tasks[i]);
    }
}

/// Marking an existing id done: that task shows done = true with its id and
/// title kept, every other task is unchanged, and exactly one row counts as
/// affected.
pub proof fn lemma_mark_existing(s: StoreModel, k: int)
    requires
        s.wf(),
        0 <= k < s.tasks.len(),
    ensures
        ({
            let id = s.tasks[k].id;
            let t = mark_done_model(s, id);
            &&& t.wf()
            &&& t.counter == s.counter
            &&& t.tasks.len() == s.tasks.len()
            &&& t.tasks[k].id == id
            &&& t.tasks[k].title == s.tasks[k].title
            &&& t.tasks[k].done
            &&& forall|j: int| 0 <= j < s.tasks.len() && j != k ==> t.tasks[j] == s.tasks[j]
            &&& count_id(s.tasks, id) == 1
        }),
{
    lemma_mark_ids_props(s.tasks, s.tasks[k].id);
    lemma_count_id_single(s.tasks, s.tasks[k].id, k);
    lemma_max_id_bound(s.tasks);
    lemma_max_id_is_some_id(mark_ids(s.tasks, s.tasks[k].id));
}

/// Marking an id that no task carries: zero rows count as affected and the
/// store is exactly what it was.
pub proof fn lemma_mark_missing(s: StoreModel, id: int)
    requires
        s.wf(),
        forall|j: int| 0 <= j < s.tasks.len() ==> s.tasks[j].id != id,
    ensures
        mark_done_model(s, id) == s,
        count_id(s.tasks, id) == 0,
{
    lemma_mark_ids_props(s.tasks, id);
    lemma_count_id_zero(s.tasks, id);
    assert(mark_ids(s.tasks, id) =~= s.tasks);
    assert(mark_done_model(s, id) =~= s);
}

/// Deleting the only task empties the store and resets the counter to 0, so
/// the next added task receives id 1 again.
pub proof fn lemma_delete_only_then_add(s: StoreModel, title: Seq<char>)
    requires
        s.wf(),
        s.tasks.len() == 1,
    ensures
        ({
            let d = delete_model(s, s.tasks[0].id);
            let a = add_model(d, title);
            &&& d.wf()
            &&& d.tasks.len() == 0
            &&& d.counter == 0
            &&& a.tasks.len() == 1
            &&& a.tasks[0].id == 1
        }),
{
    let id = s.tasks[0].id;
    lemma_count_id_single(s.tasks, id, 0);
    lemma_remove_id_at(s.tasks, id, 0);
    assert(remove_id(s.tasks, id) =~= Seq::<TaskModel>::empty());
}

/// Deleting a task that does not carry the largest id: the other rows keep
/// their place, ids and contents, the counter resets to the maximum that is
/// still present (which is the old maximum), and the next added task takes
/// the id one above it — a retired id is skipped, not refilled.
pub proof fn lemma_delete_not_max_then_add(s: StoreModel, k: int, title: Seq<char>)
    requires
        s.wf(),
        0 <= k < s.tasks.len() - 1,
    ensures
        ({
            let id = s.tasks[k].id;
            let d = delete_model(s, id);
            let a = add_model(d, title);
            &&& d.wf()
            &&& d.tasks == s.tasks.subrange(0, k) + s.tasks.subrange(
                k + 1,
                s.tasks.len() as int,
            )
            &&& d.counter == max_id_of(s.tasks)
            &&& a.tasks.len() == d.tasks.len() + 1
            &&& a.tasks.last().id == max_id_of(s.tasks) + 1
        }),
{
    let id = s.tasks[k].id;
    lemma_count_id_single(s.tasks, id, k);
    lemma_remove_id_at(s.tasks, id, k);
    lemma_remove_id_wf(s.tasks, id);
    let d_tasks = remove_id(s.tasks, id);
    lemma_max_id_last(s.tasks);
    assert(d_tasks.len() == s.tasks.len() - 1);
    assert(d_tasks[d_tasks.len() - 1] == s.tasks[s.tasks.len() - 1]);
    assert(forall|i: int| 0 <= i < d_tasks.len() ==> d_tasks[i].id >= 1);
    lemma_max_id_last(d_tasks);
    lemma_max_id_bound(d_tasks);
}

/// Round-trip: the title a task is added under — ASCII or not, character for
/// character — is exactly the title the store then holds for it.
pub proof fn lemma_title_round_trip(s: StoreModel, title: Seq<char>)
    requires
        s.wf(),
    ensures
        add_model(s, title).tasks.last().title == title,
{
}

} // verus!
