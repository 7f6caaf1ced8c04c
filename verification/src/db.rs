use vstd::prelude::*;
use crate::task::{Task, views_of};
use crate::model::{
    StoreModel, add_model, mark_done_model, delete_model, count_id, remove_id, max_id_of,
    lemma_max_id_bound, lemma_max_id_last, lemma_max_id_is_some_id, lemma_count_id_zero,
    lemma_count_id_single, lemma_remove_id_absent, lemma_remove_id_wf, lemma_mark_ids_props,
};
use crate::sql::{
    table_of, counter_of, schema_ok, sql_open, sql_create_table, sql_schema_matches,
    sql_select_tasks, sql_insert_task, sql_mark_done, sql_delete_and_reset, sql_get_counter,
};

verus! {

/// How the store fails, as its callers see it: the database file could not be
/// opened or set up, or a query against an open store went wrong. A missing
/// id is never an error; it is a zero affected-row count.
#[derive(Clone, Copy, Debug, PartialEq, Eq, Structural)]
pub enum StoreError {
    StorageUnavailable,
    StorageError,
}

/// The task store: sole owner of the SQLite database file behind it. Its
/// abstract value is a [`StoreModel`]: the task rows in ascending id order
/// together with the id counter the next insert is numbered from.
pub struct Database {
    conn: rusqlite::Connection,
}

impl View for Database {
    type V = StoreModel;

    closed spec fn view(&self) -> StoreModel {
        StoreModel { tasks: table_of(self.conn), counter: counter_of(self.conn) }
    }
}

impl Database {
    /// The connection's `tasks` table carries this store's own schema.
    pub closed spec fn has_store_schema(&self) -> bool {
        schema_ok(self.conn)
    }

    /// The store's invariant: the table carries this store's schema, rows
    /// stand strictly ascending by id with ids from 1 up, and the counter is
    /// neither negative nor behind the largest id. Established by
    /// [`Database::new`] and kept by every operation.
    pub open spec fn wf(&self) -> bool {
        self@.wf() && self.has_store_schema()
    }

    /// Opens (creating when absent) the database file at `db_path` and makes
    /// sure the task table exists; safe to call against an existing file,
    /// whose rows are left as they are. A file whose contents are not a
    /// well-formed store of this kind — another schema under the `tasks`
    /// name, ids below 1, a counter that is negative or behind the largest
    /// id — is refused as unavailable.
    pub fn new(db_path: &str) -> (r: Result<Database, StoreError>)
        ensures
            r matches Ok(db) ==> db.wf(),
            r matches Err(e) ==> e == StoreError::StorageUnavailable,
    {
        let mut conn = match sql_open(db_path) {
            Ok(c) => c,
            Err(_) => { return Err(StoreError::StorageUnavailable) },
        };
        match sql_create_table(&mut conn) {
            Ok(_) => (),
            Err(_) => { return Err(StoreError::StorageUnavailable) },
        };
        let schema_count = match sql_schema_matches(&conn) {
            Ok(c) => c,
            Err(_) => { return Err(StoreError::StorageUnavailable) },
        };
        if schema_count == 0 {
            return Err(StoreError::StorageUnavailable);
        }
        let rows = match sql_select_tasks(&conn) {
            Ok(v) => v,
            Err(_) => { return Err(StoreError::StorageUnavailable) },
        };
        let n = rows.len();
        let mut i: usize = 0;
        while i < n
            invariant
                n == rows.len(),
                forall|j: int| 0 <= j < i ==> rows@[j].id >= 1,
            decreases n - i,
        {
            if rows[i].id < 1 {
                return Err(StoreError::StorageUnavailable);
            }
            i += 1;
        }
        let ctr = match sql_get_counter(&conn) {
            Ok(Some(v)) => v,
            Ok(None) => 0,
            Err(_) => { return Err(StoreError::StorageUnavailable) },
        };
        if ctr < 0 {
            return Err(StoreError::StorageUnavailable);
        }
        if n > 0 && rows[n - 1].id as i64 > ctr {
            return Err(StoreError::StorageUnavailable);
        }
        proof {
            assert(forall|j: int|
                0 <= j < table_of(conn).len() ==> table_of(conn)[j] == rows@[j]@);
            if table_of(conn).len() > 0 {
                lemma_max_id_last(table_of(conn));
            }
        }
        Ok(Database { conn })
    }

    /// Inserts a new task with the given title and done = false, under the
    /// next id. The title is stored as given: this layer validates nothing.
    pub fn add_task(&mut self, title: &str) -> (r: Result<(), StoreError>)
        requires
            old(self).wf(),
        ensures
            final(self).wf(),
            r is Ok ==> final(self)@ == add_model(old(self)@, title@),
            r matches Err(e) ==> final(self)@ == old(self)@ && e == StoreError::StorageError,
    {
        let res = sql_insert_task(&mut self.conn, title);
        match res {
            Ok(_) => {
                proof {
                    lemma_max_id_bound(old(self)@.tasks);
                    assert(final(self)@.tasks =~= add_model(old(self)@, title@).tasks);
                    assert(final(self)@.tasks.drop_last() =~= old(self)@.tasks);
                }
                Ok(())
            },
            Err(_) => Err(StoreError::StorageError),
        }
    }

    /// A full snapshot of the tasks, ascending by id: exactly the store's
    /// abstract contents.
    pub fn list_tasks(&self) -> (r: Result<Vec<Task>, StoreError>)
        requires
            self.wf(),
        ensures
            r matches Ok(v) ==> views_of(v@) == self@.tasks,
            r matches Err(e) ==> e == StoreError::StorageError,
    {
        match sql_select_tasks(&self.conn) {
            Ok(v) => Ok(v),
            Err(_) => Err(StoreError::StorageError),
        }
    }

    /// Sets done = true on the task carrying the given id, and reports how
    /// many rows that affected: 1 when the id was found, 0 when it was not.
    pub fn mark_task_done(&mut self, task_id: i32) -> (r: Result<usize, StoreError>)
        requires
            old(self).wf(),
        ensures
            final(self).wf(),
            r matches Ok(n) ==> final(self)@ == mark_done_model(old(self)@, task_id as int) && n
                as int == count_id(old(self)@.tasks, task_id as int) && n <= 1,
            r matches Err(e) ==> final(self)@ == old(self)@ && e == StoreError::StorageError,
    {
        let res = sql_mark_done(&mut self.conn, task_id);
        match res {
            Ok(n) => {
                proof {
                    lemma_mark_ids_props(old(self)@.tasks, task_id as int);
                    lemma_count_id_zero(old(self)@.tasks, task_id as int);
                    if count_id(old(self)@.tasks, task_id as int) != 0 {
                        let k = choose|k: int|
                            0 <= k < old(self)@.tasks.len() && old(self)@.tasks[k].id == task_id;
                        lemma_count_id_single(old(self)@.tasks, task_id as int, k);
                    }
                    lemma_max_id_bound(old(self)@.tasks);
                    lemma_max_id_is_some_id(final(self)@.tasks);
                }
                Ok(n)
            },
            Err(_) => Err(StoreError::StorageError),
        }
    }

    /// Removes the task carrying the given id and reports how many rows left:
    /// 1 when the id was found, 0 when not. When something was removed, the
    /// id counter is pulled back, in the same atomic step, to the largest
    /// remaining id (0 when the table emptied), so retired ids are reused; a
    /// failure leaves the store exactly as it was.
    pub fn delete_task(&mut self, task_id: i32) -> (r: Result<usize, StoreError>)
        requires
            old(self).wf(),
        ensures
            final(self).wf(),
            r matches Ok(n) ==> final(self)@ == delete_model(old(self)@, task_id as int) && n
                as int == count_id(old(self)@.tasks, task_id as int) && n <= 1,
            r matches Err(e) ==> final(self)@ == old(self)@ && e == StoreError::StorageError,
    {
        let rows = match sql_select_tasks(&self.conn) {
            Ok(v) => v,
            Err(_) => { return Err(StoreError::StorageError) },
        };
        let new_counter = counter_after_delete(&rows, task_id);
        proof {
            lemma_remove_id_wf(old(self)@.tasks, task_id as int);
            lemma_count_id_zero(old(self)@.tasks, task_id as int);
            if count_id(old(self)@.tasks, task_id as int) != 0 {
                let k = choose|k: int|
                    0 <= k < old(self)@.tasks.len() && old(self)@.tasks[k].id == task_id;
                lemma_count_id_single(old(self)@.tasks, task_id as int, k);
            } else {
                lemma_remove_id_absent(old(self)@.tasks, task_id as int);
            }
            lemma_max_id_bound(remove_id(old(self)@.tasks, task_id as int));
        }
        let res = sql_delete_and_reset(&mut self.conn, task_id, new_counter);
        match res {
            Ok(n) => {
                proof {
                    assert(final(self)@ =~= delete_model(old(self)@, task_id as int));
                }
                Ok(n)
            },
            Err(_) => Err(StoreError::StorageError),
        }
    }
}

/// The counter value a deletion should leave behind: the largest id among
/// the rows other than the removed one, or 0 when none would remain.
fn counter_after_delete(rows: &Vec<Task>, task_id: i32) -> (r: i32)
    ensures
        r as int == max_id_of(remove_id(views_of(rows@), task_id as int)),
        r >= 0,
{
    let mut mx: i32 = 0;
    let mut i: usize = 0;
    while i < rows.len()
        invariant
            0 <= mx,
            i <= rows.len(),
            mx as int == max_id_of(remove_id(views_of(rows@).take(i as int), task_id as int)),
        decreases rows.len() - i,
    {
        proof {
            let vs = views_of(rows@);
            let t = vs.take(i as int + 1);
            assert(t.drop_last() =~= vs.take(i as int));
            assert(t.last() == rows@[i as int]@);
            let rprev = remove_id(vs.take(i as int), task_id as int);
            if rows@[i as int].id != task_id {
                assert(remove_id(t, task_id as int) == rprev.push(t.last()));
                assert((rprev.push(t.last())).drop_last() =~= rprev);
            }
        }
        if rows[i].id != task_id && rows[i].id > mx {
            mx = rows[i].id;
        }
        i += 1;
    }
    proof {
        assert(views_of(rows@).take(rows@.len() as int) =~= views_of(rows@));
    }
    mx
}

} // verus!
