//! The trusted boundary around rusqlite: one wrapper for each SQL statement
//! the store runs, with contracts over two names for what the connection's
//! database holds. Everything above this module is verified against these
//! contracts; the store is the sole owner of its database file, and every
//! wrapper that changes the database takes the connection exclusively.

use vstd::prelude::*;
use crate::task::{Task, TaskModel};
use crate::task::views_of;
use crate::model::{ascending, ids_positive, count_id, remove_id, mark_ids, next_id_from};

verus! {

#[verifier::external_type_specification]
#[verifier::external_body]
pub struct ExConnection(rusqlite::Connection);

#[verifier::external_type_specification]
#[verifier::external_body]
pub struct ExError(rusqlite::Error);

/// The rows of this connection's `tasks` table, in ascending id order (the
/// order `ORDER BY id` yields); the empty sequence when the table is absent.
pub uninterp spec fn table_of(conn: rusqlite::Connection) -> Seq<TaskModel>;

/// The AUTOINCREMENT counter SQLite keeps for the `tasks` table in its
/// `sqlite_sequence` catalog; 0 when no counter row is there.
pub uninterp spec fn counter_of(conn: rusqlite::Connection) -> int;

/// Whether this connection's `tasks` table was created with exactly this
/// store's own schema: id INTEGER PRIMARY KEY AUTOINCREMENT, title TEXT NOT
/// NULL, done BOOLEAN NOT NULL DEFAULT 0. The contracts that lean on id
/// uniqueness or on the AUTOINCREMENT rule hold only under it; a mismatching
/// table (a foreign file) is refused before the store is handed out.
pub uninterp spec fn schema_ok(conn: rusqlite::Connection) -> bool;

/// Relies on rusqlite's `Connection::open`: opens the database file at
/// `path`, creating it when absent. Nothing is assumed of what it holds.
#[verifier::external_body]
pub(crate) fn sql_open(path: &str) -> (r: Result<rusqlite::Connection, rusqlite::Error>) {
    rusqlite::Connection::open(path)
}

/// Relies on rusqlite's `Connection::execute` running `CREATE TABLE IF NOT
/// EXISTS`: rows of an existing `tasks` table and the counter are untouched,
/// and a table created afresh is empty, which is also how `table_of` reads
/// an absent table.
#[verifier::external_body]
pub(crate) fn sql_create_table(conn: &mut rusqlite::Connection) -> (r: Result<
    usize,
    rusqlite::Error,
>)
    ensures
        table_of(*final(conn)) == table_of(*old(conn)),
        counter_of(*final(conn)) == counter_of(*old(conn)),
{
    conn.execute(
        "CREATE TABLE IF NOT EXISTS tasks (id INTEGER PRIMARY KEY AUTOINCREMENT, title TEXT NOT NULL, done BOOLEAN NOT NULL DEFAULT 0)",
        [],
    )
}

/// Relies on rusqlite's `query_row` over `SELECT COUNT(*) FROM sqlite_master
/// WHERE type = 'table' AND name = 'tasks' AND sql = ?1`, with this store's
/// own CREATE statement bound to ?1: SQLite stores a table's CREATE text
/// verbatim (minus IF NOT EXISTS), so a nonzero count means the `tasks`
/// table carries exactly this store's schema. The bound text must stay in
/// step with what `sql_create_table` runs.
#[verifier::external_body]
pub(crate) fn sql_schema_matches(conn: &rusqlite::Connection) -> (r: Result<i64, rusqlite::Error>)
    ensures
        r matches Ok(c) ==> (c != 0 ==> schema_ok(*conn)),
{
    conn.query_row(
        "SELECT COUNT(*) FROM sqlite_master WHERE type = 'table' AND name = 'tasks' AND sql = ?1",
        ("CREATE TABLE tasks (id INTEGER PRIMARY KEY AUTOINCREMENT, title TEXT NOT NULL, done BOOLEAN NOT NULL DEFAULT 0)",),
        |row| row.get(0),
    )
}

/// Relies on rusqlite's `prepare`/`query_map` running `SELECT id, title, done
/// FROM tasks ORDER BY id`: on success the vector is exactly the table's rows
/// in ascending id order; under this store's schema the id column is the
/// table's INTEGER PRIMARY KEY, hence distinct, so the order is strict.
#[verifier::external_body]
pub(crate) fn sql_select_tasks(conn: &rusqlite::Connection) -> (r: Result<
    Vec<Task>,
    rusqlite::Error,
>)
    requires
        schema_ok(*conn),
    ensures
        r matches Ok(v) ==> views_of(v@) == table_of(*conn) && ascending(table_of(*conn)),
{
    let mut stmt = conn.prepare("SELECT id, title, done FROM tasks ORDER BY id")?;
    let iter = stmt.query_map([], |row| Ok(Task::new(row.get(0)?, row.get(1)?, row.get(2)?)))?;
    iter.collect()
}

/// Relies on rusqlite's `Connection::execute` running the INSERT, and on
/// SQLite's AUTOINCREMENT rule (sqlite.org/autoinc.html), which this store's
/// schema — required here — puts in force: the new row's id is one more than
/// the larger of the stored counter and the largest existing id, the counter
/// moves up to that id, and one changed row is reported. An INSERT runs no
/// DDL, so the schema stands afterwards as before.
#[verifier::external_body]
pub(crate) fn sql_insert_task(conn: &mut rusqlite::Connection, title: &str) -> (r: Result<
    usize,
    rusqlite::Error,
>)
    requires
        schema_ok(*old(conn)),
        ids_positive(table_of(*old(conn))),
        counter_of(*old(conn)) >= 0,
    ensures
        schema_ok(*final(conn)),
        r matches Ok(n) ==> ({
            let id = next_id_from(table_of(*old(conn)), counter_of(*old(conn)));
            &&& n == 1
            &&& table_of(*final(conn)) == table_of(*old(conn)).push(
                TaskModel { id: id, title: title@, done: false },
            )
            &&& counter_of(*final(conn)) == id
        }),
        r is Err ==> table_of(*final(conn)) == table_of(*old(conn)) && counter_of(*final(conn)) == counter_of(
            *old(conn),
        ),
{
    conn.execute("INSERT INTO tasks (title, done) VALUES (?1, 0)", (title,))
}

/// Relies on rusqlite's `Connection::execute` running `UPDATE tasks SET done
/// = 1 WHERE id = ?1`: every row carrying that id gets done set, nothing else
/// moves, and the count of matched rows is reported. An UPDATE runs no DDL,
/// so whether the schema is this store's own does not change.
#[verifier::external_body]
pub(crate) fn sql_mark_done(conn: &mut rusqlite::Connection, id: i32) -> (r: Result<
    usize,
    rusqlite::Error,
>)
    ensures
        schema_ok(*final(conn)) == schema_ok(*old(conn)),
        r matches Ok(n) ==> table_of(*final(conn)) == mark_ids(table_of(*old(conn)), id as int) && n
            as int == count_id(table_of(*old(conn)), id as int) && counter_of(*final(conn)) == counter_of(
            *old(conn),
        ),
        r is Err ==> table_of(*final(conn)) == table_of(*old(conn)) && counter_of(*final(conn)) == counter_of(
            *old(conn),
        ),
{
    conn.execute("UPDATE tasks SET done = 1 WHERE id = ?1", (id,))
}

/// Relies on rusqlite's `Connection::transaction` (a dropped, uncommitted
/// transaction rolls back, so a failure leaves the database exactly as it
/// was) running, as one atomic step: `DELETE FROM tasks WHERE id = ?1`, and
/// then — only when rows were removed — writing the given value into the
/// `tasks` counter row of `sqlite_sequence`, creating that row first when it
/// is missing. Exactly the rows carrying the id leave, their count is
/// reported, and no statement here runs DDL, so the schema stands.
#[verifier::external_body]
pub(crate) fn sql_delete_and_reset(conn: &mut rusqlite::Connection, id: i32, new_counter: i32) -> (r: Result<
    usize,
    rusqlite::Error,
>)
    ensures
        schema_ok(*final(conn)) == schema_ok(*old(conn)),
        r matches Ok(n) ==> table_of(*final(conn)) == remove_id(table_of(*old(conn)), id as int)
            && n as int == count_id(table_of(*old(conn)), id as int) && (n != 0 ==> counter_of(
            *final(conn),
        ) == new_counter as int) && (n == 0 ==> counter_of(*final(conn)) == counter_of(
            *old(conn),
        )),
        r is Err ==> table_of(*final(conn)) == table_of(*old(conn)) && counter_of(*final(conn)) == counter_of(
            *old(conn),
        ),
{
    let tx = conn.transaction()?;
    let n = tx.execute("DELETE FROM tasks WHERE id = ?1", (id,))?;
    tx.execute(
        "INSERT INTO sqlite_sequence (name, seq) SELECT 'tasks', ?1 WHERE ?2 > 0 AND NOT EXISTS (SELECT 1 FROM sqlite_sequence WHERE name = 'tasks')",
        (new_counter, n as i64),
    )?;
    tx.execute(
        "UPDATE sqlite_sequence SET seq = ?1 WHERE name = 'tasks' AND ?2 > 0",
        (new_counter, n as i64),
    )?;
    tx.commit()?;
    Ok(n)
}

/// Relies on rusqlite's `query_row` over `SELECT seq FROM sqlite_sequence
/// WHERE name = 'tasks'`: the stored counter, or no row when the table has
/// never seen an AUTOINCREMENT insert, in which case the counter reads as 0.
#[verifier::external_body]
pub(crate) fn sql_get_counter(conn: &rusqlite::Connection) -> (r: Result<
    Option<i64>,
    rusqlite::Error,
>)
    ensures
        r matches Ok(m) ==> ((m matches Some(v) ==> v as int == counter_of(*conn)) && (m is None
            ==> counter_of(*conn) == 0)),
{
    let q = conn.query_row("SELECT seq FROM sqlite_sequence WHERE name = 'tasks'", [], |row| {
        row.get(0)
    });
    match q {
        Ok(v) => Ok(Some(v)),
        Err(rusqlite::Error::QueryReturnedNoRows) => Ok(None),
        Err(e) => Err(e),
    }
}

} // verus!
