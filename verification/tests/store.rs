use todo_store::db::{Database, StoreError};
use todo_store::task::Task;

/// Drops any leftover task table at the given path so a file-backed test
/// starts from a clean slate even when an earlier run left the file behind.
fn reset_file(path: &str) {
    if let Ok(conn) = rusqlite::Connection::open(path) {
        let _ = conn.execute("DROP TABLE IF EXISTS tasks", []);
    }
}

fn titles_of(tasks: &[Task]) -> Vec<String> {
    tasks.iter().map(|t| t.title.clone()).collect()
}

fn ids_of(tasks: &[Task]) -> Vec<i32> {
    tasks.iter().map(|t| t.id).collect()
}

#[test]
fn add_tasks_listed_ascending_undone() {
    let mut db = Database::new(":memory:").unwrap();
    db.add_task("first").unwrap();
    db.add_task("second").unwrap();
    db.add_task("third").unwrap();
    let tasks = db.list_tasks().unwrap();
    assert_eq!(tasks.len(), 3);
    assert_eq!(ids_of(&tasks), vec![1, 2, 3]);
    assert_eq!(titles_of(&tasks), vec!["first", "second", "third"]);
    assert!(tasks.iter().all(|t| !t.done));
}

#[test]
fn mark_existing_task() {
    let mut db = Database::new(":memory:").unwrap();
    db.add_task("one").unwrap();
    db.add_task("two").unwrap();
    let affected = db.mark_task_done(1).unwrap();
    assert_eq!(affected, 1);
    let tasks = db.list_tasks().unwrap();
    assert_eq!(tasks.len(), 2);
    assert!(tasks[0].done);
    assert_eq!(tasks[0].id, 1);
    assert_eq!(tasks[0].title, "one");
    assert!(!tasks[1].done);
    assert_eq!(tasks[1].id, 2);
    assert_eq!(tasks[1].title, "two");
}

#[test]
fn mark_missing_task() {
    let mut db = Database::new(":memory:").unwrap();
    db.add_task("only").unwrap();
    let affected = db.mark_task_done(99).unwrap();
    assert_eq!(affected, 0);
    let tasks = db.list_tasks().unwrap();
    assert_eq!(tasks.len(), 1);
    assert_eq!(tasks[0].id, 1);
    assert_eq!(tasks[0].title, "only");
    assert!(!tasks[0].done);
}

#[test]
fn delete_only_task_resets_counter() {
    let mut db = Database::new(":memory:").unwrap();
    db.add_task("solo").unwrap();
    let removed = db.delete_task(1).unwrap();
    assert_eq!(removed, 1);
    assert!(db.list_tasks().unwrap().is_empty());
    db.add_task("reborn").unwrap();
    let tasks = db.list_tasks().unwrap();
    assert_eq!(tasks.len(), 1);
    assert_eq!(tasks[0].id, 1);
    assert_eq!(tasks[0].title, "reborn");
}

#[test]
fn delete_middle_task_skips_retired_id() {
    let mut db = Database::new(":memory:").unwrap();
    db.add_task("a").unwrap();
    db.add_task("b").unwrap();
    db.add_task("c").unwrap();
    let removed = db.delete_task(2).unwrap();
    assert_eq!(removed, 1);
    let tasks = db.list_tasks().unwrap();
    assert_eq!(ids_of(&tasks), vec![1, 3]);
    assert_eq!(titles_of(&tasks), vec!["a", "c"]);
    db.add_task("d").unwrap();
    let tasks = db.list_tasks().unwrap();
    assert_eq!(ids_of(&tasks), vec![1, 3, 4]);
}

#[test]
fn delete_missing_leaves_counter_alone() {
    let mut db = Database::new(":memory:").unwrap();
    db.add_task("a").unwrap();
    db.add_task("b").unwrap();
    let removed = db.delete_task(99).unwrap();
    assert_eq!(removed, 0);
    db.add_task("c").unwrap();
    let tasks = db.list_tasks().unwrap();
    assert_eq!(ids_of(&tasks), vec![1, 2, 3]);
}

#[test]
fn initialize_twice_keeps_rows() {
    let path = "/tmp/todo_store_init_twice.db";
    reset_file(path);
    let mut db = Database::new(path).unwrap();
    db.add_task("kept one").unwrap();
    db.add_task("kept two").unwrap();
    drop(db);
    let mut db = Database::new(path).unwrap();
    let tasks = db.list_tasks().unwrap();
    assert_eq!(titles_of(&tasks), vec!["kept one", "kept two"]);
    assert_eq!(ids_of(&tasks), vec![1, 2]);
    db.add_task("third").unwrap();
    let tasks = db.list_tasks().unwrap();
    assert_eq!(ids_of(&tasks), vec![1, 2, 3]);
}

#[test]
fn counter_reset_survives_reopen() {
    let path = "/tmp/todo_store_reopen_counter.db";
    reset_file(path);
    let mut db = Database::new(path).unwrap();
    db.add_task("a").unwrap();
    db.add_task("b").unwrap();
    assert_eq!(db.delete_task(2).unwrap(), 1);
    drop(db);
    let mut db = Database::new(path).unwrap();
    db.add_task("c").unwrap();
    let tasks = db.list_tasks().unwrap();
    assert_eq!(ids_of(&tasks), vec![1, 2]);
    assert_eq!(titles_of(&tasks), vec!["a", "c"]);
}

#[test]
fn non_ascii_titles_round_trip() {
    let mut db = Database::new(":memory:").unwrap();
    let titles = ["café ☕", "日本語のタスク", "задача №1 🚀"];
    for t in titles {
        db.add_task(t).unwrap();
    }
    let tasks = db.list_tasks().unwrap();
    assert_eq!(titles_of(&tasks), titles.to_vec());
}

#[test]
fn non_ascii_titles_survive_reopen() {
    let path = "/tmp/todo_store_non_ascii.db";
    reset_file(path);
    let mut db = Database::new(path).unwrap();
    db.add_task("überfällig: Grüße an Чебурашку 💡").unwrap();
    drop(db);
    let db = Database::new(path).unwrap();
    let tasks = db.list_tasks().unwrap();
    assert_eq!(tasks.len(), 1);
    assert_eq!(tasks[0].title, "überfällig: Grüße an Чебурашку 💡");
}

#[test]
fn unavailable_on_bad_path() {
    let r = Database::new("/no_such_directory_for_todo_store/tasks.db");
    assert!(matches!(r, Err(StoreError::StorageUnavailable)));
}

#[test]
fn query_error_after_table_vanishes() {
    let path = "/tmp/todo_store_dropped_table.db";
    reset_file(path);
    let mut db = Database::new(path).unwrap();
    db.add_task("doomed").unwrap();
    let saboteur = rusqlite::Connection::open(path).unwrap();
    saboteur.execute("DROP TABLE tasks", []).unwrap();
    assert!(matches!(db.list_tasks(), Err(StoreError::StorageError)));
    assert!(matches!(db.add_task("late"), Err(StoreError::StorageError)));
}

#[test]
fn foreign_schema_refused() {
    let path = "/tmp/todo_store_foreign_schema.db";
    reset_file(path);
    let conn = rusqlite::Connection::open(path).unwrap();
    conn.execute(
        "CREATE TABLE tasks (id INTEGER, title TEXT, done BOOLEAN)",
        [],
    )
    .unwrap();
    conn.execute("INSERT INTO tasks VALUES (1, 'a', 0), (1, 'b', 0)", [])
        .unwrap();
    drop(conn);
    let r = Database::new(path);
    assert!(matches!(r, Err(StoreError::StorageUnavailable)));
}

#[test]
fn stale_counter_refused() {
    let path = "/tmp/todo_store_stale_counter.db";
    reset_file(path);
    {
        let mut db = Database::new(path).unwrap();
        db.add_task("a").unwrap();
        db.add_task("b").unwrap();
    }
    let conn = rusqlite::Connection::open(path).unwrap();
    conn.execute("UPDATE sqlite_sequence SET seq = 0 WHERE name = 'tasks'", [])
        .unwrap();
    drop(conn);
    let r = Database::new(path);
    assert!(matches!(r, Err(StoreError::StorageUnavailable)));
}

#[test]
fn stored_schema_text_is_canonical() {
    let path = "/tmp/todo_store_schema_text.db";
    reset_file(path);
    let _db = Database::new(path).unwrap();
    let conn = rusqlite::Connection::open(path).unwrap();
    let sql: String = conn
        .query_row(
            "SELECT sql FROM sqlite_master WHERE type = 'table' AND name = 'tasks'",
            [],
            |row| row.get(0),
        )
        .unwrap();
    assert_eq!(
        sql,
        "CREATE TABLE tasks (id INTEGER PRIMARY KEY AUTOINCREMENT, title TEXT NOT NULL, done BOOLEAN NOT NULL DEFAULT 0)"
    );
}

#[test]
fn task_new_fields() {
    let t = Task::new(7, String::from("check"), true);
    assert_eq!(t.id, 7);
    assert_eq!(t.title, "check");
    assert!(t.done);
}
