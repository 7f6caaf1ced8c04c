//! A small task-tracker library: a persistent store of to-do items kept in an
//! embedded SQLite database, with verified bookkeeping of the task table and
//! of the id counter that SQLite's AUTOINCREMENT machinery maintains.

pub mod db;
pub mod laws;
pub mod model;
mod sql;
pub mod task;
