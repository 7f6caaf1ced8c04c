use vstd::prelude::*;

verus! {

/// Mathematical image of one task row: the id as an unbounded integer, the
/// title as a sequence of characters, and the completion flag.
#[verifier::ext_equal]
pub struct TaskModel {
    pub id: int,
    pub title: Seq<char>,
    pub done: bool,
}

/// One to-do item as the store hands it out: a stable identifier, the display
/// title, and whether the task has been completed.
pub struct Task {
    pub id: i32,
    pub title: String,
    pub done: bool,
}

impl View for Task {
    type V = TaskModel;

    open spec fn view(&self) -> TaskModel {
        TaskModel { id: self.id as int, title: self.title@, done: self.done }
    }
}

impl Task {
    pub fn new(id: i32, title: String, done: bool) -> (t: Task)
        ensures
            t@ == (TaskModel { id: id as int, title: title@, done: done }),
    {
        Task { id, title, done }
    }
}

/// The views of a sequence of tasks, in order.
pub open spec fn views_of(ts: Seq<Task>) -> Seq<TaskModel> {
    ts.map_values(|t: Task| t@)
}

} // verus!
