use vstd::prelude::*;

verus! {

/// One to-do item. `index` is its identifier for the current run only:
/// it is overwritten whenever the lists are loaded again.
#[derive(Debug, Clone)]
pub struct Task {
    pub index: usize,
    pub name: String,
    pub description: String,
    pub due_date: String,
}

/// The three lists a task can belong to.
#[derive(Debug, Clone, Copy, PartialEq, Eq, Structural)]
pub enum ListKind {
    Pending,
    InProgress,
    Finished,
}

/// The text a task carries, without its identifier.
pub open spec fn same_content(a: Task, b: Task) -> bool {
    &&& a.name@ == b.name@
    &&& a.description@ == b.description@
    &&& a.due_date@ == b.due_date@
}

impl Task {
    /// A task with the given text, identified by `index`.
    pub fn new(name: String, description: String, due_date: String, index: usize) -> (t: Task)
        ensures
            t.index == index,
            t.name@ == name@,
            t.description@ == description@,
            t.due_date@ == due_date@,
    {
        Task { index, name, description, due_date }
    }

    /// Gives the task a new identifier and keeps its text.
    pub fn update_index(&mut self, index: usize)
        ensures
            final(self).index == index,
            same_content(*final(self), *old(self)),
    {
        self.index = index;
    }
}

} // verus!
