//! A task: an identifier, a description and whether it is done.

use crate::text::{decimal, decimal_text};
use vstd::prelude::*;

verus! {

/// One entry of the to-do list.
#[derive(Clone, Debug, PartialEq, Eq)]
pub struct Task {
    /// The number by which the user names the task.
    pub id: usize,
    /// What is to be done.
    pub description: String,
    /// Whether it has been done.
    pub done: bool,
}

/// A task as contracts see it.
pub ghost struct TaskView {
    pub id: nat,
    pub description: Seq<char>,
    pub done: bool,
}

impl View for Task {
    type V = TaskView;

    open spec fn view(&self) -> TaskView {
        TaskView { id: self.id as nat, description: self.description@, done: self.done }
    }
}

impl TaskView {
    /// The same task with its completion flag set to `done`.
    pub open spec fn with_done(self, done: bool) -> TaskView {
        TaskView { done, ..self }
    }

    /// The mark that a listing shows for the completion flag.
    pub open spec fn mark(self) -> Seq<char> {
        if self.done {
            seq!['[', 'x', ']']
        } else {
            seq!['[', ' ', ']']
        }
    }

    /// The task's line in a listing: identifier, mark, a dash, description.
    pub open spec fn line(self) -> Seq<char> {
        decimal(self.id) + seq![' '] + self.mark() + seq![' ', '-', ' '] + self.description
    }
}

impl Task {
    /// A task that is not done yet.
    pub fn new(id: usize, description: String) -> (task: Task)
        ensures
            task@ == (TaskView { id: id as nat, description: description@, done: false }),
    {
        Task { id, description, done: false }
    }

    /// The task's line in a listing, such as `1 [ ] - buy milk`.
    pub fn line(&self) -> (text: String)
        ensures
            text@ == self@.line(),
    {
        let mut text = decimal_text(self.id);
        proof {
            reveal_strlit(" ");
            reveal_strlit("[x]");
            reveal_strlit("[ ]");
            reveal_strlit(" - ");
        }
        text.append(" ");
        if self.done {
            text.append("[x]");
        } else {
            text.append("[ ]");
        }
        text.append(" - ");
        text.append(self.description.as_str());
        assert(text@ =~= self@.line());
        text
    }
}

} // verus!
