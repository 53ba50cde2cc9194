//! The to-do list: tasks in the order in which they were added.

use crate::task::{Task, TaskView};
use vstd::prelude::*;

verus! {

/// The views of the tasks `tasks`, in order.
pub open spec fn views(tasks: Seq<Task>) -> Seq<TaskView> {
    tasks.map_values(|t: Task| t@)
}

/// Whether some task of `tasks` has the identifier `id`.
pub open spec fn has_id(tasks: Seq<TaskView>, id: nat) -> bool {
    exists|i: int| 0 <= i < tasks.len() && (#[trigger] tasks[i]).id == id
}

/// Whether `i` is the place of the first task of `tasks` with the
/// identifier `id`.
pub open spec fn is_first_with_id(tasks: Seq<TaskView>, id: nat, i: int) -> bool {
    &&& 0 <= i < tasks.len()
    &&& tasks[i].id == id
    &&& forall|j: int| 0 <= j < i ==> (#[trigger] tasks[j]).id != id
}

/// The place of the first task of `tasks` with the identifier `id`.
pub open spec fn first_with_id(tasks: Seq<TaskView>, id: nat) -> Option<int> {
    if exists|i: int| is_first_with_id(tasks, id, i) {
        Some(choose|i: int| is_first_with_id(tasks, id, i))
    } else {
        None
    }
}

/// The list after a task with the description `description` was added: the
/// new task stands last, is not done, and its identifier is the number of
/// tasks that the list then holds.
pub open spec fn added(tasks: Seq<TaskView>, description: Seq<char>) -> Seq<TaskView> {
    tasks.push(TaskView { id: tasks.len() + 1, description, done: false })
}

/// The list after the first task with the identifier `id` was removed; the
/// list itself where no task has it.
pub open spec fn removed(tasks: Seq<TaskView>, id: nat) -> Seq<TaskView> {
    match first_with_id(tasks, id) {
        Some(i) => tasks.remove(i),
        None => tasks,
    }
}

/// The list with the completion flag of the task at `index` set to `done`.
pub open spec fn marked(tasks: Seq<TaskView>, index: int, done: bool) -> Seq<TaskView> {
    tasks.update(index, tasks[index].with_done(done))
}

/// The lines of a listing of `tasks`.
pub open spec fn listing(tasks: Seq<TaskView>) -> Seq<Seq<char>> {
    tasks.map_values(|t: TaskView| t.line())
}

/// The texts of `lines`.
pub open spec fn texts(lines: Seq<String>) -> Seq<Seq<char>> {
    lines.map_values(|s: String| s@)
}

/// There is at most one first place.
pub proof fn lemma_first_with_id_unique(tasks: Seq<TaskView>, id: nat, i: int)
    requires
        is_first_with_id(tasks, id, i),
    ensures
        first_with_id(tasks, id) == Some(i),
{
    let k = choose|k: int| is_first_with_id(tasks, id, k);
    if k < i {
        assert(tasks[k].id != id);
    } else if i < k {
        assert(tasks[i].id != id);
    }
}

/// A list without a task of that identifier has no first place for it, and
/// the other way round.
pub proof fn lemma_first_with_id_none(tasks: Seq<TaskView>, id: nat)
    ensures
        first_with_id(tasks, id) is None <==> !has_id(tasks, id),
        first_with_id(tasks, id) matches Some(i) ==> is_first_with_id(tasks, id, i),
{
    if has_id(tasks, id) {
        let w = choose|i: int| 0 <= i < tasks.len() && (#[trigger] tasks[i]).id == id;
        lemma_least_with_id(tasks, id, w);
    } else {
        if exists|i: int| is_first_with_id(tasks, id, i) {
            let k = choose|i: int| is_first_with_id(tasks, id, i);
            assert(tasks[k].id == id);
        }
    }
}

/// Below any task with the identifier there is a first one.
proof fn lemma_least_with_id(tasks: Seq<TaskView>, id: nat, w: int)
    requires
        0 <= w < tasks.len(),
        tasks[w].id == id,
    ensures
        exists|i: int| is_first_with_id(tasks, id, i),
    decreases w,
{
    if exists|j: int| 0 <= j < w && (#[trigger] tasks[j]).id == id {
        let j = choose|j: int| 0 <= j < w && (#[trigger] tasks[j]).id == id;
        lemma_least_with_id(tasks, id, j);
    } else {
        assert(is_first_with_id(tasks, id, w));
    }
}

/// The to-do list.
#[derive(Clone, Debug, PartialEq, Eq)]
pub struct TaskList {
    /// The tasks, oldest first.
    pub tasks: Vec<Task>,
}

impl View for TaskList {
    type V = Seq<TaskView>;

    open spec fn view(&self) -> Seq<TaskView> {
        views(self.tasks@)
    }
}

impl TaskList {
    /// A list without tasks.
    pub fn new() -> (list: TaskList)
        ensures
            list@ == Seq::<TaskView>::empty(),
    {
        let list = TaskList { tasks: Vec::new() };
        assert(list@ =~= Seq::<TaskView>::empty());
        list
    }

    /// The list that holds `tasks`, in their order.
    pub fn from_tasks(tasks: Vec<Task>) -> (list: TaskList)
        ensures
            list@ == views(tasks@),
            list.tasks == tasks,
    {
        TaskList { tasks }
    }

    /// The list to start from, given what the store held: its tasks, or no
    /// tasks where the store was missing or unreadable.
    pub fn restore(stored: Option<Vec<Task>>) -> (list: TaskList)
        ensures
            list@ == match stored {
                Some(tasks) => views(tasks@),
                None => Seq::<TaskView>::empty(),
            },
    {
        match stored {
            Some(tasks) => TaskList::from_tasks(tasks),
            None => TaskList::new(),
        }
    }

    /// The number of tasks.
    pub fn len(&self) -> (n: usize)
        ensures
            n == self@.len(),
    {
        self.tasks.len()
    }

    /// Whether the list holds no task.
    pub fn is_empty(&self) -> (b: bool)
        ensures
            b == (self@.len() == 0),
    {
        self.tasks.len() == 0
    }

    /// Adds a task with the description `description` and returns its
    /// identifier.
    pub fn add(&mut self, description: String) -> (id: usize)
        ensures
            final(self)@ == added(old(self)@, description@),
            id == old(self)@.len() + 1,
    {
        // The identifier is the length of the list with the new task in it,
        // so it is read off after the push: no sum that could overflow.
        self.tasks.push(Task::new(0, description));
        let id: usize = self.tasks.len();
        self.tasks[id - 1].id = id;
        assert(self@ =~= added(old(self)@, description@));
        id
    }

    /// The place of the first task with the identifier `id`.
    pub fn position(&self, id: usize) -> (place: Option<usize>)
        ensures
            match place {
                Some(i) => first_with_id(self@, id as nat) == Some(i as int),
                None => first_with_id(self@, id as nat) is None,
            },
    {
        let mut i: usize = 0;
        while i < self.tasks.len()
            invariant
                i <= self.tasks.len(),
                forall|j: int| 0 <= j < i ==> (#[trigger] self@[j]).id != id,
            decreases self.tasks.len() - i,
        {
            if self.tasks[i].id == id {
                proof {
                    lemma_first_with_id_unique(self@, id as nat, i as int);
                }
                return Some(i);
            }
            i = i + 1;
        }
        proof {
            lemma_first_with_id_none(self@, id as nat);
        }
        None
    }

    /// Removes the first task with the identifier `id`, and tells whether
    /// there was one.
    pub fn remove(&mut self, id: usize) -> (found: bool)
        ensures
            final(self)@ == removed(old(self)@, id as nat),
            found == has_id(old(self)@, id as nat),
    {
        proof {
            lemma_first_with_id_none(self@, id as nat);
        }
        match self.position(id) {
            Some(i) => {
                self.tasks.remove(i);
                assert(self@ =~= old(self)@.remove(i as int));
                true
            },
            None => false,
        }
    }

    /// Sets the completion flag of the task at `index`.
    pub fn set_done(&mut self, index: usize, done: bool)
        requires
            index < old(self)@.len(),
        ensures
            final(self)@ == marked(old(self)@, index as int, done),
    {
        self.tasks[index].done = done;
        assert(self@ =~= marked(old(self)@, index as int, done));
    }

    /// The lines of a listing, one for each task, in order.
    pub fn lines(&self) -> (lines: Vec<String>)
        ensures
            texts(lines@) == listing(self@),
    {
        let mut lines: Vec<String> = Vec::new();
        let mut i: usize = 0;
        while i < self.tasks.len()
            invariant
                i <= self.tasks.len(),
                lines@.len() == i,
                forall|j: int| 0 <= j < i ==> (#[trigger] lines@[j])@ == self@[j].line(),
            decreases self.tasks.len() - i,
        {
            lines.push(self.tasks[i].line());
            i = i + 1;
        }
        assert(texts(lines@) =~= listing(self@));
        lines
    }
}

} // verus!
