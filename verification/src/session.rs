//! The dialogue: what each line that the user enters does to the list, what
//! is answered, and whether the list is to be stored.
//!
//! A session reads one line at a time. At the menu a line picks a command;
//! a command that needs more (a description, an identifier, a yes or no)
//! asks for it, and the next line is taken as the answer. The list is stored
//! after every command that was carried through, whatever it found, and
//! never after one that had nothing to work on.

use crate::list::{
    added, first_with_id, has_id, lemma_first_with_id_none, listing, marked, removed, texts, TaskList,
};
use crate::task::TaskView;
use crate::text::{parse_id, parsed_id, single_char, sole_char, trim, trimmed};
use vstd::prelude::*;

verus! {

/// What the next line is taken for.
#[derive(Clone, Copy, Debug, PartialEq, Eq, Structural)]
pub enum Mode {
    /// A choice from the menu.
    Menu,
    /// The description of a task to add.
    Description,
    /// The identifier of a task to mark or unmark.
    ToggleId,
    /// Yes or no: whether the done task at `index` is to be unmarked.
    Confirm { index: usize },
    /// The identifier of a task to remove.
    RemoveId,
    /// Nothing: the user has quit.
    Closed,
}

/// What the user is told after a line.
#[derive(Clone, Copy, Debug, PartialEq, Eq, Structural)]
pub enum Notice {
    /// The description of the new task is asked for.
    AskDescription,
    /// A task was added under the identifier `id`.
    Added { id: usize },
    /// The listing follows, one line for each task.
    Listing,
    /// There is no task to list.
    NoTasks,
    /// There is no task to mark.
    NothingToToggle,
    /// The identifier of the task to mark or unmark is asked for.
    AskToggleId,
    /// There is no task to remove.
    NothingToRemove,
    /// The identifier of the task to remove is asked for.
    AskRemoveId,
    /// What was entered for the task to mark is no identifier.
    InvalidToggleId,
    /// What was entered for the task to remove is no identifier.
    InvalidRemoveId,
    /// No task has the identifier `id`.
    NotFound { id: usize },
    /// The task `id` was marked as done.
    MarkedDone { id: usize },
    /// The task `id` is done; whether to unmark it is asked for.
    AskUnmark { id: usize },
    /// The task `id` was unmarked.
    Unmarked { id: usize },
    /// The task stays done.
    KeptDone,
    /// The task `id` was removed.
    Removed { id: usize },
    /// The user has quit.
    Farewell,
    /// The line is no choice of the menu.
    InvalidOption,
    /// The session is over; the line was ignored.
    Closed,
}

/// The answer to a line.
#[derive(Clone, Debug, PartialEq, Eq)]
pub struct Reply {
    /// What to tell the user.
    pub notice: Notice,
    /// Whether the list is to be stored now.
    pub save: bool,
    /// The lines of the listing; empty unless the notice is `Listing`.
    pub lines: Vec<String>,
}

/// A reply as contracts see it.
pub ghost struct ReplyView {
    pub notice: Notice,
    pub save: bool,
    pub lines: Seq<Seq<char>>,
}

impl View for Reply {
    type V = ReplyView;

    open spec fn view(&self) -> ReplyView {
        ReplyView { notice: self.notice, save: self.save, lines: texts(self.lines@) }
    }
}

/// A session as contracts see it: the list and what the next line is for.
pub ghost struct SessionView {
    pub tasks: Seq<TaskView>,
    pub mode: Mode,
}

impl SessionView {
    /// The session over `tasks` that takes its next line for `mode`.
    pub open spec fn waiting(tasks: Seq<TaskView>, mode: Mode) -> SessionView {
        SessionView { tasks, mode }
    }

    /// The session over `tasks` at the menu.
    pub open spec fn at_menu(tasks: Seq<TaskView>) -> SessionView {
        SessionView { tasks, mode: Mode::Menu }
    }

    /// A session that waits for a confirmation waits for it on a task of
    /// the list that is done.
    pub open spec fn wf(self) -> bool {
        self.mode matches Mode::Confirm { index } ==> index < self.tasks.len()
            && self.tasks[index as int].done
    }
}

/// A state and the reply that led to it.
pub ghost struct Outcome {
    pub state: SessionView,
    pub reply: ReplyView,
}

/// The outcome of a line that changes nothing in the list: the session goes
/// on in `mode`, and nothing is stored.
pub open spec fn unchanged(tasks: Seq<TaskView>, mode: Mode, notice: Notice) -> Outcome {
    Outcome {
        state: SessionView { tasks, mode },
        reply: ReplyView { notice, save: false, lines: Seq::empty() },
    }
}

/// The outcome of a line that completes a command: the list `tasks` is
/// stored and the session is back at the menu.
pub open spec fn completed(tasks: Seq<TaskView>, notice: Notice) -> Outcome {
    Outcome {
        state: SessionView { tasks, mode: Mode::Menu },
        reply: ReplyView { notice, save: true, lines: Seq::empty() },
    }
}

/// Whether `answer` says yes: the letter s, small or capital.
pub open spec fn says_yes(answer: Seq<char>) -> bool {
    sole_char(answer) == Some('s') || sole_char(answer) == Some('S')
}

/// The outcome of `choice` at the menu.
pub open spec fn menu_outcome(tasks: Seq<TaskView>, choice: Seq<char>) -> Outcome {
    if sole_char(choice) == Some('1') {
        unchanged(tasks, Mode::Description, Notice::AskDescription)
    } else if sole_char(choice) == Some('2') {
        if tasks.len() == 0 {
            unchanged(tasks, Mode::Menu, Notice::NoTasks)
        } else {
            Outcome {
                state: SessionView { tasks, mode: Mode::Menu },
                reply: ReplyView { notice: Notice::Listing, save: false, lines: listing(tasks) },
            }
        }
    } else if sole_char(choice) == Some('3') {
        if tasks.len() == 0 {
            unchanged(tasks, Mode::Menu, Notice::NothingToToggle)
        } else {
            unchanged(tasks, Mode::ToggleId, Notice::AskToggleId)
        }
    } else if sole_char(choice) == Some('4') {
        if tasks.len() == 0 {
            unchanged(tasks, Mode::Menu, Notice::NothingToRemove)
        } else {
            unchanged(tasks, Mode::RemoveId, Notice::AskRemoveId)
        }
    } else if sole_char(choice) == Some('5') {
        Outcome {
            state: SessionView { tasks, mode: Mode::Closed },
            reply: ReplyView { notice: Notice::Farewell, save: true, lines: Seq::empty() },
        }
    } else {
        unchanged(tasks, Mode::Menu, Notice::InvalidOption)
    }
}

/// The outcome of `description` entered for a new task.
pub open spec fn description_outcome(tasks: Seq<TaskView>, description: Seq<char>) -> Outcome {
    completed(added(tasks, description), Notice::Added { id: (tasks.len() + 1) as usize })
}

/// The outcome of `entry` entered for the task to mark or unmark.
pub open spec fn toggle_outcome(tasks: Seq<TaskView>, entry: Seq<char>) -> Outcome {
    match parsed_id(entry) {
        None => completed(tasks, Notice::InvalidToggleId),
        Some(id) => match first_with_id(tasks, id) {
            None => completed(tasks, Notice::NotFound { id: id as usize }),
            Some(i) => if tasks[i].done {
                unchanged(
                    tasks,
                    Mode::Confirm { index: i as usize },
                    Notice::AskUnmark { id: id as usize },
                )
            } else {
                completed(marked(tasks, i, true), Notice::MarkedDone { id: id as usize })
            },
        },
    }
}

/// The outcome of `answer` entered on whether to unmark the task at `index`.
pub open spec fn confirm_outcome(tasks: Seq<TaskView>, index: int, answer: Seq<char>) -> Outcome {
    if says_yes(answer) {
        completed(marked(tasks, index, false), Notice::Unmarked { id: tasks[index].id as usize })
    } else {
        completed(tasks, Notice::KeptDone)
    }
}

/// The outcome of `entry` entered for the task to remove.
pub open spec fn remove_outcome(tasks: Seq<TaskView>, entry: Seq<char>) -> Outcome {
    match parsed_id(entry) {
        None => completed(tasks, Notice::InvalidRemoveId),
        Some(id) => if has_id(tasks, id) {
            completed(removed(tasks, id), Notice::Removed { id: id as usize })
        } else {
            completed(tasks, Notice::NotFound { id: id as usize })
        },
    }
}

/// The outcome of the line `line` in the state `state`. White space at the
/// two ends of a line never counts.
pub open spec fn outcome(state: SessionView, line: Seq<char>) -> Outcome {
    let entry = trimmed(line);
    match state.mode {
        Mode::Menu => menu_outcome(state.tasks, entry),
        Mode::Description => description_outcome(state.tasks, entry),
        Mode::ToggleId => toggle_outcome(state.tasks, entry),
        Mode::Confirm { index } => confirm_outcome(state.tasks, index as int, entry),
        Mode::RemoveId => remove_outcome(state.tasks, entry),
        Mode::Closed => unchanged(state.tasks, Mode::Closed, Notice::Closed),
    }
}

/// A line leads from a well-formed state to a well-formed state: where the
/// session comes to wait for a confirmation, it waits for it on a task of
/// the list that is done.
pub proof fn lemma_outcome_wf(state: SessionView, line: Seq<char>)
    requires
        state.wf(),
        state.tasks.len() <= usize::MAX,
    ensures
        outcome(state, line).state.wf(),
{
    if state.mode == Mode::ToggleId {
        if let Some(id) = parsed_id(trimmed(line)) {
            lemma_first_with_id_none(state.tasks, id);
        }
    }
}

/// A running dialogue over a to-do list.
pub struct Session {
    list: TaskList,
    mode: Mode,
}

impl View for Session {
    type V = SessionView;

    closed spec fn view(&self) -> SessionView {
        SessionView { tasks: self.list@, mode: self.mode }
    }
}

/// A reply that carries no listing.
fn plain_reply(notice: Notice, save: bool) -> (reply: Reply)
    ensures
        reply@ == (ReplyView { notice, save, lines: Seq::empty() }),
{
    let reply = Reply { notice, save, lines: Vec::new() };
    assert(texts(reply.lines@) =~= Seq::<Seq<char>>::empty());
    reply
}

impl Session {
    /// A session over `list` that starts at the menu.
    pub fn new(list: TaskList) -> (session: Session)
        ensures
            session@ == SessionView::at_menu(list@),
            session@.wf(),
    {
        Session { list, mode: Mode::Menu }
    }

    /// The list as it stands.
    pub fn list(&self) -> (list: &TaskList)
        ensures
            list@ == self@.tasks,
    {
        &self.list
    }

    /// What the next line is taken for.
    pub fn mode(&self) -> (mode: Mode)
        ensures
            mode == self@.mode,
    {
        self.mode
    }

    /// Whether the user has quit.
    pub fn is_closed(&self) -> (b: bool)
        ensures
            b == (self@.mode == Mode::Closed),
    {
        match self.mode {
            Mode::Closed => true,
            _ => false,
        }
    }

    /// Ends the session and hands the list out.
    pub fn into_list(self) -> (list: TaskList)
        ensures
            list@ == self@.tasks,
    {
        self.list
    }

    /// Takes a choice from the menu.
    fn choose_command(&mut self, choice: &str) -> (reply: Reply)
        requires
            old(self)@.mode == Mode::Menu,
        ensures
            (Outcome { state: final(self)@, reply: reply@ }) == menu_outcome(
                old(self)@.tasks,
                choice@,
            ),
    {
        let empty = self.list.is_empty();
        match single_char(choice) {
            Some('1') => {
                self.mode = Mode::Description;
                plain_reply(Notice::AskDescription, false)
            },
            Some('2') => {
                if empty {
                    plain_reply(Notice::NoTasks, false)
                } else {
                    Reply { notice: Notice::Listing, save: false, lines: self.list.lines() }
                }
            },
            Some('3') => {
                if empty {
                    plain_reply(Notice::NothingToToggle, false)
                } else {
                    self.mode = Mode::ToggleId;
                    plain_reply(Notice::AskToggleId, false)
                }
            },
            Some('4') => {
                if empty {
                    plain_reply(Notice::NothingToRemove, false)
                } else {
                    self.mode = Mode::RemoveId;
                    plain_reply(Notice::AskRemoveId, false)
                }
            },
            Some('5') => {
                self.mode = Mode::Closed;
                plain_reply(Notice::Farewell, true)
            },
            _ => plain_reply(Notice::InvalidOption, false),
        }
    }

    /// Adds the task that `description` describes.
    fn take_description(&mut self, description: &str) -> (reply: Reply)
        requires
            old(self)@.mode == Mode::Description,
        ensures
            (Outcome { state: final(self)@, reply: reply@ }) == description_outcome(
                old(self)@.tasks,
                description@,
            ),
    {
        self.mode = Mode::Menu;
        let id = self.list.add(description.to_owned());
        plain_reply(Notice::Added { id }, true)
    }

    /// Marks the task that `entry` names, or asks whether to unmark it.
    fn take_toggle_id(&mut self, entry: &str) -> (reply: Reply)
        requires
            old(self)@.mode == Mode::ToggleId,
        ensures
            (Outcome { state: final(self)@, reply: reply@ }) == toggle_outcome(
                old(self)@.tasks,
                entry@,
            ),
    {
        self.mode = Mode::Menu;
        let id = match parse_id(entry) {
            Some(id) => id,
            None => { return plain_reply(Notice::InvalidToggleId, true); },
        };
        let index = match self.list.position(id) {
            Some(index) => index,
            None => { return plain_reply(Notice::NotFound { id }, true); },
        };
        if self.list.tasks[index].done {
            self.mode = Mode::Confirm { index };
            plain_reply(Notice::AskUnmark { id }, false)
        } else {
            self.list.set_done(index, true);
            plain_reply(Notice::MarkedDone { id }, true)
        }
    }

    /// Unmarks the task at `index` if `answer` says yes.
    fn take_answer(&mut self, index: usize, answer: &str) -> (reply: Reply)
        requires
            old(self)@.mode == (Mode::Confirm { index }),
            old(self)@.wf(),
        ensures
            (Outcome { state: final(self)@, reply: reply@ }) == confirm_outcome(
                old(self)@.tasks,
                index as int,
                answer@,
            ),
    {
        self.mode = Mode::Menu;
        let yes = match single_char(answer) {
            Some('s') => true,
            Some('S') => true,
            _ => false,
        };
        if yes {
            let id = self.list.tasks[index].id;
            self.list.set_done(index, false);
            plain_reply(Notice::Unmarked { id }, true)
        } else {
            plain_reply(Notice::KeptDone, true)
        }
    }

    /// Removes the task that `entry` names.
    fn take_remove_id(&mut self, entry: &str) -> (reply: Reply)
        requires
            old(self)@.mode == Mode::RemoveId,
        ensures
            (Outcome { state: final(self)@, reply: reply@ }) == remove_outcome(
                old(self)@.tasks,
                entry@,
            ),
    {
        self.mode = Mode::Menu;
        let id = match parse_id(entry) {
            Some(id) => id,
            None => { return plain_reply(Notice::InvalidRemoveId, true); },
        };
        if self.list.remove(id) {
            plain_reply(Notice::Removed { id }, true)
        } else {
            plain_reply(Notice::NotFound { id }, true)
        }
    }

    /// Takes the next line that the user entered: changes the list as the
    /// line asks, and answers with what to tell the user and whether to
    /// store the list.
    pub fn step(&mut self, line: &str) -> (reply: Reply)
        requires
            old(self)@.wf(),
        ensures
            (Outcome { state: final(self)@, reply: reply@ }) == outcome(old(self)@, line@),
            final(self)@.wf(),
    {
        proof {
            assert(self@.tasks.len() == self.list.tasks.len());
            lemma_outcome_wf(self@, line@);
        }
        let entry = trim(line);
        match self.mode {
            Mode::Menu => self.choose_command(entry),
            Mode::Description => self.take_description(entry),
            Mode::ToggleId => self.take_toggle_id(entry),
            Mode::Confirm { index } => self.take_answer(index, entry),
            Mode::RemoveId => self.take_remove_id(entry),
            Mode::Closed => plain_reply(Notice::Closed, false),
        }
    }
}

} // verus!
