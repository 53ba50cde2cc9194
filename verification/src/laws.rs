//! What holds of the dialogue whatever the user enters.

use crate::list::{
    added, first_with_id, has_id, is_first_with_id, lemma_first_with_id_none,
    lemma_first_with_id_unique, listing, marked, removed,
};
use crate::session::{outcome, says_yes, Mode, Notice, SessionView};
use crate::task::TaskView;
use crate::text::{parsed_id, sole_char, trimmed};
use vstd::prelude::*;

verus! {

/// The state that the lines `lines`, entered one after the other, lead to
/// from `state`.
pub open spec fn run(state: SessionView, lines: Seq<Seq<char>>) -> SessionView
    decreases lines.len(),
{
    if lines.len() == 0 {
        state
    } else {
        outcome(run(state, lines.drop_last()), lines.last()).state
    }
}

/// Whether `lines` does nothing but add tasks: every other line picks the
/// first command of the menu, and the line after it is the description.
pub open spec fn only_adds(lines: Seq<Seq<char>>) -> bool {
    &&& lines.len() % 2 == 0
    &&& forall|k: int|
        0 <= k < lines.len() / 2 ==> sole_char(trimmed(#[trigger] lines[2 * k])) == Some('1')
}

/// Adding counts up. After a run of nothing but additions, begun at the
/// menu, the session is at the menu again, the tasks that were there stand
/// as they stood, and the task added in the place `k` of the run (from 0)
/// stands behind them in that place, not done, with the description that
/// was entered for it and with the identifier that is the length of the list
/// before the run, plus `k`, plus one. In a run that began with no tasks
/// the identifiers are 1, 2, 3 and so on.
pub proof fn lemma_adds_count_up(tasks: Seq<TaskView>, lines: Seq<Seq<char>>)
    requires
        only_adds(lines),
    ensures
        run(SessionView::at_menu(tasks), lines).mode == Mode::Menu,
        run(SessionView::at_menu(tasks), lines).tasks.len() == tasks.len() + lines.len() / 2,
        run(SessionView::at_menu(tasks), lines).tasks.take(tasks.len() as int) == tasks,
        forall|k: int|
            0 <= k < lines.len() / 2 ==> {
                let task = #[trigger] run(SessionView::at_menu(tasks), lines).tasks[tasks.len()
                    + k];
                &&& task.id == tasks.len() + k + 1
                &&& task.description == trimmed(lines[2 * k + 1])
                &&& !task.done
            },
    decreases lines.len(),
{
    let start = SessionView::at_menu(tasks);
    if lines.len() == 0 {
        assert(run(start, lines).tasks.take(tasks.len() as int) =~= tasks);
    } else {
        let n = lines.len() as int;
        let m = n / 2;
        let choice = lines[n - 2];
        let entry = lines[n - 1];
        let before = lines.take(n - 2);
        assert(lines.drop_last().drop_last() =~= before);
        assert(lines.drop_last().last() == choice);
        assert forall|k: int| 0 <= k < before.len() / 2 implies sole_char(
            trimmed(#[trigger] before[2 * k]),
        ) == Some('1') by {
            assert(before[2 * k] == lines[2 * k]);
        }
        lemma_adds_count_up(tasks, before);
        let at_menu = run(start, before);
        assert(choice == lines[2 * (m - 1)]);
        let asked = outcome(at_menu, choice).state;
        assert(asked == SessionView::waiting(at_menu.tasks, Mode::Description));
        assert(run(start, lines.drop_last()) == asked);
        let after = outcome(asked, entry).state;
        assert(run(start, lines) == after);
        assert(after.tasks == added(at_menu.tasks, trimmed(entry)));
        assert(after.tasks.take(tasks.len() as int) =~= at_menu.tasks.take(tasks.len() as int));
        assert forall|k: int| 0 <= k < m implies {
            let task = #[trigger] after.tasks[tasks.len() + k];
            &&& task.id == tasks.len() + k + 1
            &&& task.description == trimmed(lines[2 * k + 1])
            &&& !task.done
        } by {
            if k < m - 1 {
                assert(after.tasks[tasks.len() + k] == at_menu.tasks[tasks.len() + k]);
                assert(before[2 * k + 1] == lines[2 * k + 1]);
            }
        }
    }
}

/// Removing the last-numbered task frees its identifier. Let the highest
/// identifier in the list be the number of its tasks. Entered for the task
/// to remove, an entry that writes this identifier removes the first task
/// that has it; the task that is added next gets the same identifier again.
pub proof fn lemma_identifier_reused(
    tasks: Seq<TaskView>,
    id: nat,
    entry: Seq<char>,
    choice: Seq<char>,
    description: Seq<char>,
)
    requires
        tasks.len() <= usize::MAX,
        parsed_id(trimmed(entry)) == Some(id),
        has_id(tasks, id),
        forall|i: int| 0 <= i < tasks.len() ==> (#[trigger] tasks[i]).id <= id,
        id == tasks.len(),
        sole_char(trimmed(choice)) == Some('1'),
    ensures
        ({
            let gone = outcome(SessionView::waiting(tasks, Mode::RemoveId), entry);
            let asked = outcome(gone.state, choice);
            let back = outcome(asked.state, description);
            &&& gone.state == SessionView::at_menu(removed(tasks, id))
            &&& gone.reply.notice == (Notice::Removed { id: id as usize })
            &&& asked.state == SessionView::waiting(removed(tasks, id), Mode::Description)
            &&& back.state == SessionView::at_menu(
                added(removed(tasks, id), trimmed(description)),
            )
            &&& back.reply.notice == (Notice::Added { id: id as usize })
            &&& back.state.tasks.len() == tasks.len()
            &&& back.state.tasks.last().id == id
        }),
{
    lemma_first_with_id_none(tasks, id);
}

/// The identifier of a task that is added after a removal is the number of
/// tasks that the list held before the removal, whichever task was removed.
pub proof fn lemma_identifier_after_removal(tasks: Seq<TaskView>, id: nat, description: Seq<char>)
    requires
        has_id(tasks, id),
    ensures
        added(removed(tasks, id), description).last().id == tasks.len(),
{
    lemma_first_with_id_none(tasks, id);
}

/// Nothing changes unstored. Whatever the state and the line, either the
/// reply asks for the list to be stored or the list is as it was.
pub proof fn lemma_changes_are_stored(state: SessionView, line: Seq<char>)
    ensures
        outcome(state, line).reply.save || outcome(state, line).state.tasks == state.tasks,
{
}

/// A line touches at most one task, and the others keep their order: after
/// it the list is as it was, or has one task more at its end, or lacks one
/// task, or differs in the completion flag of one task.
pub proof fn lemma_line_touches_one_task(state: SessionView, line: Seq<char>)
    requires
        state.wf(),
    ensures
        ({
            let before = state.tasks;
            let after = outcome(state, line).state.tasks;
            ||| after == before
            ||| after == added(before, trimmed(line))
            ||| exists|i: int| 0 <= i < before.len() && after == before.remove(i)
            ||| exists|i: int, done: bool|
                0 <= i < before.len() && after == #[trigger] marked(before, i, done)
        }),
{
    let before = state.tasks;
    let after = outcome(state, line).state.tasks;
    let entry = trimmed(line);
    match state.mode {
        Mode::ToggleId => {
            if let Some(id) = parsed_id(entry) {
                lemma_first_with_id_none(before, id);
                if let Some(i) = first_with_id(before, id) {
                    if !before[i].done {
                        assert(after == marked(before, i, true));
                    }
                }
            }
        },
        Mode::Confirm { index } => {
            if says_yes(entry) {
                assert(after == marked(before, index as int, false));
            }
        },
        Mode::RemoveId => {
            if let Some(id) = parsed_id(entry) {
                lemma_first_with_id_none(before, id);
                if let Some(i) = first_with_id(before, id) {
                    assert(after == before.remove(i));
                }
            }
        },
        _ => {},
    }
}

/// Listing changes nothing and repeats itself. A line that picks the
/// listing at the menu leaves the session as it was and asks for nothing to
/// be stored; its reply carries the lines of the list, or says that there
/// are no tasks; and a second such line right after it gets the same reply.
pub proof fn lemma_listing_repeats(tasks: Seq<TaskView>, first: Seq<char>, second: Seq<char>)
    requires
        sole_char(trimmed(first)) == Some('2'),
        sole_char(trimmed(second)) == Some('2'),
    ensures
        outcome(SessionView::at_menu(tasks), first).state == SessionView::at_menu(tasks),
        !outcome(SessionView::at_menu(tasks), first).reply.save,
        outcome(SessionView::at_menu(tasks), first).reply.lines == listing(tasks),
        outcome(SessionView::at_menu(tasks), first).reply.notice == if tasks.len() == 0 {
            Notice::NoTasks
        } else {
            Notice::Listing
        },
        outcome(outcome(SessionView::at_menu(tasks), first).state, second).reply == outcome(
            SessionView::at_menu(tasks),
            first,
        ).reply,
{
    assert(listing(tasks) =~= Seq::<Seq<char>>::empty() || tasks.len() > 0);
}

/// Marking and unmarking undo each other. Let the first task with the
/// identifier that `entry` writes be not done. Entered for the task to
/// mark, `entry` marks it as done and has the list stored. Entered again,
/// after the same command was picked at the menu, it asks for a
/// confirmation and stores nothing; an answer that says yes then gives the
/// list as it was at the start, any other answer leaves the task done, and
/// either way the list is stored and the session is back at the menu.
pub proof fn lemma_toggle_round_trip(
    tasks: Seq<TaskView>,
    id: nat,
    entry: Seq<char>,
    choice: Seq<char>,
    answer: Seq<char>,
)
    requires
        tasks.len() <= usize::MAX,
        parsed_id(trimmed(entry)) == Some(id),
        first_with_id(tasks, id) matches Some(i) && !tasks[i].done,
        sole_char(trimmed(choice)) == Some('3'),
    ensures
        ({
            let i = first_with_id(tasks, id).unwrap();
            let once = outcome(SessionView::waiting(tasks, Mode::ToggleId), entry);
            let menu = outcome(once.state, choice);
            let twice = outcome(menu.state, entry);
            let last = outcome(twice.state, answer);
            &&& once.state == SessionView::at_menu(marked(tasks, i, true))
            &&& once.state.tasks[i].done
            &&& once.reply.notice == (Notice::MarkedDone { id: id as usize })
            &&& once.reply.save
            &&& menu.state == SessionView::waiting(once.state.tasks, Mode::ToggleId)
            &&& twice.state == SessionView::waiting(
                once.state.tasks,
                Mode::Confirm { index: i as usize },
            )
            &&& twice.reply.notice == (Notice::AskUnmark { id: id as usize })
            &&& !twice.reply.save
            &&& last.state.mode == Mode::Menu
            &&& last.reply.save
            &&& says_yes(trimmed(answer)) ==> last.state.tasks == tasks && !last.state.tasks[i].done
            &&& !says_yes(trimmed(answer)) ==> last.state.tasks == once.state.tasks
                && last.state.tasks[i].done
        }),
{
    lemma_first_with_id_none(tasks, id);
    let i = first_with_id(tasks, id).unwrap();
    let done = marked(tasks, i, true);
    assert(is_first_with_id(done, id, i)) by {
        assert forall|j: int| 0 <= j < i implies (#[trigger] done[j]).id != id by {
            assert(tasks[j].id != id);
        }
    }
    lemma_first_with_id_unique(done, id, i);
    assert(marked(done, i, false) =~= tasks);
}

} // verus!
