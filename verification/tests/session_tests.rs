use todo_cli::list::TaskList;
use todo_cli::session::{Mode, Notice, Reply, Session};
use todo_cli::task::Task;

fn task(id: usize, description: &str, done: bool) -> Task {
    Task { id, description: description.to_string(), done }
}

fn fresh() -> Session {
    Session::new(TaskList::new())
}

fn over(tasks: Vec<Task>) -> Session {
    Session::new(TaskList::from_tasks(tasks))
}

fn plain(notice: Notice, save: bool) -> Reply {
    Reply { notice, save, lines: Vec::new() }
}

fn listed(session: &mut Session) -> Vec<String> {
    let reply = session.step("2\n");
    assert!(!reply.save);
    reply.lines
}

#[test]
fn session_starts_at_the_menu() {
    let session = over(vec![task(1, "a", false)]);
    assert_eq!(session.mode(), Mode::Menu);
    assert!(!session.is_closed());
    assert_eq!(session.list().tasks, vec![task(1, "a", false)]);
}

#[test]
fn add_then_toggle_then_remove() {
    let mut session = fresh();
    assert_eq!(session.step("1\n"), plain(Notice::AskDescription, false));
    assert_eq!(session.step("buy milk\n"), plain(Notice::Added { id: 1 }, true));
    assert_eq!(listed(&mut session), vec!["1 [ ] - buy milk"]);

    assert_eq!(session.step("3\n"), plain(Notice::AskToggleId, false));
    assert_eq!(session.step("1\n"), plain(Notice::MarkedDone { id: 1 }, true));
    assert_eq!(listed(&mut session), vec!["1 [x] - buy milk"]);

    assert_eq!(session.step("4\n"), plain(Notice::AskRemoveId, false));
    let removed = session.step("1\n");
    assert_eq!(removed, plain(Notice::Removed { id: 1 }, true));
    assert_eq!(session.step("2\n"), plain(Notice::NoTasks, false));
    assert!(session.list().is_empty());
    assert_eq!(session.list().tasks, Vec::<Task>::new());
}

#[test]
fn add_after_remove_collides_with_the_task_that_stayed() {
    let mut session = fresh();
    session.step("1");
    assert_eq!(session.step("a"), plain(Notice::Added { id: 1 }, true));
    session.step("1");
    assert_eq!(session.step("b"), plain(Notice::Added { id: 2 }, true));
    session.step("4");
    assert_eq!(session.step("1"), plain(Notice::Removed { id: 1 }, true));
    session.step("1");
    assert_eq!(session.step("c"), plain(Notice::Added { id: 2 }, true));
    assert_eq!(session.list().tasks, vec![task(2, "b", false), task(2, "c", false)]);
    assert_eq!(listed(&mut session), vec!["2 [ ] - b", "2 [ ] - c"]);
}

#[test]
fn adds_alone_count_from_one() {
    let mut session = fresh();
    let mut k: usize = 1;
    while k <= 12 {
        assert_eq!(session.step(" 1 "), plain(Notice::AskDescription, false));
        let reply = session.step(&format!("task number {}", k));
        assert_eq!(reply, plain(Notice::Added { id: k }, true));
        assert_eq!(session.list().tasks[k - 1].id, k);
        k += 1;
    }
    let ids: Vec<usize> = session.list().tasks.iter().map(|t| t.id).collect();
    assert_eq!(ids, (1..=12).collect::<Vec<usize>>());
}

#[test]
fn removing_the_highest_identifier_frees_it() {
    let mut session = fresh();
    for d in ["a", "b", "c"] {
        session.step("1");
        session.step(d);
    }
    session.step("4");
    assert_eq!(session.step("3"), plain(Notice::Removed { id: 3 }, true));
    session.step("1");
    assert_eq!(session.step("d"), plain(Notice::Added { id: 3 }, true));
    assert_eq!(
        session.list().tasks,
        vec![task(1, "a", false), task(2, "b", false), task(3, "d", false)]
    );
}

#[test]
fn listing_twice_gives_the_same_and_stores_nothing() {
    let mut session = over(vec![task(1, "a", true), task(2, "b", false)]);
    let before = session.list().clone();
    let first = session.step("2\n");
    let second = session.step("2\n");
    assert_eq!(first, second);
    assert_eq!(first.notice, Notice::Listing);
    assert!(!first.save);
    assert_eq!(first.lines, vec!["1 [x] - a", "2 [ ] - b"]);
    assert_eq!(*session.list(), before);
    assert_eq!(session.mode(), Mode::Menu);
}

#[test]
fn listing_an_empty_list_twice_gives_the_same() {
    let mut session = fresh();
    let first = session.step("2");
    let second = session.step("2");
    assert_eq!(first, plain(Notice::NoTasks, false));
    assert_eq!(first, second);
    assert!(session.list().is_empty());
}

#[test]
fn unmarking_with_yes_restores_the_task() {
    for yes in ["s", "S", " s \n", "S\r\n"] {
        let mut session = over(vec![task(1, "a", false), task(2, "b", false)]);
        let start = session.list().clone();
        session.step("3");
        assert_eq!(session.step("2"), plain(Notice::MarkedDone { id: 2 }, true));
        assert!(session.list().tasks[1].done);
        assert_eq!(session.step("3"), plain(Notice::AskToggleId, false));
        assert_eq!(session.step("2"), plain(Notice::AskUnmark { id: 2 }, false));
        assert_eq!(session.mode(), Mode::Confirm { index: 1 });
        assert_eq!(session.step(yes), plain(Notice::Unmarked { id: 2 }, true));
        assert_eq!(*session.list(), start);
        assert_eq!(session.mode(), Mode::Menu);
    }
}

#[test]
fn unmarking_without_yes_keeps_the_task_done() {
    for no in ["n", "N", "", "\n", "sim", "ss", "yes", "y", "1", "s s"] {
        let mut session = over(vec![task(1, "a", false)]);
        session.step("3");
        session.step("1");
        session.step("3");
        assert_eq!(session.step("1"), plain(Notice::AskUnmark { id: 1 }, false));
        assert_eq!(session.step(no), plain(Notice::KeptDone, true), "answer {:?}", no);
        assert_eq!(session.list().tasks, vec![task(1, "a", true)]);
        assert_eq!(session.mode(), Mode::Menu);
    }
}

#[test]
fn toggle_takes_the_first_of_equal_identifiers() {
    let mut session = over(vec![task(2, "b", true), task(2, "c", false)]);
    session.step("3");
    assert_eq!(session.step("2"), plain(Notice::AskUnmark { id: 2 }, false));
    assert_eq!(session.mode(), Mode::Confirm { index: 0 });
    assert_eq!(session.step("s"), plain(Notice::Unmarked { id: 2 }, true));
    assert_eq!(session.list().tasks, vec![task(2, "b", false), task(2, "c", false)]);
    session.step("3");
    assert_eq!(session.step("2"), plain(Notice::MarkedDone { id: 2 }, true));
    assert_eq!(session.list().tasks, vec![task(2, "b", true), task(2, "c", false)]);
}

#[test]
fn toggle_and_remove_need_a_task() {
    let mut session = fresh();
    assert_eq!(session.step("3"), plain(Notice::NothingToToggle, false));
    assert_eq!(session.mode(), Mode::Menu);
    assert_eq!(session.step("4"), plain(Notice::NothingToRemove, false));
    assert_eq!(session.mode(), Mode::Menu);
    assert!(session.list().is_empty());
}

#[test]
fn entry_that_is_no_number_is_reported_and_stored() {
    for entry in ["abc", "", "-1", "1.5", "1 2", "99999999999999999999999999"] {
        let mut session = over(vec![task(1, "a", false)]);
        session.step("3");
        assert_eq!(session.mode(), Mode::ToggleId);
        assert_eq!(session.step(entry), plain(Notice::InvalidToggleId, true), "entry {:?}", entry);
        assert_eq!(session.mode(), Mode::Menu);
        session.step("4");
        assert_eq!(session.mode(), Mode::RemoveId);
        assert_eq!(session.step(entry), plain(Notice::InvalidRemoveId, true), "entry {:?}", entry);
        assert_eq!(session.mode(), Mode::Menu);
        assert_eq!(session.list().tasks, vec![task(1, "a", false)]);
    }
}

#[test]
fn identifier_that_no_task_has_is_reported_and_stored() {
    let mut session = over(vec![task(1, "a", false)]);
    session.step("3");
    assert_eq!(session.step("7"), plain(Notice::NotFound { id: 7 }, true));
    session.step("4");
    assert_eq!(session.step("0"), plain(Notice::NotFound { id: 0 }, true));
    assert_eq!(session.mode(), Mode::Menu);
    assert_eq!(session.list().tasks, vec![task(1, "a", false)]);
}

#[test]
fn identifier_may_carry_white_space_and_a_plus_sign() {
    let mut session = over(vec![task(1, "a", false), task(2, "b", false)]);
    session.step("3");
    assert_eq!(session.step("  +2 \n"), plain(Notice::MarkedDone { id: 2 }, true));
    session.step("4");
    assert_eq!(session.step("\t01\r\n"), plain(Notice::Removed { id: 1 }, true));
    assert_eq!(session.list().tasks, vec![task(2, "b", true)]);
}

#[test]
fn description_is_trimmed() {
    let mut session = fresh();
    session.step("1");
    assert_eq!(session.mode(), Mode::Description);
    assert_eq!(session.step("   walk  the dog \t\n"), plain(Notice::Added { id: 1 }, true));
    assert_eq!(session.list().tasks, vec![task(1, "walk  the dog", false)]);
    session.step("1");
    assert_eq!(session.step("  \n"), plain(Notice::Added { id: 2 }, true));
    assert_eq!(session.list().tasks[1], task(2, "", false));
    session.step("1");
    assert_eq!(session.step("5"), plain(Notice::Added { id: 3 }, true));
    assert_eq!(session.list().tasks[2], task(3, "5", false));
    assert!(!session.is_closed());
}

#[test]
fn unknown_choice_changes_and_stores_nothing() {
    for choice in ["", "\n", "0", "6", "11", "1 1", "x", "add", "+1", "\u{661}"] {
        let mut session = over(vec![task(1, "a", false)]);
        assert_eq!(session.step(choice), plain(Notice::InvalidOption, false), "choice {:?}", choice);
        assert_eq!(session.mode(), Mode::Menu);
        assert_eq!(session.list().tasks, vec![task(1, "a", false)]);
    }
}

#[test]
fn quit_stores_and_closes() {
    let mut session = over(vec![task(1, "a", true)]);
    assert_eq!(session.step("5\n"), plain(Notice::Farewell, true));
    assert!(session.is_closed());
    assert_eq!(session.mode(), Mode::Closed);
    assert_eq!(session.list().tasks, vec![task(1, "a", true)]);
}

#[test]
fn closed_session_ignores_lines() {
    let mut session = over(vec![task(1, "a", false)]);
    session.step("5");
    for line in ["1", "2", "3", "4", "5", "anything"] {
        assert_eq!(session.step(line), plain(Notice::Closed, false));
        assert!(session.is_closed());
    }
    assert_eq!(session.into_list().tasks, vec![task(1, "a", false)]);
}

#[test]
fn removing_stores_even_the_empty_list() {
    let mut session = over(vec![task(4, "only", false)]);
    session.step("4");
    let reply = session.step("4");
    assert_eq!(reply, plain(Notice::Removed { id: 4 }, true));
    let list = session.into_list();
    assert!(list.is_empty());
    assert_eq!(list.tasks.len(), 0);
}

#[test]
fn restored_list_is_used_as_it_is() {
    let stored = vec![task(0, "zero", false), task(5, "five", true)];
    let mut session = Session::new(TaskList::restore(Some(stored)));
    assert_eq!(listed(&mut session), vec!["0 [ ] - zero", "5 [x] - five"]);
    session.step("3");
    assert_eq!(session.step("0"), plain(Notice::MarkedDone { id: 0 }, true));
    session.step("1");
    assert_eq!(session.step("new"), plain(Notice::Added { id: 3 }, true));
    let mut empty = Session::new(TaskList::restore(None));
    assert_eq!(empty.step("2"), plain(Notice::NoTasks, false));
}
