use task_tracker::command::{add_task, list_tasks, move_pair_of, move_task, remove_task, run, Args, MoveOutcome};
use task_tracker::render::{print_list, print_lists};
use task_tracker::store::{position_of, MoveError, TaskStore};
use task_tracker::task::{ListKind, Task};

fn task(index: usize, name: &str) -> Task {
    Task::new(name.to_string(), format!("{} desc", name), "2025-01-01".to_string(), index)
}

fn ids(list: &Vec<Task>) -> Vec<usize> {
    list.iter().map(|t| t.index).collect()
}

fn names(list: &Vec<Task>) -> Vec<String> {
    list.iter().map(|t| t.name.clone()).collect()
}

fn no_args() -> Args {
    Args { add_task: None, remove_task: None, list_task: false, task_move: None }
}

fn strings(v: &[&str]) -> Vec<String> {
    v.iter().map(|s| s.to_string()).collect()
}

fn sample_store() -> TaskStore {
    TaskStore::load(
        Some(vec![task(9, "a"), task(9, "b")]),
        Some(vec![task(4, "c")]),
        Some(vec![task(7, "d"), task(1, "e")]),
    )
}

#[test]
fn load_renumbers_in_scan_order() {
    let s = sample_store();
    assert_eq!(ids(&s.pending), vec![1, 2]);
    assert_eq!(ids(&s.in_progress), vec![3]);
    assert_eq!(ids(&s.finished), vec![4, 5]);
    assert_eq!(names(&s.finished), strings(&["d", "e"]));
    assert_eq!(s.idx_get(), 5);
}

#[test]
fn load_treats_unreadable_lists_as_empty() {
    let s = TaskStore::load(None, Some(vec![task(3, "x")]), None);
    assert!(s.pending.is_empty());
    assert_eq!(ids(&s.in_progress), vec![1]);
    assert!(s.finished.is_empty());
    assert_eq!(s.counter, 1);
}

#[test]
fn reload_without_changes_is_stable() {
    let first = sample_store();
    let second = TaskStore::load(
        Some(first.pending.clone()),
        Some(first.in_progress.clone()),
        Some(first.finished.clone()),
    );
    assert_eq!(ids(&second.pending), ids(&first.pending));
    assert_eq!(ids(&second.in_progress), ids(&first.in_progress));
    assert_eq!(ids(&second.finished), ids(&first.finished));
    assert_eq!(names(&second.pending), names(&first.pending));
    assert_eq!(names(&second.finished), names(&first.finished));
    assert_eq!(second.counter, first.counter);
}

#[test]
fn add_appends_to_pending_with_next_identifier() {
    let mut s = sample_store();
    let id = s.add("f".to_string(), "fd".to_string(), "2030-12-31".to_string());
    assert_eq!(id, 6);
    assert_eq!(ids(&s.pending), vec![1, 2, 6]);
    assert_eq!(s.pending[2].description, "fd");
    assert_eq!(s.pending[2].due_date, "2030-12-31");
    assert_eq!(ids(&s.in_progress), vec![3]);
    assert_eq!(ids(&s.finished), vec![4, 5]);
}

#[test]
fn remove_takes_one_task() {
    let mut s = sample_store();
    assert_eq!(s.remove(3), Some(ListKind::InProgress));
    assert!(s.in_progress.is_empty());
    assert_eq!(ids(&s.pending), vec![1, 2]);
    assert_eq!(ids(&s.finished), vec![4, 5]);
    assert_eq!(s.remove(5), Some(ListKind::Finished));
    assert_eq!(ids(&s.finished), vec![4]);
    assert_eq!(s.remove(1), Some(ListKind::Pending));
    assert_eq!(ids(&s.pending), vec![2]);
}

#[test]
fn remove_of_absent_or_zero_changes_nothing() {
    let mut s = sample_store();
    assert_eq!(s.remove(0), None);
    assert_eq!(s.remove(42), None);
    assert_eq!(ids(&s.pending), vec![1, 2]);
    assert_eq!(ids(&s.in_progress), vec![3]);
    assert_eq!(ids(&s.finished), vec![4, 5]);
}

#[test]
fn remove_stops_at_first_list_that_matches() {
    let mut s = TaskStore::new();
    s.pending = vec![task(7, "p")];
    s.finished = vec![task(7, "f")];
    assert_eq!(s.remove(7), Some(ListKind::Pending));
    assert!(s.pending.is_empty());
    assert_eq!(names(&s.finished), strings(&["f"]));
}

#[test]
fn transfer_moves_by_identifier_and_keeps_total() {
    let mut s = sample_store();
    assert_eq!(s.transfer(2, ListKind::Pending, ListKind::Finished), Ok(()));
    assert_eq!(ids(&s.pending), vec![1]);
    assert_eq!(ids(&s.finished), vec![4, 5, 2]);
    assert_eq!(names(&s.finished), strings(&["d", "e", "b"]));
    assert_eq!(s.pending.len() + s.in_progress.len() + s.finished.len(), 5);
    assert_eq!(s.transfer(4, ListKind::Finished, ListKind::InProgress), Ok(()));
    assert_eq!(ids(&s.in_progress), vec![3, 4]);
}

#[test]
fn transfer_errors() {
    let mut s = sample_store();
    assert_eq!(s.transfer(1, ListKind::Pending, ListKind::Pending), Err(MoveError::SameList));
    assert_eq!(s.transfer(3, ListKind::Pending, ListKind::Finished), Err(MoveError::NotFound));
    assert_eq!(ids(&s.pending), vec![1, 2]);
    assert_eq!(ids(&s.in_progress), vec![3]);
    assert_eq!(ids(&s.finished), vec![4, 5]);
}

#[test]
fn position_of_finds_first() {
    let list = vec![task(3, "a"), task(5, "b"), task(5, "c")];
    assert_eq!(position_of(&list, 5), Some(1));
    assert_eq!(position_of(&list, 3), Some(0));
    assert_eq!(position_of(&list, 4), None);
}

#[test]
fn update_index_keeps_text() {
    let mut t = task(1, "keep");
    t.update_index(12);
    assert_eq!(t.index, 12);
    assert_eq!(t.name, "keep");
    assert_eq!(t.description, "keep desc");
}

#[test]
fn add_then_move_scenario() {
    let mut s = TaskStore::load(None, None, None);
    let mut args = no_args();
    args.add_task = Some(strings(&["grocery", "buy lemon", "2025-05-05"]));
    assert_eq!(add_task(&args, &mut s), Some(1));
    assert_eq!(s.pending.len(), 1);
    assert_eq!(s.pending[0].index, 1);
    assert_eq!(s.pending[0].name, "grocery");
    assert_eq!(s.pending[0].description, "buy lemon");
    assert_eq!(s.pending[0].due_date, "2025-05-05");

    let mut args = no_args();
    args.task_move = Some(strings(&["1", "todo", "doing"]));
    assert_eq!(move_task(&args, &mut s), MoveOutcome::Moved);
    assert!(s.pending.is_empty());
    assert_eq!(s.in_progress.len(), 1);
    assert_eq!(s.in_progress[0].index, 1);
    assert_eq!(s.in_progress[0].name, "grocery");

    let again = TaskStore::load(Some(s.pending.clone()), Some(s.in_progress.clone()), Some(s.finished.clone()));
    assert_eq!(ids(&again.in_progress), vec![1]);
}

#[test]
fn add_task_needs_three_values() {
    let mut s = sample_store();
    let mut args = no_args();
    args.add_task = Some(strings(&["only", "two"]));
    assert_eq!(add_task(&args, &mut s), None);
    assert_eq!(add_task(&no_args(), &mut s), None);
    assert_eq!(ids(&s.pending), vec![1, 2]);
}

#[test]
fn remove_task_from_args() {
    let mut s = sample_store();
    assert_eq!(remove_task(&no_args(), &mut s), None);
    let mut args = no_args();
    args.remove_task = Some(4);
    assert_eq!(remove_task(&args, &mut s), Some(ListKind::Finished));
    assert_eq!(ids(&s.finished), vec![5]);
}

#[test]
fn move_task_outcomes() {
    let mut s = sample_store();
    assert_eq!(move_task(&no_args(), &mut s), MoveOutcome::NotRequested);
    let mut args = no_args();
    args.task_move = Some(strings(&["1", "todo"]));
    assert_eq!(move_task(&args, &mut s), MoveOutcome::NotRequested);
    args.task_move = Some(strings(&["1", "todo", "todo"]));
    assert_eq!(move_task(&args, &mut s), MoveOutcome::InvalidLists);
    args.task_move = Some(strings(&["1", "nowhere", "finished"]));
    assert_eq!(move_task(&args, &mut s), MoveOutcome::InvalidLists);
    args.task_move = Some(strings(&["x", "todo", "finished"]));
    assert_eq!(move_task(&args, &mut s), MoveOutcome::NotFound);
    args.task_move = Some(strings(&["5", "finished", "pending"]));
    assert_eq!(move_task(&args, &mut s), MoveOutcome::Moved);
    assert_eq!(ids(&s.pending), vec![1, 2, 5]);
    assert_eq!(ids(&s.finished), vec![4]);
    args.task_move = Some(strings(&["+3", "in_progress", "finished"]));
    assert_eq!(move_task(&args, &mut s), MoveOutcome::Moved);
    assert_eq!(ids(&s.finished), vec![4, 3]);
}

#[test]
fn list_names_by_contained_words() {
    assert_eq!(move_pair_of("todo", "doing"), Some((ListKind::Pending, ListKind::InProgress)));
    assert_eq!(move_pair_of("my-pending-list", "finished"), Some((ListKind::Pending, ListKind::Finished)));
    assert_eq!(move_pair_of("in_progress", "finished"), Some((ListKind::InProgress, ListKind::Finished)));
    assert_eq!(move_pair_of("doing", "pending"), Some((ListKind::InProgress, ListKind::Pending)));
    assert_eq!(move_pair_of("finished", "doing"), Some((ListKind::Finished, ListKind::InProgress)));
    assert_eq!(move_pair_of("finished", "todo"), Some((ListKind::Finished, ListKind::Pending)));
    assert_eq!(move_pair_of("todo", "todo"), None);
    assert_eq!(move_pair_of("done", "todo"), None);
    assert_eq!(move_pair_of("", ""), None);
}

#[test]
fn list_names_with_two_list_words_follow_pair_order() {
    assert_eq!(move_pair_of("todo", "todo_doing"), Some((ListKind::Pending, ListKind::InProgress)));
    assert_eq!(move_pair_of("doing", "todo finished"), Some((ListKind::InProgress, ListKind::Finished)));
    assert_eq!(move_pair_of("todo doing", "todo"), Some((ListKind::InProgress, ListKind::Pending)));

    let mut s = sample_store();
    let mut args = no_args();
    args.task_move = Some(strings(&["1", "todo", "todo_doing"]));
    assert_eq!(move_task(&args, &mut s), MoveOutcome::Moved);
    assert_eq!(ids(&s.pending), vec![2]);
    assert_eq!(ids(&s.in_progress), vec![3, 1]);
    args.task_move = Some(strings(&["3", "doing", "todo finished"]));
    assert_eq!(move_task(&args, &mut s), MoveOutcome::Moved);
    assert_eq!(ids(&s.in_progress), vec![1]);
    assert_eq!(ids(&s.finished), vec![4, 5, 3]);
    assert_eq!(ids(&s.pending), vec![2]);
}

#[test]
fn print_list_exact_text() {
    let list = vec![Task::new("n".to_string(), "d".to_string(), "due".to_string(), 12)];
    let expected = "=================== TODO LIST =====================\n\
Index: 12\nName: n\nTask Description: d\nTask Due Date: due\n\
----------------------------------------------\n\
==================================================\n\n";
    assert_eq!(print_list(&list, "TODO"), expected);
    assert_eq!(
        print_list(&Vec::new(), "DOING"),
        "=================== DOING LIST =====================\n==================================================\n\n"
    );
}

#[test]
fn list_tasks_shows_all_three_lists() {
    let s = sample_store();
    assert_eq!(list_tasks(&no_args(), &s), None);
    let mut args = no_args();
    args.list_task = true;
    let text = list_tasks(&args, &s).unwrap();
    assert_eq!(text, print_lists(&s));
    assert!(text.starts_with("=================== TODO LIST"));
    assert!(text.contains("=================== DOING LIST"));
    assert!(text.contains("=================== FINISHED LIST"));
    assert!(text.contains("Index: 5\nName: e\n"));
}

#[test]
fn idx_inc_advances_counter() {
    let mut s = TaskStore::new();
    s.idx_inc();
    s.idx_inc();
    assert_eq!(s.idx_get(), 2);
    let id = s.add("n".to_string(), "d".to_string(), "x".to_string());
    assert_eq!(id, 3);
}

#[test]
fn recreate_list_continues_counter() {
    let mut s = TaskStore::new();
    s.counter = 10;
    let r = s.recreate_list(Some(vec![task(1, "a"), task(1, "b")]));
    assert_eq!(ids(&r), vec![11, 12]);
    assert_eq!(s.counter, 12);
    let empty = s.recreate_list(None);
    assert!(empty.is_empty());
    let r2 = s.recreate_index(vec![task(0, "z")]);
    assert_eq!(ids(&r2), vec![13]);
}

#[test]
fn run_applies_steps_in_order() {
    let mut s = sample_store();
    let args = Args {
        add_task: Some(strings(&["new", "nd", "2026-01-01"])),
        remove_task: Some(6),
        list_task: true,
        task_move: Some(strings(&["3", "doing", "todo"])),
    };
    let report = run(&args, &mut s);
    assert_eq!(report.added, Some(6));
    let listing = report.listing.unwrap();
    assert!(listing.contains("Index: 6\nName: new\n"));
    assert_eq!(report.removed, Some(ListKind::Pending));
    assert_eq!(report.moved, MoveOutcome::Moved);
    assert_eq!(ids(&s.pending), vec![1, 2, 3]);
    assert!(s.in_progress.is_empty());
    assert_eq!(ids(&s.finished), vec![4, 5]);
}

#[test]
fn run_with_nothing_asked_changes_nothing() {
    let mut s = sample_store();
    let report = run(&no_args(), &mut s);
    assert_eq!(report.added, None);
    assert!(report.listing.is_none());
    assert_eq!(report.removed, None);
    assert_eq!(report.moved, MoveOutcome::NotRequested);
    assert_eq!(ids(&s.pending), vec![1, 2]);
    assert_eq!(ids(&s.in_progress), vec![3]);
    assert_eq!(ids(&s.finished), vec![4, 5]);
}

#[test]
fn add_at_the_last_identifier() {
    let mut s = TaskStore::new();
    s.counter = usize::MAX - 1;
    let id = s.add("n".to_string(), "d".to_string(), "x".to_string());
    assert_eq!(id, usize::MAX);
    assert_eq!(s.idx_get(), usize::MAX);
}

#[test]
fn move_with_unreadable_identifier_finds_nothing() {
    let mut s = sample_store();
    let mut args = no_args();
    args.task_move = Some(strings(&["99999999999999999999999999", "todo", "finished"]));
    assert_eq!(move_task(&args, &mut s), MoveOutcome::NotFound);
    args.task_move = Some(strings(&["-1", "todo", "finished"]));
    assert_eq!(move_task(&args, &mut s), MoveOutcome::NotFound);
    args.task_move = Some(strings(&["", "todo", "finished"]));
    assert_eq!(move_task(&args, &mut s), MoveOutcome::NotFound);
    assert_eq!(ids(&s.pending), vec![1, 2]);
    assert_eq!(ids(&s.finished), vec![4, 5]);
}

#[test]
fn load_of_empty_lists() {
    let s = TaskStore::load(Some(Vec::new()), None, Some(Vec::new()));
    assert!(s.pending.is_empty() && s.in_progress.is_empty() && s.finished.is_empty());
    assert_eq!(s.idx_get(), 0);
}
