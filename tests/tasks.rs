use tuido::app::{App, InputMode};
use tuido::date::{Date, Stamp};
use tuido::stats::{daily_series, task_stats};
use tuido::todo::{complete_stored, delete_stored, due_state, sort_for_display, DueState, Todo};

fn date(year: i32, month: u32, day: u32) -> Date {
    Date { year, month, day }
}

fn task(id: usize, due: Option<Date>, secs: i64) -> Todo {
    Todo {
        id,
        title: format!("task {}", id),
        description: String::new(),
        completed: false,
        deleted: false,
        created_at: Stamp { secs, nanos: 0 },
        due_date: due,
        completed_at: None,
    }
}

fn ids(v: &[Todo]) -> Vec<usize> {
    v.iter().map(|t| t.id).collect()
}

#[test]
fn dated_tasks_come_first_by_date_then_creation() {
    let v = vec![
        task(1, None, 50),
        task(2, Some(date(2024, 6, 1)), 40),
        task(3, None, 10),
        task(4, Some(date(2024, 5, 1)), 30),
        task(5, Some(date(2024, 6, 1)), 20),
    ];
    let sorted = sort_for_display(v);
    assert_eq!(ids(&sorted), vec![4, 5, 2, 3, 1]);
}

#[test]
fn sort_keeps_equal_keys_in_place() {
    let v = vec![task(7, None, 5), task(3, None, 5), task(9, None, 5)];
    let sorted = sort_for_display(v);
    assert_eq!(ids(&sorted), vec![7, 3, 9]);
}

#[test]
fn sort_of_empty_is_empty() {
    assert!(sort_for_display(Vec::new()).is_empty());
}

#[test]
fn later_year_sorts_after_earlier_month() {
    let v = vec![task(1, Some(date(2025, 1, 1)), 0), task(2, Some(date(2024, 12, 31)), 9)];
    assert_eq!(ids(&sort_for_display(v)), vec![2, 1]);
}

#[test]
fn start_up_keeps_only_open_tasks_in_order() {
    let mut done = task(2, None, 1);
    done.completed = true;
    done.completed_at = Some(Stamp { secs: 3, nanos: 0 });
    let mut gone = task(3, Some(date(2024, 1, 1)), 1);
    gone.deleted = true;
    let all = vec![task(1, None, 5), done, gone, task(4, Some(date(2024, 2, 2)), 9)];
    let app = App::new(all, date(2024, 6, 15));
    assert_eq!(ids(&app.todos), vec![4, 1]);
    assert_eq!(app.selected_todo_index, Some(0));
    assert_eq!(app.input_mode, InputMode::Normal);
    assert_eq!(app.current_date, date(2024, 6, 15));
}

#[test]
fn start_up_with_nothing_selects_nothing() {
    let app = App::new(Vec::new(), date(2024, 6, 15));
    assert!(app.todos.is_empty());
    assert_eq!(app.selected_todo_index, None);
}

#[test]
fn completing_in_store_flips_flag_and_stamps() {
    let mut all = vec![task(1, None, 1), task(2, None, 2)];
    complete_stored(&mut all, 2);
    assert!(all[1].completed);
    assert!(all[1].completed_at.is_some());
    assert!(!all[1].deleted);
    assert!(!all[0].completed);
    complete_stored(&mut all, 2);
    assert!(!all[1].completed);
    assert!(all[1].completed_at.is_none());
}

#[test]
fn deleting_in_store_sets_flag_only() {
    let mut all = vec![task(1, None, 1), task(2, None, 2)];
    delete_stored(&mut all, 1);
    assert!(all[0].deleted);
    assert!(!all[0].completed);
    assert!(!all[1].deleted);
}

#[test]
fn unknown_id_leaves_store_alone() {
    let mut all = vec![task(1, None, 1)];
    complete_stored(&mut all, 8);
    delete_stored(&mut all, 8);
    assert!(!all[0].completed && !all[0].deleted);
}

#[test]
fn new_task_is_open() {
    let t = Todo::new(5, "a".to_string(), "b".to_string(), Some(date(2024, 5, 1)));
    assert_eq!(t.id, 5);
    assert_eq!(t.title, "a");
    assert_eq!(t.description, "b");
    assert!(!t.completed && !t.deleted && t.completed_at.is_none());
    assert_eq!(t.due_date, Some(date(2024, 5, 1)));
}

#[test]
fn toggling_twice_reopens() {
    let mut t = task(1, None, 1);
    t.toggle_completed();
    assert!(t.completed && t.completed_at.is_some());
    t.toggle_completed();
    assert!(!t.completed && t.completed_at.is_none());
    t.mark_deleted();
    assert!(t.deleted);
}

#[test]
fn display_string_shows_due_date() {
    let mut t = task(1, Some(date(2024, 5, 1)), 1);
    t.title = "Buy milk".to_string();
    assert_eq!(t.display_string(), "Buy milk (Due: 2024-05-01)");
    let mut u = task(2, None, 1);
    u.title = "Call".to_string();
    assert_eq!(u.display_string(), "Call");
}

#[test]
fn display_string_pads_short_years() {
    let mut t = task(1, Some(date(987, 12, 9)), 1);
    t.title = "Old".to_string();
    assert_eq!(t.display_string(), "Old (Due: 0987-12-09)");
}

#[test]
fn stats_count_each_kind() {
    let today = date(2024, 6, 15);
    let mut done = task(3, Some(date(2024, 1, 1)), 1);
    done.completed = true;
    let mut gone = task(4, None, 1);
    gone.deleted = true;
    let mut both = task(5, None, 1);
    both.deleted = true;
    both.completed = true;
    let working = vec![
        task(1, Some(date(2024, 6, 14)), 1),
        task(2, Some(date(2024, 6, 15)), 1),
        task(6, None, 1),
    ];
    let all = vec![task(1, Some(date(2024, 6, 14)), 1), done, gone, both];
    let s = task_stats(&working, &all, today);
    assert_eq!(s.overdue, 1);
    assert_eq!(s.pending, 3);
    assert_eq!(s.done, 2);
    assert_eq!(s.deleted, 2);
}

#[test]
fn daily_series_counts_each_day() {
    let day = 19000i64;
    let start = day * 86400;
    let a = task(1, None, start + 10);
    let mut b = task(2, Some(date(2022, 1, 1)), start - 5);
    b.completed = true;
    b.completed_at = Some(Stamp { secs: start + 86400 + 3, nanos: 0 });
    let c = task(3, Some(date(2021, 12, 31)), start - 86400 * 10);
    let all = vec![a, b, c];
    let s = daily_series(&all, day + 1, 2);
    assert_eq!(s.created, vec![1, 1, 0]);
    assert_eq!(s.completed, vec![0, 0, 1]);
    assert_eq!(s.overdue, vec![2, 2, 2]);
    let late = daily_series(&all, day + 2, 0);
    assert_eq!(late.overdue, vec![1]);
    // 2021-12-31 is day 18992 and 2022-01-01 is day 18993.
    let mut d = task(4, Some(date(2022, 1, 1)), 0);
    d.created_at = Stamp { secs: 0, nanos: 0 };
    let edge = daily_series(&vec![d], 18993, 1);
    assert_eq!(edge.overdue, vec![0, 0]);
    let after = daily_series(&edge_task(), 18994, 0);
    assert_eq!(after.overdue, vec![1]);
}

fn edge_task() -> Vec<Todo> {
    vec![task(4, Some(date(2022, 1, 1)), 0)]
}

#[test]
fn due_state_marks_overdue_and_today() {
    let today = date(2024, 6, 15);
    assert_eq!(due_state(&task(1, Some(date(2024, 6, 14)), 1), today), DueState::Overdue);
    assert_eq!(due_state(&task(2, Some(date(2024, 6, 15)), 1), today), DueState::DueToday);
    assert_eq!(due_state(&task(3, Some(date(2024, 7, 1)), 1), today), DueState::Plain);
    assert_eq!(due_state(&task(4, None, 1), today), DueState::Plain);
    let mut done = task(5, Some(date(2023, 1, 1)), 1);
    done.completed = true;
    assert_eq!(due_state(&done, today), DueState::Plain);
}
