use tuido::app::{App, Effect, InputMode, KeyCode, KeyPress, Panel, Tab};
use tuido::date::{Date, Stamp};
use tuido::todo::{store_task, Todo};

fn date(year: i32, month: u32, day: u32) -> Date {
    Date { year, month, day }
}

const TODAY: Date = Date { year: 2024, month: 6, day: 15 };

fn key(code: KeyCode) -> KeyPress {
    KeyPress { code, shift: false, control: false, alt: false }
}

fn press(app: &mut App, code: KeyCode) -> Effect {
    app.handle_key_event_at(key(code), TODAY)
}

fn type_text(app: &mut App, text: &str) {
    for c in text.chars() {
        press(app, KeyCode::Char(c));
    }
}

fn task(id: usize, due: Option<Date>, secs: i64) -> Todo {
    Todo {
        id,
        title: format!("task {}", id),
        description: String::new(),
        completed: false,
        deleted: false,
        created_at: Stamp { secs, nanos: 0 },
        due_date: due,
        completed_at: None,
    }
}

fn ids(app: &App) -> Vec<usize> {
    app.todos.iter().map(|t| t.id).collect()
}

fn selection_valid(app: &App) -> bool {
    match app.selected_todo_index {
        None => app.todos.is_empty(),
        Some(i) => i < app.todos.len(),
    }
}

#[test]
fn tabs_and_panels_cycle() {
    assert_eq!(Tab::Tasks.next(), Tab::Stats);
    assert_eq!(Tab::Stats.next(), Tab::Tasks);
    assert_eq!(Tab::Tasks.previous(), Tab::Stats);
    assert_eq!(Tab::Stats.previous(), Tab::Tasks);
    assert_eq!(Panel::List.next(), Panel::Calendar);
    assert_eq!(Panel::Calendar.next(), Panel::Task);
    assert_eq!(Panel::Task.next(), Panel::List);
}

#[test]
fn new_dated_task_goes_before_later_ones() {
    let all = vec![task(1, Some(date(2024, 6, 1)), 10), task(2, None, 20)];
    let mut app = App::new(all, TODAY);
    assert_eq!(ids(&app), vec![1, 2]);
    press(&mut app, KeyCode::Char('+'));
    assert_eq!(app.input_mode, InputMode::EditingTitle);
    type_text(&mut app, "Pay rent");
    press(&mut app, KeyCode::Tab);
    press(&mut app, KeyCode::Tab);
    assert_eq!(app.input_mode, InputMode::EditingDate);
    type_text(&mut app, "2024-05-01");
    let e = press(&mut app, KeyCode::Enter);
    assert_eq!(e, Effect::StoreTask(3));
    assert_eq!(ids(&app), vec![3, 1, 2]);
    assert_eq!(app.todos[0].title, "Pay rent");
    assert_eq!(app.todos[0].due_date, Some(date(2024, 5, 1)));
    assert_eq!(app.selected_todo_index, Some(0));
    assert_eq!(app.input_mode, InputMode::Normal);
}

#[test]
fn completing_the_only_task_empties_the_list() {
    let mut app = App::new(vec![task(4, None, 1)], TODAY);
    assert_eq!(app.selected_todo_index, Some(0));
    press(&mut app, KeyCode::Char('d'));
    assert_eq!(app.input_mode, InputMode::DonePanel);
    assert_eq!(app.completing_todo_id, Some(4));
    assert!(app.done_panel_yes_selected);
    let e = press(&mut app, KeyCode::Enter);
    assert_eq!(e, Effect::CompleteStored(4));
    assert!(app.todos.is_empty());
    assert_eq!(app.selected_todo_index, None);
    assert_eq!(app.input_mode, InputMode::Normal);
    assert_eq!(app.completing_todo_id, None);
}

#[test]
fn choosing_no_keeps_the_task() {
    let mut app = App::new(vec![task(4, None, 1)], TODAY);
    press(&mut app, KeyCode::Char('-'));
    assert_eq!(app.input_mode, InputMode::DeletePanel);
    press(&mut app, KeyCode::Right);
    assert!(!app.delete_panel_yes_selected);
    let e = press(&mut app, KeyCode::Enter);
    assert_eq!(e, Effect::Nothing);
    assert_eq!(ids(&app), vec![4]);
    assert_eq!(app.input_mode, InputMode::Normal);
    press(&mut app, KeyCode::Char('d'));
    let e = press(&mut app, KeyCode::Esc);
    assert_eq!(e, Effect::Nothing);
    assert_eq!(ids(&app), vec![4]);
}

#[test]
fn deleting_last_selected_moves_selection_up() {
    let all = vec![task(1, None, 1), task(2, None, 2), task(3, None, 3)];
    let mut app = App::new(all, TODAY);
    press(&mut app, KeyCode::Up);
    assert_eq!(app.selected_todo_index, Some(2));
    press(&mut app, KeyCode::Char('-'));
    let e = press(&mut app, KeyCode::Enter);
    assert_eq!(e, Effect::DeleteStored(3));
    assert_eq!(ids(&app), vec![1, 2]);
    assert_eq!(app.selected_todo_index, Some(1));
}

#[test]
fn selection_wraps_both_ways() {
    let all = vec![task(1, None, 1), task(2, None, 2)];
    let mut app = App::new(all, TODAY);
    app.task_description_scroll = 4;
    press(&mut app, KeyCode::Down);
    assert_eq!(app.selected_todo_index, Some(1));
    assert_eq!(app.task_description_scroll, 0);
    press(&mut app, KeyCode::Down);
    assert_eq!(app.selected_todo_index, Some(0));
    press(&mut app, KeyCode::Up);
    assert_eq!(app.selected_todo_index, Some(1));
}

#[test]
fn selection_stays_valid_through_a_session() {
    let mut app = App::new(Vec::new(), TODAY);
    assert!(selection_valid(&app));
    for title in ["a", "b", "c"] {
        press(&mut app, KeyCode::Char('+'));
        type_text(&mut app, title);
        press(&mut app, KeyCode::Enter);
        assert!(selection_valid(&app));
    }
    press(&mut app, KeyCode::Enter);
    type_text(&mut app, "x");
    press(&mut app, KeyCode::Enter);
    assert!(selection_valid(&app));
    for _ in 0..3 {
        press(&mut app, KeyCode::Char('d'));
        press(&mut app, KeyCode::Enter);
        assert!(selection_valid(&app));
    }
    assert!(app.todos.is_empty());
    assert_eq!(app.selected_todo_index, None);
    press(&mut app, KeyCode::Char('d'));
    assert_eq!(app.input_mode, InputMode::Normal);
}

#[test]
fn created_ids_increase() {
    let mut app = App::new(vec![task(7, None, 1)], TODAY);
    let mut seen = Vec::new();
    for title in ["a", "b", "c"] {
        press(&mut app, KeyCode::Char('+'));
        type_text(&mut app, title);
        press(&mut app, KeyCode::Enter);
        let i = app.selected_todo_index.unwrap();
        seen.push(app.todos[i].id);
    }
    assert_eq!(seen, vec![8, 9, 10]);
}

#[test]
fn first_task_gets_id_one() {
    let mut app = App::new(Vec::new(), TODAY);
    app.open_new_task_panel();
    type_text(&mut app, "first");
    assert_eq!(app.save_new_task(), Some(1));
    assert_eq!(ids(&app), vec![1]);
}

#[test]
fn empty_title_saves_nothing() {
    let all = vec![task(1, Some(date(2024, 6, 1)), 10), task(2, None, 20)];
    let mut app = App::new(all, TODAY);
    press(&mut app, KeyCode::Char('+'));
    press(&mut app, KeyCode::Tab);
    type_text(&mut app, "some notes");
    let e = press(&mut app, KeyCode::Enter);
    assert_eq!(e, Effect::Nothing);
    assert_eq!(ids(&app), vec![1, 2]);
    assert_eq!(app.todos[0].title, "task 1");
    assert_eq!(app.input_mode, InputMode::Normal);
    assert!(!app.show_new_task_panel);
    assert!(app.new_task_description.is_empty());
}

#[test]
fn editing_updates_in_place_and_follows_task() {
    let all = vec![task(1, Some(date(2024, 6, 1)), 10), task(2, None, 20)];
    let mut app = App::new(all, TODAY);
    press(&mut app, KeyCode::Down);
    press(&mut app, KeyCode::Enter);
    assert_eq!(app.editing_todo_id, Some(2));
    assert_eq!(app.new_task_title, "task 2");
    assert!(app.date_input_buffer.is_empty());
    press(&mut app, KeyCode::Backspace);
    type_text(&mut app, "two");
    press(&mut app, KeyCode::Tab);
    press(&mut app, KeyCode::Tab);
    type_text(&mut app, "2024-01-09");
    let e = press(&mut app, KeyCode::Enter);
    assert_eq!(e, Effect::StoreTask(2));
    assert_eq!(ids(&app), vec![2, 1]);
    assert_eq!(app.todos[0].title, "task two");
    assert_eq!(app.todos[0].due_date, Some(date(2024, 1, 9)));
    assert_eq!(app.selected_todo_index, Some(0));
}

#[test]
fn bad_date_text_keeps_due_date() {
    let all = vec![task(1, Some(date(2024, 6, 1)), 10)];
    let mut app = App::new(all, TODAY);
    press(&mut app, KeyCode::Enter);
    assert_eq!(app.date_input_buffer, "2024-06-01");
    press(&mut app, KeyCode::Tab);
    press(&mut app, KeyCode::Tab);
    press(&mut app, KeyCode::Backspace);
    type_text(&mut app, "9x");
    assert_eq!(app.date_input_buffer, "2024-06-09");
    press(&mut app, KeyCode::Backspace);
    press(&mut app, KeyCode::Backspace);
    type_text(&mut app, "31");
    press(&mut app, KeyCode::Enter);
    assert_eq!(app.todos[0].due_date, Some(date(2024, 6, 1)));
}

#[test]
fn escape_discards_the_buffer() {
    let mut app = App::new(vec![task(1, None, 1)], TODAY);
    press(&mut app, KeyCode::Char('+'));
    type_text(&mut app, "draft");
    let e = press(&mut app, KeyCode::Esc);
    assert_eq!(e, Effect::Nothing);
    assert_eq!(ids(&app), vec![1]);
    assert!(app.new_task_title.is_empty());
    assert_eq!(app.input_mode, InputMode::Normal);
    assert!(!app.should_quit);
    press(&mut app, KeyCode::Char('q'));
    assert!(app.should_quit);
}

#[test]
fn calendar_enter_prefills_due_date() {
    let mut app = App::new(Vec::new(), TODAY);
    press(&mut app, KeyCode::Tab);
    press(&mut app, KeyCode::Right);
    press(&mut app, KeyCode::Enter);
    assert_eq!(app.input_mode, InputMode::EditingTitle);
    assert_eq!(app.new_task_due_date, Some(date(2024, 6, 16)));
    assert_eq!(app.date_input_buffer, "2024-06-16");
    type_text(&mut app, "t");
    press(&mut app, KeyCode::Enter);
    assert_eq!(app.todos[0].due_date, Some(date(2024, 6, 16)));
}

#[test]
fn shift_arrows_switch_tabs() {
    let mut app = App::new(Vec::new(), TODAY);
    let mut k = key(KeyCode::Right);
    k.shift = true;
    app.handle_key_event_at(k, TODAY);
    assert_eq!(app.selected_tab, Tab::Stats);
    k.code = KeyCode::Left;
    app.handle_key_event_at(k, TODAY);
    assert_eq!(app.selected_tab, Tab::Tasks);
}

#[test]
fn description_typing_scrolls_to_the_end() {
    let mut app = App::new(Vec::new(), TODAY);
    press(&mut app, KeyCode::Char('+'));
    press(&mut app, KeyCode::Tab);
    assert_eq!(app.input_mode, InputMode::EditingDescription);
    let mut newline = key(KeyCode::Enter);
    newline.alt = true;
    for _ in 0..11 {
        press(&mut app, KeyCode::Char('x'));
        app.handle_key_event_at(newline, TODAY);
    }
    assert_eq!(app.new_task_description.matches('\n').count(), 11);
    assert_eq!(app.edit_description_scroll, 3);
    press(&mut app, KeyCode::Backspace);
    assert_eq!(app.edit_description_scroll, 2);
    press(&mut app, KeyCode::PageUp);
    assert_eq!(app.edit_description_scroll, 0);
    press(&mut app, KeyCode::PageDown);
    assert_eq!(app.edit_description_scroll, 3);
    let mut ctrl_u = key(KeyCode::Char('u'));
    ctrl_u.control = true;
    app.handle_key_event_at(ctrl_u, TODAY);
    assert_eq!(app.edit_description_scroll, 0);
    assert_eq!(app.input_mode, InputMode::EditingDescription);
}

#[test]
fn task_panel_scrolls_description() {
    let mut app = App::new(vec![task(1, None, 1)], TODAY);
    app.focused_panel = Panel::Task;
    press(&mut app, KeyCode::Up);
    assert_eq!(app.task_description_scroll, 0);
    press(&mut app, KeyCode::Down);
    press(&mut app, KeyCode::Down);
    assert_eq!(app.task_description_scroll, 2);
    press(&mut app, KeyCode::Up);
    assert_eq!(app.task_description_scroll, 1);
}

#[test]
fn leap_day_text_parses_and_bad_day_does_not() {
    let mut app = App::new(Vec::new(), TODAY);
    press(&mut app, KeyCode::Char('+'));
    type_text(&mut app, "leap");
    press(&mut app, KeyCode::Tab);
    press(&mut app, KeyCode::Tab);
    type_text(&mut app, "2024-02-29");
    press(&mut app, KeyCode::Enter);
    assert_eq!(app.todos[0].due_date, Some(date(2024, 2, 29)));
    press(&mut app, KeyCode::Char('+'));
    type_text(&mut app, "no leap");
    press(&mut app, KeyCode::Tab);
    press(&mut app, KeyCode::Tab);
    type_text(&mut app, "2023-02-29");
    press(&mut app, KeyCode::Enter);
    let i = app.selected_todo_index.unwrap();
    assert_eq!(app.todos[i].title, "no leap");
    assert_eq!(app.todos[i].due_date, None);
}

#[test]
fn new_task_gets_a_creation_time() {
    let t = Todo::new(1, "a".to_string(), String::new(), None);
    assert!(t.created_at.secs > 1_600_000_000);
}

#[test]
fn date_typed_then_saved_from_title_is_kept() {
    let mut app = App::new(Vec::new(), TODAY);
    press(&mut app, KeyCode::Char('+'));
    press(&mut app, KeyCode::Tab);
    press(&mut app, KeyCode::Tab);
    type_text(&mut app, "2024-07-04");
    press(&mut app, KeyCode::Tab);
    assert_eq!(app.input_mode, InputMode::EditingTitle);
    type_text(&mut app, "fireworks");
    let e = press(&mut app, KeyCode::Enter);
    assert_eq!(e, Effect::StoreTask(1));
    assert_eq!(app.todos[0].due_date, Some(date(2024, 7, 4)));
}

#[test]
fn date_typed_then_saved_from_description_is_kept() {
    let all = vec![task(1, None, 10)];
    let mut app = App::new(all, TODAY);
    press(&mut app, KeyCode::Enter);
    press(&mut app, KeyCode::Tab);
    press(&mut app, KeyCode::Tab);
    type_text(&mut app, "2024-08-09");
    press(&mut app, KeyCode::Tab);
    press(&mut app, KeyCode::Tab);
    assert_eq!(app.input_mode, InputMode::EditingDescription);
    press(&mut app, KeyCode::Enter);
    assert_eq!(app.todos[0].due_date, Some(date(2024, 8, 9)));
}

#[test]
fn editing_title_keeps_untouched_due_date() {
    let all = vec![task(1, Some(date(2024, 6, 1)), 10)];
    let mut app = App::new(all, TODAY);
    press(&mut app, KeyCode::Enter);
    type_text(&mut app, "!");
    press(&mut app, KeyCode::Enter);
    assert_eq!(app.todos[0].title, "task 1!");
    assert_eq!(app.todos[0].due_date, Some(date(2024, 6, 1)));
}

#[test]
fn new_ids_pass_every_stored_id() {
    let mut done = task(9, None, 5);
    done.completed = true;
    let mut gone = task(12, None, 6);
    gone.deleted = true;
    let mut app = App::new(vec![task(1, None, 1), done, gone], TODAY);
    assert_eq!(app.max_known_id, 12);
    press(&mut app, KeyCode::Char('+'));
    type_text(&mut app, "next");
    let e = press(&mut app, KeyCode::Enter);
    assert_eq!(e, Effect::StoreTask(13));
    assert_eq!(ids(&app), vec![1, 13]);
}

#[test]
fn storing_a_saved_task_keeps_closed_records() {
    let mut done = task(2, None, 5);
    done.completed = true;
    let mut stored = vec![task(1, None, 1), done];
    let mut app = App::new(stored.iter().map(|t| t.duplicate()).collect(), TODAY);
    press(&mut app, KeyCode::Enter);
    type_text(&mut app, " edited");
    if let Effect::StoreTask(id) = press(&mut app, KeyCode::Enter) {
        store_task(&mut stored, &app.todos, id);
    }
    assert_eq!(stored.len(), 2);
    assert_eq!(stored[0].title, "task 1 edited");
    assert!(stored[1].completed);
    assert_eq!(stored[1].id, 2);
    press(&mut app, KeyCode::Char('+'));
    type_text(&mut app, "more");
    if let Effect::StoreTask(id) = press(&mut app, KeyCode::Enter) {
        assert_eq!(id, 3);
        store_task(&mut stored, &app.todos, id);
    }
    assert_eq!(stored.iter().map(|t| t.id).collect::<Vec<_>>(), vec![1, 2, 3]);
    assert_eq!(stored[2].title, "more");
    assert!(stored[1].completed);
}

#[test]
fn leaving_a_panel_clears_pending_ids() {
    let mut app = App::new(vec![task(1, None, 1)], TODAY);
    press(&mut app, KeyCode::Char('d'));
    press(&mut app, KeyCode::Esc);
    assert_eq!(app.completing_todo_id, None);
    assert_eq!(app.deleting_todo_id, None);
    press(&mut app, KeyCode::Char('-'));
    assert_eq!(app.deleting_todo_id, Some(1));
    press(&mut app, KeyCode::Esc);
    assert_eq!(app.deleting_todo_id, None);
    assert_eq!(app.input_mode, InputMode::Normal);
}
