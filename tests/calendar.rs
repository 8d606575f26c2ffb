use tuido::app::{App, KeyCode, KeyPress, Panel};
use tuido::date::Date;

fn date(year: i32, month: u32, day: u32) -> Date {
    Date { year, month, day }
}

fn key(code: KeyCode) -> KeyPress {
    KeyPress { code, shift: false, control: false, alt: false }
}

fn calendar_app(anchor: Date) -> App {
    let mut app = App::new(Vec::new(), anchor);
    app.focused_panel = Panel::Calendar;
    app
}

fn in_window(anchor: Date, d: Date) -> bool {
    let a = anchor.year as i64 * 12 + anchor.month as i64;
    let c = d.year as i64 * 12 + d.month as i64;
    a - 1 <= c && c <= a + 1
}

#[test]
fn month_steps_wrap_the_year() {
    assert_eq!(date(2024, 1, 17).previous_month(), date(2023, 12, 1));
    assert_eq!(date(2024, 12, 3).next_month(), date(2025, 1, 1));
    assert_eq!(date(2024, 6, 30).previous_month(), date(2024, 5, 1));
    assert_eq!(date(2024, 6, 30).next_month(), date(2024, 7, 1));
}

#[test]
fn first_move_from_unset_cursor_lands_on_today() {
    let mut app = calendar_app(date(2024, 6, 1));
    let t = date(2024, 6, 10);
    app.move_cursor(t, 7);
    assert_eq!(app.selected_calendar_date, Some(t));
    assert_eq!(app.current_date, date(2024, 6, 1));
}

#[test]
fn seven_presses_below_from_unset_cursor() {
    let mut app = calendar_app(date(2024, 6, 1));
    let t = date(2024, 6, 10);
    for _ in 0..7 {
        app.handle_key_event_at(key(KeyCode::Down), t);
    }
    assert_eq!(app.selected_calendar_date, Some(date(2024, 7, 22)));
    assert_eq!(app.current_date, date(2024, 6, 1));
}

#[test]
fn day_steps_cross_month_and_leap_day() {
    let mut app = calendar_app(date(2024, 2, 1));
    app.selected_calendar_date = Some(date(2024, 2, 28));
    app.move_cursor(date(2024, 2, 1), 1);
    assert_eq!(app.selected_calendar_date, Some(date(2024, 2, 29)));
    app.move_cursor(date(2024, 2, 1), 1);
    assert_eq!(app.selected_calendar_date, Some(date(2024, 3, 1)));
    app.move_cursor(date(2024, 2, 1), -1);
    assert_eq!(app.selected_calendar_date, Some(date(2024, 2, 29)));
    app.selected_calendar_date = Some(date(2023, 2, 28));
    app.move_cursor(date(2024, 2, 1), 1);
    assert_eq!(app.selected_calendar_date, Some(date(2023, 3, 1)));
}

#[test]
fn leaving_the_window_shifts_anchor_one_month() {
    let mut app = calendar_app(date(2024, 6, 15));
    app.selected_calendar_date = Some(date(2024, 7, 28));
    app.move_cursor(date(2024, 6, 15), 7);
    assert_eq!(app.selected_calendar_date, Some(date(2024, 8, 4)));
    assert_eq!(app.current_date, date(2024, 7, 1));
    app.selected_calendar_date = Some(date(2024, 6, 3));
    app.move_cursor(date(2024, 6, 15), -7);
    assert_eq!(app.selected_calendar_date, Some(date(2024, 5, 27)));
    assert_eq!(app.current_date, date(2024, 6, 1));
    app.move_cursor(date(2024, 6, 15), -1);
    app.move_cursor(date(2024, 6, 15), -7);
    assert_eq!(app.selected_calendar_date, Some(date(2024, 5, 19)));
    assert_eq!(app.current_date, date(2024, 6, 1));
}

#[test]
fn window_follows_across_new_year() {
    let anchor = date(2024, 12, 10);
    let mut app = calendar_app(anchor);
    app.selected_calendar_date = Some(anchor);
    let steps: [i64; 12] = [7, 7, 7, 7, 7, 1, 7, 7, -1, 7, 7, 7];
    for s in steps.iter() {
        app.move_cursor(anchor, *s);
        assert!(in_window(app.current_date, app.selected_calendar_date.unwrap()));
    }
    assert_eq!(app.selected_calendar_date, Some(date(2025, 2, 18)));
    assert_eq!(app.current_date, date(2025, 1, 1));
    for _ in 0..20 {
        app.move_cursor(anchor, -7);
        assert!(in_window(app.current_date, app.selected_calendar_date.unwrap()));
    }
    assert_eq!(app.selected_calendar_date, Some(date(2024, 10, 1)));
}

#[test]
fn reset_puts_anchor_and_cursor_on_today() {
    let mut app = calendar_app(date(2024, 6, 1));
    app.selected_calendar_date = Some(date(2024, 7, 9));
    app.handle_key_event_at(key(KeyCode::Char('t')), date(2025, 1, 2));
    assert_eq!(app.current_date, date(2025, 1, 2));
    assert_eq!(app.selected_calendar_date, Some(date(2025, 1, 2)));
}

#[test]
fn entering_calendar_sets_cursor_once() {
    let mut app = App::new(Vec::new(), date(2024, 6, 1));
    app.handle_key_event_at(key(KeyCode::Tab), date(2024, 6, 5));
    assert_eq!(app.focused_panel, Panel::Calendar);
    assert_eq!(app.selected_calendar_date, Some(date(2024, 6, 5)));
    app.handle_key_event_at(key(KeyCode::Tab), date(2024, 6, 5));
    app.handle_key_event_at(key(KeyCode::Tab), date(2024, 6, 5));
    app.selected_calendar_date = Some(date(2024, 6, 20));
    app.handle_key_event_at(key(KeyCode::Tab), date(2024, 6, 5));
    assert_eq!(app.selected_calendar_date, Some(date(2024, 6, 20)));
}

#[test]
fn clock_gives_a_real_day() {
    let mut app = calendar_app(date(2024, 6, 1));
    app.reset_calendar_to_today();
    let t = app.selected_calendar_date.unwrap();
    assert_eq!(app.current_date, t);
    assert!(t.month >= 1 && t.month <= 12);
    assert!(t.day >= 1 && t.day <= 31);
    assert!(t.year >= 2024);
    let mut fresh = calendar_app(date(2024, 6, 1));
    fresh.select_next_day();
    assert!(fresh.selected_calendar_date.is_some());
    fresh.select_previous_day();
    fresh.select_day_above();
    fresh.select_day_below();
    assert!(fresh.selected_calendar_date.is_some());
}
