//! The application state: the open tasks, what is selected and focused, the
//! edit buffer, and the transitions that each key press makes.

use crate::date::{
    date_of, days_after, followed_anchor, format_date, iso_fields, iso_text, navigated,
    parse_date, shift_days, today, valid_ymd, ymd_parse, Date,
};
use crate::text::{count_newlines_upto, newline_count, pop_char, push_char};
use crate::todo::{
    completion_toggled, deletion_marked, display_order, first_index_of, has_id, position_of,
    sort_for_display, Todo,
};
use vstd::prelude::*;

verus! {

#[derive(Clone, Copy, Debug, PartialEq, Eq, Structural)]
pub enum InputMode {
    Normal,
    EditingTitle,
    EditingDescription,
    EditingDate,
    DonePanel,
    DeletePanel,
}

#[derive(Clone, Copy, Debug, PartialEq, Eq, Structural)]
pub enum Panel {
    List,
    Calendar,
    Task,
}

#[derive(Clone, Copy, Debug, PartialEq, Eq, Structural)]
pub enum Tab {
    Tasks,
    Stats,
}

impl Tab {
    pub open spec fn spec_next(&self) -> Tab {
        match self {
            Tab::Tasks => Tab::Stats,
            Tab::Stats => Tab::Tasks,
        }
    }

    pub open spec fn spec_previous(&self) -> Tab {
        match self {
            Tab::Tasks => Tab::Stats,
            Tab::Stats => Tab::Tasks,
        }
    }

    #[verifier::when_used_as_spec(spec_next)]
    pub fn next(&self) -> (r: Tab)
        ensures
            r == self.spec_next(),
    {
        match self {
            Tab::Tasks => Tab::Stats,
            Tab::Stats => Tab::Tasks,
        }
    }

    #[verifier::when_used_as_spec(spec_previous)]
    pub fn previous(&self) -> (r: Tab)
        ensures
            r == self.spec_previous(),
    {
        match self {
            Tab::Tasks => Tab::Stats,
            Tab::Stats => Tab::Tasks,
        }
    }
}

impl Panel {
    pub open spec fn spec_next(&self) -> Panel {
        match self {
            Panel::List => Panel::Calendar,
            Panel::Calendar => Panel::Task,
            Panel::Task => Panel::List,
        }
    }

    /// The panel that focus moves to: list, calendar, task, and round again.
    #[verifier::when_used_as_spec(spec_next)]
    pub fn next(&self) -> (r: Panel)
        ensures
            r == self.spec_next(),
    {
        match self {
            Panel::List => Panel::Calendar,
            Panel::Calendar => Panel::Task,
            Panel::Task => Panel::List,
        }
    }
}

/// The whole state that the screen shows and the keys change.
pub struct App {
    pub should_quit: bool,
    /// The anchor of the calendar: its month is the middle one of the three
    /// shown.
    pub current_date: Date,
    /// The working collection: tasks neither completed nor deleted, in
    /// display order.
    pub todos: Vec<Todo>,
    pub show_new_task_panel: bool,
    pub show_done_panel: bool,
    pub done_panel_yes_selected: bool,
    pub completing_todo_id: Option<usize>,
    pub show_delete_panel: bool,
    pub delete_panel_yes_selected: bool,
    pub deleting_todo_id: Option<usize>,
    pub input_mode: InputMode,
    pub focused_panel: Panel,
    pub selected_tab: Tab,
    pub selected_todo_index: Option<usize>,
    /// The calendar cursor.
    pub selected_calendar_date: Option<Date>,
    pub task_description_scroll: u16,
    pub edit_description_scroll: u16,
    /// The task that the edit buffer belongs to; `None` while creating one.
    pub editing_todo_id: Option<usize>,
    pub new_task_title: String,
    pub new_task_description: String,
    pub new_task_due_date: Option<Date>,
    pub date_input_buffer: String,
    /// The largest id in the stored collection at start-up and among the
    /// tasks created since; a new task takes the next one.
    pub max_known_id: usize,
}

/// Tasks that are neither completed nor deleted, in stored order.
pub open spec fn active(s: Seq<Todo>) -> Seq<Todo>
    decreases s.len(),
{
    if s.len() == 0 {
        s
    } else if !s.last().completed && !s.last().deleted {
        active(s.drop_last()).push(s.last())
    } else {
        active(s.drop_last())
    }
}

/// No task of `s` has an id above `m`.
pub open spec fn ids_at_most(s: Seq<Todo>, m: usize) -> bool {
    forall|i: int| 0 <= i < s.len() ==> #[trigger] s[i].id <= m
}

pub open spec fn all_wf(s: Seq<Todo>) -> bool {
    forall|i: int| 0 <= i < s.len() ==> (#[trigger] s[i]).wf()
}

/// The index before `sel`, wrapping round to the last of `len` tasks.
pub open spec fn index_before(sel: Option<usize>, len: nat) -> usize {
    match sel {
        Some(i) => if i > 0 {
            (i - 1) as usize
        } else {
            (len - 1) as usize
        },
        None => 0,
    }
}

/// The index after `sel`, wrapping round to the first.
pub open spec fn index_after(sel: Option<usize>, len: nat) -> usize {
    match sel {
        Some(i) => if i + 1 < len {
            (i + 1) as usize
        } else {
            0
        },
        None => 0,
    }
}

/// The description view's offset that keeps the end of a text in sight.
pub open spec fn scroll_for(text: Seq<char>) -> u16 {
    let lines = newline_count(text) + 1;
    if lines > 10 {
        if lines - 9 > u16::MAX {
            u16::MAX
        } else {
            (lines - 9) as u16
        }
    } else {
        0
    }
}

impl App {
    /// The selection is `None` exactly when there is no task, and otherwise
    /// points at one; all dates are days of the calendar; no task has an id
    /// above `max_known_id`; a completion or deletion waits for confirmation
    /// only while its panel is open.
    pub open spec fn wf(self) -> bool {
        &&& self.selected_todo_index.is_none() <==> self.todos@.len() == 0
        &&& self.selected_todo_index matches Some(i) ==> i < self.todos@.len()
        &&& self.current_date.wf()
        &&& self.selected_calendar_date matches Some(d) ==> d.wf()
        &&& self.new_task_due_date matches Some(d) ==> d.wf()
        &&& all_wf(self.todos@)
        &&& ids_at_most(self.todos@, self.max_known_id)
        &&& self.input_mode != InputMode::DonePanel ==> self.completing_todo_id.is_none()
        &&& self.input_mode != InputMode::DeletePanel ==> self.deleting_todo_id.is_none()
    }

    /// The state at start-up over the stored tasks: the open ones in display
    /// order, the first selected, the calendar anchored at today.
    pub fn new(all: Vec<Todo>, today: Date) -> (r: App)
        requires
            today.wf(),
            all_wf(all@),
        ensures
            r.wf(),
            r.todos@ == display_order(active(all@)),
            r.selected_todo_index == (if r.todos@.len() == 0 {
                None
            } else {
                Some(0usize)
            }),
            r.current_date == today,
            !r.should_quit,
            r.input_mode == InputMode::Normal,
            r.focused_panel == Panel::List,
            r.selected_tab == Tab::Tasks,
            r.selected_calendar_date.is_none(),
            !r.show_new_task_panel && !r.show_done_panel && !r.show_delete_panel,
            r.done_panel_yes_selected && r.delete_panel_yes_selected,
            r.completing_todo_id.is_none() && r.deleting_todo_id.is_none(),
            r.editing_todo_id.is_none(),
            r.task_description_scroll == 0 && r.edit_description_scroll == 0,
            r.new_task_title@.len() == 0 && r.new_task_description@.len() == 0,
            r.new_task_due_date.is_none() && r.date_input_buffer@.len() == 0,
            r.max_known_id == max_id(all@),
    {
        let m = max_todo_id(&all);
        proof {
            lemma_max_id_bounds(all@);
        }
        let ghost orig = all@;
        let n = all.len();
        let mut rest = all;
        let mut kept: Vec<Todo> = Vec::new();
        let mut k: usize = 0;
        proof {
            assert(orig.skip(0) =~= orig);
            assert(orig.take(0) =~= Seq::<Todo>::empty());
        }
        while rest.len() > 0
            invariant
                k <= orig.len(),
                orig.len() == n,
                all_wf(orig),
                rest@ == orig.skip(k as int),
                kept@ == active(orig.take(k as int)),
                all_wf(kept@),
                ids_at_most(orig, m),
                ids_at_most(kept@, m),
            decreases rest.len(),
        {
            let t = rest.remove(0);
            proof {
                assert(orig.take(k + 1).drop_last() =~= orig.take(k as int));
                assert(orig.skip(k as int).remove(0) =~= orig.skip(k + 1));
                assert(t == orig[k as int]);
            }
            if !t.completed && !t.deleted {
                kept.push(t);
            }
            k += 1;
        }
        proof {
            assert(orig.take(k as int) =~= orig);
            lemma_display_order_wf(kept@);
            lemma_display_order_ids(kept@, m);
        }
        let todos = sort_for_display(kept);
        let selected_todo_index = if todos.len() == 0 {
            None
        } else {
            Some(0)
        };
        App {
            should_quit: false,
            current_date: today,
            todos,
            show_new_task_panel: false,
            show_done_panel: false,
            done_panel_yes_selected: true,
            completing_todo_id: None,
            show_delete_panel: false,
            delete_panel_yes_selected: true,
            deleting_todo_id: None,
            input_mode: InputMode::Normal,
            focused_panel: Panel::List,
            selected_tab: Tab::Tasks,
            selected_todo_index,
            selected_calendar_date: None,
            task_description_scroll: 0,
            edit_description_scroll: 0,
            editing_todo_id: None,
            new_task_title: String::new(),
            new_task_description: String::new(),
            new_task_due_date: None,
            date_input_buffer: String::new(),
            max_known_id: m,
        }
    }

    /// Moves focus to the next panel; arriving at the calendar with no
    /// cursor puts the cursor on `today`.
    pub fn next_panel_at(&mut self, today: Date)
        requires
            old(self).wf(),
            today.wf(),
        ensures
            final(self).wf(),
            panel_advanced(*old(self), *final(self), today),
    {
        self.focused_panel = self.focused_panel.next();
        if self.focused_panel == Panel::Calendar && self.selected_calendar_date.is_none() {
            self.selected_calendar_date = Some(today);
        }
    }

    /// Moves focus to the next panel, taking today's date from the clock.
    pub fn next_panel(&mut self)
        requires
            old(self).wf(),
        ensures
            final(self).wf(),
            exists|t: Date| t.wf() && panel_advanced(*old(self), *final(self), t),
    {
        let t = today();
        self.next_panel_at(t);
    }

    pub fn next_tab(&mut self)
        ensures
            *final(self) == (App { selected_tab: old(self).selected_tab.next(), ..*old(self) }),
    {
        self.selected_tab = self.selected_tab.next();
    }

    pub fn previous_tab(&mut self)
        ensures
            *final(self) == (App { selected_tab: old(self).selected_tab.previous(), ..*old(self) }),
    {
        self.selected_tab = self.selected_tab.previous();
    }

    /// Re-sorts the working collection into display order.
    fn sort_todos(&mut self)
        requires
            all_wf(old(self).todos@),
        ensures
            *final(self) == (App { todos: final(self).todos, ..*old(self) }),
            final(self).todos@ == display_order(old(self).todos@),
            all_wf(final(self).todos@),
            ids_at_most(old(self).todos@, old(self).max_known_id) ==> ids_at_most(
                final(self).todos@,
                old(self).max_known_id,
            ),
    {
        let mut v: Vec<Todo> = Vec::new();
        std::mem::swap(&mut v, &mut self.todos);
        proof {
            lemma_display_order_wf(v@);
            if ids_at_most(v@, self.max_known_id) {
                lemma_display_order_ids(v@, self.max_known_id);
            }
        }
        let mut sorted = sort_for_display(v);
        std::mem::swap(&mut sorted, &mut self.todos);
    }

    /// Selects the task above, wrapping to the last; the description view
    /// goes back to its top.
    pub fn select_previous_todo(&mut self)
        requires
            old(self).wf(),
        ensures
            final(self).wf(),
            selected_before(*old(self), *final(self)),
    {
        if self.todos.len() == 0 {
            self.selected_todo_index = None;
            return;
        }
        self.selected_todo_index = Some(
            match self.selected_todo_index {
                Some(i) => if i > 0 {
                    i - 1
                } else {
                    self.todos.len() - 1
                },
                None => 0,
            },
        );
        self.task_description_scroll = 0;
    }

    /// Selects the task below, wrapping to the first; the description view
    /// goes back to its top.
    pub fn select_next_todo(&mut self)
        requires
            old(self).wf(),
        ensures
            final(self).wf(),
            selected_after(*old(self), *final(self)),
    {
        if self.todos.len() == 0 {
            self.selected_todo_index = None;
            return;
        }
        self.selected_todo_index = Some(
            match self.selected_todo_index {
                Some(i) => if i < self.todos.len() - 1 {
                    i + 1
                } else {
                    0
                },
                None => 0,
            },
        );
        self.task_description_scroll = 0;
    }

    pub fn scroll_description_up(&mut self)
        ensures
            *final(self) == (App {
                task_description_scroll: if old(self).task_description_scroll > 0 {
                    (old(self).task_description_scroll - 1) as u16
                } else {
                    0
                },
                ..*old(self)
            }),
    {
        if self.task_description_scroll > 0 {
            self.task_description_scroll -= 1;
        }
    }

    /// Scrolls the description view down one line, up to the largest offset
    /// that it can hold.
    pub fn scroll_description_down(&mut self)
        ensures
            *final(self) == (App {
                task_description_scroll: if old(self).task_description_scroll < u16::MAX {
                    (old(self).task_description_scroll + 1) as u16
                } else {
                    u16::MAX
                },
                ..*old(self)
            }),
    {
        if self.task_description_scroll < u16::MAX {
            self.task_description_scroll += 1;
        }
    }

    pub fn scroll_edit_description_up(&mut self)
        ensures
            *final(self) == (App {
                edit_description_scroll: if old(self).edit_description_scroll >= 3 {
                    (old(self).edit_description_scroll - 3) as u16
                } else {
                    0
                },
                ..*old(self)
            }),
    {
        self.edit_description_scroll = self.edit_description_scroll.saturating_sub(3);
    }

    pub fn scroll_edit_description_down(&mut self)
        ensures
            *final(self) == (App {
                edit_description_scroll: if old(self).edit_description_scroll <= u16::MAX - 3 {
                    (old(self).edit_description_scroll + 3) as u16
                } else {
                    u16::MAX
                },
                ..*old(self)
            }),
    {
        self.edit_description_scroll = self.edit_description_scroll.saturating_add(3);
    }

    /// Scrolls the edit view so that the end of the description, where
    /// typing happens, stays in sight.
    pub fn auto_scroll_to_cursor(&mut self)
        ensures
            *final(self) == (App {
                edit_description_scroll: scroll_for(old(self).new_task_description@),
                ..*old(self)
            }),
    {
        let visible_lines: usize = 10;
        let lines = count_newlines_upto(self.new_task_description.as_str(), 70000) + 1;
        if lines > visible_lines {
            let offset = lines - visible_lines + 1;
            self.edit_description_scroll = if offset > 65535 {
                u16::MAX
            } else {
                offset as u16
            };
        } else {
            self.edit_description_scroll = 0;
        }
    }
}


/// The largest id among the tasks, or 0 when there is none.
pub open spec fn max_id(s: Seq<Todo>) -> nat
    decreases s.len(),
{
    if s.len() == 0 {
        0
    } else {
        let m = max_id(s.drop_last());
        if s.last().id > m {
            s.last().id as nat
        } else {
            m
        }
    }
}

/// The tasks without those of this id, in the same order.
pub open spec fn without_id(s: Seq<Todo>, id: usize) -> Seq<Todo>
    decreases s.len(),
{
    if s.len() == 0 {
        s
    } else if s.last().id == id {
        without_id(s.drop_last(), id)
    } else {
        without_id(s.drop_last(), id).push(s.last())
    }
}

/// The selection after tasks were removed, leaving `len`: none when nothing
/// is left, the last task when it pointed past the end, else unchanged.
pub open spec fn reselected(sel: Option<usize>, len: nat) -> Option<usize> {
    if len == 0 {
        None
    } else {
        match sel {
            Some(i) => if i >= len {
                Some((len - 1) as usize)
            } else {
                Some(i)
            },
            None => None,
        }
    }
}

/// The first task of this id with the edit buffer's fields written into it.
pub open spec fn retitled(
    s: Seq<Todo>,
    id: usize,
    title: String,
    description: String,
    due: Option<Date>,
) -> Seq<Todo> {
    if has_id(s, id) {
        let i = choose|i: int| first_index_of(s, id, i);
        s.update(i, Todo { title, description, due_date: due, ..s[i] })
    } else {
        s
    }
}

impl App {
    /// Shifts the calendar's anchor by a month where the cursor has left the
    /// three months shown.
    fn update_calendar_view(&mut self)
        requires
            old(self).current_date.wf(),
            old(self).selected_calendar_date matches Some(c) ==> c.wf(),
        ensures
            *final(self) == (App {
                current_date: match old(self).selected_calendar_date {
                    Some(c) => followed_anchor(old(self).current_date, c),
                    None => old(self).current_date,
                },
                ..*old(self)
            }),
    {
        if let Some(selected) = self.selected_calendar_date {
            let current_year = self.current_date.year;
            let current_month = self.current_date.month;
            let (prev_year, prev_month) = if current_month == 1 {
                (current_year - 1, 12)
            } else {
                (current_year, current_month - 1)
            };
            let (next_year, next_month) = if current_month == 12 {
                (current_year + 1, 1)
            } else {
                (current_year, current_month + 1)
            };
            if selected.year < prev_year || (selected.year == prev_year && selected.month
                < prev_month) {
                self.current_date = self.current_date.previous_month();
            } else if selected.year > next_year || (selected.year == next_year && selected.month
                > next_month) {
                self.current_date = self.current_date.next_month();
            }
        }
    }

    /// Moves the calendar cursor by `n` days and lets the window follow; an
    /// unset cursor is put on `today` instead.
    pub fn move_cursor(&mut self, today: Date, n: i64)
        requires
            old(self).wf(),
            today.wf(),
            -7 <= n <= 7,
        ensures
            final(self).wf(),
            cursor_moved(*old(self), *final(self), today, n as int),
    {
        match self.selected_calendar_date {
            Some(d) => {
                match shift_days(d, n) {
                    Some(x) => {
                        assert(x == date_of(days_after(d@, n as int)));
                        self.selected_calendar_date = Some(x);
                        self.update_calendar_view();
                    },
                    None => {},
                }
            },
            None => {
                self.selected_calendar_date = Some(today);
            },
        }
    }

    pub fn select_next_day(&mut self)
        requires
            old(self).wf(),
        ensures
            final(self).wf(),
            exists|t: Date| t.wf() && cursor_moved(*old(self), *final(self), t, 1),
    {
        let t = today();
        self.move_cursor(t, 1);
    }

    pub fn select_previous_day(&mut self)
        requires
            old(self).wf(),
        ensures
            final(self).wf(),
            exists|t: Date| t.wf() && cursor_moved(*old(self), *final(self), t, -1),
    {
        let t = today();
        self.move_cursor(t, -1);
    }

    pub fn select_day_above(&mut self)
        requires
            old(self).wf(),
        ensures
            final(self).wf(),
            exists|t: Date| t.wf() && cursor_moved(*old(self), *final(self), t, -7),
    {
        let t = today();
        self.move_cursor(t, -7);
    }

    pub fn select_day_below(&mut self)
        requires
            old(self).wf(),
        ensures
            final(self).wf(),
            exists|t: Date| t.wf() && cursor_moved(*old(self), *final(self), t, 7),
    {
        let t = today();
        self.move_cursor(t, 7);
    }

    /// Puts both the calendar's anchor and its cursor on `today`.
    pub fn reset_calendar_to(&mut self, today: Date)
        ensures
            *final(self) == (App {
                current_date: today,
                selected_calendar_date: Some(today),
                ..*old(self)
            }),
    {
        self.current_date = today;
        self.selected_calendar_date = Some(today);
    }

    pub fn reset_calendar_to_today(&mut self)
        requires
            old(self).wf(),
        ensures
            final(self).wf(),
            exists|t: Date|
                t.wf() && *final(self) == (App {
                    current_date: t,
                    selected_calendar_date: Some(t),
                    ..*old(self)
                }),
    {
        let t = today();
        self.reset_calendar_to(t);
    }

    pub fn open_new_task_panel(&mut self)
        ensures
            new_task_opened(*old(self), *final(self), None),
    {
        self.open_new_task_panel_with_date(None);
    }

    /// Opens an empty edit buffer for a new task, with this due date.
    pub fn open_new_task_panel_with_date(&mut self, due_date: Option<Date>)
        requires
            due_date matches Some(d) ==> d.wf(),
        ensures
            new_task_opened(*old(self), *final(self), due_date),
    {
        self.show_new_task_panel = true;
        self.input_mode = InputMode::EditingTitle;
        self.editing_todo_id = None;
        self.new_task_title = String::new();
        self.new_task_description = String::new();
        self.new_task_due_date = due_date;
        self.date_input_buffer = match due_date {
            Some(d) => format_date(d),
            None => String::new(),
        };
        self.edit_description_scroll = 0;
    }

    /// Opens the edit buffer on the selected task.
    pub fn open_edit_task_panel(&mut self)
        requires
            old(self).wf(),
        ensures
            edit_opened(*old(self), *final(self)),
    {
        if let Some(index) = self.selected_todo_index {
            if index < self.todos.len() {
                let id = self.todos[index].id;
                let due = self.todos[index].due_date;
                let title = self.todos[index].title.clone();
                let description = self.todos[index].description.clone();
                self.show_new_task_panel = true;
                self.input_mode = InputMode::EditingTitle;
                self.editing_todo_id = Some(id);
                self.new_task_title = title;
                self.new_task_description = description;
                self.new_task_due_date = due;
                self.date_input_buffer = match due {
                    Some(d) => format_date(d),
                    None => String::new(),
                };
                self.edit_description_scroll = 0;
            }
        }
    }

    /// Discards the edit buffer and returns to normal mode.
    pub fn close_new_task_panel(&mut self)
        ensures
            editor_closed(*old(self), *final(self)),
    {
        self.show_new_task_panel = false;
        self.input_mode = InputMode::Normal;
        self.editing_todo_id = None;
        self.new_task_title = String::new();
        self.new_task_description = String::new();
        self.new_task_due_date = None;
        self.date_input_buffer = String::new();
    }

    /// Asks whether to complete the selected task, with "yes" chosen.
    pub fn open_done_panel(&mut self)
        ensures
            done_opened(*old(self), *final(self)),
    {
        if let Some(index) = self.selected_todo_index {
            if index < self.todos.len() {
                self.show_done_panel = true;
                self.completing_todo_id = Some(self.todos[index].id);
                self.done_panel_yes_selected = true;
                self.input_mode = InputMode::DonePanel;
            }
        }
    }

    pub fn close_done_panel(&mut self)
        ensures
            done_closed(*old(self), *final(self)),
    {
        self.show_done_panel = false;
        self.completing_todo_id = None;
        self.done_panel_yes_selected = true;
        self.input_mode = InputMode::Normal;
    }

    pub fn toggle_done_button(&mut self)
        ensures
            *final(self) == (App {
                done_panel_yes_selected: !old(self).done_panel_yes_selected,
                ..*old(self)
            }),
    {
        self.done_panel_yes_selected = !self.done_panel_yes_selected;
    }

    /// Takes the tasks of this id out of the working collection and keeps
    /// the selection on a task.
    fn remove_task(&mut self, id: usize)
        requires
            old(self).wf(),
        ensures
            final(self).wf(),
            *final(self) == (App {
                todos: final(self).todos,
                selected_todo_index: reselected(
                    old(self).selected_todo_index,
                    final(self).todos@.len(),
                ),
                ..*old(self)
            }),
            final(self).todos@ == without_id(old(self).todos@, id),
    {
        let mut rest: Vec<Todo> = Vec::new();
        std::mem::swap(&mut rest, &mut self.todos);
        let ghost orig = rest@;
        let ghost m = self.max_known_id;
        let n = rest.len();
        let mut kept: Vec<Todo> = Vec::new();
        let mut k: usize = 0;
        proof {
            assert(orig.skip(0) =~= orig);
            assert(orig.take(0) =~= Seq::<Todo>::empty());
        }
        while rest.len() > 0
            invariant
                k <= orig.len(),
                orig.len() == n,
                all_wf(orig),
                ids_at_most(orig, m),
                rest@ == orig.skip(k as int),
                kept@ == without_id(orig.take(k as int), id),
                all_wf(kept@),
                ids_at_most(kept@, m),
                kept@.len() <= k,
            decreases rest.len(),
        {
            let t = rest.remove(0);
            proof {
                assert(orig.take(k + 1).drop_last() =~= orig.take(k as int));
                assert(orig.skip(k as int).remove(0) =~= orig.skip(k + 1));
                assert(t == orig[k as int]);
            }
            if t.id != id {
                kept.push(t);
            }
            k += 1;
        }
        proof {
            assert(orig.take(k as int) =~= orig);
        }
        std::mem::swap(&mut kept, &mut self.todos);
        if self.todos.len() == 0 {
            self.selected_todo_index = None;
        } else if let Some(index) = self.selected_todo_index {
            if index >= self.todos.len() {
                self.selected_todo_index = Some(self.todos.len() - 1);
            }
        }
    }

    /// Confirms completion: the chosen task leaves the working collection.
    /// Returns its id, for the stored collection to record the completion.
    pub fn mark_task_complete(&mut self) -> (r: Option<usize>)
        requires
            old(self).wf(),
            old(self).deleting_todo_id.is_none(),
        ensures
            final(self).wf(),
            task_completed(*old(self), *final(self), r),
    {
        let r = self.completing_todo_id;
        if let Some(id) = r {
            self.remove_task(id);
        }
        self.close_done_panel();
        r
    }

    /// Asks whether to delete the selected task, with "yes" chosen.
    pub fn open_delete_panel(&mut self)
        ensures
            delete_opened(*old(self), *final(self)),
    {
        if let Some(index) = self.selected_todo_index {
            if index < self.todos.len() {
                self.show_delete_panel = true;
                self.deleting_todo_id = Some(self.todos[index].id);
                self.delete_panel_yes_selected = true;
                self.input_mode = InputMode::DeletePanel;
            }
        }
    }

    pub fn close_delete_panel(&mut self)
        ensures
            delete_closed(*old(self), *final(self)),
    {
        self.show_delete_panel = false;
        self.deleting_todo_id = None;
        self.delete_panel_yes_selected = true;
        self.input_mode = InputMode::Normal;
    }

    pub fn toggle_delete_button(&mut self)
        ensures
            *final(self) == (App {
                delete_panel_yes_selected: !old(self).delete_panel_yes_selected,
                ..*old(self)
            }),
    {
        self.delete_panel_yes_selected = !self.delete_panel_yes_selected;
    }

    /// Confirms deletion: the chosen task leaves the working collection.
    /// Returns its id, for the stored collection to record the deletion.
    pub fn mark_task_deleted(&mut self) -> (r: Option<usize>)
        requires
            old(self).wf(),
            old(self).completing_todo_id.is_none(),
        ensures
            final(self).wf(),
            task_deleted(*old(self), *final(self), r),
    {
        let r = self.deleting_todo_id;
        if let Some(id) = r {
            self.remove_task(id);
        }
        self.close_delete_panel();
        r
    }
}


/// The largest id in the collection, 0 when it is empty.
pub fn max_todo_id(v: &Vec<Todo>) -> (r: usize)
    ensures
        r == max_id(v@),
{
    let mut m: usize = 0;
    let mut i: usize = 0;
    while i < v.len()
        invariant
            i <= v.len(),
            m == max_id(v@.take(i as int)),
        decreases v.len() - i,
    {
        proof {
            assert(v@.take(i + 1).drop_last() =~= v@.take(i as int));
        }
        if v[i].id > m {
            m = v[i].id;
        }
        i += 1;
    }
    proof {
        assert(v@.take(i as int) =~= v@);
    }
    m
}

proof fn lemma_max_id_bounds(s: Seq<Todo>)
    ensures
        forall|j: int| 0 <= j < s.len() ==> #[trigger] s[j].id <= max_id(s),
    decreases s.len(),
{
    if s.len() > 0 {
        lemma_max_id_bounds(s.drop_last());
        assert forall|j: int| 0 <= j < s.len() implies #[trigger] s[j].id <= max_id(s) by {
            if j < s.len() - 1 {
                assert(s[j] == s.drop_last()[j]);
            }
        }
    }
}

proof fn lemma_without_id(s: Seq<Todo>, id: usize)
    ensures
        !has_id(without_id(s, id), id),
        without_id(s, id).len() <= s.len(),
    decreases s.len(),
{
    if s.len() > 0 {
        lemma_without_id(s.drop_last(), id);
        let r = without_id(s, id);
        let p = without_id(s.drop_last(), id);
        assert forall|j: int| 0 <= j < r.len() implies #[trigger] r[j].id != id by {
            if j < p.len() {
                assert(r[j] == p[j]);
            }
        }
    }
}

impl App {
    /// Writes the edit buffer into the first task of `editing_id`, sorts
    /// again and selects that task.
    fn apply_edit(&mut self, editing_id: usize)
        requires
            old(self).wf(),
        ensures
            final(self).wf(),
            *final(self) == (App {
                todos: final(self).todos,
                selected_todo_index: final(self).selected_todo_index,
                ..*old(self)
            }),
            final(self).todos@ == display_order(
                retitled(
                    old(self).todos@,
                    editing_id,
                    old(self).new_task_title,
                    old(self).new_task_description,
                    old(self).new_task_due_date,
                ),
            ),
            if has_id(old(self).todos@, editing_id) {
                match final(self).selected_todo_index {
                    Some(i) => first_index_of(final(self).todos@, editing_id, i as int),
                    None => false,
                }
            } else {
                final(self).selected_todo_index == old(self).selected_todo_index
            },
    {
        match position_of(&self.todos, editing_id) {
            Some(i) => {
                let mut t = self.todos.remove(i);
                t.title = self.new_task_title.clone();
                t.description = self.new_task_description.clone();
                t.due_date = self.new_task_due_date;
                self.todos.insert(i, t);
                proof {
                    let s = old(self).todos@;
                    let j = choose|j: int| first_index_of(s, editing_id, j);
                    assert(j == i);
                    assert(self.todos@ =~= s.update(i as int, self.todos@[i as int]));
                    assert(all_wf(self.todos@)) by {
                        assert forall|k: int| 0 <= k < self.todos@.len() implies (
                        #[trigger] self.todos@[k]).wf() by {
                            if k != i {
                                assert(self.todos@[k] == s[k]);
                            }
                        }
                    }
                    assert(self.todos@[i as int].id == editing_id);
                    assert(ids_at_most(self.todos@, self.max_known_id)) by {
                        assert forall|k: int| 0 <= k < self.todos@.len() implies #[trigger] self.todos@[k].id
                            <= self.max_known_id by {
                            if k != i {
                                assert(self.todos@[k] == s[k]);
                            }
                        }
                    }
                }
            },
            None => {},
        }
        let ghost edited = self.todos@;
        self.sort_todos();
        proof {
            lemma_display_order_contains(edited);
            if has_id(old(self).todos@, editing_id) {
                let k = choose|k: int|
                    0 <= k < edited.len() && #[trigger] edited[k].id == editing_id;
                assert(edited.contains(edited[k]));
                assert(self.todos@.contains(edited[k]));
            } else {
                assert forall|k: int| 0 <= k < self.todos@.len() implies #[trigger] self.todos@[k].id
                    != editing_id by {
                    assert(self.todos@.contains(self.todos@[k]));
                    assert(edited.contains(self.todos@[k]));
                }
            }
        }
        if let Some(i) = position_of(&self.todos, editing_id) {
            self.selected_todo_index = Some(i);
        }
    }

    /// Adds a task with the next id and the buffer's fields, sorts again
    /// and selects it; does nothing when the ids are used up.
    fn apply_create(&mut self) -> (r: bool)
        requires
            old(self).wf(),
        ensures
            final(self).wf(),
            *final(self) == (App {
                todos: final(self).todos,
                selected_todo_index: final(self).selected_todo_index,
                max_known_id: final(self).max_known_id,
                ..*old(self)
            }),
            r == (old(self).max_known_id < usize::MAX),
            r ==> created(*old(self), *final(self)),
            !r ==> *final(self) == *old(self),
    {
        if self.max_known_id == usize::MAX {
            return false;
        }
        let new_id = self.max_known_id + 1;
        let todo = Todo::new(
            new_id,
            self.new_task_title.clone(),
            self.new_task_description.clone(),
            self.new_task_due_date,
        );
        let ghost t = todo;
        self.todos.push(todo);
        self.max_known_id = new_id;
        let ghost pushed = self.todos@;
        proof {
            assert(pushed == old(self).todos@.push(t));
            assert(all_wf(pushed)) by {
                assert forall|k: int| 0 <= k < pushed.len() implies (#[trigger] pushed[k]).wf() by {
                    if k < pushed.len() - 1 {
                        assert(pushed[k] == old(self).todos@[k]);
                    }
                }
            }
            assert(ids_at_most(pushed, new_id)) by {
                assert forall|k: int| 0 <= k < pushed.len() implies #[trigger] pushed[k].id
                    <= new_id by {
                    if k < pushed.len() - 1 {
                        assert(pushed[k] == old(self).todos@[k]);
                    }
                }
            }
        }
        self.sort_todos();
        proof {
            lemma_display_order_contains(pushed);
            assert(pushed[pushed.len() - 1] == t);
            assert(pushed.contains(t));
            assert(self.todos@.contains(t));
        }
        let pos = position_of(&self.todos, new_id);
        proof {
            let i = pos.unwrap() as int;
            let x = self.todos@[i];
            assert(self.todos@.contains(x));
            assert(pushed.contains(x));
            let k = choose|k: int| 0 <= k < pushed.len() && pushed[k] == x;
            if k < pushed.len() - 1 {
                assert(pushed[k] == old(self).todos@[k]);
                assert(old(self).todos@[k].id <= old(self).max_known_id);
            }
            assert(x == t);
        }
        self.selected_todo_index = pos;
        true
    }

    /// Saves the edit buffer with the due date that it holds. With an empty
    /// title nothing is saved. Otherwise the edited task takes the buffer's
    /// fields, or a new task is added with the next id; the collection is
    /// sorted again and the selection follows that task. The buffer is
    /// closed either way. Returns the id of the task saved, for the stored
    /// collection to take it.
    pub fn save_edit_buffer(&mut self) -> (r: Option<usize>)
        requires
            old(self).wf(),
            old(self).completing_todo_id.is_none(),
            old(self).deleting_todo_id.is_none(),
        ensures
            final(self).wf(),
            saved(*old(self), *final(self), r),
    {
        let mut r = None;
        if !self.new_task_title.as_str().is_empty() {
            match self.editing_todo_id {
                Some(editing_id) => {
                    self.apply_edit(editing_id);
                    r = Some(editing_id);
                },
                None => {
                    if self.apply_create() {
                        r = Some(self.max_known_id);
                    }
                },
            }
        }
        self.close_new_task_panel();
        r
    }

    /// Saves the edit buffer, first taking the due date from the date text
    /// where it parses as `YYYY-MM-DD`; where it does not, the due date
    /// stays as it was.
    pub fn save_new_task(&mut self) -> (r: Option<usize>)
        requires
            old(self).wf(),
            old(self).completing_todo_id.is_none(),
            old(self).deleting_todo_id.is_none(),
        ensures
            final(self).wf(),
            saved(App { new_task_due_date: parsed_due(*old(self)), ..*old(self) }, *final(self), r),
            (iso_fields(old(self).date_input_buffer@) matches Some(t) && valid_ymd(t)) ==> parsed_due(
                *old(self),
            ) == Some(date_of(iso_fields(old(self).date_input_buffer@).unwrap())),
    {
        if let Some(date) = parse_date(self.date_input_buffer.as_str()) {
            assert(date == date_of(date@));
            self.new_task_due_date = Some(date);
        }
        self.save_edit_buffer()
    }
}

/// A task was added with the next id and the buffer's fields, the
/// collection sorted again, and the selection put on the new task.
pub open spec fn created(a: App, b: App) -> bool {
    match b.selected_todo_index {
        Some(i) => i < b.todos@.len() && {
            let t = b.todos@[i as int];
            &&& t.id == a.max_known_id + 1
            &&& b.max_known_id == t.id
            &&& t.title == a.new_task_title
            &&& t.description == a.new_task_description
            &&& t.due_date == a.new_task_due_date
            &&& !t.completed && !t.deleted && t.completed_at.is_none()
            &&& b.todos@ == display_order(a.todos@.push(t))
            &&& first_index_of(b.todos@, t.id, i as int)
        },
        None => false,
    }
}

/// The edit buffer was saved and closed: nothing changes with an empty
/// title; otherwise the edited task takes the buffer's fields, or a new task
/// takes the next id. `r` is the id of the task saved.
pub open spec fn saved(a: App, b: App, r: Option<usize>) -> bool {
    &&& editor_closed(
        App {
            todos: b.todos,
            selected_todo_index: b.selected_todo_index,
            max_known_id: b.max_known_id,
            ..a
        },
        b,
    )
    &&& if a.new_task_title@.len() == 0 {
        &&& r.is_none()
        &&& b.todos == a.todos
        &&& b.selected_todo_index == a.selected_todo_index
        &&& b.max_known_id == a.max_known_id
    } else {
        match a.editing_todo_id {
            Some(id) => {
                &&& r == Some(id)
                &&& b.max_known_id == a.max_known_id
                &&& b.todos@ == display_order(
                    retitled(
                        a.todos@,
                        id,
                        a.new_task_title,
                        a.new_task_description,
                        a.new_task_due_date,
                    ),
                )
                &&& if has_id(a.todos@, id) {
                    match b.selected_todo_index {
                        Some(i) => first_index_of(b.todos@, id, i as int),
                        None => false,
                    }
                } else {
                    b.selected_todo_index == a.selected_todo_index
                }
            },
            None => {
                &&& r.is_some() == (a.max_known_id < usize::MAX)
                &&& if r.is_some() {
                    created(a, b) && r == Some(b.max_known_id)
                } else {
                    &&& b.todos == a.todos
                    &&& b.selected_todo_index == a.selected_todo_index
                    &&& b.max_known_id == a.max_known_id
                }
            },
        }
    }
}

/// Over a run of creations, each starting from the state that the one
/// before left, every new id is used by no task at its creation and is
/// larger than every earlier one.
pub proof fn lemma_created_ids_increase(starts: Seq<App>, ends: Seq<App>)
    requires
        starts.len() == ends.len(),
        forall|k: int| 0 <= k < starts.len() ==> (#[trigger] starts[k]).wf(),
        forall|k: int| 0 <= k < starts.len() ==> created(#[trigger] starts[k], ends[k]),
        forall|k: int|
            0 <= k < starts.len() - 1 ==> #[trigger] ends[k].max_known_id
                == starts[k + 1].max_known_id,
    ensures
        forall|k: int|
            0 <= k < starts.len() ==> !has_id(
                (#[trigger] starts[k]).todos@,
                (starts[k].max_known_id + 1) as usize,
            ),
        forall|i: int, j: int|
            0 <= i < j < starts.len() ==> (#[trigger] starts[i]).max_known_id
                < (#[trigger] starts[j]).max_known_id,
{
    assert forall|i: int, j: int| 0 <= i < j < starts.len() implies (
    #[trigger] starts[i]).max_known_id < (#[trigger] starts[j]).max_known_id by {
        lemma_ids_grow(starts, ends, i, j);
    }
}

proof fn lemma_ids_grow(starts: Seq<App>, ends: Seq<App>, i: int, j: int)
    requires
        starts.len() == ends.len(),
        forall|k: int| 0 <= k < starts.len() ==> created(#[trigger] starts[k], ends[k]),
        forall|k: int|
            0 <= k < starts.len() - 1 ==> #[trigger] ends[k].max_known_id
                == starts[k + 1].max_known_id,
        0 <= i < j < starts.len(),
    ensures
        starts[i].max_known_id < starts[j].max_known_id,
    decreases j - i,
{
    assert(ends[j - 1].max_known_id == starts[j].max_known_id);
    assert(created(starts[j - 1], ends[j - 1]));
    if i < j - 1 {
        lemma_ids_grow(starts, ends, i, j - 1);
    }
}

/// Completing a task takes it out of the working collection, while the
/// stored collection keeps it, now completed, with its deletion flag as it
/// was.
pub proof fn lemma_completion_kept(
    a: App,
    b: App,
    id: usize,
    stored: Seq<Todo>,
    stored_after: Seq<Todo>,
)
    requires
        task_completed(a, b, Some(id)),
        completion_toggled(stored, stored_after, id),
        has_id(stored, id),
        forall|i: int| #[trigger] first_index_of(stored, id, i) ==> !stored[i].completed,
    ensures
        !has_id(b.todos@, id),
        exists|i: int|
            #[trigger] first_index_of(stored_after, id, i) && stored_after[i].completed
                && stored_after[i].deleted == stored[i].deleted,
{
    lemma_without_id(a.todos@, id);
    let i = choose|i: int|
        first_index_of(stored, id, i) && stored_after == stored.update(i, stored_after[i])
            && #[trigger] stored_after[i] == (Todo {
            completed: !stored[i].completed,
            completed_at: stored_after[i].completed_at,
            ..stored[i]
        }) && stored_after[i].completion_consistent();
    assert(first_index_of(stored_after, id, i));
}

/// Deleting a task takes it out of the working collection, while the stored
/// collection keeps it, now deleted, with its completion flag as it was.
pub proof fn lemma_deletion_kept(
    a: App,
    b: App,
    id: usize,
    stored: Seq<Todo>,
    stored_after: Seq<Todo>,
)
    requires
        task_deleted(a, b, Some(id)),
        deletion_marked(stored, stored_after, id),
        has_id(stored, id),
    ensures
        !has_id(b.todos@, id),
        exists|i: int|
            #[trigger] first_index_of(stored_after, id, i) && stored_after[i].deleted
                && stored_after[i].completed == stored[i].completed,
{
    lemma_without_id(a.todos@, id);
    let i = choose|i: int|
        first_index_of(stored, id, i) && #[trigger] stored_after[i] == (Todo {
            deleted: true,
            ..stored[i]
        }) && stored_after == stored.update(i, stored_after[i]);
    assert(first_index_of(stored_after, id, i));
}

pub open spec fn cursor_moved(a: App, b: App, today: Date, n: int) -> bool {
    b == App {
        current_date: navigated(a.current_date, a.selected_calendar_date, today, n).0,
        selected_calendar_date: navigated(a.current_date, a.selected_calendar_date, today, n).1,
        ..a
    }
}

/// The edit buffer is open on these values; its date text is the due date
/// written out.
pub open spec fn editor_opened(a: App, b: App, id: Option<usize>, due: Option<Date>) -> bool {
    &&& b == App {
        show_new_task_panel: true,
        input_mode: InputMode::EditingTitle,
        editing_todo_id: id,
        new_task_title: b.new_task_title,
        new_task_description: b.new_task_description,
        new_task_due_date: due,
        date_input_buffer: b.date_input_buffer,
        edit_description_scroll: 0,
        ..a
    }
    &&& (due matches Some(d) && 0 <= d.year <= 9999) ==> b.date_input_buffer@ == iso_text(
        due.unwrap()@,
    )
    &&& due.is_none() ==> b.date_input_buffer@.len() == 0
}

pub open spec fn new_task_opened(a: App, b: App, due: Option<Date>) -> bool {
    &&& editor_opened(a, b, None, due)
    &&& b.new_task_title@.len() == 0
    &&& b.new_task_description@.len() == 0
}

pub open spec fn edit_opened(a: App, b: App) -> bool {
    match a.selected_todo_index {
        Some(i) => if i < a.todos@.len() {
            let t = a.todos@[i as int];
            &&& editor_opened(a, b, Some(t.id), t.due_date)
            &&& b.new_task_title == t.title
            &&& b.new_task_description == t.description
        } else {
            b == a
        },
        None => b == a,
    }
}

pub open spec fn editor_closed(a: App, b: App) -> bool {
    &&& b == App {
        show_new_task_panel: false,
        input_mode: InputMode::Normal,
        editing_todo_id: None,
        new_task_title: b.new_task_title,
        new_task_description: b.new_task_description,
        new_task_due_date: None,
        date_input_buffer: b.date_input_buffer,
        ..a
    }
    &&& b.new_task_title@.len() == 0
    &&& b.new_task_description@.len() == 0
    &&& b.date_input_buffer@.len() == 0
}

pub open spec fn done_opened(a: App, b: App) -> bool {
    match a.selected_todo_index {
        Some(i) => if i < a.todos@.len() {
            b == App {
                show_done_panel: true,
                completing_todo_id: Some(a.todos@[i as int].id),
                done_panel_yes_selected: true,
                input_mode: InputMode::DonePanel,
                ..a
            }
        } else {
            b == a
        },
        None => b == a,
    }
}

pub open spec fn done_closed(a: App, b: App) -> bool {
    b == App {
        show_done_panel: false,
        completing_todo_id: None,
        done_panel_yes_selected: true,
        input_mode: InputMode::Normal,
        ..a
    }
}

pub open spec fn delete_opened(a: App, b: App) -> bool {
    match a.selected_todo_index {
        Some(i) => if i < a.todos@.len() {
            b == App {
                show_delete_panel: true,
                deleting_todo_id: Some(a.todos@[i as int].id),
                delete_panel_yes_selected: true,
                input_mode: InputMode::DeletePanel,
                ..a
            }
        } else {
            b == a
        },
        None => b == a,
    }
}

pub open spec fn delete_closed(a: App, b: App) -> bool {
    b == App {
        show_delete_panel: false,
        deleting_todo_id: None,
        delete_panel_yes_selected: true,
        input_mode: InputMode::Normal,
        ..a
    }
}

/// `a` with the working collection of `b` and the selection kept on a task
/// of it.
pub open spec fn removed(a: App, b: App) -> App {
    App {
        todos: b.todos,
        selected_todo_index: reselected(a.selected_todo_index, b.todos@.len()),
        ..a
    }
}

pub open spec fn task_completed(a: App, b: App, r: Option<usize>) -> bool {
    &&& r == a.completing_todo_id
    &&& match r {
        Some(id) => b.todos@ == without_id(a.todos@, id) && done_closed(removed(a, b), b),
        None => done_closed(a, b),
    }
}

pub open spec fn task_deleted(a: App, b: App, r: Option<usize>) -> bool {
    &&& r == a.deleting_todo_id
    &&& match r {
        Some(id) => b.todos@ == without_id(a.todos@, id) && delete_closed(removed(a, b), b),
        None => delete_closed(a, b),
    }
}

pub open spec fn panel_advanced(a: App, b: App, today: Date) -> bool {
    b == App {
        focused_panel: a.focused_panel.next(),
        selected_calendar_date: if a.focused_panel.next() == Panel::Calendar
            && a.selected_calendar_date.is_none() {
            Some(today)
        } else {
            a.selected_calendar_date
        },
        ..a
    }
}

pub open spec fn selected_before(a: App, b: App) -> bool {
    if a.todos@.len() == 0 {
        b == App { selected_todo_index: None, ..a }
    } else {
        b == App {
            selected_todo_index: Some(index_before(a.selected_todo_index, a.todos@.len())),
            task_description_scroll: 0,
            ..a
        }
    }
}

pub open spec fn selected_after(a: App, b: App) -> bool {
    if a.todos@.len() == 0 {
        b == App { selected_todo_index: None, ..a }
    } else {
        b == App {
            selected_todo_index: Some(index_after(a.selected_todo_index, a.todos@.len())),
            task_description_scroll: 0,
            ..a
        }
    }
}

/// Sorting keeps exactly the tasks that were there.
pub proof fn lemma_display_order_contains(s: Seq<Todo>)
    ensures
        forall|t: Todo| display_order(s).contains(t) <==> s.contains(t),
        display_order(s).len() == s.len(),
{
    crate::todo::lemma_display_order(s);
    assert forall|t: Todo| display_order(s).contains(t) <==> s.contains(t) by {
        vstd::seq_lib::to_multiset_contains(s, t);
        vstd::seq_lib::to_multiset_contains(display_order(s), t);
    }
}

proof fn lemma_display_order_ids(s: Seq<Todo>, m: usize)
    requires
        ids_at_most(s, m),
    ensures
        ids_at_most(display_order(s), m),
{
    lemma_display_order_contains(s);
    let r = display_order(s);
    assert forall|i: int| 0 <= i < r.len() implies #[trigger] r[i].id <= m by {
        assert(r.contains(r[i]));
        assert(s.contains(r[i]));
        let j = choose|j: int| 0 <= j < s.len() && s[j] == r[i];
        assert(s[j].id <= m);
    }
}

proof fn lemma_display_order_wf(s: Seq<Todo>)
    requires
        all_wf(s),
    ensures
        all_wf(display_order(s)),
{
    lemma_display_order_contains(s);
    let r = display_order(s);
    assert forall|i: int| 0 <= i < r.len() implies (#[trigger] r[i]).wf() by {
        assert(r.contains(r[i]));
        assert(s.contains(r[i]));
        let j = choose|j: int| 0 <= j < s.len() && s[j] == r[i];
        assert(s[j].wf());
    }
}


/// A key as the state machine sees it.
#[derive(Clone, Copy, Debug, PartialEq, Eq, Structural)]
pub enum KeyCode {
    Char(char),
    Backspace,
    Enter,
    Tab,
    Esc,
    Left,
    Right,
    Up,
    Down,
    PageUp,
    PageDown,
    Other,
}

/// A key press with the modifiers held.
#[derive(Clone, Copy, Debug, PartialEq, Eq, Structural)]
pub struct KeyPress {
    pub code: KeyCode,
    pub shift: bool,
    pub control: bool,
    pub alt: bool,
}

/// What the stored collection is to receive after a key press.
#[derive(Clone, Copy, Debug, PartialEq, Eq, Structural)]
pub enum Effect {
    Nothing,
    /// Put the working task of this id into the stored collection.
    StoreTask(usize),
    /// Complete the stored entry of this id.
    CompleteStored(usize),
    /// Mark the stored entry of this id deleted.
    DeleteStored(usize),
}

/// The id of the task that an effect asks to store.
pub open spec fn stored_id(e: Effect) -> Option<usize> {
    match e {
        Effect::StoreTask(id) => Some(id),
        _ => None,
    }
}

/// A save from any field of the edit buffer: the date text is parsed, the
/// buffer saved, and the saved task, if any, handed on to be stored.
pub open spec fn saved_by_key(a: App, b: App, e: Effect) -> bool {
    &&& (e == Effect::Nothing || e is StoreTask)
    &&& saved(App { new_task_due_date: parsed_due(a), ..a }, b, stored_id(e))
}

/// The due date after the date text is parsed at saving: the parsed date,
/// or the one before where the text is no date.
pub open spec fn parsed_due(a: App) -> Option<Date> {
    match ymd_parse(a.date_input_buffer@) {
        Some(t) => Some(date_of(t)),
        None => a.new_task_due_date,
    }
}

pub open spec fn title_typed(a: App, b: App, c: char) -> bool {
    b == App { new_task_title: b.new_task_title, ..a } && b.new_task_title@ == a.new_task_title@.push(c)
}

pub open spec fn popped(s: Seq<char>) -> Seq<char> {
    if s.len() == 0 {
        s
    } else {
        s.drop_last()
    }
}

pub open spec fn title_erased(a: App, b: App) -> bool {
    b == App { new_task_title: b.new_task_title, ..a } && b.new_task_title@ == popped(
        a.new_task_title@,
    )
}

pub open spec fn description_typed(a: App, b: App, c: char) -> bool {
    &&& b == App {
        new_task_description: b.new_task_description,
        edit_description_scroll: scroll_for(b.new_task_description@),
        ..a
    }
    &&& b.new_task_description@ == a.new_task_description@.push(c)
}

pub open spec fn description_erased(a: App, b: App) -> bool {
    &&& b == App {
        new_task_description: b.new_task_description,
        edit_description_scroll: scroll_for(b.new_task_description@),
        ..a
    }
    &&& b.new_task_description@ == popped(a.new_task_description@)
}

pub open spec fn date_typed(a: App, b: App, c: char) -> bool {
    b == App { date_input_buffer: b.date_input_buffer, ..a } && b.date_input_buffer@
        == a.date_input_buffer@.push(c)
}

pub open spec fn date_erased(a: App, b: App) -> bool {
    b == App { date_input_buffer: b.date_input_buffer, ..a } && b.date_input_buffer@ == popped(
        a.date_input_buffer@,
    )
}

pub open spec fn edit_scrolled_up(a: App) -> App {
    App {
        edit_description_scroll: if a.edit_description_scroll >= 3 {
            (a.edit_description_scroll - 3) as u16
        } else {
            0
        },
        ..a
    }
}

pub open spec fn edit_scrolled_down(a: App) -> App {
    App {
        edit_description_scroll: if a.edit_description_scroll <= u16::MAX - 3 {
            (a.edit_description_scroll + 3) as u16
        } else {
            u16::MAX
        },
        ..a
    }
}

pub open spec fn task_scrolled_up(a: App) -> App {
    App {
        task_description_scroll: if a.task_description_scroll > 0 {
            (a.task_description_scroll - 1) as u16
        } else {
            0
        },
        ..a
    }
}

pub open spec fn task_scrolled_down(a: App) -> App {
    App {
        task_description_scroll: if a.task_description_scroll < u16::MAX {
            (a.task_description_scroll + 1) as u16
        } else {
            u16::MAX
        },
        ..a
    }
}

/// A key in normal mode: quitting, opening panels, switching focus and tabs,
/// and the focused panel's navigation.
pub open spec fn normal_key_handled(a: App, b: App, key: KeyPress, today: Date) -> bool {
    let list_selected = a.focused_panel == Panel::List && a.selected_todo_index.is_some();
    match key.code {
        KeyCode::Char(c) => if c == 'q' {
            b == App { should_quit: true, ..a }
        } else if c == '+' {
            new_task_opened(a, b, None)
        } else if c == 'd' {
            if list_selected {
                done_opened(a, b)
            } else {
                b == a
            }
        } else if c == '-' {
            if list_selected {
                delete_opened(a, b)
            } else {
                b == a
            }
        } else if c == 't' {
            if a.focused_panel == Panel::Calendar {
                b == App { current_date: today, selected_calendar_date: Some(today), ..a }
            } else {
                b == a
            }
        } else {
            b == a
        },
        KeyCode::Esc => b == App { should_quit: true, ..a },
        KeyCode::Tab => panel_advanced(a, b, today),
        KeyCode::Left => if key.shift {
            b == App { selected_tab: a.selected_tab.previous(), ..a }
        } else if a.focused_panel == Panel::Calendar {
            cursor_moved(a, b, today, -1)
        } else {
            b == a
        },
        KeyCode::Right => if key.shift {
            b == App { selected_tab: a.selected_tab.next(), ..a }
        } else if a.focused_panel == Panel::Calendar {
            cursor_moved(a, b, today, 1)
        } else {
            b == a
        },
        KeyCode::Up => match a.focused_panel {
            Panel::List => selected_before(a, b),
            Panel::Calendar => cursor_moved(a, b, today, -7),
            Panel::Task => b == task_scrolled_up(a),
        },
        KeyCode::Down => match a.focused_panel {
            Panel::List => selected_after(a, b),
            Panel::Calendar => cursor_moved(a, b, today, 7),
            Panel::Task => b == task_scrolled_down(a),
        },
        KeyCode::Enter => if list_selected {
            edit_opened(a, b)
        } else if a.focused_panel == Panel::Calendar {
            new_task_opened(a, b, a.selected_calendar_date)
        } else {
            b == a
        },
        _ => b == a,
    }
}

pub open spec fn title_key_handled(a: App, b: App, key: KeyPress, e: Effect) -> bool {
    match key.code {
        KeyCode::Char(c) => e == Effect::Nothing && title_typed(a, b, c),
        KeyCode::Backspace => e == Effect::Nothing && title_erased(a, b),
        KeyCode::Tab => e == Effect::Nothing && b == App {
            input_mode: InputMode::EditingDescription,
            ..a
        },
        KeyCode::Enter => saved_by_key(a, b, e),
        KeyCode::Esc => e == Effect::Nothing && editor_closed(a, b),
        _ => e == Effect::Nothing && b == a,
    }
}

/// A key while the description is edited; Ctrl+U and Ctrl+D scroll, and
/// Alt+Enter breaks the line where Enter saves.
pub open spec fn description_key_handled(a: App, b: App, key: KeyPress, e: Effect) -> bool {
    match key.code {
        KeyCode::Char(c) => e == Effect::Nothing && if key.control && c == 'u' {
            b == edit_scrolled_up(a)
        } else if key.control && c == 'd' {
            b == edit_scrolled_down(a)
        } else {
            description_typed(a, b, c)
        },
        KeyCode::Backspace => e == Effect::Nothing && description_erased(a, b),
        KeyCode::PageUp => e == Effect::Nothing && b == edit_scrolled_up(a),
        KeyCode::PageDown => e == Effect::Nothing && b == edit_scrolled_down(a),
        KeyCode::Tab => e == Effect::Nothing && b == App { input_mode: InputMode::EditingDate, ..a },
        KeyCode::Enter => if key.alt {
            e == Effect::Nothing && description_typed(a, b, '\n')
        } else {
            saved_by_key(a, b, e)
        },
        KeyCode::Esc => e == Effect::Nothing && editor_closed(a, b),
        _ => e == Effect::Nothing && b == a,
    }
}

pub open spec fn date_char(c: char) -> bool {
    ('0' <= c && c <= '9') || c == '-'
}

/// A key while the due date is edited; only digits and `-` are typed, and
/// saving first takes the date from the text where it parses.
pub open spec fn date_key_handled(a: App, b: App, key: KeyPress, e: Effect) -> bool {
    match key.code {
        KeyCode::Char(c) => e == Effect::Nothing && if date_char(c) {
            date_typed(a, b, c)
        } else {
            b == a
        },
        KeyCode::Backspace => e == Effect::Nothing && date_erased(a, b),
        KeyCode::Tab => e == Effect::Nothing && b == App { input_mode: InputMode::EditingTitle, ..a },
        KeyCode::Enter => saved_by_key(a, b, e),
        KeyCode::Esc => e == Effect::Nothing && editor_closed(a, b),
        _ => e == Effect::Nothing && b == a,
    }
}

pub open spec fn done_key_handled(a: App, b: App, key: KeyPress, e: Effect) -> bool {
    match key.code {
        KeyCode::Tab | KeyCode::Left | KeyCode::Right => e == Effect::Nothing && b == App {
            done_panel_yes_selected: !a.done_panel_yes_selected,
            ..a
        },
        KeyCode::Enter => if a.done_panel_yes_selected {
            task_completed(a, b, a.completing_todo_id) && e == match a.completing_todo_id {
                Some(id) => Effect::CompleteStored(id),
                None => Effect::Nothing,
            }
        } else {
            e == Effect::Nothing && done_closed(a, b)
        },
        KeyCode::Esc => e == Effect::Nothing && done_closed(a, b),
        _ => e == Effect::Nothing && b == a,
    }
}

pub open spec fn delete_key_handled(a: App, b: App, key: KeyPress, e: Effect) -> bool {
    match key.code {
        KeyCode::Tab | KeyCode::Left | KeyCode::Right => e == Effect::Nothing && b == App {
            delete_panel_yes_selected: !a.delete_panel_yes_selected,
            ..a
        },
        KeyCode::Enter => if a.delete_panel_yes_selected {
            task_deleted(a, b, a.deleting_todo_id) && e == match a.deleting_todo_id {
                Some(id) => Effect::DeleteStored(id),
                None => Effect::Nothing,
            }
        } else {
            e == Effect::Nothing && delete_closed(a, b)
        },
        KeyCode::Esc => e == Effect::Nothing && delete_closed(a, b),
        _ => e == Effect::Nothing && b == a,
    }
}

/// The transition that a key makes in the current mode.
pub open spec fn key_handled(a: App, b: App, key: KeyPress, today: Date, e: Effect) -> bool {
    match a.input_mode {
        InputMode::Normal => e == Effect::Nothing && normal_key_handled(a, b, key, today),
        InputMode::EditingTitle => title_key_handled(a, b, key, e),
        InputMode::EditingDescription => description_key_handled(a, b, key, e),
        InputMode::EditingDate => date_key_handled(a, b, key, e),
        InputMode::DonePanel => done_key_handled(a, b, key, e),
        InputMode::DeletePanel => delete_key_handled(a, b, key, e),
    }
}

impl App {
    fn handle_normal_key(&mut self, key: KeyPress, today: Date)
        requires
            old(self).wf(),
            old(self).input_mode == InputMode::Normal,
            today.wf(),
        ensures
            final(self).wf(),
            normal_key_handled(*old(self), *final(self), key, today),
    {
        let list_selected = self.focused_panel == Panel::List
            && self.selected_todo_index.is_some();
        match key.code {
            KeyCode::Char(c) => {
                if c == 'q' {
                    self.should_quit = true;
                } else if c == '+' {
                    self.open_new_task_panel();
                } else if c == 'd' {
                    if list_selected {
                        self.open_done_panel();
                    }
                } else if c == '-' {
                    if list_selected {
                        self.open_delete_panel();
                    }
                } else if c == 't' {
                    if self.focused_panel == Panel::Calendar {
                        self.reset_calendar_to(today);
                    }
                }
            },
            KeyCode::Esc => self.should_quit = true,
            KeyCode::Tab => self.next_panel_at(today),
            KeyCode::Left => {
                if key.shift {
                    self.previous_tab();
                } else if self.focused_panel == Panel::Calendar {
                    self.move_cursor(today, -1);
                }
            },
            KeyCode::Right => {
                if key.shift {
                    self.next_tab();
                } else if self.focused_panel == Panel::Calendar {
                    self.move_cursor(today, 1);
                }
            },
            KeyCode::Up => {
                match self.focused_panel {
                    Panel::List => self.select_previous_todo(),
                    Panel::Calendar => self.move_cursor(today, -7),
                    Panel::Task => self.scroll_description_up(),
                }
            },
            KeyCode::Down => {
                match self.focused_panel {
                    Panel::List => self.select_next_todo(),
                    Panel::Calendar => self.move_cursor(today, 7),
                    Panel::Task => self.scroll_description_down(),
                }
            },
            KeyCode::Enter => {
                if list_selected {
                    self.open_edit_task_panel();
                } else if self.focused_panel == Panel::Calendar {
                    let due = self.selected_calendar_date;
                    self.open_new_task_panel_with_date(due);
                }
            },
            _ => {},
        }
    }

    fn save_with_effect(&mut self) -> (e: Effect)
        requires
            old(self).wf(),
            old(self).completing_todo_id.is_none(),
            old(self).deleting_todo_id.is_none(),
        ensures
            final(self).wf(),
            saved_by_key(*old(self), *final(self), e),
    {
        match self.save_new_task() {
            Some(id) => Effect::StoreTask(id),
            None => Effect::Nothing,
        }
    }

    fn type_description(&mut self, c: char)
        ensures
            description_typed(*old(self), *final(self), c),
    {
        push_char(&mut self.new_task_description, c);
        self.auto_scroll_to_cursor();
    }

    fn handle_title_key(&mut self, key: KeyPress) -> (e: Effect)
        requires
            old(self).wf(),
            old(self).input_mode == InputMode::EditingTitle,
        ensures
            final(self).wf(),
            title_key_handled(*old(self), *final(self), key, e),
    {
        match key.code {
            KeyCode::Char(c) => {
                push_char(&mut self.new_task_title, c);
                Effect::Nothing
            },
            KeyCode::Backspace => {
                pop_char(&mut self.new_task_title);
                Effect::Nothing
            },
            KeyCode::Tab => {
                self.input_mode = InputMode::EditingDescription;
                Effect::Nothing
            },
            KeyCode::Enter => self.save_with_effect(),
            KeyCode::Esc => {
                self.close_new_task_panel();
                Effect::Nothing
            },
            _ => Effect::Nothing,
        }
    }

    fn handle_description_key(&mut self, key: KeyPress) -> (e: Effect)
        requires
            old(self).wf(),
            old(self).input_mode == InputMode::EditingDescription,
        ensures
            final(self).wf(),
            description_key_handled(*old(self), *final(self), key, e),
    {
        match key.code {
            KeyCode::Char(c) => {
                if key.control && c == 'u' {
                    self.scroll_edit_description_up();
                } else if key.control && c == 'd' {
                    self.scroll_edit_description_down();
                } else {
                    self.type_description(c);
                }
                Effect::Nothing
            },
            KeyCode::Backspace => {
                pop_char(&mut self.new_task_description);
                self.auto_scroll_to_cursor();
                Effect::Nothing
            },
            KeyCode::PageUp => {
                self.scroll_edit_description_up();
                Effect::Nothing
            },
            KeyCode::PageDown => {
                self.scroll_edit_description_down();
                Effect::Nothing
            },
            KeyCode::Tab => {
                self.input_mode = InputMode::EditingDate;
                Effect::Nothing
            },
            KeyCode::Enter => {
                if key.alt {
                    self.type_description('\n');
                    Effect::Nothing
                } else {
                    self.save_with_effect()
                }
            },
            KeyCode::Esc => {
                self.close_new_task_panel();
                Effect::Nothing
            },
            _ => Effect::Nothing,
        }
    }

    fn handle_date_key(&mut self, key: KeyPress) -> (e: Effect)
        requires
            old(self).wf(),
            old(self).input_mode == InputMode::EditingDate,
        ensures
            final(self).wf(),
            date_key_handled(*old(self), *final(self), key, e),
    {
        match key.code {
            KeyCode::Char(c) => {
                if ('0' <= c && c <= '9') || c == '-' {
                    push_char(&mut self.date_input_buffer, c);
                }
                Effect::Nothing
            },
            KeyCode::Backspace => {
                pop_char(&mut self.date_input_buffer);
                Effect::Nothing
            },
            KeyCode::Tab => {
                self.input_mode = InputMode::EditingTitle;
                Effect::Nothing
            },
            KeyCode::Enter => self.save_with_effect(),
            KeyCode::Esc => {
                self.close_new_task_panel();
                Effect::Nothing
            },
            _ => Effect::Nothing,
        }
    }

    fn handle_done_key(&mut self, key: KeyPress) -> (e: Effect)
        requires
            old(self).wf(),
            old(self).input_mode == InputMode::DonePanel,
        ensures
            final(self).wf(),
            done_key_handled(*old(self), *final(self), key, e),
    {
        match key.code {
            KeyCode::Tab | KeyCode::Left | KeyCode::Right => {
                self.toggle_done_button();
                Effect::Nothing
            },
            KeyCode::Enter => {
                if self.done_panel_yes_selected {
                    match self.mark_task_complete() {
                        Some(id) => Effect::CompleteStored(id),
                        None => Effect::Nothing,
                    }
                } else {
                    self.close_done_panel();
                    Effect::Nothing
                }
            },
            KeyCode::Esc => {
                self.close_done_panel();
                Effect::Nothing
            },
            _ => Effect::Nothing,
        }
    }

    fn handle_delete_key(&mut self, key: KeyPress) -> (e: Effect)
        requires
            old(self).wf(),
            old(self).input_mode == InputMode::DeletePanel,
        ensures
            final(self).wf(),
            delete_key_handled(*old(self), *final(self), key, e),
    {
        match key.code {
            KeyCode::Tab | KeyCode::Left | KeyCode::Right => {
                self.toggle_delete_button();
                Effect::Nothing
            },
            KeyCode::Enter => {
                if self.delete_panel_yes_selected {
                    match self.mark_task_deleted() {
                        Some(id) => Effect::DeleteStored(id),
                        None => Effect::Nothing,
                    }
                } else {
                    self.close_delete_panel();
                    Effect::Nothing
                }
            },
            KeyCode::Esc => {
                self.close_delete_panel();
                Effect::Nothing
            },
            _ => Effect::Nothing,
        }
    }

    /// Applies one key press in the current mode, with `today` for the
    /// calendar, and says what the stored collection is to receive.
    pub fn handle_key_event_at(&mut self, key: KeyPress, today: Date) -> (e: Effect)
        requires
            old(self).wf(),
            today.wf(),
        ensures
            final(self).wf(),
            key_handled(*old(self), *final(self), key, today, e),
    {
        match self.input_mode {
            InputMode::Normal => {
                self.handle_normal_key(key, today);
                Effect::Nothing
            },
            InputMode::EditingTitle => self.handle_title_key(key),
            InputMode::EditingDescription => self.handle_description_key(key),
            InputMode::EditingDate => self.handle_date_key(key),
            InputMode::DonePanel => self.handle_done_key(key),
            InputMode::DeletePanel => self.handle_delete_key(key),
        }
    }

    /// Applies one key press, taking today's date from the clock.
    pub fn handle_key_event(&mut self, key: KeyPress) -> (e: Effect)
        requires
            old(self).wf(),
        ensures
            final(self).wf(),
            exists|t: Date| t.wf() && key_handled(*old(self), *final(self), key, t, e),
    {
        let t = today();
        self.handle_key_event_at(key, t)
    }
}

} // verus!
