//! A task, the order in which tasks are shown, and the updates that the
//! stored collection receives.

use crate::date::{format_date, now_stamp, Date, Stamp};
use vstd::prelude::*;
use vstd::string::StringExecFns;

verus! {

/// One task of the tracker.
#[derive(Clone, Debug)]
pub struct Todo {
    pub id: usize,
    pub title: String,
    pub description: String,
    pub completed: bool,
    pub deleted: bool,
    pub created_at: Stamp,
    pub due_date: Option<Date>,
    pub completed_at: Option<Stamp>,
}

impl Todo {
    /// A due date, where there is one, is a day of the calendar.
    pub open spec fn wf(self) -> bool {
        self.due_date matches Some(d) ==> d.wf()
    }

    /// A completion time is recorded exactly while the task is completed.
    pub open spec fn completion_consistent(self) -> bool {
        self.completed_at.is_some() == self.completed
    }

    /// A new open task, created now.
    pub fn new(id: usize, title: String, description: String, due_date: Option<Date>) -> (r: Todo)
        ensures
            r.id == id,
            r.title == title,
            r.description == description,
            r.due_date == due_date,
            !r.completed,
            !r.deleted,
            r.completed_at.is_none(),
    {
        Todo {
            id,
            title,
            description,
            completed: false,
            deleted: false,
            created_at: now_stamp(),
            due_date,
            completed_at: None,
        }
    }

    /// Flips the completion flag; completing records the time, reopening
    /// clears it.
    pub fn toggle_completed(&mut self)
        ensures
            *final(self) == (Todo {
                completed: !old(self).completed,
                completed_at: final(self).completed_at,
                ..*old(self)
            }),
            final(self).completion_consistent(),
    {
        self.completed = !self.completed;
        self.completed_at = if self.completed {
            Some(now_stamp())
        } else {
            None
        };
    }

    pub fn mark_deleted(&mut self)
        ensures
            *final(self) == (Todo { deleted: true, ..*old(self) }),
    {
        self.deleted = true;
    }
}

pub open spec fn stamp_lt(a: Stamp, b: Stamp) -> bool {
    a.secs < b.secs || (a.secs == b.secs && a.nanos < b.nanos)
}

pub open spec fn date_lt(a: Date, b: Date) -> bool {
    a.year < b.year || (a.year == b.year && (a.month < b.month || (a.month == b.month && a.day
        < b.day)))
}

/// The display order: tasks with a due date first, by due date; ties, and
/// tasks without a due date, by creation time.
pub open spec fn before(a: Todo, b: Todo) -> bool {
    match (a.due_date, b.due_date) {
        (Some(x), Some(y)) => date_lt(x, y) || (x == y && stamp_lt(a.created_at, b.created_at)),
        (Some(_), None) => true,
        (None, Some(_)) => false,
        (None, None) => stamp_lt(a.created_at, b.created_at),
    }
}

pub open spec fn in_display_order(s: Seq<Todo>) -> bool {
    forall|i: int, j: int| 0 <= i < j < s.len() ==> !before(#[trigger] s[j], #[trigger] s[i])
}

/// Puts `t` after every task that it does not precede.
pub open spec fn insert_in_order(s: Seq<Todo>, t: Todo) -> Seq<Todo>
    decreases s.len(),
{
    if s.len() == 0 {
        seq![t]
    } else if before(t, s[0]) {
        seq![t] + s
    } else {
        seq![s[0]] + insert_in_order(s.drop_first(), t)
    }
}

/// The stable sort of `s` into display order.
pub open spec fn display_order(s: Seq<Todo>) -> Seq<Todo>
    decreases s.len(),
{
    if s.len() == 0 {
        s
    } else {
        insert_in_order(display_order(s.drop_last()), s.last())
    }
}

proof fn lemma_before_transitive(a: Todo, b: Todo, c: Todo)
    requires
        before(a, b),
        before(b, c),
    ensures
        before(a, c),
{
}

proof fn lemma_insert_at(s: Seq<Todo>, t: Todo, p: int)
    requires
        0 <= p <= s.len(),
        forall|j: int| 0 <= j < p ==> !before(t, #[trigger] s[j]),
        p == s.len() || before(t, s[p]),
    ensures
        insert_in_order(s, t) == s.insert(p, t),
    decreases s.len(),
{
    if p == 0 {
        if s.len() == 0 {
            assert(seq![t] =~= s.insert(p, t));
        } else {
            assert(seq![t] + s =~= s.insert(p, t));
        }
    } else {
        let rest = s.drop_first();
        assert forall|j: int| 0 <= j < p - 1 implies !before(t, #[trigger] rest[j]) by {
            assert(rest[j] == s[j + 1]);
        }
        lemma_insert_at(rest, t, p - 1);
        assert(seq![s[0]] + rest.insert(p - 1, t) =~= s.insert(p, t));
    }
}

proof fn lemma_insert_keeps_bound(s: Seq<Todo>, t: Todo, b: Todo)
    requires
        forall|j: int| 0 <= j < s.len() ==> !before(#[trigger] s[j], b),
        !before(t, b),
    ensures
        forall|j: int|
            0 <= j < insert_in_order(s, t).len() ==> !before(#[trigger] insert_in_order(s, t)[j], b),
    decreases s.len(),
{
    let r = insert_in_order(s, t);
    if s.len() > 0 {
        if before(t, s[0]) {
            assert forall|j: int| 0 <= j < r.len() implies !before(#[trigger] r[j], b) by {
                if j > 0 {
                    assert(r[j] == s[j - 1]);
                }
            }
        } else {
            let rest = s.drop_first();
            assert forall|j: int| 0 <= j < rest.len() implies !before(#[trigger] rest[j], b) by {
                assert(rest[j] == s[j + 1]);
            }
            lemma_insert_keeps_bound(rest, t, b);
            let tail = insert_in_order(rest, t);
            assert forall|j: int| 0 <= j < r.len() implies !before(#[trigger] r[j], b) by {
                if j > 0 {
                    assert(r[j] == tail[j - 1]);
                }
            }
        }
    }
}

proof fn lemma_insert_in_order(s: Seq<Todo>, t: Todo)
    requires
        in_display_order(s),
    ensures
        in_display_order(insert_in_order(s, t)),
        insert_in_order(s, t).to_multiset() == s.to_multiset().insert(t),
        insert_in_order(s, t).len() == s.len() + 1,
    decreases s.len(),
{
    broadcast use vstd::seq_lib::group_to_multiset_ensures;

    let r = insert_in_order(s, t);
    if s.len() == 0 {
        assert(r =~= Seq::<Todo>::empty().push(t));
    } else if before(t, s[0]) {
        assert forall|i: int, j: int| 0 <= i < j < r.len() implies !before(
            #[trigger] r[j],
            #[trigger] r[i],
        ) by {
            if i == 0 {
                if before(s[j - 1], t) {
                    lemma_before_transitive(s[j - 1], t, s[0]);
                }
            }
        }
        vstd::seq_lib::lemma_multiset_commutative(seq![t], s);
        assert(seq![t] =~= Seq::<Todo>::empty().push(t));
    } else {
        let rest = s.drop_first();
        assert(in_display_order(rest)) by {
            assert forall|i: int, j: int| 0 <= i < j < rest.len() implies !before(
                #[trigger] rest[j],
                #[trigger] rest[i],
            ) by {
                assert(rest[j] == s[j + 1] && rest[i] == s[i + 1]);
            }
        }
        lemma_insert_in_order(rest, t);
        let tail = insert_in_order(rest, t);
        assert forall|j: int| 0 <= j < rest.len() implies !before(#[trigger] rest[j], s[0]) by {
            assert(rest[j] == s[j + 1]);
        }
        lemma_insert_keeps_bound(rest, t, s[0]);
        assert forall|i: int, j: int| 0 <= i < j < r.len() implies !before(
            #[trigger] r[j],
            #[trigger] r[i],
        ) by {
            assert(r[j] == tail[j - 1]);
            if i > 0 {
                assert(r[i] == tail[i - 1]);
            }
        }
        vstd::seq_lib::lemma_multiset_commutative(seq![s[0]], tail);
        vstd::seq_lib::lemma_multiset_commutative(seq![s[0]], rest);
        assert(seq![s[0]] + rest =~= s);
        assert(seq![s[0]] =~= Seq::<Todo>::empty().push(s[0]));
    }
}

/// Sorting for display gives a permutation of the tasks in which every
/// task with a due date comes before every task without one, due dates never
/// decrease, and tasks with the same due date, or with none, are ordered by
/// creation time.
pub proof fn lemma_display_order(s: Seq<Todo>)
    ensures
        display_order(s).to_multiset() == s.to_multiset(),
        display_order(s).len() == s.len(),
        in_display_order(display_order(s)),
        forall|i: int, j: int|
            #![trigger display_order(s)[i], display_order(s)[j]]
            0 <= i < j < s.len() ==> {
                let a = display_order(s)[i];
                let b = display_order(s)[j];
                &&& a.due_date.is_none() ==> b.due_date.is_none()
                &&& (a.due_date.is_some() && b.due_date.is_some()) ==> !date_lt(
                    b.due_date.unwrap(),
                    a.due_date.unwrap(),
                )
                &&& a.due_date == b.due_date ==> !stamp_lt(b.created_at, a.created_at)
            },
    decreases s.len(),
{
    broadcast use vstd::seq_lib::group_to_multiset_ensures;

    if s.len() > 0 {
        lemma_display_order(s.drop_last());
        lemma_insert_in_order(display_order(s.drop_last()), s.last());
        assert(s.drop_last().push(s.last()) =~= s);
    }
    let r = display_order(s);
    assert forall|i: int, j: int| 0 <= i < j < s.len() implies {
        let a = #[trigger] r[i];
        let b = #[trigger] r[j];
        &&& a.due_date.is_none() ==> b.due_date.is_none()
        &&& (a.due_date.is_some() && b.due_date.is_some()) ==> !date_lt(
            b.due_date.unwrap(),
            a.due_date.unwrap(),
        )
        &&& a.due_date == b.due_date ==> !stamp_lt(b.created_at, a.created_at)
    } by {
        assert(!before(r[j], r[i]));
    }
}

/// Whether `a` goes before `b` in the display order.
pub fn sorts_before(a: &Todo, b: &Todo) -> (r: bool)
    ensures
        r == before(*a, *b),
{
    match (a.due_date, b.due_date) {
        (Some(x), Some(y)) => {
            if x.year != y.year {
                x.year < y.year
            } else if x.month != y.month {
                x.month < y.month
            } else if x.day != y.day {
                x.day < y.day
            } else {
                a.created_at.secs < b.created_at.secs || (a.created_at.secs == b.created_at.secs
                    && a.created_at.nanos < b.created_at.nanos)
            }
        },
        (Some(_), None) => true,
        (None, Some(_)) => false,
        (None, None) => a.created_at.secs < b.created_at.secs || (a.created_at.secs
            == b.created_at.secs && a.created_at.nanos < b.created_at.nanos),
    }
}

/// Stable sort into display order.
pub fn sort_for_display(v: Vec<Todo>) -> (r: Vec<Todo>)
    ensures
        r@ == display_order(v@),
{
    let ghost orig = v@;
    let n = v.len();
    let mut rest = v;
    let mut out: Vec<Todo> = Vec::new();
    let mut k: usize = 0;
    proof {
        assert(orig.take(0) =~= Seq::<Todo>::empty());
        assert(orig.skip(0) =~= orig);
    }
    while rest.len() > 0
        invariant
            k <= orig.len(),
            orig.len() == n,
            rest@ == orig.skip(k as int),
            out@ == display_order(orig.take(k as int)),
        decreases rest.len(),
    {
        let t = rest.remove(0);
        let mut p: usize = 0;
        while p < out.len() && !sorts_before(&t, &out[p])
            invariant
                p <= out.len(),
                forall|j: int| 0 <= j < p ==> !before(t, #[trigger] out@[j]),
            decreases out.len() - p,
        {
            p += 1;
        }
        proof {
            lemma_insert_at(out@, t, p as int);
            assert(orig.take(k + 1).drop_last() =~= orig.take(k as int));
            assert(orig.take(k + 1).last() == t);
            assert(orig.skip(k as int).remove(0) =~= orig.skip(k + 1));
        }
        out.insert(p, t);
        k += 1;
    }
    proof {
        assert(orig.take(k as int) =~= orig);
    }
    out
}


pub open spec fn has_id(s: Seq<Todo>, id: usize) -> bool {
    exists|i: int| 0 <= i < s.len() && #[trigger] s[i].id == id
}

/// `i` is where the first task with this id stands.
pub open spec fn first_index_of(s: Seq<Todo>, id: usize, i: int) -> bool {
    0 <= i < s.len() && s[i].id == id && forall|j: int| 0 <= j < i ==> #[trigger] s[j].id != id
}

/// Finds the first task with this id.
pub fn position_of(v: &Vec<Todo>, id: usize) -> (r: Option<usize>)
    ensures
        r matches Some(i) ==> first_index_of(v@, id, i as int),
        r.is_none() == !has_id(v@, id),
{
    let mut i: usize = 0;
    while i < v.len()
        invariant
            i <= v.len(),
            forall|j: int| 0 <= j < i ==> #[trigger] v@[j].id != id,
        decreases v.len() - i,
    {
        if v[i].id == id {
            return Some(i);
        }
        i += 1;
    }
    None
}

/// `after` is `before` with the first task of this id completed or reopened.
pub open spec fn completion_toggled(before: Seq<Todo>, after: Seq<Todo>, id: usize) -> bool {
    if has_id(before, id) {
        exists|i: int|
            first_index_of(before, id, i) && after == before.update(i, after[i]) && after[i] == (Todo {
                completed: !before[i].completed,
                completed_at: after[i].completed_at,
                ..before[i]
            }) && #[trigger] after[i].completion_consistent()
    } else {
        after == before
    }
}

/// `after` is `before` with the first task of this id marked deleted.
pub open spec fn deletion_marked(before: Seq<Todo>, after: Seq<Todo>, id: usize) -> bool {
    if has_id(before, id) {
        exists|i: int|
            first_index_of(before, id, i) && #[trigger] after[i] == (Todo { deleted: true, ..before[i] })
                && after == before.update(i, after[i])
    } else {
        after == before
    }
}

impl Todo {
    /// A copy of the task.
    pub fn duplicate(&self) -> (r: Todo)
        ensures
            r == *self,
    {
        Todo {
            id: self.id,
            title: self.title.clone(),
            description: self.description.clone(),
            completed: self.completed,
            deleted: self.deleted,
            created_at: self.created_at,
            due_date: self.due_date,
            completed_at: self.completed_at,
        }
    }
}

/// `after` is `before` with the first working task of this id written over
/// the first stored task of that id, or added at the end where there is
/// none.
pub open spec fn task_stored(before: Seq<Todo>, after: Seq<Todo>, working: Seq<Todo>, id: usize) -> bool {
    if has_id(working, id) {
        exists|w: int|
            #[trigger] first_index_of(working, id, w) && if has_id(before, id) {
                exists|i: int|
                    #[trigger] first_index_of(before, id, i) && after == before.update(i, working[w])
            } else {
                after == before.push(working[w])
            }
    } else {
        after == before
    }
}

/// Puts the working task of this id into the stored collection.
pub fn store_task(all: &mut Vec<Todo>, working: &Vec<Todo>, id: usize)
    ensures
        task_stored(old(all)@, final(all)@, working@, id),
{
    match position_of(working, id) {
        Some(w) => {
            let t = working[w].duplicate();
            match position_of(all, id) {
                Some(i) => {
                    all.set(i, t);
                    assert(first_index_of(old(all)@, id, i as int));
                },
                None => {
                    all.push(t);
                },
            }
            assert(first_index_of(working@, id, w as int));
        },
        None => {},
    }
}

/// Storing a saved task keeps every completed or deleted stored record as
/// it was, provided the stored entry of that id is an open one, and the
/// stored collection then holds the task.
pub proof fn lemma_store_keeps_closed(before: Seq<Todo>, after: Seq<Todo>, working: Seq<Todo>, id: usize)
    requires
        task_stored(before, after, working, id),
        forall|i: int|
            #[trigger] first_index_of(before, id, i) ==> !before[i].completed && !before[i].deleted,
    ensures
        after.len() >= before.len(),
        forall|j: int|
            0 <= j < before.len() && (before[j].completed || before[j].deleted) ==> #[trigger] after[j]
                == before[j],
        has_id(working, id) ==> has_id(after, id),
{
    if has_id(working, id) {
        let w = choose|w: int|
            #[trigger] first_index_of(working, id, w) && if has_id(before, id) {
                exists|i: int|
                    #[trigger] first_index_of(before, id, i) && after == before.update(i, working[w])
            } else {
                after == before.push(working[w])
            };
        if has_id(before, id) {
            let i = choose|i: int|
                #[trigger] first_index_of(before, id, i) && after == before.update(i, working[w]);
            assert(after[i].id == id);
        } else {
            assert(after[before.len() as int].id == id);
        }
    }
}

/// Completes (or reopens) the first stored task with this id.
pub fn complete_stored(all: &mut Vec<Todo>, id: usize)
    ensures
        completion_toggled(old(all)@, final(all)@, id),
{
    match position_of(all, id) {
        Some(i) => {
            let mut t = all.remove(i);
            t.toggle_completed();
            all.insert(i, t);
            assert(final(all)@ =~= old(all)@.update(i as int, final(all)@[i as int]));
        },
        None => {},
    }
}

/// Marks the first stored task with this id deleted.
pub fn delete_stored(all: &mut Vec<Todo>, id: usize)
    ensures
        deletion_marked(old(all)@, final(all)@, id),
{
    match position_of(all, id) {
        Some(i) => {
            let mut t = all.remove(i);
            t.mark_deleted();
            all.insert(i, t);
            assert(final(all)@ =~= old(all)@.update(i as int, final(all)@[i as int]));
        },
        None => {},
    }
}

impl Todo {
    /// The title, followed by the due date where there is one.
    pub fn display_string(&self) -> (r: String)
        requires
            self.wf(),
        ensures
            self.due_date.is_none() ==> r@ == self.title@,
            self.due_date matches Some(d) ==> 0 <= d.year <= 9999 ==> r@ == self.title@
                + " (Due: "@ + crate::date::iso_text(d@) + ")"@,
    {
        match self.due_date {
            Some(d) => {
                let mut s = self.title.clone();
                s.append(" (Due: ");
                let text = format_date(d);
                s.append(text.as_str());
                s.append(")");
                s
            },
            None => self.title.clone(),
        }
    }
}


/// How an open task stands against today's date, for highlighting.
#[derive(Clone, Copy, Debug, PartialEq, Eq, Structural)]
pub enum DueState {
    /// Not completed, and the due date has passed.
    Overdue,
    /// Not completed, and due today.
    DueToday,
    /// Anything else: completed, undated, or due later.
    Plain,
}

pub open spec fn due_state_of(t: Todo, today: Date) -> DueState {
    match t.due_date {
        Some(d) => if t.completed {
            DueState::Plain
        } else if date_lt(d, today) {
            DueState::Overdue
        } else if d == today {
            DueState::DueToday
        } else {
            DueState::Plain
        },
        None => DueState::Plain,
    }
}

pub fn due_state(t: &Todo, today: Date) -> (r: DueState)
    ensures
        r == due_state_of(*t, today),
{
    match t.due_date {
        Some(d) => {
            if t.completed {
                DueState::Plain
            } else if d.year < today.year || (d.year == today.year && (d.month < today.month
                || (d.month == today.month && d.day < today.day))) {
                DueState::Overdue
            } else if d.year == today.year && d.month == today.month && d.day == today.day {
                DueState::DueToday
            } else {
                DueState::Plain
            }
        },
        None => DueState::Plain,
    }
}

} // verus!
