use vstd::prelude::*;
use vstd::set_lib::{lemma_int_range, lemma_len_subset, set_int_range};

use crate::ambient::{now_micros, random_id};
use crate::todo::{blank, is_blank, next_stamp, Priority, Todo, TodoError};

verus! {

broadcast use vstd::seq_lib::group_seq_properties;

/// Whether some record in `s` has this id.
pub open spec fn has_id(s: Seq<Todo>, id: u128) -> bool {
    exists|i: int| 0 <= i < s.len() && #[trigger] s[i].id == id
}

/// The position of the record with this id (meaningful when `has_id(s, id)`).
pub open spec fn index_of(s: Seq<Todo>, id: u128) -> int {
    choose|i: int| 0 <= i < s.len() && #[trigger] s[i].id == id
}

/// No two records of `s` share an id.
pub open spec fn ids_unique(s: Seq<Todo>) -> bool {
    forall|i: int, j: int|
        0 <= i < s.len() && 0 <= j < s.len() && i != j ==> #[trigger] s[i].id != #[trigger] s[j].id
}

/// The smallest id that no record of `s` has.
pub open spec fn lowest_free(s: Seq<Todo>) -> u128 {
    choose|k: u128| !has_id(s, k) && (forall|j: u128| j < k ==> #[trigger] has_id(s, j))
}

/// The id a new record gets when `candidate` is drawn: the candidate itself when it
/// is free, else the smallest free id.
pub open spec fn fresh_id(s: Seq<Todo>, candidate: u128) -> u128 {
    if !has_id(s, candidate) {
        candidate
    } else {
        lowest_free(s)
    }
}

/// The records of `s` that are completed, in their order in `s`.
pub open spec fn completed_of(s: Seq<Todo>) -> Seq<Todo> {
    s.filter(|t: Todo| t.completed)
}

/// `after` is `before` with `t` appended as a new record: its id is not among those of
/// `before`, it is not completed, and it was last updated when it was created.
pub open spec fn added(before: Seq<Todo>, after: Seq<Todo>, t: Todo) -> bool {
    &&& after == before.push(t)
    &&& !has_id(before, t.id)
    &&& !t.completed
    &&& t.created_at == t.updated_at
}

/// `t` is `prev` with its completion flag flipped and a later update time (the same
/// update time only when `prev`'s is the largest representable instant).
pub open spec fn is_toggle_of(t: Todo, prev: Todo) -> bool {
    &&& t.id == prev.id
    &&& t.text == prev.text
    &&& t.completed == !prev.completed
    &&& t.priority == prev.priority
    &&& t.created_at == prev.created_at
    &&& t.updated_at >= prev.updated_at
    &&& prev.updated_at < i64::MAX ==> t.updated_at > prev.updated_at
}

/// `after` is `before` with the record that has this id replaced by `t`, a toggled copy of it.
pub open spec fn toggled_in(before: Seq<Todo>, after: Seq<Todo>, id: u128, t: Todo) -> bool {
    &&& has_id(before, id)
    &&& is_toggle_of(t, before[index_of(before, id)])
    &&& after == before.update(index_of(before, id), t)
}

/// An ordered collection of todo records, in insertion order.
#[derive(Debug)]
pub struct TodoList {
    todos: Vec<Todo>,
}

impl View for TodoList {
    type V = Seq<Todo>;

    closed spec fn view(&self) -> Seq<Todo> {
        self.todos@
    }
}

/// If every id below `k` belongs to some record of `s`, then `s` has at least `k` records.
proof fn lemma_ids_below_fit(s: Seq<Todo>, k: int)
    requires
        0 <= k <= u128::MAX as int + 1,
        forall|j: u128| j < k ==> #[trigger] has_id(s, j),
    ensures
        k <= s.len(),
{
    let ids = s.map_values(|t: Todo| t.id as int);
    let range = set_int_range(0, k);
    lemma_int_range(0, k);
    ids.lemma_cardinality_of_set();
    assert forall|x: int| range.contains(x) implies ids.to_set().contains(x) by {
        assert(has_id(s, x as u128));
        let i = choose|i: int| 0 <= i < s.len() && #[trigger] s[i].id == x as u128;
        assert(ids[i] == x);
    }
    lemma_len_subset(range, ids.to_set());
}

impl TodoList {
    /// The list's invariant: ids are unique and every record is well formed.
    pub open spec fn wf(&self) -> bool {
        &&& ids_unique(self@)
        &&& forall|i: int| 0 <= i < self@.len() ==> (#[trigger] self@[i]).wf()
    }

    /// An empty list.
    pub fn new() -> (r: TodoList)
        ensures
            r@ == Seq::<Todo>::empty(),
            r.wf(),
    {
        TodoList { todos: Vec::new() }
    }

    /// Appends a new record for `text` with `priority`, created at clock reading `now`,
    /// whose id is `candidate` unless a record already has that id, in which case it is
    /// the smallest free id. Blank text is refused and leaves the list as it was.
    pub fn add_todo_at(&mut self, text: String, priority: Priority, candidate: u128, now: i64) -> (r:
        Result<Todo, TodoError>)
        requires
            old(self).wf(),
        ensures
            final(self).wf(),
            match r {
                Ok(t) => {
                    &&& !blank(text@)
                    &&& t == (Todo {
                        id: fresh_id(old(self)@, candidate),
                        text: text,
                        completed: false,
                        priority: priority,
                        created_at: now,
                        updated_at: now,
                    })
                    &&& added(old(self)@, final(self)@, t)
                },
                Err(e) => {
                    &&& blank(text@)
                    &&& e == TodoError::EmptyText
                    &&& final(self)@ == old(self)@
                },
            },
    {
        if is_blank(text.as_str()) {
            return Err(TodoError::EmptyText);
        }
        let id = match self.position_of(candidate) {
            None => candidate,
            Some(_) => self.lowest_free_id(),
        };
        let todo = Todo { id, text, completed: false, priority, created_at: now, updated_at: now };
        let r = todo.snapshot();
        let ghost before = self@;
        self.todos.push(todo);
        proof {
            assert(self@ == before.push(r));
            assert forall|i: int, j: int|
                0 <= i < self@.len() && 0 <= j < self@.len() && i != j implies #[trigger] self@[i].id
                != #[trigger] self@[j].id by {
                if i == before.len() as int {
                    assert(before[j].id == self@[j].id);
                } else if j == before.len() as int {
                    assert(before[i].id == self@[i].id);
                } else {
                    assert(before[i].id != before[j].id);
                }
            }
        }
        Ok(r)
    }

    /// Appends a new record for `text` with `priority`, with a fresh random id and the
    /// current time as its creation and update time. Blank text is refused and leaves
    /// the list as it was.
    pub fn add_todo(&mut self, text: String, priority: Priority) -> (r: Result<Todo, TodoError>)
        requires
            old(self).wf(),
        ensures
            final(self).wf(),
            match r {
                Ok(t) => {
                    &&& !blank(text@)
                    &&& t.text == text
                    &&& t.priority == priority
                    &&& added(old(self)@, final(self)@, t)
                },
                Err(e) => {
                    &&& blank(text@)
                    &&& e == TodoError::EmptyText
                    &&& final(self)@ == old(self)@
                },
            },
    {
        let candidate = random_id();
        let now = now_micros();
        self.add_todo_at(text, priority, candidate, now)
    }

    /// Removes the record with this id and hands it back; the others keep their order.
    pub fn remove_todo(&mut self, id: u128) -> (r: Result<Todo, TodoError>)
        requires
            old(self).wf(),
        ensures
            final(self).wf(),
            match r {
                Ok(t) => {
                    &&& has_id(old(self)@, id)
                    &&& t == old(self)@[index_of(old(self)@, id)]
                    &&& final(self)@ == old(self)@.remove(index_of(old(self)@, id))
                },
                Err(e) => {
                    &&& !has_id(old(self)@, id)
                    &&& e == (TodoError::NotFound { id })
                    &&& final(self)@ == old(self)@
                },
            },
    {
        match self.position_of(id) {
            None => Err(TodoError::NotFound { id }),
            Some(i) => {
                let ghost before = self@;
                let t = self.todos.remove(i);
                proof {
                    assert forall|a: int, b: int|
                        0 <= a < self@.len() && 0 <= b < self@.len() && a != b implies #[trigger] self@[a].id
                        != #[trigger] self@[b].id by {
                        let a0 = if a < i { a } else { a + 1 };
                        let b0 = if b < i { b } else { b + 1 };
                        assert(before[a0].id != before[b0].id);
                    }
                    assert forall|a: int| 0 <= a < self@.len() implies (#[trigger] self@[a]).wf() by {
                        let a0 = if a < i { a } else { a + 1 };
                        assert(before[a0].wf());
                    }
                }
                Ok(t)
            },
        }
    }

    /// Flips the completion flag of the record with this id, as a change at clock
    /// reading `now`, and hands back the changed record.
    pub fn toggle_todo_at(&mut self, id: u128, now: i64) -> (r: Result<Todo, TodoError>)
        requires
            old(self).wf(),
        ensures
            final(self).wf(),
            match r {
                Ok(t) => {
                    &&& has_id(old(self)@, id)
                    &&& t == old(self)@[index_of(old(self)@, id)].toggled(now)
                    &&& final(self)@ == old(self)@.update(index_of(old(self)@, id), t)
                },
                Err(e) => {
                    &&& !has_id(old(self)@, id)
                    &&& e == (TodoError::NotFound { id })
                    &&& final(self)@ == old(self)@
                },
            },
    {
        match self.position_of(id) {
            None => Err(TodoError::NotFound { id }),
            Some(i) => {
                let ghost before = self@;
                let cur = &self.todos[i];
                let changed = Todo {
                    id: cur.id,
                    text: cur.text.clone(),
                    completed: !cur.completed,
                    priority: cur.priority,
                    created_at: cur.created_at,
                    updated_at: next_stamp(cur.updated_at, now),
                };
                let r = changed.snapshot();
                self.todos.set(i, changed);
                proof {
                    assert(before[i as int].wf());
                    assert forall|a: int, b: int|
                        0 <= a < self@.len() && 0 <= b < self@.len() && a != b implies #[trigger] self@[a].id
                        != #[trigger] self@[b].id by {
                        assert(before[a].id != before[b].id);
                    }
                    assert forall|a: int| 0 <= a < self@.len() implies (#[trigger] self@[a]).wf() by {
                        assert(before[a].wf());
                    }
                }
                Ok(r)
            },
        }
    }

    /// Flips the completion flag of the record with this id, stamping it with the
    /// current time (or a moment after its last update, should the clock not have
    /// moved on), and hands back the changed record.
    pub fn toggle_todo(&mut self, id: u128) -> (r: Result<Todo, TodoError>)
        requires
            old(self).wf(),
        ensures
            final(self).wf(),
            match r {
                Ok(t) => toggled_in(old(self)@, final(self)@, id, t),
                Err(e) => {
                    &&& !has_id(old(self)@, id)
                    &&& e == (TodoError::NotFound { id })
                    &&& final(self)@ == old(self)@
                },
            },
    {
        let now = now_micros();
        self.toggle_todo_at(id, now)
    }

    /// All records, in insertion order.
    pub fn get_all_todos(&self) -> (r: &[Todo])
        ensures
            r@ == self@,
    {
        self.todos.as_slice()
    }

    /// The record with this id, if there is one.
    pub fn get_todo_by_id(&self, id: u128) -> (r: Option<&Todo>)
        requires
            self.wf(),
        ensures
            match r {
                Some(t) => has_id(self@, id) && *t == self@[index_of(self@, id)],
                None => !has_id(self@, id),
            },
    {
        match self.position_of(id) {
            None => None,
            Some(i) => Some(&self.todos[i]),
        }
    }

    /// The completed records, in insertion order.
    pub fn get_completed_todos(&self) -> (r: Vec<&Todo>)
        ensures
            r@.map_values(|t: &Todo| *t) == completed_of(self@),
    {
        let n = self.todos.len();
        let mut r: Vec<&Todo> = Vec::new();
        let mut i: usize = 0;
        while i < n
            invariant
                n == self@.len(),
                i <= n,
                r@.map_values(|t: &Todo| *t) == completed_of(self@.take(i as int)),
            decreases n - i,
        {
            let t = &self.todos[i];
            proof {
                assert(self@.take(i + 1) == self@.take(i as int).push(self@[i as int]));
                self@.take(i as int).lemma_filter_push(self@[i as int], |t: Todo| t.completed);
            }
            if t.completed {
                r.push(t);
            }
            i = i + 1;
        }
        proof {
            assert(self@.take(n as int) == self@);
        }
        r
    }

    /// The position of the record with this id, if any.
    fn position_of(&self, id: u128) -> (r: Option<usize>)
        requires
            self.wf(),
        ensures
            match r {
                Some(i) => i < self@.len() && self@[i as int].id == id && i == index_of(self@, id),
                None => !has_id(self@, id),
            },
    {
        let n = self.todos.len();
        let mut i: usize = 0;
        while i < n
            invariant
                self.wf(),
                n == self@.len(),
                i <= n,
                forall|j: int| 0 <= j < i ==> #[trigger] self@[j].id != id,
            decreases n - i,
        {
            if self.todos[i].id == id {
                proof {
                    let k = index_of(self@, id);
                    assert(0 <= k < self@.len() && self@[k].id == id);
                    if k != i as int {
                        assert(self@[k].id != self@[i as int].id);
                    }
                }
                return Some(i);
            }
            i = i + 1;
        }
        None
    }

    /// The smallest id that no record has.
    fn lowest_free_id(&self) -> (r: u128)
        requires
            self.wf(),
        ensures
            r == lowest_free(self@),
            !has_id(self@, r),
    {
        let n = self.todos.len();
        let mut k: u128 = 0;
        loop
            invariant
                self.wf(),
                n == self@.len(),
                k <= n,
                forall|j: u128| j < k ==> #[trigger] has_id(self@, j),
            decreases n - k,
        {
            match self.position_of(k) {
                None => {
                    proof {
                        let c = lowest_free(self@);
                        assert(!has_id(self@, c) && forall|j: u128| j < c ==> #[trigger] has_id(self@, j));
                        if c < k {
                            assert(has_id(self@, c));
                        } else if c > k {
                            assert(has_id(self@, k));
                        }
                    }
                    return k;
                },
                Some(_) => {
                    proof {
                        assert forall|j: u128| j < k + 1 implies #[trigger] has_id(self@, j) by {
                            if j == k {
                                assert(self@[index_of(self@, k)].id == k);
                            }
                        }
                        lemma_ids_below_fit(self@, k + 1);
                    }
                    k = k + 1;
                },
            }
        }
    }
}

} // verus!
