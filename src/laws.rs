use vstd::prelude::*;

use crate::list::{added, has_id, ids_unique, index_of, toggled_in};
use crate::todo::Todo;

verus! {

/// Adds never take an id away: what a list holds before a run of adds it still holds after.
proof fn lemma_adds_keep_ids(states: Seq<Seq<Todo>>, news: Seq<Todo>, lo: int, hi: int, x: u128)
    requires
        states.len() == news.len() + 1,
        forall|k: int| 0 <= k < news.len() ==> added(states[k], states[k + 1], #[trigger] news[k]),
        0 <= lo <= hi <= news.len(),
        has_id(states[lo], x),
    ensures
        has_id(states[hi], x),
    decreases hi - lo,
{
    if lo < hi {
        assert(added(states[lo], states[lo + 1], news[lo]));
        let i = choose|i: int| 0 <= i < states[lo].len() && #[trigger] states[lo][i].id == x;
        assert(states[lo + 1][i].id == x);
        lemma_adds_keep_ids(states, news, lo + 1, hi, x);
    }
}

/// The ids that a run of successful adds hands out are pairwise distinct.
///
/// `states[k + 1]` is the list after the `k`-th add, which created `news[k]`.
pub proof fn law_added_ids_distinct(states: Seq<Seq<Todo>>, news: Seq<Todo>)
    requires
        states.len() == news.len() + 1,
        forall|k: int| 0 <= k < news.len() ==> added(states[k], states[k + 1], #[trigger] news[k]),
    ensures
        forall|a: int, b: int| 0 <= a < b < news.len() ==> #[trigger] news[a].id != #[trigger] news[b].id,
{
    assert forall|a: int, b: int| 0 <= a < b < news.len() implies #[trigger] news[a].id
        != #[trigger] news[b].id by {
        assert(added(states[a], states[a + 1], news[a]));
        assert(added(states[b], states[b + 1], news[b]));
        let last = states[a].len() as int;
        assert(states[a + 1][last].id == news[a].id);
        lemma_adds_keep_ids(states, news, a + 1, b, news[a].id);
    }
}

/// Removing the id of a record just added finds that record, hands back exactly it,
/// and leaves the list as it was before the add, where the id is no longer found.
pub proof fn law_remove_undoes_add(before: Seq<Todo>, after: Seq<Todo>, t: Todo)
    requires
        ids_unique(before),
        added(before, after, t),
    ensures
        has_id(after, t.id),
        index_of(after, t.id) == before.len(),
        after[index_of(after, t.id)] == t,
        after.remove(index_of(after, t.id)) == before,
        !has_id(after.remove(index_of(after, t.id)), t.id),
{
    let n = before.len() as int;
    assert(after[n].id == t.id);
    let k = index_of(after, t.id);
    if k != n {
        assert(before[k].id == t.id);
    }
    assert(after.remove(n) =~= before);
}

/// Toggling the same record twice gives back its completion flag, and each toggle
/// moves its update time forward (unless it already stands at the largest instant).
pub proof fn law_toggle_twice(s0: Seq<Todo>, s1: Seq<Todo>, s2: Seq<Todo>, id: u128, t1: Todo, t2: Todo)
    requires
        ids_unique(s0),
        toggled_in(s0, s1, id, t1),
        toggled_in(s1, s2, id, t2),
    ensures
        t2.completed == s0[index_of(s0, id)].completed,
        s0[index_of(s0, id)].updated_at < i64::MAX ==> t1.updated_at > s0[index_of(s0, id)].updated_at,
        t1.updated_at < i64::MAX ==> t2.updated_at > t1.updated_at,
        s2 == s0.update(index_of(s0, id), t2),
{
    let k = index_of(s0, id);
    let k1 = index_of(s1, id);
    assert(s1[k].id == id);
    if k1 != k {
        assert(s0[k1].id == s1[k1].id);
        assert(s0[k1].id != s0[k].id);
    }
    assert(s2 =~= s0.update(k, t2));
}

} // verus!
