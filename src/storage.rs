use vstd::prelude::*;

use crate::store::{ids_unique, index_in_range, sorted_by_creation, valid_listing};
use crate::task::{text_le, TaskModel};

verus! {

/// The ordered listing that storage holds after it marks the task with
/// identity `id` completed: that task's flag is set, nothing else moves.
pub open spec fn after_mark_completed(s: Seq<TaskModel>, id: u32) -> Seq<TaskModel> {
    s.map_values(
        |t: TaskModel|
            if t.id == id {
                TaskModel { id: t.id, value: t.value, checked: true, date_created: t.date_created }
            } else {
                t
            },
    )
}

/// The ordered listing that storage holds after it deletes the task with
/// identity `id`; nothing happens when no task has it.
pub open spec fn after_remove(s: Seq<TaskModel>, id: u32) -> Seq<TaskModel> {
    s.filter(|t: TaskModel| t.id != id)
}

/// The ordered listing that storage holds after it inserts `text` under
/// the fresh identity `id` at time `now`.
pub open spec fn after_insert(s: Seq<TaskModel>, id: u32, text: Seq<char>, now: Seq<char>) -> Seq<
    TaskModel,
> {
    s.push(TaskModel { id, value: text, checked: false, date_created: now })
}

proof fn lemma_filter_keeps_all(s: Seq<TaskModel>, id: u32)
    requires
        forall|i: int| 0 <= i < s.len() ==> (#[trigger] s[i]).id != id,
    ensures
        after_remove(s, id) == s,
    decreases s.len(),
{
    reveal(Seq::filter);
    if s.len() > 0 {
        lemma_filter_keeps_all(s.drop_last(), id);
        assert(s.drop_last().push(s.last()) =~= s);
    }
}

/// With unique identities, deleting the identity found at position `k`
/// removes exactly that position.
pub proof fn lemma_remove_is_positional(s: Seq<TaskModel>, k: int)
    requires
        ids_unique(s),
        0 <= k < s.len(),
    ensures
        after_remove(s, s[k].id) == s.remove(k),
{
    let id = s[k].id;
    let pred = |t: TaskModel| t.id != id;
    let a = s.take(k);
    let b = seq![s[k]];
    let c = s.skip(k + 1);
    assert(s =~= a + b + c);
    assert forall|i: int| 0 <= i < a.len() implies (#[trigger] a[i]).id != id by {
        assert(a[i] == s[i]);
    }
    assert forall|i: int| 0 <= i < c.len() implies (#[trigger] c[i]).id != id by {
        assert(c[i] == s[k + 1 + i]);
    }
    lemma_filter_keeps_all(a, id);
    lemma_filter_keeps_all(c, id);
    Seq::filter_distributes_over_add(a + b, c, pred);
    Seq::filter_distributes_over_add(a, b, pred);
    reveal(Seq::filter);
    assert(b.len() == 1 && b.last() == s[k]);
    assert(!pred(b.last()));
    assert(b.drop_last() =~= Seq::<TaskModel>::empty());
    assert(b.drop_last().filter(pred) =~= Seq::<TaskModel>::empty());
    assert(b.filter(pred) =~= Seq::<TaskModel>::empty());
    assert(s.remove(k) =~= a + c);
}

/// Ordering invariant: marking a task completed keeps a valid listing valid.
pub proof fn lemma_mark_keeps_listing_valid(s: Seq<TaskModel>, id: u32)
    requires
        valid_listing(s),
    ensures
        valid_listing(after_mark_completed(s, id)),
{
    let r = after_mark_completed(s, id);
    assert forall|i: int, j: int| 0 <= i < j < r.len() implies text_le(
        #[trigger] r[i].date_created,
        #[trigger] r[j].date_created,
    ) by {
        assert(text_le(s[i].date_created, s[j].date_created));
    }
    assert forall|i: int, j: int| 0 <= i < j < r.len() implies #[trigger] r[i].id
        != #[trigger] r[j].id by {
        assert(s[i].id != s[j].id);
    }
}

/// Ordering invariant: deleting a task keeps a valid listing valid.
pub proof fn lemma_remove_keeps_listing_valid(s: Seq<TaskModel>, id: u32)
    requires
        valid_listing(s),
    ensures
        valid_listing(after_remove(s, id)),
{
    if exists|k: int| 0 <= k < s.len() && s[k].id == id {
        let k = choose|k: int| 0 <= k < s.len() && s[k].id == id;
        lemma_remove_is_positional(s, k);
        let r = s.remove(k);
        assert forall|i: int, j: int| 0 <= i < j < r.len() implies text_le(
            #[trigger] r[i].date_created,
            #[trigger] r[j].date_created,
        ) by {
            let si = if i < k { i } else { i + 1 };
            let sj = if j < k { j } else { j + 1 };
            assert(text_le(s[si].date_created, s[sj].date_created));
        }
        assert forall|i: int, j: int| 0 <= i < j < r.len() implies #[trigger] r[i].id
            != #[trigger] r[j].id by {
            let si = if i < k { i } else { i + 1 };
            let sj = if j < k { j } else { j + 1 };
            assert(s[si].id != s[sj].id);
        }
    } else {
        lemma_filter_keeps_all(s, id);
    }
}

/// Ordering invariant: an insert under a fresh identity, at a time no
/// earlier than any stored task's creation, keeps a valid listing valid.
pub proof fn lemma_insert_keeps_listing_valid(
    s: Seq<TaskModel>,
    id: u32,
    text: Seq<char>,
    now: Seq<char>,
)
    requires
        valid_listing(s),
        forall|i: int| 0 <= i < s.len() ==> (#[trigger] s[i]).id != id,
        forall|i: int| 0 <= i < s.len() ==> text_le((#[trigger] s[i]).date_created, now),
    ensures
        valid_listing(after_insert(s, id, text, now)),
{
    let r = after_insert(s, id, text, now);
    assert forall|i: int, j: int| 0 <= i < j < r.len() implies text_le(
        #[trigger] r[i].date_created,
        #[trigger] r[j].date_created,
    ) by {
        assert(r[i] == s[i]);
        if j < s.len() {
            assert(r[j] == s[j]);
        }
    }
    assert forall|i: int, j: int| 0 <= i < j < r.len() implies #[trigger] r[i].id
        != #[trigger] r[j].id by {
        assert(r[i] == s[i]);
        if j < s.len() {
            assert(r[j] == s[j]);
        }
    }
}

/// Identity stability: completing the task at display index `k` leaves
/// every task's identity, text and creation time, and the order, as they
/// were; only that task's flag changes, and it becomes set.
pub proof fn lemma_check_keeps_identities(s: Seq<TaskModel>, k: int)
    requires
        valid_listing(s),
        index_in_range(s.len() as int, k),
    ensures
        ({
            let r = after_mark_completed(s, s[k - 1].id);
            &&& r.len() == s.len()
            &&& forall|i: int|
                0 <= i < s.len() ==> {
                    &&& (#[trigger] r[i]).id == s[i].id
                    &&& r[i].value == s[i].value
                    &&& r[i].date_created == s[i].date_created
                    &&& r[i].checked == (s[i].checked || i == k - 1)
                }
        }),
{
    let r = after_mark_completed(s, s[k - 1].id);
    assert forall|i: int| 0 <= i < s.len() implies (#[trigger] r[i]).checked == (s[i].checked || i
        == k - 1) by {
        if i != k - 1 {
            if i < k - 1 {
                assert(s[i].id != s[k - 1].id);
            } else {
                assert(s[k - 1].id != s[i].id);
            }
        }
    }
}

/// Identity stability: deleting the task at display index `k` leaves every
/// other task unchanged, with its identity, in the same order.
pub proof fn lemma_delete_keeps_identities(s: Seq<TaskModel>, k: int)
    requires
        valid_listing(s),
        index_in_range(s.len() as int, k),
    ensures
        after_remove(s, s[k - 1].id) == s.remove(k - 1),
        forall|i: int|
            0 <= i < after_remove(s, s[k - 1].id).len() ==> s.contains(
                #[trigger] after_remove(s, s[k - 1].id)[i],
            ),
        !after_remove(s, s[k - 1].id).contains(s[k - 1]),
{
    lemma_remove_is_positional(s, k - 1);
    let r = s.remove(k - 1);
    assert forall|i: int| 0 <= i < r.len() implies s.contains(#[trigger] r[i]) by {
        if i < k - 1 {
            assert(s[i] == r[i]);
        } else {
            assert(s[i + 1] == r[i]);
        }
    }
    if r.contains(s[k - 1]) {
        let i = choose|i: int| 0 <= i < r.len() && r[i] == s[k - 1];
        if i < k - 1 {
            assert(s[i].id != s[k - 1].id);
        } else {
            assert(s[k - 1].id != s[i + 1].id);
        }
    }
}

/// Display indices are recomputed: after deleting the task at display index
/// `k`, the tasks before it keep their indices and each later task moves up
/// by one.
pub proof fn lemma_delete_renumbers(s: Seq<TaskModel>, k: int)
    requires
        valid_listing(s),
        index_in_range(s.len() as int, k),
    ensures
        ({
            let r = after_remove(s, s[k - 1].id);
            &&& r.len() == s.len() - 1
            &&& forall|d: int| 1 <= d < k ==> #[trigger] r[d - 1] == s[d - 1]
            &&& forall|d: int| k <= d < s.len() ==> #[trigger] r[d - 1] == s[d]
        }),
{
    lemma_remove_is_positional(s, k - 1);
}

/// Completion is one-way and idempotent: after the task at display index
/// `k` is completed, the same index names the same task, a second
/// completion of it changes nothing, and its flag stays set.
pub proof fn lemma_check_twice(s: Seq<TaskModel>, k: int)
    requires
        valid_listing(s),
        index_in_range(s.len() as int, k),
    ensures
        ({
            let id = s[k - 1].id;
            let once = after_mark_completed(s, id);
            &&& valid_listing(once)
            &&& index_in_range(once.len() as int, k)
            &&& once[k - 1].id == id
            &&& once[k - 1].checked
            &&& after_mark_completed(once, id) == once
        }),
{
    let id = s[k - 1].id;
    let once = after_mark_completed(s, id);
    lemma_mark_keeps_listing_valid(s, id);
    assert(after_mark_completed(once, id) =~= once);
}

} // verus!
