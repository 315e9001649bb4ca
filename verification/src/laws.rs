use vstd::prelude::*;

use crate::model::{
    first_nonempty, lemma_first_nonempty_at, lemma_first_nonempty_props,
    lemma_first_nonempty_skip, lemma_total_zero, total,
};

verus! {

/// Pushing a value at a valid priority into an empty queue and then popping
/// returns exactly that value, and the queue is empty again afterwards: after
/// the push the scan stops at that priority, the value sits at the front of
/// its bucket, and removing it brings the element count back to zero.
pub proof fn lemma_push_then_pop<T>(s: Seq<Seq<T>>, priority: int, value: T)
    requires
        0 <= priority < s.len(),
        total(s) == 0,
    ensures
        ({
            let s1 = s.update(priority, s[priority].push(value));
            &&& first_nonempty(s1, 0) == Some(priority)
            &&& s1[priority].last() == value
            &&& total(s1.update(priority, s1[priority].drop_last())) == 0
        }),
{
    let s1 = s.update(priority, s[priority].push(value));
    lemma_total_zero(s);
    lemma_first_nonempty_at(s1, 0, priority);
    let s2 = s1.update(priority, s1[priority].drop_last());
    assert(s1[priority].drop_last() =~= s[priority]);
    assert(s2 =~= s);
}

/// Pops come out in ascending priority order: removing the front element of
/// the lowest non-empty bucket never uncovers a lower priority level, so the
/// next pop extracts an element of the same or a higher priority.
pub proof fn lemma_pop_priorities_ascend<T>(s: Seq<Seq<T>>, k: int)
    requires
        first_nonempty(s, 0) == Some(k),
    ensures
        match first_nonempty(s.update(k, s[k].drop_last()), 0) {
            None => true,
            Some(k2) => k2 >= k,
        },
{
    lemma_first_nonempty_props(s, 0);
    let s2 = s.update(k, s[k].drop_last());
    lemma_first_nonempty_skip(s2, 0, k);
    lemma_first_nonempty_props(s2, k);
}

/// Within one priority level the queue is last-in-first-out: when no lower
/// bucket holds an element, pushing `earlier` and then `later` at the same
/// priority and popping twice returns `later` first and `earlier` second.
pub proof fn lemma_same_priority_lifo<T>(s: Seq<Seq<T>>, priority: int, earlier: T, later: T)
    requires
        0 <= priority < s.len(),
        forall|j: int| 0 <= j < priority ==> s[j].len() == 0,
    ensures
        ({
            let s1 = s.update(priority, s[priority].push(earlier));
            let s2 = s1.update(priority, s1[priority].push(later));
            let s3 = s2.update(priority, s2[priority].drop_last());
            &&& first_nonempty(s2, 0) == Some(priority)
            &&& s2[priority].last() == later
            &&& first_nonempty(s3, 0) == Some(priority)
            &&& s3[priority].last() == earlier
        }),
{
    let s1 = s.update(priority, s[priority].push(earlier));
    let s2 = s1.update(priority, s1[priority].push(later));
    let s3 = s2.update(priority, s2[priority].drop_last());
    lemma_first_nonempty_at(s2, 0, priority);
    assert(s2[priority].drop_last() =~= s1[priority]);
    lemma_first_nonempty_at(s3, 0, priority);
}

/// Writing through the mutable front reference is what the next pop sees:
/// replacing the front element of the top bucket keeps the top where it was,
/// and the next pop extracts exactly the written value.
pub proof fn lemma_peek_mut_then_pop<T>(s: Seq<Seq<T>>, k: int, written: T)
    requires
        first_nonempty(s, 0) == Some(k),
    ensures
        ({
            let s1 = s.update(k, s[k].update(s[k].len() - 1, written));
            &&& first_nonempty(s1, 0) == Some(k)
            &&& s1[k].last() == written
        }),
{
    lemma_first_nonempty_props(s, 0);
    let s1 = s.update(k, s[k].update(s[k].len() - 1, written));
    lemma_first_nonempty_at(s1, 0, k);
}

} // verus!
