use vstd::prelude::*;

verus! {

/// Total number of queued elements: the sum of the bucket lengths.
pub open spec fn total<T>(s: Seq<Seq<T>>) -> nat
    decreases s.len(),
{
    if s.len() == 0 {
        0
    } else {
        total(s.drop_last()) + s.last().len()
    }
}

/// Index of the first bucket at or after `start` that holds an element,
/// or `None` when every bucket from `start` on is empty.
pub open spec fn first_nonempty<T>(s: Seq<Seq<T>>, start: int) -> Option<int>
    decreases s.len() - start,
{
    if start < 0 || start >= s.len() {
        None
    } else if s[start].len() > 0 {
        Some(start)
    } else {
        first_nonempty(s, start + 1)
    }
}

/// Replacing one bucket changes the total by the difference of the bucket lengths.
pub proof fn lemma_total_update<T>(s: Seq<Seq<T>>, i: int, b: Seq<T>)
    requires
        0 <= i < s.len(),
    ensures
        total(s.update(i, b)) + s[i].len() == total(s) + b.len(),
    decreases s.len(),
{
    let s2 = s.update(i, b);
    if i == s.len() - 1 {
        assert(s2.drop_last() =~= s.drop_last());
    } else {
        lemma_total_update(s.drop_last(), i, b);
        assert(s2.drop_last() =~= s.drop_last().update(i, b));
        assert(s2.last() == s.last());
    }
}

/// The total is at least the length of any single bucket.
pub proof fn lemma_total_at_least<T>(s: Seq<Seq<T>>, i: int)
    requires
        0 <= i < s.len(),
    ensures
        total(s) >= s[i].len(),
    decreases s.len(),
{
    if i < s.len() - 1 {
        lemma_total_at_least(s.drop_last(), i);
        assert(s.drop_last()[i] == s[i]);
    }
}

/// The total is zero exactly when every bucket is empty.
pub proof fn lemma_total_zero<T>(s: Seq<Seq<T>>)
    ensures
        (total(s) == 0) <==> (forall|j: int| 0 <= j < s.len() ==> s[j].len() == 0),
    decreases s.len(),
{
    if s.len() == 0 {
    } else {
        lemma_total_zero(s.drop_last());
        assert forall|j: int| 0 <= j < s.len() - 1 implies s.drop_last()[j] == s[j] by {}
        if total(s) == 0 {
            assert forall|j: int| 0 <= j < s.len() implies s[j].len() == 0 by {
                if j < s.len() - 1 {
                    assert(s.drop_last()[j].len() == 0);
                } else {
                    assert(s[j] == s.last());
                }
            }
        }
        if forall|j: int| 0 <= j < s.len() ==> s[j].len() == 0 {
            assert(s.last().len() == 0);
        }
    }
}

/// Scanning for the first non-empty bucket may start past a stretch of empty buckets.
pub proof fn lemma_first_nonempty_skip<T>(s: Seq<Seq<T>>, start: int, mid: int)
    requires
        0 <= start <= mid <= s.len(),
        forall|j: int| start <= j < mid ==> s[j].len() == 0,
    ensures
        first_nonempty(s, start) == first_nonempty(s, mid),
    decreases mid - start,
{
    if start < mid {
        lemma_first_nonempty_skip(s, start + 1, mid);
    }
}

/// What the scan result means: the found bucket is non-empty and all buckets
/// before it (from `start`) are empty; `None` means all are empty.
pub proof fn lemma_first_nonempty_props<T>(s: Seq<Seq<T>>, start: int)
    requires
        0 <= start <= s.len(),
    ensures
        match first_nonempty(s, start) {
            None => forall|j: int| start <= j < s.len() ==> s[j].len() == 0,
            Some(k) => start <= k < s.len() && s[k].len() > 0 && (forall|j: int|
                start <= j < k ==> s[j].len() == 0),
        },
    decreases s.len() - start,
{
    if start < s.len() {
        if s[start].len() == 0 {
            lemma_first_nonempty_props(s, start + 1);
        }
    }
}

/// A non-empty bucket preceded only by empty ones is exactly where the scan stops.
pub proof fn lemma_first_nonempty_at<T>(s: Seq<Seq<T>>, start: int, k: int)
    requires
        0 <= start <= k < s.len(),
        s[k].len() > 0,
        forall|j: int| start <= j < k ==> s[j].len() == 0,
    ensures
        first_nonempty(s, start) == Some(k),
{
    lemma_first_nonempty_skip(s, start, k);
}

/// When every bucket at or after `start` is empty, the scan finds nothing.
pub proof fn lemma_first_nonempty_none<T>(s: Seq<Seq<T>>, start: int)
    requires
        0 <= start <= s.len(),
        forall|j: int| start <= j < s.len() ==> s[j].len() == 0,
    ensures
        first_nonempty(s, start) is None,
{
    lemma_first_nonempty_skip(s, start, s.len() as int);
}

/// The queue holds no element exactly when the scan from the lowest priority finds nothing.
pub proof fn lemma_no_top_iff_empty<T>(s: Seq<Seq<T>>)
    ensures
        (first_nonempty(s, 0) is None) <==> (total(s) == 0),
{
    lemma_total_zero(s);
    lemma_first_nonempty_props(s, 0);
    match first_nonempty(s, 0) {
        Some(k) => lemma_total_at_least(s, k),
        None => (),
    }
}

} // verus!
