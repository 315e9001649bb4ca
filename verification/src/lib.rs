//! A bounded-height priority queue ("bucket queue"): a fixed range of integer
//! priority levels, O(1) insertion, and extraction that scans at most the
//! number of priority levels. Within one priority level the queue is
//! last-in-first-out.

pub mod laws;
pub mod model;

use vstd::prelude::*;

use crate::model::{
    first_nonempty, lemma_first_nonempty_at, lemma_first_nonempty_none,
    lemma_first_nonempty_props, lemma_first_nonempty_skip, lemma_total_at_least,
    lemma_total_update, lemma_total_zero, total,
};

verus! {

/// A priority queue over the fixed priority range `[0, priority_slots)`.
/// Bucket `k` holds the elements queued at priority `k`, oldest first; the
/// element at the end of a bucket is the one a pop extracts first.
#[derive(Debug)]
pub struct BHPQ<T> {
    top: Option<usize>,
    priority_slots: usize,
    len: usize,
    buckets: Vec<Vec<T>>,
}

impl<T> View for BHPQ<T> {
    type V = Seq<Seq<T>>;

    /// The abstract state: one sequence per priority level, oldest element first.
    closed spec fn view(&self) -> Seq<Seq<T>> {
        Seq::new(self.buckets@.len(), |i: int| self.buckets@[i]@)
    }
}

impl<T> BHPQ<T> {
    /// Internal consistency: the bucket array spans the whole priority range,
    /// the element counter equals the sum of the bucket sizes, and the cached
    /// cursor is exactly the lowest non-empty bucket (`None` when all are empty).
    pub closed spec fn wf(&self) -> bool {
        &&& self.buckets@.len() == self.priority_slots
        &&& self.len as nat == total(self@)
        &&& (match self.top {
            None => first_nonempty(self@, 0) is None,
            Some(k) => first_nonempty(self@, 0) == Some(k as int),
        })
    }

    /// Creates a queue with `priority_slots` empty buckets.
    pub fn new(priority_slots: usize) -> (q: BHPQ<T>)
        ensures
            q.wf(),
            q@.len() == priority_slots,
            forall|j: int| 0 <= j < priority_slots ==> q@[j] == Seq::<T>::empty(),
            total(q@) == 0,
    {
        let mut buckets: Vec<Vec<T>> = Vec::with_capacity(priority_slots);
        let mut i: usize = 0;
        while i < priority_slots
            invariant
                i <= priority_slots,
                buckets@.len() == i,
                forall|j: int| 0 <= j < i ==> buckets@[j]@.len() == 0,
            decreases priority_slots - i,
        {
            buckets.push(Vec::new());
            i = i + 1;
        }
        let q = BHPQ { top: None, priority_slots, len: 0, buckets };
        proof {
            assert forall|j: int| 0 <= j < q@.len() implies q@[j] == Seq::<T>::empty() by {
                assert(q@[j] =~= Seq::<T>::empty());
            }
            lemma_total_zero(q@);
            lemma_first_nonempty_none(q@, 0);
        }
        q
    }

    /// Whether the queue holds no element.
    pub fn is_empty(&self) -> (r: bool)
        requires
            self.wf(),
        ensures
            r == (total(self@) == 0),
    {
        self.len == 0
    }

    /// Inserts `value` at priority `priority`. Rejected (and the queue left
    /// unchanged) exactly when `priority` lies outside the priority range;
    /// otherwise the value goes on top of its bucket, to be extracted before
    /// everything already queued at that priority.
    pub fn push(&mut self, priority: usize, value: T) -> (r: Result<(), PriorityError>)
        requires
            old(self).wf(),
            priority < old(self)@.len() ==> total(old(self)@) < usize::MAX,
        ensures
            final(self).wf(),
            final(self)@.len() == old(self)@.len(),
            (if priority < old(self)@.len() {
                r is Ok && final(self)@ == old(self)@.update(
                    priority as int,
                    old(self)@[priority as int].push(value),
                ) && total(final(self)@) == total(old(self)@) + 1
            } else {
                (match r {
                    Ok(_) => false,
                    Err(e) => e.spec_priority() == priority,
                }) && *final(self) == *old(self)
            }),
    {
        if priority >= self.priority_slots {
            return Err(PriorityError::new(priority));
        }
        let ghost s0 = self@;
        let bucket = &mut self.buckets[priority];
        bucket.push(value);
        self.len = self.len + 1;
        match self.top {
            None => {
                self.top = Some(priority);
            },
            Some(k) => {
                if priority < k {
                    self.top = Some(priority);
                }
            },
        }
        proof {
            let p = priority as int;
            let s1 = s0.update(p, s0[p].push(value));
            assert(self@ =~= s1);
            lemma_total_update(s0, p, s0[p].push(value));
            lemma_first_nonempty_props(s0, 0);
            match old(self).top {
                None => {
                    lemma_first_nonempty_at(s1, 0, p);
                },
                Some(k) => {
                    if p < k {
                        lemma_first_nonempty_at(s1, 0, p);
                    } else {
                        lemma_first_nonempty_at(s1, 0, k as int);
                    }
                },
            }
        }
        Ok(())
    }

    /// Removes and returns the most urgent element: the most recently pushed
    /// element of the lowest non-empty priority bucket. Returns `None`, and
    /// changes nothing, exactly when the queue is empty — an empty queue is
    /// not an error.
    pub fn pop(&mut self) -> (r: Option<T>)
        requires
            old(self).wf(),
        ensures
            final(self).wf(),
            final(self)@.len() == old(self)@.len(),
            (match first_nonempty(old(self)@, 0) {
                None => r is None && *final(self) == *old(self),
                Some(k) => r == Some(old(self)@[k].last()) && final(self)@ == old(self)@.update(
                    k,
                    old(self)@[k].drop_last(),
                ) && total(final(self)@) + 1 == total(old(self)@),
            }),
    {
        match self.top {
            None => None,
            Some(k) => {
                let ghost s0 = self@;
                proof {
                    lemma_first_nonempty_props(s0, 0);
                    lemma_total_at_least(s0, k as int);
                }
                let bucket = &mut self.buckets[k];
                let value = bucket.pop();
                let t = self.search_top(k);
                self.top = t;
                self.len = self.len - 1;
                proof {
                    let ki = k as int;
                    let s1 = s0.update(ki, s0[ki].drop_last());
                    assert(self@ =~~= s1);
                    lemma_total_update(s0, ki, s0[ki].drop_last());
                    assert forall|j: int| 0 <= j < ki implies s1[j].len() == 0 by {
                        assert(s0[j].len() == 0);
                    }
                    lemma_first_nonempty_skip(s1, 0, ki);
                }
                value
            },
        }
    }

    /// Borrows the element a `pop` would extract next, without removing it;
    /// `None` exactly when the queue is empty.
    pub fn peek(&self) -> (r: Option<&T>)
        requires
            self.wf(),
        ensures
            (match first_nonempty(self@, 0) {
                None => r is None,
                Some(k) => r.is_some() && *r.unwrap() == self@[k].last(),
            }),
    {
        match self.top {
            None => None,
            Some(k) => {
                proof {
                    lemma_first_nonempty_props(self@, 0);
                }
                self.buckets[k].last()
            },
        }
    }

    /// Borrows, mutably, the element a `pop` would extract next; `None`
    /// exactly when the queue is empty. Writing through the returned
    /// reference edits that element in place: its position and priority, and
    /// everything else in the queue, stay as they were.
    pub fn peek_mut(&mut self) -> (r: Option<&mut T>)
        requires
            old(self).wf(),
        ensures
            final(self)@.len() == old(self)@.len(),
            (match first_nonempty(old(self)@, 0) {
                None => r is None && *final(self) == *old(self) && final(self).wf(),
                Some(k) => r.is_some() && *r.unwrap() == old(self)@[k].last() && final(self)@
                    =~~= old(self)@.update(
                    k,
                    old(self)@[k].update(old(self)@[k].len() - 1, *final(r.unwrap())),
                ) && total(final(self)@) == total(old(self)@) && final(self).wf(),
            }),
    {
        match self.top {
            None => None,
            Some(k) => {
                let ghost s0 = self@;
                proof {
                    lemma_first_nonempty_props(s0, 0);
                }
                let n = self.buckets[k].len();
                proof {
                    let ki = k as int;
                    assert forall|w: T|
                        #![trigger s0[ki].update(n as int - 1, w)]
                        {
                            let s1 = s0.update(ki, s0[ki].update(n as int - 1, w));
                            total(s1) == total(s0) && first_nonempty(s1, 0) == Some(ki)
                        } by {
                        let s1 = s0.update(ki, s0[ki].update(n as int - 1, w));
                        lemma_total_update(s0, ki, s0[ki].update(n as int - 1, w));
                        lemma_first_nonempty_at(s1, 0, ki);
                    }
                }
                let bucket = &mut self.buckets[k];
                let elem = &mut bucket[n - 1];
                Some(elem)
            },
        }
    }

    /// One step of the draining view of the queue: exactly a `pop`, yielding
    /// `None` once the queue is exhausted. The sequence of elements it
    /// produces is not restartable, since each step removes what it returns.
    pub fn next(&mut self) -> (r: Option<T>)
        requires
            old(self).wf(),
        ensures
            final(self).wf(),
            final(self)@.len() == old(self)@.len(),
            (match first_nonempty(old(self)@, 0) {
                None => r is None && *final(self) == *old(self),
                Some(k) => r == Some(old(self)@[k].last()) && final(self)@ == old(self)@.update(
                    k,
                    old(self)@[k].drop_last(),
                ) && total(final(self)@) + 1 == total(old(self)@),
            }),
    {
        self.pop()
    }

    /// Empties the queue. Only buckets currently holding elements are
    /// touched, so the cost is proportional to the number of populated
    /// priority levels, not to the whole priority range.
    pub fn clear(&mut self)
        requires
            old(self).wf(),
        ensures
            final(self).wf(),
            final(self)@.len() == old(self)@.len(),
            total(final(self)@) == 0,
            forall|j: int| 0 <= j < final(self)@.len() ==> final(self)@[j] == Seq::<T>::empty(),
    {
        let ghost n0 = self@.len();
        proof {
            lemma_first_nonempty_props(self@, 0);
        }
        self.len = 0;
        loop
            invariant
                self.priority_slots == self.buckets@.len(),
                self@.len() == n0,
                self.len == 0,
                (match self.top {
                    None => forall|j: int| 0 <= j < self@.len() ==> self@[j].len() == 0,
                    Some(k) => k < self.priority_slots && (forall|j: int|
                        0 <= j < k ==> self@[j].len() == 0),
                }),
            ensures
                self.priority_slots == self.buckets@.len(),
                self@.len() == n0,
                self.len == 0,
                self.top is None,
                forall|j: int| 0 <= j < self@.len() ==> self@[j].len() == 0,
            decreases (match self.top {
                None => 0int,
                Some(k) => self.priority_slots - k,
            }),
        {
            let t = self.top;
            if let Some(topk) = t {
                let ghost sb = self@;
                let bucket = &mut self.buckets[topk];
                bucket.clear();
                proof {
                    assert(self@ =~~= sb.update(topk as int, Seq::<T>::empty()));
                }
                self.top = self.search_top(topk + 1);
                proof {
                    lemma_first_nonempty_props(self@, topk as int + 1);
                    assert forall|j: int| 0 <= j <= topk implies self@[j].len() == 0 by {
                        if j < topk {
                            assert(sb[j].len() == 0);
                        }
                    }
                }
            } else {
                break;
            }
        }
        proof {
            lemma_total_zero(self@);
            lemma_first_nonempty_none(self@, 0);
            assert forall|j: int| 0 <= j < self@.len() implies self@[j] == Seq::<T>::empty() by {
                assert(self@[j] =~= Seq::<T>::empty());
            }
        }
    }

    /// Borrows the whole bucket for priority `priority`, exposing every
    /// element queued at that level (not just the front). Rejected exactly
    /// when `priority` lies outside the priority range.
    pub fn get_priority(&self, priority: usize) -> (r: Result<&Vec<T>, PriorityError>)
        requires
            self.wf(),
        ensures
            (if priority < self@.len() {
                r is Ok && (r->Ok_0)@ == self@[priority as int]
            } else {
                r is Err && (r->Err_0).spec_priority() == priority
            }),
    {
        if priority >= self.priority_slots {
            Err(PriorityError::new(priority))
        } else {
            Ok(&self.buckets[priority])
        }
    }

    /// Borrows, mutably, the whole bucket for priority `priority`. Rejected
    /// exactly when `priority` lies outside the priority range. This is an
    /// escape hatch that bypasses the queue's own bookkeeping: editing
    /// element values in place (anything that keeps the bucket's length)
    /// leaves the queue consistent, while adding or removing elements through
    /// the returned bucket does not, and the queue then no longer answers for
    /// its other operations.
    pub fn get_priority_mut(&mut self, priority: usize) -> (r: Result<
        &mut Vec<T>,
        PriorityError,
    >)
        requires
            old(self).wf(),
        ensures
            final(self)@.len() == old(self)@.len(),
            (if priority < old(self)@.len() {
                &&& r is Ok
                &&& (*(r->Ok_0))@ == old(self)@[priority as int]
                &&& final(self)@ =~~= old(self)@.update(priority as int, (*final(r->Ok_0))@)
                &&& (*final(r->Ok_0))@.len() == old(self)@[priority as int].len()
                    ==> (final(self).wf() && total(final(self)@) == total(old(self)@))
            } else {
                r is Err && (r->Err_0).spec_priority() == priority && *final(self) == *old(self)
                    && final(self).wf()
            }),
    {
        if priority >= self.priority_slots {
            Err(PriorityError::new(priority))
        } else {
            let ghost s0 = self@;
            proof {
                let pi = priority as int;
                assert forall|w: Seq<T>| #![trigger s0.update(pi, w)]
                    w.len() == s0[pi].len() implies (total(s0.update(pi, w)) == total(s0)
                    && first_nonempty(s0.update(pi, w), 0) == first_nonempty(s0, 0)) by {
                    lemma_total_update(s0, pi, w);
                    lemma_first_nonempty_props(s0, 0);
                    match first_nonempty(s0, 0) {
                        None => lemma_first_nonempty_none(s0.update(pi, w), 0),
                        Some(k) => lemma_first_nonempty_at(s0.update(pi, w), 0, k),
                    }
                }
            }
            Ok(&mut self.buckets[priority])
        }
    }

    /// Scans forward from `start` for the first bucket holding an element.
    fn search_top(&self, start: usize) -> (r: Option<usize>)
        requires
            self.priority_slots == self.buckets@.len(),
        ensures
            match r {
                None => first_nonempty(self@, start as int) is None,
                Some(k) => first_nonempty(self@, start as int) == Some(k as int),
            },
    {
        let mut k = start;
        while k < self.priority_slots
            invariant
                self.priority_slots == self.buckets@.len(),
                start <= k,
                forall|j: int| start <= j < k ==> self@[j].len() == 0,
            decreases self.priority_slots - k,
        {
            if !self.buckets[k].is_empty() {
                proof {
                    lemma_first_nonempty_at(self@, start as int, k as int);
                }
                return Some(k);
            }
            k = k + 1;
        }
        proof {
            if start as int <= self@.len() {
                lemma_first_nonempty_none(self@, start as int);
            }
        }
        None
    }
}

/// The character for one decimal digit.
pub open spec fn digit_char(d: nat) -> char {
    ((d + 48) as u8) as char
}

/// The decimal digits of `n`, most significant first, without signs or padding.
pub open spec fn decimal_digits(n: nat) -> Seq<char>
    decreases n,
{
    if n < 10 {
        seq![digit_char(n)]
    } else {
        decimal_digits(n / 10).push(digit_char(n % 10))
    }
}

/// Relies on `format!`, which renders a `usize` under `{}` as its plain
/// decimal digits.
#[verifier::external_body]
fn render_message(priority: usize) -> (r: String)
    ensures
        r@ == "tried to push priority "@ + decimal_digits(priority as nat)
            + " larger than upper bound"@,
{
    format!("tried to push priority {} larger than upper bound", priority)
}

/// The error raised when a requested priority lies outside `[0, priority_slots)`.
/// It carries the offending priority.
#[derive(Debug, Copy, Clone, Hash)]
pub struct PriorityError {
    priority: usize,
}

impl PriorityError {
    /// The offending priority carried by the error.
    pub closed spec fn spec_priority(&self) -> usize {
        self.priority
    }

    fn new(priority: usize) -> (e: PriorityError)
        ensures
            e.spec_priority() == priority,
    {
        PriorityError { priority }
    }

    /// The offending priority carried by the error.
    pub fn priority(&self) -> (p: usize)
        ensures
            p == self.spec_priority(),
    {
        self.priority
    }

    /// The human-readable description of the error, naming the offending
    /// priority.
    pub fn message(&self) -> (r: String)
        ensures
            r@ == "tried to push priority "@ + decimal_digits(self.spec_priority() as nat)
                + " larger than upper bound"@,
    {
        render_message(self.priority)
    }
}

} // verus!
