use bhpq::BHPQ;
use bhpq::PriorityError;

#[test]
fn new_queue_is_empty_for_any_slots() {
    let sizes: Vec<usize> = vec![0, 1, 2, 7, 64];
    for n in sizes {
        let q: BHPQ<u8> = BHPQ::new(n);
        assert!(q.is_empty());
    }
}

#[test]
fn push_then_pop_returns_value() {
    let mut q: BHPQ<u64> = BHPQ::new(4);
    q.push(3, 77).unwrap();
    assert_eq!(q.pop(), Some(77));
    assert!(q.is_empty());
}

#[test]
fn rejected_push_changes_nothing() {
    let mut q: BHPQ<i32> = BHPQ::new(3);
    q.push(1, 10).unwrap();
    assert!(q.push(3, 11).is_err());
    assert_eq!(q.pop(), Some(10));
    assert_eq!(q.pop(), None);
}

#[test]
fn ascending_across_distinct_priorities() {
    let mut q: BHPQ<i32> = BHPQ::new(3);
    q.push(2, 25).unwrap();
    q.push(1, 15).unwrap();
    q.push(0, 5).unwrap();
    assert_eq!(q.pop(), Some(5));
    assert_eq!(q.pop(), Some(15));
    assert_eq!(q.pop(), Some(25));
    assert!(q.is_empty());
}

#[test]
fn same_priority_lifo() {
    let mut q: BHPQ<i32> = BHPQ::new(2);
    q.push(1, 15).unwrap();
    q.push(1, 16).unwrap();
    assert_eq!(q.pop(), Some(16));
    assert_eq!(q.pop(), Some(15));
}

#[test]
fn out_of_range_push_identifies_priority() {
    let mut q: BHPQ<&str> = BHPQ::new(2);
    let e: PriorityError = q.push(5, "x").unwrap_err();
    assert_eq!(e.priority(), 5);
    assert!(q.is_empty());
}

#[test]
fn pop_on_empty_is_not_an_error() {
    let mut q: BHPQ<i32> = BHPQ::new(2);
    assert_eq!(q.pop(), None);
}

#[test]
fn clear_then_pop_yields_nothing() {
    let mut q: BHPQ<&str> = BHPQ::new(3);
    q.push(0, "a").unwrap();
    q.push(2, "b").unwrap();
    q.clear();
    assert_eq!(q.pop(), None);
    assert!(q.is_empty());
}

#[test]
fn peek_changes_nothing() {
    let mut q: BHPQ<i32> = BHPQ::new(3);
    q.push(2, 9).unwrap();
    q.push(0, 3).unwrap();
    assert_eq!(*q.peek().unwrap(), 3);
    assert_eq!(*q.peek().unwrap(), 3);
    assert_eq!(q.pop(), Some(3));
    assert_eq!(q.pop(), Some(9));
}

#[test]
fn peek_mut_write_is_seen_by_pop() {
    let mut q: BHPQ<i32> = BHPQ::new(2);
    q.push(0, 1).unwrap();
    q.push(0, 2).unwrap();
    *q.peek_mut().unwrap() = 42;
    assert_eq!(q.pop(), Some(42));
    assert_eq!(q.pop(), Some(1));
}

#[test]
fn peek_on_empty_is_nothing() {
    let q: BHPQ<i32> = BHPQ::new(2);
    assert!(q.peek().is_none());
}

#[test]
fn zero_slots_rejects_every_push() {
    let mut q: BHPQ<i32> = BHPQ::new(0);
    let e = q.push(0, 1).unwrap_err();
    assert_eq!(e.priority(), 0);
    assert!(q.is_empty());
    assert_eq!(q.pop(), None);
}

#[test]
fn error_message_names_the_priority() {
    let mut q: BHPQ<i32> = BHPQ::new(2);
    let e = q.push(5, 1).unwrap_err();
    assert_eq!(e.message(), "tried to push priority 5 larger than upper bound");
}

#[test]
fn error_message_multi_digit() {
    let mut q: BHPQ<i32> = BHPQ::new(2);
    let e = q.push(123, 1).unwrap_err();
    assert_eq!(e.message(), "tried to push priority 123 larger than upper bound");
}

#[test]
fn next_drains_like_pop() {
    let mut q: BHPQ<i32> = BHPQ::new(4);
    q.push(2, 20).unwrap();
    q.push(0, 0).unwrap();
    q.push(2, 21).unwrap();
    assert_eq!(q.next(), Some(0));
    assert_eq!(q.next(), Some(21));
    assert_eq!(q.next(), Some(20));
    assert_eq!(q.next(), None);
    assert_eq!(q.next(), None);
}

#[test]
fn push_after_pop_can_lower_top() {
    let mut q: BHPQ<i32> = BHPQ::new(5);
    q.push(4, 40).unwrap();
    q.push(2, 20).unwrap();
    assert_eq!(q.pop(), Some(20));
    q.push(1, 10).unwrap();
    assert_eq!(q.pop(), Some(10));
    assert_eq!(q.pop(), Some(40));
    assert!(q.is_empty());
}

#[test]
fn clear_touches_every_populated_bucket() {
    let mut q: BHPQ<i32> = BHPQ::new(6);
    q.push(0, 1).unwrap();
    q.push(3, 2).unwrap();
    q.push(3, 3).unwrap();
    q.push(5, 4).unwrap();
    q.clear();
    assert!(q.is_empty());
    assert_eq!(q.pop(), None);
    assert_eq!(q.get_priority(3).unwrap().len(), 0);
}

#[test]
fn get_priority_exposes_full_bucket() {
    let mut q: BHPQ<i32> = BHPQ::new(3);
    q.push(1, 1).unwrap();
    q.push(1, 2).unwrap();
    q.push(1, 3).unwrap();
    let b = q.get_priority(1).unwrap();
    assert_eq!(b.len(), 3);
    assert_eq!(b[0], 1);
    assert_eq!(b[2], 3);
    let e = q.get_priority(3).unwrap_err();
    assert_eq!(e.priority(), 3);
}
