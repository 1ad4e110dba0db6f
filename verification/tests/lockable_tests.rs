use priority::queue::lockable::LockableQueue;
use priority::queue::prelude::{LockStatus, Prio, QueueError};

#[test]
fn test_lockable_orders_by_priority_then_lock() {
    let mut queue = LockableQueue::new();

    queue.push(Prio::new("first", Some(2), LockStatus::Unlocked)).unwrap();
    queue.push(Prio::new("second", Some(1), LockStatus::Locked)).unwrap();
    queue.push(Prio::new("third", Some(1), LockStatus::Unlocked)).unwrap();
    queue.push(Prio::new("fourth", Some(0), LockStatus::Locked)).unwrap();

    assert_eq!(
        vec!["fourth", "second", "third", "first"],
        queue.get_elements().iter().map(|item| **item).collect::<Vec<_>>()
    );

    assert_eq!(Some("fourth"), queue.pop());
    assert_eq!(Some("second"), queue.pop());
    assert_eq!(Some("third"), queue.pop());
    assert_eq!(Some("first"), queue.pop());
    assert_eq!(None, queue.pop());
}

#[test]
fn test_lockable_keeps_insertion_order_within_bucket() {
    let mut queue = LockableQueue::new();

    queue.push(Prio::wolock("early", Some(4))).unwrap();
    queue.push(Prio::wolock("middle", Some(4))).unwrap();
    queue.push(Prio::wolock("late", Some(4))).unwrap();

    assert_eq!(
        vec!["early", "middle", "late"],
        queue.get_elements().iter().map(|item| **item).collect::<Vec<_>>()
    );

    // A locked item joining the same priority band jumps the unlocked ones.
    queue.push(Prio::wlock("pinned", Some(4))).unwrap();
    assert_eq!(Some("pinned"), queue.pop());
    assert_eq!(Some("early"), queue.pop());
}

#[test]
fn test_lockable_requires_priority() {
    let mut queue: LockableQueue<&str> = LockableQueue::new();

    assert_eq!(
        Err(QueueError::PriorityRequired),
        queue.push(Prio::new("item", None, LockStatus::Unlocked))
    );
    assert_eq!(None, queue.pop());
}
