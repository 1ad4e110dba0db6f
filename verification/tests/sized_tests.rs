use priority::queue::prelude::{LockStatus, Prio, QueueError};
use priority::queue::sized::SizedQueue;

#[test]
fn test_percentage_full() {
    let mut queue = SizedQueue::<String>::new(10);

    queue.push(Prio::wolock("first".to_string(), Some(0))).unwrap();
    queue.push(Prio::wolock("second".to_string(), Some(0))).unwrap();
    queue.push(Prio::wolock("third".to_string(), Some(0))).unwrap();
    queue.push(Prio::wolock("fourth".to_string(), Some(0))).unwrap();
    queue.push(Prio::wolock("fifth".to_string(), Some(0))).unwrap();
    queue.push(Prio::wolock("sixth".to_string(), Some(0))).unwrap();

    let percentage = (queue.size() as f32 * 100.0) / queue.max_size() as f32;
    assert_eq!(percentage.round(), 60.0);
    assert_eq!(percentage, 60.0);
    assert_eq!(6, queue.size());
    assert_eq!(10, queue.max_size());
}

#[test]
fn test_full_queue_rejects_push() {
    let mut queue = SizedQueue::new(2);

    queue.push(Prio::new("a", Some(1), LockStatus::Unlocked)).unwrap();
    queue.push(Prio::new("b", Some(2), LockStatus::Unlocked)).unwrap();

    // At capacity: the push is rejected and nothing changes.
    assert_eq!(
        Err(QueueError::QueueFull),
        queue.push(Prio::new("c", Some(3), LockStatus::Unlocked))
    );
    assert_eq!(2, queue.size());
    assert_eq!(
        vec!["a", "b"],
        queue.get_elements().iter().map(|item| **item).collect::<Vec<_>>()
    );

    // A full queue is reported before a missing priority.
    assert_eq!(
        Err(QueueError::QueueFull),
        queue.push(Prio::new("d", None, LockStatus::Unlocked))
    );
}

#[test]
fn test_expand_allows_exactly_that_many_more() {
    let mut queue = SizedQueue::new(1);

    queue.push(Prio::wolock(1u8, Some(0))).unwrap();
    assert_eq!(Err(QueueError::QueueFull), queue.push(Prio::wolock(2u8, Some(0))));

    queue.expand(3);
    assert_eq!(4, queue.max_size());

    queue.push(Prio::wolock(2u8, Some(0))).unwrap();
    queue.push(Prio::wolock(3u8, Some(0))).unwrap();
    queue.push(Prio::wolock(4u8, Some(0))).unwrap();
    assert_eq!(Err(QueueError::QueueFull), queue.push(Prio::wolock(5u8, Some(0))));
    assert_eq!(4, queue.size());
}

#[test]
fn test_sized_queue_ordering_and_pop() {
    let mut queue = SizedQueue::new(10);

    queue.push(Prio::new("first", Some(2), LockStatus::Unlocked)).unwrap();
    queue.push(Prio::new("second", Some(1), LockStatus::Locked)).unwrap();
    queue.push(Prio::new("third", Some(1), LockStatus::Unlocked)).unwrap();
    queue.push(Prio::new("fourth", Some(0), LockStatus::Locked)).unwrap();

    assert_eq!(
        vec!["fourth", "second", "third", "first"],
        queue.get_elements().iter().map(|item| **item).collect::<Vec<_>>()
    );

    assert_eq!(Some("fourth"), queue.pop());
    assert_eq!(Some("second"), queue.pop());
    assert_eq!(2, queue.size());
}

#[test]
fn test_sized_queue_peek() {
    let mut queue = SizedQueue::new(5);

    assert!(queue.peek().is_none());

    queue.push(Prio::new("low", Some(9), LockStatus::Unlocked)).unwrap();
    queue.push(Prio::new("high", Some(0), LockStatus::Unlocked)).unwrap();

    assert_eq!(Some(&"high"), queue.peek());
    assert_eq!(2, queue.size());
}

#[test]
fn test_sized_queue_retrieve_by_id() {
    let mut queue = SizedQueue::new(5);

    let id_a = queue.push(Prio::new("a", Some(7), LockStatus::Unlocked)).unwrap();
    let id_b = queue.push(Prio::new("b", Some(3), LockStatus::Unlocked)).unwrap();

    assert_eq!(Ok(&"a"), queue.retrieve_by_id(id_a));
    assert_eq!(Ok(&"b"), queue.retrieve_by_id_linear(id_b));
    assert_eq!(Err(QueueError::IdNotFound), queue.retrieve_by_id(42));

    let empty: SizedQueue<u8> = SizedQueue::new(5);
    assert_eq!(Err(QueueError::EmptyQueue), empty.retrieve_by_id(0));
}

#[test]
fn test_sized_queue_requires_priority() {
    let mut queue: SizedQueue<&str> = SizedQueue::new(5);

    assert_eq!(
        Err(QueueError::PriorityRequired),
        queue.push(Prio::new("item", None, LockStatus::Unlocked))
    );
    assert_eq!(0, queue.size());
}
