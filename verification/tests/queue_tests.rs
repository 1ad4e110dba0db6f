use priority::queue::prelude::{LockStatus, Prio, QueueError};
use priority::queue::Queue;

#[test]
fn new() {
    let mut queue: Queue<String> = Queue::new();

    queue
        .push(Prio::new("first".to_string(), Some(1), LockStatus::Unlocked))
        .unwrap();
    queue
        .push(Prio::new("third".to_string(), Some(0), LockStatus::Locked))
        .unwrap();
    queue
        .push(Prio::new("second".to_string(), Some(2), LockStatus::Unlocked))
        .unwrap();

    assert_eq!(
        vec!["third", "first", "second"],
        queue
            .get_elements()
            .iter()
            .map(|item| (*item).clone())
            .collect::<Vec<_>>()
    );

    queue.push(Prio::wolock("fourth".to_string(), Some(0))).unwrap();

    assert_eq!(
        vec!["third", "fourth", "first", "second"],
        queue
            .get_elements()
            .iter()
            .map(|item| (*item).clone())
            .collect::<Vec<_>>()
    );
}

#[test]
fn test_lockable_queue() {
    let mut queue = Queue::new();

    queue.push(Prio::new("first", Some(2), LockStatus::Unlocked)).unwrap(); // Priority 2
    queue.push(Prio::new("second", Some(1), LockStatus::Locked)).unwrap(); // Priority 1 (locked)
    queue.push(Prio::new("third", Some(1), LockStatus::Unlocked)).unwrap(); // Priority 1 (unlocked)
    queue.push(Prio::new("fourth", Some(0), LockStatus::Locked)).unwrap(); // Highest priority (locked)

    let elements: Vec<&str> = queue.get_elements().iter().map(|item| **item).collect();

    // Expected order: ["fourth", "second", "third", "first"]
    assert_eq!(vec!["fourth", "second", "third", "first"], elements);

    assert_eq!("fourth".to_string(), queue.pop().unwrap());

    assert_eq!(
        vec!["second", "third", "first"],
        queue.get_elements().iter().map(|item| **item).collect::<Vec<_>>()
    );

    queue.push(Prio::new("fifth", Some(0), LockStatus::Locked)).unwrap();

    assert_eq!(
        vec!["fifth", "second", "third", "first"],
        queue.get_elements().iter().map(|item| **item).collect::<Vec<_>>()
    );

    queue.push(Prio::new("sixth", Some(0), LockStatus::Locked)).unwrap();

    assert_eq!(
        vec!["fifth", "sixth", "second", "third", "first"],
        queue.get_elements().iter().map(|item| **item).collect::<Vec<_>>()
    );

    queue.push(Prio::new("seventh", Some(0), LockStatus::Locked)).unwrap();

    assert_eq!(
        vec!["fifth", "sixth", "seventh", "second", "third", "first"],
        queue.get_elements().iter().map(|item| **item).collect::<Vec<_>>()
    );
}

#[test]
fn test_unlocked_lockable_queue() {
    let mut queue = Queue::new();

    queue.push(Prio::new("first", Some(2), LockStatus::Unlocked)).unwrap(); // Priority 2
    queue.push(Prio::new("second", Some(1), LockStatus::Unlocked)).unwrap(); // Priority 1 (unlocked)
    queue.push(Prio::new("third", Some(1), LockStatus::Unlocked)).unwrap(); // Priority 1 (unlocked)
    queue.push(Prio::new("fourth", Some(0), LockStatus::Unlocked)).unwrap(); // Highest priority (unlocked)

    assert_eq!(
        vec!["fourth", "second", "third", "first"],
        queue.get_elements().iter().map(|item| **item).collect::<Vec<_>>()
    );

    queue.push(Prio::new("fifth", Some(0), LockStatus::Unlocked)).unwrap();

    assert_eq!(
        vec!["fourth", "fifth", "second", "third", "first"],
        queue.get_elements().iter().map(|item| **item).collect::<Vec<_>>()
    );

    queue.push(Prio::new("sixth", Some(0), LockStatus::Unlocked)).unwrap();

    assert_eq!(
        vec!["fourth", "fifth", "sixth", "second", "third", "first"],
        queue.get_elements().iter().map(|item| **item).collect::<Vec<_>>()
    );

    queue.push(Prio::new("seventh", Some(0), LockStatus::Unlocked)).unwrap();

    assert_eq!(
        vec!["fourth", "fifth", "sixth", "seventh", "second", "third", "first"],
        queue.get_elements().iter().map(|item| **item).collect::<Vec<_>>()
    );
}

#[test]
fn test_scenario_pop_order() {
    let mut queue = Queue::new();

    queue.push(Prio::new("first", Some(2), LockStatus::Unlocked)).unwrap();
    queue.push(Prio::new("second", Some(1), LockStatus::Locked)).unwrap();
    queue.push(Prio::new("third", Some(1), LockStatus::Unlocked)).unwrap();
    queue.push(Prio::new("fourth", Some(0), LockStatus::Locked)).unwrap();

    assert_eq!(Some("fourth"), queue.pop());
    assert_eq!(Some("second"), queue.pop());
    assert_eq!(Some("third"), queue.pop());
    assert_eq!(Some("first"), queue.pop());
    assert_eq!(None, queue.pop());
}

#[test]
fn test_distinct_priorities_pop_ascending() {
    let mut queue = Queue::new();

    queue.push(Prio::new(30u8, Some(7), LockStatus::Unlocked)).unwrap();
    queue.push(Prio::new(10u8, Some(1), LockStatus::Unlocked)).unwrap();
    queue.push(Prio::new(20u8, Some(4), LockStatus::Locked)).unwrap();

    assert_eq!(Some(10), queue.pop());
    assert_eq!(Some(20), queue.pop());
    assert_eq!(Some(30), queue.pop());
}

#[test]
fn test_locked_pops_before_unlocked_at_equal_priority() {
    let mut queue = Queue::new();

    // The unlocked item goes in first, the locked one later: the locked one
    // still pops first.
    queue.push(Prio::new("plain", Some(3), LockStatus::Unlocked)).unwrap();
    queue.push(Prio::new("pinned", Some(3), LockStatus::Locked)).unwrap();

    assert_eq!(Some("pinned"), queue.pop());
    assert_eq!(Some("plain"), queue.pop());
}

#[test]
fn test_equal_priority_and_lock_keeps_insertion_order() {
    let mut queue = Queue::new();

    queue.push(Prio::new("early", Some(3), LockStatus::Locked)).unwrap();
    queue.push(Prio::new("middle", Some(3), LockStatus::Locked)).unwrap();
    queue.push(Prio::new("late", Some(3), LockStatus::Locked)).unwrap();

    assert_eq!(Some("early"), queue.pop());
    assert_eq!(Some("middle"), queue.pop());
    assert_eq!(Some("late"), queue.pop());
}

#[test]
fn test_push_requires_priority() {
    let mut queue: Queue<&str> = Queue::new();

    assert_eq!(
        Err(QueueError::PriorityRequired),
        queue.push(Prio::new("item", None, LockStatus::Unlocked))
    );
    assert_eq!(0, queue.size());
}

#[test]
fn test_push_non_prio_appends_after_existing() {
    let mut queue = Queue::new();

    queue.push(Prio::new("urgent", Some(0), LockStatus::Unlocked)).unwrap();
    let id = queue.push_non_prio("relaxed").unwrap();

    assert_eq!(1, id);
    assert_eq!(
        vec!["urgent", "relaxed"],
        queue.get_elements().iter().map(|item| **item).collect::<Vec<_>>()
    );
}

#[test]
fn test_peek_reports_minimum_without_mutation() {
    let mut queue = Queue::new();

    assert!(queue.peek().is_none());

    queue.push(Prio::new("second", Some(5), LockStatus::Unlocked)).unwrap();
    let first_id = queue.push(Prio::new("first", Some(1), LockStatus::Unlocked)).unwrap();

    let (element, id) = queue.peek().unwrap();
    assert_eq!("first", *element);
    assert_eq!(first_id, id);
    assert_eq!(2, queue.size());
}

#[test]
fn test_retrieve_by_id() {
    let mut queue = Queue::new();

    let id_a = queue.push(Prio::new("a", Some(9), LockStatus::Unlocked)).unwrap();
    let id_b = queue.push(Prio::new("b", Some(1), LockStatus::Locked)).unwrap();

    assert_eq!(Ok(&"a"), queue.retrieve_by_id(id_a));
    assert_eq!(Ok(&"b"), queue.retrieve_by_id(id_b));
    assert_eq!(Ok(&"a"), queue.retrieve_by_id_linear(id_a));

    // An identifier never issued.
    assert_eq!(Err(QueueError::IdNotFound), queue.retrieve_by_id(99));
    assert_eq!(Err(QueueError::IdNotFound), queue.retrieve_by_id_linear(99));

    // "b" has the smaller key, so it pops first; its identifier is then gone.
    assert_eq!(Some("b"), queue.pop());
    assert_eq!(Err(QueueError::IdNotFound), queue.retrieve_by_id(id_b));

    // Identifiers are not monotonic with the key order: an identifier outside
    // the range spanned by the remaining entries is still found.
    let id_c = queue.push(Prio::new("c", Some(0), LockStatus::Unlocked)).unwrap();
    assert!(id_c > id_a);
    assert_eq!(Ok(&"a"), queue.retrieve_by_id(id_a));
    assert_eq!(Ok(&"c"), queue.retrieve_by_id(id_c));
}

#[test]
fn test_retrieve_by_id_empty_queue() {
    let queue: Queue<u8> = Queue::new();

    assert_eq!(Err(QueueError::EmptyQueue), queue.retrieve_by_id(0));
    assert_eq!(Err(QueueError::IdNotFound), queue.retrieve_by_id_linear(0));
}
