use priority::queue::prelude::{LockStatus, Prio, QueueFlag};

#[test]
fn test_prio_constructors() {
    let a = Prio::new("x", Some(7), LockStatus::Locked);
    assert_eq!(Some(7), a.priority());
    assert!(matches!(a.locked, LockStatus::Locked));
    assert_eq!("x", a.item);

    let b = Prio::wlip("y");
    assert_eq!(Some(0), b.priority());
    assert!(matches!(b.locked, LockStatus::Locked));

    let c = Prio::wolip("z");
    assert_eq!(Some(0), c.priority());
    assert!(matches!(c.locked, LockStatus::Unlocked));

    let d = Prio::wlock("w", Some(3));
    assert_eq!(Some(3), d.priority());
    assert!(matches!(d.locked, LockStatus::Locked));

    let e = Prio::wolock("v", None);
    assert_eq!(None, e.priority());
    assert!(matches!(e.locked, LockStatus::Unlocked));
}

#[test]
fn test_flag_order() {
    let low_priority = QueueFlag::new(5, LockStatus::Locked, 0);
    let high_priority = QueueFlag::new(1, LockStatus::Unlocked, 1);
    assert!(high_priority.comes_before(&low_priority));
    assert!(!low_priority.comes_before(&high_priority));

    // At equal priority the locked key sorts first, whichever came later.
    let unlocked = QueueFlag::new(3, LockStatus::Unlocked, 2);
    let locked = QueueFlag::new(3, LockStatus::Locked, 3);
    assert!(locked.comes_before(&unlocked));
    assert!(!unlocked.comes_before(&locked));

    // At equal priority and lock the smaller identifier breaks the tie when
    // the timestamps agree.
    let first = QueueFlag { priority: 3, locked: LockStatus::Locked, identifier: 4, timestamp: 9 };
    let second = QueueFlag { priority: 3, locked: LockStatus::Locked, identifier: 5, timestamp: 9 };
    assert!(first.comes_before(&second));
    assert!(!second.comes_before(&first));

    // An older timestamp outranks a smaller identifier.
    let older = QueueFlag { priority: 3, locked: LockStatus::Locked, identifier: 8, timestamp: 1 };
    assert!(older.comes_before(&first));

    // No key sorts before itself.
    assert!(!first.comes_before(&first));
}
