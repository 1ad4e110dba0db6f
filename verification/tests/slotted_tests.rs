use priority::queue::list::PriorityList;
use priority::queue::map::PriorityMap;
use priority::queue::prelude::QueueError;

#[test]
fn test_list_checked_next_and_overwrite() {
    let mut list: PriorityList<&str> = PriorityList::new();
    assert_eq!((0, 255), list.priority_range());

    list.append_checked("a", 0).unwrap();
    list.append_checked("c", 2).unwrap();
    assert_eq!(1, list.append_next("b").unwrap());

    assert_eq!(
        vec!["a", "b", "c"],
        list.get_elements().iter().map(|item| **item).collect::<Vec<_>>()
    );

    list.append_unchecked("b2", 2).unwrap();

    assert_eq!(
        vec!["a", "b", "b2"],
        list.get_elements().iter().map(|item| **item).collect::<Vec<_>>()
    );
    assert_eq!(3, list.len());
}

#[test]
fn test_map_checked_next_and_overwrite() {
    let mut map: PriorityMap<&str, u8> = PriorityMap::new();

    map.insert_checked("a", 1, 0).unwrap();
    map.insert_checked("c", 3, 2).unwrap();
    assert_eq!(1, map.insert_next("b", 2).unwrap());

    let keys: Vec<&str> = map.get_elements().iter().map(|pair| *pair.0).collect();
    assert_eq!(vec!["a", "b", "c"], keys);

    map.insert_unchecked("b2", 9, 2).unwrap();

    let keys: Vec<&str> = map.get_elements().iter().map(|pair| *pair.0).collect();
    assert_eq!(vec!["a", "b", "b2"], keys);
    assert_eq!(Some(&9), map.get(2));
}

#[test]
fn test_list_checked_rejections_leave_count() {
    let mut list: PriorityList<&str> = PriorityList::new();

    list.append_checked("a", 5).unwrap();
    assert_eq!(1, list.len());

    // Collision: no mutation.
    assert_eq!(Err(QueueError::PriorityTaken), list.append_checked("b", 5));
    assert_eq!(1, list.len());
    assert_eq!(Some(&"a"), list.get_element_at_priority(5));

    // Out of range: no mutation.
    assert_eq!(Err(QueueError::PriorityOutOfRange), list.append_checked("b", 300));
    assert_eq!(Err(QueueError::PriorityOutOfRange), list.append_unchecked("b", 300));
    assert_eq!(1, list.len());
}

#[test]
fn test_list_next_free_slot_exhaustion() {
    let mut list = PriorityList::with_priority_range(10, 12);
    assert_eq!((10, 12), list.priority_range());
    assert_eq!(3, list.priority_len());

    assert_eq!(10, list.append_next("x").unwrap());
    assert_eq!(11, list.append_next("y").unwrap());
    assert_eq!(12, list.append_next("z").unwrap());
    assert_eq!(Err(QueueError::RangeExhausted), list.append_next("w"));
    assert_eq!(3, list.len());
}

#[test]
fn test_list_shift_to_insert() {
    let mut list: PriorityList<&str> = PriorityList::new();
    list.append_checked("a", 0).unwrap();
    list.append_checked("b", 1).unwrap();
    list.append_checked("d", 2).unwrap();
    list.append_checked("e", 5).unwrap();

    // Shift everything at slot 1 or above up by one and take slot 1.
    assert_eq!(Ok(1), list.push("c", Some(1)));

    assert_eq!(5, list.len());
    assert_eq!(Some(&"a"), list.get_element_at_priority(0));
    assert_eq!(Some(&"c"), list.get_element_at_priority(1));
    assert_eq!(Some(&"b"), list.get_element_at_priority(2));
    assert_eq!(Some(&"d"), list.get_element_at_priority(3));
    assert_eq!(Some(&"e"), list.get_element_at_priority(6));
    assert_eq!(
        vec!["a", "c", "b", "d", "e"],
        list.get_elements().iter().map(|item| **item).collect::<Vec<_>>()
    );
}

#[test]
fn test_list_push_without_slot_appends_at_count() {
    let mut list: PriorityList<&str> = PriorityList::new();
    list.append_checked("a", 0).unwrap();
    list.append_checked("b", 1).unwrap();

    assert_eq!(Ok(2), list.push("c", None));
    assert_eq!(
        vec!["a", "b", "c"],
        list.get_elements().iter().map(|item| **item).collect::<Vec<_>>()
    );
}

#[test]
fn test_list_shift_rejections() {
    let mut list = PriorityList::with_priority_range(0, 2);
    list.append_checked("a", 0).unwrap();
    list.append_checked("top", 2).unwrap();

    // The topmost slot of the range is occupied: a shift would push it out.
    assert_eq!(Err(QueueError::RangeExhausted), list.push("b", Some(1)));
    assert_eq!(2, list.len());

    // A target outside the range is rejected outright.
    assert_eq!(Err(QueueError::PriorityOutOfRange), list.push("b", Some(3)));
    assert_eq!(2, list.len());
}

#[test]
fn test_map_shift_to_insert() {
    let mut map: PriorityMap<&str, u8> = PriorityMap::new();
    map.insert_checked("a", 1, 0).unwrap();
    map.insert_checked("b", 2, 1).unwrap();
    map.insert_checked("d", 4, 2).unwrap();

    assert_eq!(Ok(1), map.push("c", 3, Some(1)));

    let keys: Vec<&str> = map.get_elements().iter().map(|pair| *pair.0).collect();
    assert_eq!(vec!["a", "c", "b", "d"], keys);
    assert_eq!(Some(&2), map.get(2));
    assert_eq!(Some(&4), map.get(3));
}

#[test]
fn test_list_accessors_and_pops() {
    let mut list: PriorityList<&str> = PriorityList::new();
    assert!(list.is_empty());
    assert_eq!(256, list.priority_len());

    list.append_checked("mid", 5).unwrap();
    list.append_checked("low", 1).unwrap();
    list.append_checked("high", 9).unwrap();
    assert!(!list.is_empty());
    assert_eq!(3, list.len());

    assert_eq!(Some(&"mid"), list.get_element_at_priority(5));
    assert_eq!(None, list.get_element_at_priority(4));

    assert_eq!(Some("low"), list.pop_next());
    assert_eq!(Some("high"), list.pop_last());
    assert_eq!(Some("mid"), list.remove_element_at_priority(5));
    assert_eq!(None, list.remove_element_at_priority(5));
    assert!(list.is_empty());
    assert_eq!(None, list.pop_next());
    assert_eq!(None, list.pop_last());
}

#[test]
fn test_map_accessors_and_pops() {
    let mut map: PriorityMap<u8, &str> = PriorityMap::with_priority_range(10, 19);
    assert!(map.is_empty());
    assert_eq!(10, map.priority_len());
    assert_eq!((10, 19), map.priority_range());

    map.insert_checked(1, "one", 15).unwrap();
    map.insert_checked(2, "two", 11).unwrap();
    map.insert_checked(3, "three", 18).unwrap();
    assert_eq!(3, map.len());

    assert_eq!(Some(&"one"), map.get(15));
    assert_eq!(None, map.get(12));
    assert_eq!(Ok(10), map.find_next_available_priority());

    assert_eq!(Some((2, "two")), map.pop_next());
    assert_eq!(Some((3, "three")), map.pop_last());
    assert_eq!(Some("one"), map.remove(15));
    assert_eq!(None, map.remove(15));
    assert!(map.is_empty());
    assert_eq!(None, map.pop_next());
    assert_eq!(None, map.pop_last());
}

#[test]
fn test_map_rejections() {
    let mut map: PriorityMap<&str, u8> = PriorityMap::with_priority_range(0, 1);

    map.insert_checked("a", 1, 0).unwrap();
    assert_eq!(Err(QueueError::PriorityTaken), map.insert_checked("b", 2, 0));
    assert_eq!(Err(QueueError::PriorityOutOfRange), map.insert_checked("b", 2, 9));
    assert_eq!(Err(QueueError::PriorityOutOfRange), map.insert_unchecked("b", 2, 9));
    assert_eq!(1, map.len());

    map.insert_checked("b", 2, 1).unwrap();
    assert_eq!(Err(QueueError::RangeExhausted), map.insert_next("c", 3));
    assert_eq!(2, map.len());
}
