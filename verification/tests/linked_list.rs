use rust_notes::linked_list::{Entry, LinkedList};

#[test]
fn test_push_pop() {
    let mut ll = LinkedList::new();
    ll.push_back(1);
    ll.push_back(2);
    assert_eq!(ll.pop_front().unwrap().value, 1);
    assert_eq!(ll.pop_front().unwrap().value, 2);
    ll.push_back(5);
    ll.push_back(6);
    assert_eq!(ll.pop_back().unwrap().value, 6);
    assert_eq!(ll.pop_back().unwrap().value, 5);
    assert!(ll.pop_back().is_none());
}

#[test]
fn test_iter() {
    let mut ll = LinkedList::new();
    for i in 1..10 {
        ll.push_back(i)
    }
    let mut it = ll.iter();
    while let Some(v) = it.next() {
        println!("ele:{}", v)
    }
}

#[test]
fn test_drop() {
    let mut ll = LinkedList::new();
    ll.push_back(100);
    ll.push_back(1000);
}

#[test]
fn entry_new_holds_its_value() {
    let e = Entry::new(7u8);
    assert_eq!(e.value, 7);
}

#[test]
fn new_list_is_empty() {
    let mut ll: LinkedList<u32> = LinkedList::new();
    assert!(ll.is_empty());
    assert!(ll.pop_front().is_none());
    assert!(ll.pop_back().is_none());
    assert!(ll.is_empty());
}

#[test]
fn push_back_then_pop_back_gives_the_value_back() {
    let mut ll = LinkedList::new();
    ll.push_back(1);
    ll.push_back(2);
    ll.push_back(3);
    assert_eq!(ll.pop_back().unwrap().value, 3);
    let mut it = ll.iter();
    assert_eq!(it.next(), Some(&1));
    assert_eq!(it.next(), Some(&2));
    assert_eq!(it.next(), None);
}

#[test]
fn pop_front_returns_values_in_push_order() {
    let mut ll = LinkedList::new();
    for i in 0..20u32 {
        ll.push_back(i * 3);
    }
    for i in 0..20u32 {
        assert_eq!(ll.pop_front().unwrap().value, i * 3);
    }
    assert!(ll.is_empty());
}

#[test]
fn pops_from_both_ends_keep_the_middle_in_order() {
    let mut ll = LinkedList::new();
    for i in 0..10 {
        ll.push_back(i);
    }
    assert_eq!(ll.pop_front().unwrap().value, 0);
    assert_eq!(ll.pop_back().unwrap().value, 9);
    assert_eq!(ll.pop_front().unwrap().value, 1);
    ll.push_back(42);
    assert_eq!(ll.pop_front().unwrap().value, 2);
    let mut seen = Vec::new();
    let mut it = ll.iter();
    while let Some(v) = it.next() {
        seen.push(*v);
    }
    assert_eq!(seen, vec![3, 4, 5, 6, 7, 8, 42]);
    assert_eq!(ll.pop_back().unwrap().value, 42);
    assert_eq!(ll.pop_back().unwrap().value, 8);
}

#[test]
fn single_element_leaves_from_either_end() {
    let mut ll = LinkedList::new();
    ll.push_back(String::from("a"));
    assert!(!ll.is_empty());
    assert_eq!(ll.pop_back().unwrap().value, "a");
    assert!(ll.is_empty());
    ll.push_back(String::from("b"));
    assert_eq!(ll.pop_front().unwrap().value, "b");
    assert!(ll.is_empty());
    ll.push_back(String::from("c"));
    let mut it = ll.iter();
    assert_eq!(it.next().map(|s| s.as_str()), Some("c"));
    assert_eq!(it.next(), None);
    assert_eq!(it.next(), None);
}

#[test]
fn iter_over_empty_list_ends_at_once() {
    let ll: LinkedList<i64> = LinkedList::new();
    let mut it = ll.iter();
    assert_eq!(it.next(), None);
}

#[test]
fn popped_entry_value_is_readable_through_its_getter() {
    let mut ll = LinkedList::new();
    ll.push_back(11);
    ll.push_back(12);
    let e = ll.pop_front().unwrap();
    assert_eq!(*e.value(), 11);
    let e = ll.pop_back().unwrap();
    assert_eq!(*e.value(), 12);
}
