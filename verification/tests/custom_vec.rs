use rust_notes::custom_vec::Vector;

#[test]
fn test_vec() {
    let mut arr = Vector::new();
    arr.push(0);
    arr.push(1);
    arr.push(2);
    let mut it = arr.into_iter();
    while let Some(v) = it.next() {
        println!("- {}", v);
    }
    assert_eq!(*arr.get_ref(0), 0);
    assert_eq!(*arr.get_ref(1), 1);
    assert_eq!(*arr.get_ref(2), 2);
    assert_eq!(arr.pop().unwrap(), 2);
    assert_eq!(arr.pop().unwrap(), 1);
    assert_eq!(arr.pop().unwrap(), 0);
}

#[test]
fn capacity_starts_at_four_and_doubles_when_full() {
    let mut arr = Vector::new();
    assert_eq!(arr.cap(), 0);
    assert_eq!(arr.len(), 0);
    let mut caps = Vec::new();
    for i in 0..10u64 {
        arr.push(i);
        caps.push(arr.cap());
    }
    assert_eq!(caps, vec![4, 4, 4, 4, 8, 8, 8, 8, 16, 16]);
    assert_eq!(arr.len(), 10);
}

#[test]
fn pop_keeps_the_capacity() {
    let mut arr = Vector::new();
    for i in 0..5 {
        arr.push(i);
    }
    assert_eq!(arr.cap(), 8);
    assert_eq!(arr.pop(), Some(4));
    assert_eq!(arr.cap(), 8);
    assert_eq!(arr.len(), 4);
    arr.push(9);
    assert_eq!(arr.cap(), 8);
}

#[test]
fn pop_on_empty_is_none() {
    let mut arr: Vector<String> = Vector::new();
    assert_eq!(arr.pop(), None);
    assert_eq!(arr.cap(), 0);
}

#[test]
fn write_through_get_mut_ref() {
    let mut arr = Vector::new();
    arr.push(10);
    arr.push(20);
    *arr.get_mut_ref(1) = 25;
    assert_eq!(arr.as_slice(), &[10, 25]);
    assert_eq!(arr.cap(), 4);
}

#[test]
fn into_iter_yields_all_then_none() {
    let mut arr = Vector::new();
    arr.push('x');
    arr.push('y');
    let mut it = arr.into_iter();
    assert_eq!(it.next(), Some(&'x'));
    assert_eq!(it.next(), Some(&'y'));
    assert_eq!(it.next(), None);
    assert_eq!(it.next(), None);
}
