use shared_cells::refcell::{RefCell, RefState};

#[test]
fn state() {
    let mut a = RefCell::new(5);
    let guard = a.borrow_mut().unwrap();
    let mut_borrow = *guard.deref(&a);
    guard.drop(&mut a);
    assert_eq!(mut_borrow, 5);
    let b = RefCell::new(5);
    assert_eq!(b.state(), RefState::Unshared);
    let guard = a.borrow().unwrap();
    let borrow = *guard.deref(&a);
    guard.drop(&mut a);
    assert_eq!(borrow, 5);

    let mut x = RefCell::new(vec![1, 2, 3, 4]);
    {
        let guard = x.borrow().unwrap();
        println!("{:?}", *guard.deref(&x));
        assert_eq!(*guard.deref(&x), vec![1, 2, 3, 4]);
        guard.drop(&mut x);
    }

    {
        let a = x.borrow().unwrap();
        // A reader is outstanding, so the writer is turned away.
        assert!(x.borrow_mut().is_none());
        a.drop(&mut x);
        let mut my_ref = x.borrow_mut().unwrap();
        my_ref.deref_mut(&mut x).push(1);
        assert_eq!(*my_ref.deref(&x), vec![1, 2, 3, 4, 1]);
        my_ref.drop(&mut x);
    }

    let guard = x.borrow().unwrap();
    assert_eq!(*guard.deref(&x), vec![1, 2, 3, 4, 1]);
    guard.drop(&mut x);
    assert_eq!(x.state(), RefState::Unshared);
}

#[test]
fn new_cell_is_unshared() {
    let cell = RefCell::new(String::from("fresh"));
    assert_eq!(cell.state(), RefState::Unshared);
}

#[test]
fn two_readers_then_no_writer_until_both_are_gone() {
    let mut cell = RefCell::new(3u32);
    let first = cell.borrow().unwrap();
    assert_eq!(cell.state(), RefState::Shared(1));
    let second = cell.borrow().unwrap();
    assert_eq!(cell.state(), RefState::Shared(2));
    assert!(cell.borrow_mut().is_none());
    assert_eq!(cell.state(), RefState::Shared(2));
    first.drop(&mut cell);
    assert_eq!(cell.state(), RefState::Shared(1));
    assert!(cell.borrow_mut().is_none());
    second.drop(&mut cell);
    assert_eq!(cell.state(), RefState::Unshared);
    let writer = cell.borrow_mut();
    assert!(writer.is_some());
    assert_eq!(cell.state(), RefState::Exclusive);
}

#[test]
fn writer_turns_every_request_away() {
    let mut cell = RefCell::new(3u32);
    let writer = cell.borrow_mut().unwrap();
    assert_eq!(cell.state(), RefState::Exclusive);
    assert!(cell.borrow().is_none());
    assert!(cell.borrow_mut().is_none());
    assert!(cell.borrow().is_none());
    assert_eq!(cell.state(), RefState::Exclusive);
    writer.drop(&mut cell);
    assert_eq!(cell.state(), RefState::Unshared);
    let reader = cell.borrow().unwrap();
    reader.drop(&mut cell);
    let writer = cell.borrow_mut().unwrap();
    writer.drop(&mut cell);
    assert_eq!(cell.state(), RefState::Unshared);
}

#[test]
fn readers_given_up_in_any_order() {
    let mut cell = RefCell::new('x');
    let mut guards = Vec::new();
    for n in 1..=7usize {
        guards.push(cell.borrow().unwrap());
        assert_eq!(cell.state(), RefState::Shared(n));
    }
    let mut left = 7usize;
    for at in [3usize, 0, 4, 1, 2, 0, 0] {
        assert!(cell.borrow_mut().is_none());
        assert_eq!(cell.state(), RefState::Shared(left));
        guards.remove(at).drop(&mut cell);
        left -= 1;
    }
    assert!(guards.is_empty());
    assert_eq!(cell.state(), RefState::Unshared);
    assert!(cell.borrow_mut().is_some());
}

#[test]
fn last_reader_restores_unshared() {
    let mut cell = RefCell::new(0u8);
    let reader = cell.borrow().unwrap();
    assert_eq!(cell.state(), RefState::Shared(1));
    reader.drop(&mut cell);
    assert_eq!(cell.state(), RefState::Unshared);
}

#[test]
fn denied_requests_leave_the_value_alone() {
    let mut cell = RefCell::new(vec![7u8, 8]);
    let reader = cell.borrow().unwrap();
    assert!(cell.borrow_mut().is_none());
    assert_eq!(*reader.deref(&cell), vec![7, 8]);
    reader.drop(&mut cell);
    let writer = cell.borrow_mut().unwrap();
    assert!(cell.borrow().is_none());
    assert_eq!(*writer.deref(&cell), vec![7, 8]);
    writer.drop(&mut cell);
}

#[test]
fn writes_through_the_guard_stay_in_the_cell() {
    let mut cell = RefCell::new(10u64);
    let mut writer = cell.borrow_mut().unwrap();
    *writer.deref_mut(&mut cell) = 11;
    *writer.deref_mut(&mut cell) += 4;
    assert_eq!(*writer.deref(&cell), 15);
    assert_eq!(cell.state(), RefState::Exclusive);
    writer.drop(&mut cell);
    let reader = cell.borrow().unwrap();
    assert_eq!(*reader.deref(&cell), 15);
    reader.drop(&mut cell);
}
