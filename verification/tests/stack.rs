use dsa_rs::stack::Stack;

#[test]
fn test_push() {
    let mut stack = Stack::new();
    stack.push(41);
    stack.push(42);
    stack.push(43);
    stack.push(44);
    stack.push(45);
    assert_eq!(stack.size(), 5);
}

#[test]
fn test_pop() {
    let mut stack = Stack::new();
    assert_eq!(stack.size(), 0);
    assert_eq!(stack.pop(), None);
    stack.push(42);
    assert_eq!(stack.size(), 1);
    assert_eq!(stack.pop(), Some(42));
    assert_eq!(stack.size(), 0);
}

#[test]
fn pop_returns_the_newest_first() {
    let mut stack = Stack::new();
    stack.push('a');
    stack.push('b');
    stack.push('c');
    assert_eq!(stack.pop(), Some('c'));
    stack.push('d');
    assert_eq!(stack.pop(), Some('d'));
    assert_eq!(stack.pop(), Some('b'));
    assert_eq!(stack.pop(), Some('a'));
    assert_eq!(stack.pop(), None);
}

#[test]
fn stack_grows_to_four_then_doubles() {
    let mut stack = Stack::new();
    assert_eq!(stack.capacity(), 0);
    stack.push(1);
    assert_eq!(stack.capacity(), 4);
    stack.push(2);
    stack.push(3);
    stack.push(4);
    assert_eq!(stack.capacity(), 4);
    stack.push(5);
    assert_eq!(stack.capacity(), 8);
    assert_eq!(stack.pop(), Some(5));
    assert_eq!(stack.capacity(), 8);
}

#[test]
fn stack_try_push_pushes_as_push_does() {
    let mut stack = Stack::new();
    assert_eq!(stack.try_push('a'), Ok(()));
    assert_eq!(stack.capacity(), 4);
    assert_eq!(stack.try_push('b'), Ok(()));
    assert_eq!(stack.try_push('c'), Ok(()));
    assert_eq!(stack.try_push('d'), Ok(()));
    assert_eq!(stack.try_push('e'), Ok(()));
    assert_eq!(stack.capacity(), 8);
    assert_eq!(stack.size(), 5);
    assert_eq!(stack.pop(), Some('e'));
    assert_eq!(stack.pop(), Some('d'));
}
