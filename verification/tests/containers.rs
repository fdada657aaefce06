use dsa_rs::linked_list::LinkedList;
use dsa_rs::queue::Queue;
use dsa_rs::stack::Stack;
use dsa_rs::vector::Vector;

#[test]
fn lib_test_new() {
    let empty: LinkedList<()> = LinkedList::new(None);
    assert_eq!(empty, LinkedList::from([]));
    let non_empty = LinkedList::new(Some(42));
    assert_eq!(non_empty, LinkedList::from([42]));
    let queue = Queue::<i32>::new();
    assert_eq!(queue.size(), 0);
    let stack = Stack::<()>::new();
    assert_eq!(stack.size(), 0);
    let vector = Vector::<i32>::new();
    assert_eq!(vector.capacity(), 0);
}
