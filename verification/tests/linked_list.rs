use dsa_rs::linked_list::LinkedList;

#[test]
fn linked_list_test_new() {
    let empty: LinkedList<i32> = LinkedList::new(None);
    assert_eq!(empty, LinkedList::from([]));
    let non_empty = LinkedList::new(Some(42));
    assert_eq!(non_empty, LinkedList::from([42]))
}

#[test]
fn test_append() {
    let mut list = LinkedList::from([1, 2, 3]);
    list.append(4);
    assert_eq!(list, LinkedList::from([1, 2, 3, 4]));
}

#[test]
fn linked_list_test_append() {
    let mut list = LinkedList::from([1, 2, 3]);
    list.append(4);
    assert_eq!(list, LinkedList::from([1, 2, 3, 4]));
}

#[test]
fn test_prepend() {
    let mut list = LinkedList::from([1, 2, 3]);
    list.prepend(0);
    assert_eq!(list, LinkedList::from([0, 1, 2, 3]));
}

#[test]
fn linked_list_test_prepend() {
    let mut list = LinkedList::from([1, 2, 3]);
    list.prepend(0);
    assert_eq!(list, LinkedList::from([0, 1, 2, 3]));
}

#[test]
fn test_clear() {
    let mut list = LinkedList::from([1, 2, 3]);
    list.clear();
    assert_eq!(list, LinkedList::from([]));
}

#[test]
fn test_tail() {
    let list = LinkedList::from([1, 2, 3]);
    let tail = list.tail();
    assert_eq!(tail, LinkedList::from([2, 3]))
}

#[test]
fn test_drop() {
    let mut list = LinkedList::from([1, 2, 3]);
    list.drop();
    assert_eq!(list, LinkedList::from([2, 3]))
}

#[test]
fn test_reverse() {
    let mut list = LinkedList::from([1, 2, 3, 4, 5]);
    list.reverse();
    assert_eq!(list, LinkedList::from([5, 4, 3, 2, 1]))
}

#[test]
fn test_iter() {
    let list = LinkedList::from([1, 2, 3, 4, 5]);
    let mut vec = Vec::new();
    let mut iter = list.iter();
    while let Some(item) = iter.next() {
        vec.push(item);
    }
    assert_eq!(vec, vec![&1, &2, &3, &4, &5]);
}

#[test]
fn test_into_iter() {
    let list = LinkedList::from([1, 2, 3, 4, 5]);
    let mut vec = Vec::new();
    let mut iter = list.into_iter();
    while let Some(item) = iter.next() {
        vec.push(item);
    }
    assert_eq!(vec, vec![1, 2, 3, 4, 5]);
}

#[test]
fn from_array_keeps_the_order() {
    let list = LinkedList::from(["let's", "learn", "rust"]);
    assert_eq!(list.into_vec(), vec!["let's", "learn", "rust"]);
}

#[test]
fn into_vec_of_the_empty_list_is_empty() {
    let list: LinkedList<u8> = LinkedList::new(None);
    assert_eq!(list.into_vec(), Vec::<u8>::new());
}

#[test]
fn append_to_the_empty_list() {
    let mut list: LinkedList<i32> = LinkedList::new(None);
    list.append(1);
    assert_eq!(list, LinkedList::from([1]));
    list.append(2);
    assert_eq!(list.into_vec(), vec![1, 2]);
}

#[test]
fn prepend_to_the_empty_list() {
    let mut list: LinkedList<i32> = LinkedList::new(None);
    list.prepend(1);
    assert_eq!(list, LinkedList::new(Some(1)));
}

#[test]
fn tail_of_the_empty_list_is_empty() {
    let list: LinkedList<i32> = LinkedList::new(None);
    assert_eq!(list.tail(), LinkedList::from([]));
    let one = LinkedList::new(Some(1));
    assert_eq!(one.tail(), LinkedList::from([]));
}

#[test]
fn drop_on_the_empty_list_changes_nothing() {
    let mut list: LinkedList<i32> = LinkedList::new(None);
    list.drop();
    assert_eq!(list, LinkedList::from([]));
    let mut one = LinkedList::new(Some(1));
    one.drop();
    assert_eq!(one, LinkedList::from([]));
}

#[test]
fn reverse_of_short_lists() {
    let mut empty: LinkedList<i32> = LinkedList::new(None);
    empty.reverse();
    assert_eq!(empty, LinkedList::from([]));
    let mut one = LinkedList::from([1]);
    one.reverse();
    assert_eq!(one, LinkedList::from([1]));
    let mut two = LinkedList::from([1, 2]);
    two.reverse();
    assert_eq!(two, LinkedList::from([2, 1]));
}

#[test]
fn reverse_twice_gives_the_list_back() {
    let mut list = LinkedList::from(['x', 'y', 'z']);
    list.reverse();
    list.reverse();
    assert_eq!(list, LinkedList::from(['x', 'y', 'z']));
}

#[test]
fn iterators_end_with_none_and_stay_there() {
    let list = LinkedList::from([1]);
    let mut iter = list.iter();
    assert_eq!(iter.next(), Some(&1));
    assert_eq!(iter.next(), None);
    assert_eq!(iter.next(), None);
    let mut owned = list.into_iter();
    assert_eq!(owned.next(), Some(1));
    assert_eq!(owned.next(), None);
    assert_eq!(owned.next(), None);
}

#[test]
fn iter_leaves_the_list_as_it_is() {
    let list = LinkedList::from([1, 2]);
    let mut iter = list.iter();
    assert_eq!(iter.next(), Some(&1));
    assert_eq!(iter.next(), Some(&2));
    assert_eq!(list, LinkedList::from([1, 2]));
}
