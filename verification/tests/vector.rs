use dsa_rs::vector::Vector;

#[test]
fn lib_test_push() {
    let mut vector = Vector::<char>::new();
    vector.push('a');
    vector.push('b');
    assert_eq!(vector.len(), 2);
    assert_eq!(vector.capacity(), 4);
    vector.push('c');
    vector.push('d');
    vector.push('e');
    assert_eq!(vector.len(), 5);
    assert_eq!(vector.capacity(), 8);
}

#[test]
fn at_gives_the_element_by_index() {
    let mut vector = Vector::new();
    vector.push(10);
    vector.push(20);
    vector.push(30);
    assert_eq!(vector.at(0), Some(&10));
    assert_eq!(vector.at(1), Some(&20));
    assert_eq!(vector.at(2), Some(&30));
}

#[test]
fn at_beyond_the_length_is_none() {
    let mut vector = Vector::new();
    assert_eq!(vector.at(0), None);
    vector.push(10);
    assert_eq!(vector.at(1), None);
    assert_eq!(vector.at(3), None);
    assert_eq!(vector.at(usize::MAX), None);
}

#[test]
fn elements_keep_their_index_when_the_vector_grows() {
    let mut vector = Vector::new();
    let mut next: usize = 0;
    while next < 17 {
        vector.push(next * 2);
        next += 1;
    }
    assert_eq!(vector.len(), 17);
    assert_eq!(vector.capacity(), 32);
    let mut index: usize = 0;
    while index < 17 {
        assert_eq!(vector.at(index), Some(&(index * 2)));
        index += 1;
    }
}

#[test]
fn vector_try_push_pushes_as_push_does() {
    let mut vector = Vector::new();
    assert_eq!(vector.try_push(1), Ok(()));
    assert_eq!(vector.capacity(), 4);
    assert_eq!(vector.try_push(2), Ok(()));
    assert_eq!(vector.try_push(3), Ok(()));
    assert_eq!(vector.try_push(4), Ok(()));
    assert_eq!(vector.try_push(5), Ok(()));
    assert_eq!(vector.capacity(), 8);
    assert_eq!(vector.len(), 5);
    assert_eq!(vector.at(4), Some(&5));
    assert_eq!(vector.at(5), None);
}
