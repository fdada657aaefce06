use dsa_rs::ring::physical_index;

#[test]
fn index_within_the_ring_is_the_sum() {
    assert_eq!(physical_index(0, 0, 4), 0);
    assert_eq!(physical_index(1, 2, 4), 3);
    assert_eq!(physical_index(0, 3, 4), 3);
}

#[test]
fn index_past_the_end_wraps_to_the_start() {
    assert_eq!(physical_index(2, 2, 4), 0);
    assert_eq!(physical_index(2, 3, 4), 1);
    assert_eq!(physical_index(3, 1, 4), 0);
}

#[test]
fn a_full_turn_comes_back_to_the_head() {
    assert_eq!(physical_index(3, 4, 4), 3);
    assert_eq!(physical_index(0, 1, 1), 0);
    assert_eq!(physical_index(0, 7, 7), 0);
}

#[test]
fn index_is_the_remainder_of_the_sum() {
    let capacity: usize = 7;
    let mut head: usize = 0;
    while head < capacity {
        let mut offset: usize = 0;
        while offset <= capacity {
            assert_eq!(physical_index(head, offset, capacity), (head + offset) % capacity);
            offset += 1;
        }
        head += 1;
    }
}

#[test]
fn index_near_the_largest_number_does_not_overflow() {
    assert_eq!(physical_index(usize::MAX - 1, usize::MAX, usize::MAX), usize::MAX - 1);
    assert_eq!(physical_index(usize::MAX - 1, 1, usize::MAX), 0);
    assert_eq!(physical_index(usize::MAX - 2, 1, usize::MAX), usize::MAX - 1);
}
