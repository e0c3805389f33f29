use arith_demo::process_numbers;

#[test]
fn empty_sequence_sums_to_zero() {
    let numbers: [i32; 0] = [];
    assert_eq!(process_numbers(&numbers), 0);
}

#[test]
fn sample_sequence_sums_to_fifteen() {
    let numbers = [1, 2, 3, 4, 5];
    assert_eq!(process_numbers(&numbers), 15);
}

#[test]
fn reordering_the_sequence_keeps_the_total() {
    assert_eq!(
        process_numbers(&[1, 2, 3, 4, 5]),
        process_numbers(&[5, 3, 1, 4, 2])
    );
}

#[test]
fn negative_numbers_sum_correctly() {
    let numbers = [-4, 9, -5, 0, 7];
    assert_eq!(process_numbers(&numbers), 7);
}

#[test]
fn single_element_sums_to_itself() {
    assert_eq!(process_numbers(&[42]), 42);
}
