use branches::fibonacci::fibonacci;
use branches::fibonacci::FibonacciError;

#[test]
fn first_two_terms_are_one() {
    assert_eq!(fibonacci(0), Ok(1));
    assert_eq!(fibonacci(1), Ok(1));
}

#[test]
fn small_indices_follow_the_pinned_sequence() {
    assert_eq!(fibonacci(2), Ok(2));
    assert_eq!(fibonacci(3), Ok(3));
    assert_eq!(fibonacci(4), Ok(5));
    assert_eq!(fibonacci(5), Ok(8));
}

#[test]
fn negative_indices_are_rejected() {
    assert_eq!(fibonacci(-1), Err(FibonacciError::InvalidArgument));
    assert_eq!(fibonacci(-100), Err(FibonacciError::InvalidArgument));
}

#[test]
fn index_97_exceeds_a_signed_64_bit_value() {
    let term: i128 = fibonacci(97).unwrap();
    assert!(term > i64::MAX as i128);
    assert_eq!(term, 135301852344706746049);
}

#[test]
fn repeated_calls_agree() {
    assert_eq!(fibonacci(30), fibonacci(30));
    assert_eq!(fibonacci(97), fibonacci(97));
    assert_eq!(fibonacci(-7), fibonacci(-7));
}

#[test]
fn recurrence_holds_at_each_sampled_index() {
    let mut n: i32 = 2;
    while n <= 126 {
        let two_back: i128 = fibonacci(n - 2).unwrap();
        let one_back: i128 = fibonacci(n - 1).unwrap();
        let term: i128 = fibonacci(n).unwrap();
        assert_eq!(term, one_back + two_back);
        n += 1;
    }
}
