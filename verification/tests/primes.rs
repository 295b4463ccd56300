use exercises::primes::{is_prime, n_primes, primes_in_range};

#[test]
fn test_is_prime() {
    assert!(!is_prime(0));
    assert!(!is_prime(1));
    assert!(is_prime(2));
    assert!(is_prime(3));
    assert!(is_prime(5));
    assert!(is_prime(7));
    assert!(is_prime(11));
    assert!(is_prime(13));
    assert!(is_prime(17));
    assert!(is_prime(19));
    assert!(!is_prime(4));
    assert!(!is_prime(6));
    assert!(!is_prime(8));
    assert!(!is_prime(9));
    assert!(!is_prime(10));
    assert!(is_prime(113));
}

#[test]
fn test_n_primes() {
    let primes = n_primes(0);
    assert_eq!(primes, Vec::new());

    let primes = n_primes(10);
    assert_eq!(primes, vec![2, 3, 5, 7, 11, 13, 17, 19, 23, 29]);

    let primes = n_primes(20);
    assert_eq!(
        primes,
        vec![2, 3, 5, 7, 11, 13, 17, 19, 23, 29, 31, 37, 41, 43, 47, 53, 59, 61, 67, 71]
    );
}

#[test]
fn test_primes_in_range() {
    let primes = primes_in_range(2..100);

    assert_eq!(
        primes,
        vec![
            2, 3, 5, 7, 11, 13, 17, 19, 23, 29, 31, 37, 41, 43, 47, 53, 59, 61, 67, 71, 73, 79,
            83, 89, 97
        ]
    );
}

#[test]
fn is_prime_at_squares_and_limits() {
    assert!(!is_prime(25));
    assert!(!is_prime(49));
    assert!(!is_prime(121));
    assert!(!is_prime(65_521 * 65_521));
    assert!(is_prime(65_521));
    assert!(is_prime(4_294_967_291));
    assert!(!is_prime(4_294_967_295));
    assert!(!is_prime(4_294_836_225));
}

#[test]
fn n_primes_of_one() {
    assert_eq!(n_primes(1), vec![2]);
}

#[test]
fn primes_in_range_leaves_the_end_out() {
    assert_eq!(primes_in_range(7..11), vec![7]);
    assert_eq!(primes_in_range(7..12), vec![7, 11]);
    assert_eq!(primes_in_range(0..3), vec![2]);
}

#[test]
fn primes_in_range_of_empty_or_backward_range() {
    assert_eq!(primes_in_range(5..5), Vec::<u32>::new());
    assert_eq!(primes_in_range(10..2), Vec::<u32>::new());
    assert_eq!(primes_in_range(24..29), Vec::<u32>::new());
}

#[test]
fn primes_in_range_up_to_the_largest_value() {
    assert_eq!(primes_in_range(4_294_967_280..u32::MAX), vec![4_294_967_291]);
}
