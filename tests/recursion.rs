use sixty_challenge_days::recursion::{fatorial, fibonnaci, fibonnaci_mem};

#[test]
fn test_fatorial() {
    assert_eq!(fatorial(0), 1);
    assert_eq!(fatorial(1), 1);
    assert_eq!(fatorial(5), 120);
    assert_eq!(fatorial(10), 3628800);
}

#[test]
fn test_fibonnaci() {
    assert_eq!(fibonnaci(1), 1);
    assert_eq!(fibonnaci(2), 1);
    assert_eq!(fibonnaci(5), 5);
    assert_eq!(fibonnaci(10), 55);
}

#[test]
fn test_fibonnaci_mem() {
    assert_eq!(fibonnaci_mem()(1), 1);
    assert_eq!(fibonnaci_mem()(2), 1);
    assert_eq!(fibonnaci_mem()(5), 5);
    assert_eq!(fibonnaci_mem()(10), 55);
}

#[test]
fn largest_factorial_in_u64() {
    assert_eq!(fatorial(20), 2432902008176640000);
}
