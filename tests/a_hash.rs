use sixty_challenge_days::a_hash::AHash;

#[test]
fn should_implemented_a_hash() {
    let mut a_hash = AHash::new();
    a_hash.insert("apple".to_string(), 5);
    a_hash.insert("banana".to_string(), 8);
    a_hash.insert("avocado".to_string(), 7);

    assert_eq!(a_hash.search("banana".to_string()), Some(8));
    assert_eq!(a_hash.search("avocado".to_string()), Some(7));
    assert_eq!(a_hash.search("apple".to_string()), Some(5));
    assert_eq!(a_hash.search("abacaxi".to_string()), None);
}

#[test]
fn first_inserted_value_of_a_key_is_found() {
    let mut a_hash = AHash::new();
    assert_eq!(a_hash.insert("kiwi".to_string(), 1), Some(1));
    assert_eq!(a_hash.insert("kiwi".to_string(), 2), Some(2));
    assert_eq!(a_hash.search("kiwi".to_string()), Some(1));
}

#[test]
fn empty_key_has_no_bucket() {
    let mut a_hash = AHash::new();
    assert_eq!(a_hash.insert(String::new(), 3), None);
    assert_eq!(a_hash.search(String::new()), None);
}
