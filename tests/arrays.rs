use sixty_challenge_days::arrays::{rotate_3_way_reverses, rotate_left};

#[test]
fn should_rotate_by_inplace() {
    let mut array = [1, 2, 3, 4, 5, 6];

    rotate_3_way_reverses(&mut array, 2);
    assert_eq!(array, [3, 4, 5, 6, 1, 2]);
}

#[test]
fn should_rotate_by_original_element_storage() {
    let mut array = [1, 2, 3, 4, 5, 6];

    rotate_left(&mut array, 2);
    assert_eq!(array, [3, 4, 5, 6, 1, 2])
}

#[test]
fn rotation_by_length_or_more_changes_nothing() {
    let mut array = [1, 2, 3];
    rotate_3_way_reverses(&mut array, 3);
    rotate_left(&mut array, 7);
    assert_eq!(array, [1, 2, 3]);
}
