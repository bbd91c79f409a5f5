use sixty_challenge_days::sort;
use sixty_challenge_days::sorting::{
    bubble_sort, insertion_sort, insertion_sort_optimization, merge_sort, middle_of_three,
    quick_sort_hoare, quick_sort_lomuto, quick_sort_middle_three, quick_sort_random,
    quick_sort_with_custom_part, selection_sort,
};

#[test]
fn test_insertion_sort() {
    let mut data = [34i32, 25, 51, 1, 4, 5, 99, 105];
    insertion_sort(&mut data);
    assert_eq!(data, [1, 4, 5, 25, 34, 51, 99, 105]);
}

#[test]
fn test_insertion_sort_optimization() {
    let mut data = [34i32, 25, 51, 1, 4, 5, 99, 105];
    insertion_sort_optimization(&mut data);
    assert_eq!(data, [1, 4, 5, 25, 34, 51, 99, 105]);
}

#[test]
fn test_quick_sort_with_lomuto_partition() {
    let mut data = [34i32, 25, 51, 1, 4, 5, 106, 105];
    quick_sort_hoare(&mut data);
    assert_eq!(data, [1, 4, 5, 25, 34, 51, 105, 106]);
}

#[test]
fn test_quick_sort_with_hoare_partition() {
    let mut data = [34i32, 25, 51, 1, 4, 5, 106, 105];
    quick_sort_hoare(&mut data);
    assert_eq!(data, [1, 4, 5, 25, 34, 51, 105, 106]);
}

#[test]
fn test_quick_sort_with_custom_strategy() {
    let mut data = [34i32, 25, 51, 1, 4, 5, 106, 105];
    quick_sort_with_custom_part(&mut data, &|len| len - 1);
    assert_eq!(data, [1, 4, 5, 25, 34, 51, 105, 106]);
}

#[test]
fn test_bubble_sort() {
    let mut data = [34i32, 25, 51, 1, 4, 5, 106, 105];
    bubble_sort(&mut data);
    assert_eq!(data, [1, 4, 5, 25, 34, 51, 105, 106]);
}

#[test]
fn test_selection_sort() {
    let mut data = [34i32, 25, 51, 1, 4, 5, 106, 105];
    selection_sort(&mut data);
    assert_eq!(data, [1, 4, 5, 25, 34, 51, 105, 106]);
}

#[test]
fn test_merge_sort() {
    let mut data = [34i32, 25, 51, 1, 4, 5, 106, 105];
    merge_sort(&mut data);
    assert_eq!(data, [1, 4, 5, 25, 34, 51, 105, 106]);
}

#[test]
fn should_sort_data() {
    let mut data = [34i32, 25, 51, 1, 4, 5, 99, 105];
    sort::insertion_sort(&mut data);
    assert_eq!(data, [1, 4, 5, 25, 34, 51, 99, 105]);
}

#[test]
fn insertion_sort_by_orders_ascending() {
    let mut data = [3i32, -1, 3, 0];
    sort::insertion_sort_by(&mut data);
    assert_eq!(data, [-1, 0, 3, 3]);
}

#[test]
fn quick_sort_lomuto_keeps_duplicates() {
    let mut data = [5i32, 1, 5, 1, 5];
    quick_sort_lomuto(&mut data);
    assert_eq!(data, [1, 1, 5, 5, 5]);
}

#[test]
fn quick_sort_middle_three_sorts() {
    let mut data = [9i32, 8, 7, 6, 5, 4, 3, 2, 1, 0];
    quick_sort_middle_three(&mut data);
    assert_eq!(data, [0, 1, 2, 3, 4, 5, 6, 7, 8, 9]);
}

#[test]
fn quick_sort_random_sorts() {
    let mut data = [34i32, 25, 51, 1, 4, 5, 106, 105, 2, 2];
    quick_sort_random(&mut data);
    assert_eq!(data, [1, 2, 2, 4, 5, 25, 34, 51, 105, 106]);
}

#[test]
fn middle_of_three_offsets() {
    assert_eq!(middle_of_three(2), 1);
    assert_eq!(middle_of_three(3), 2);
    assert_eq!(middle_of_three(8), 4);
}

#[test]
fn sorts_handle_empty_and_single() {
    let mut empty: [i32; 0] = [];
    merge_sort(&mut empty);
    bubble_sort(&mut empty);
    insertion_sort_optimization(&mut empty);
    let mut one = [i32::MIN];
    selection_sort(&mut one);
    quick_sort_hoare(&mut one);
    assert_eq!(one, [i32::MIN]);
}
