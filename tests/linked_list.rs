use sixty_challenge_days::indexed_list;
use sixty_challenge_days::linked_list;

#[test]
fn linked_list_should_compute_the_len_of_the_list() {
    let mut list = indexed_list::LinkedList::<f32>::new();
    list.add_to_tail(&2.54);
    list.add_to_head(&54.654);
    list.add_to_tail(&543.42);
    assert_eq!(list.len(), 3);

    let mut list = linked_list::LinkedList::<f32>::new();
    list.add_to_tail(&2.54);
    list.add_to_head(&54.654);
    list.add_to_tail(&543.42);
    assert_eq!(list.len(), 3);
}

#[test]
fn linked_list_should_add_to_the_head_and_tail_and_linked_correctly() {
    let mut list = indexed_list::LinkedList::<f32>::new();
    list.add_to_tail(&1.00);
    list.add_to_head(&2.54);
    assert_ne!(list.head(), list.tail());
    assert_eq!(list.head(), Some(&2.54));
    assert_eq!(list.tail(), Some(&1.00));

    let mut list = linked_list::LinkedList::<f32>::new();
    list.add_to_tail(&1.00);
    list.add_to_head(&2.54);
    assert_ne!(list.head(), list.tail());
}

#[test]
fn linked_list_should_iterate_the_list() {
    let values = [2.54f32, 54.654, 543.42];
    let mut list = indexed_list::LinkedList::<f32>::new();
    list.add_to_head(&543.42);
    list.add_to_head(&54.654);
    list.add_to_head(&2.54);

    let mut iter = list.iter();
    let mut idx = 0;
    while let Some(node) = iter.next() {
        assert_eq!(values[idx], *node);
        idx += 1;
    }
    assert_eq!(idx, 3);

    let mut list = linked_list::LinkedList::<f32>::new();
    list.add_to_head(&543.42);
    list.add_to_head(&54.654);
    list.add_to_head(&2.54);

    let mut iter = list.iter();
    let mut idx = 0;
    while let Some(node) = iter.next() {
        assert_eq!(values[idx], *node);
        idx += 1;
    }
    assert_eq!(idx, 3);
}

#[test]
fn linked_list_should_delete_a_node_by_its_value() {
    let mut list = indexed_list::LinkedList::<f32>::new();
    list.add_to_head(&543.42);
    list.add_to_head(&54.654);
    list.add_to_head(&2.54);

    let first = list.delete_by_value(54.654);

    assert_eq!(Some(&54.654), first);
    assert_eq!(list.len(), 2);

    let mut list2 = list;
    let second = list2.delete_by_value(2.54);

    assert_eq!(Some(&2.54), second);
    assert_eq!(list2.len(), 1);

    let mut list = linked_list::LinkedList::<f32>::new();
    list.add_to_head(&543.42);
    list.add_to_head(&54.654);
    list.add_to_head(&2.54);

    let first = list.delete_by_value(543.42);

    assert_eq!(Some(&543.42), first);
    assert_eq!(list.len(), 2);

    let mut list2 = list;

    let second = list2.delete_by_value(2.54);

    assert_eq!(Some(&2.54), second);
    assert_eq!(list2.len(), 1);
}

#[test]
fn should_delete_by_pos() {
    let mut list = indexed_list::LinkedList::<f32>::new();
    list.add_to_head(&543.42);
    list.add_to_head(&54.654);
    list.add_to_head(&2.54);

    let first = list.delete_by_pos(1);

    assert_eq!(Some(&54.654), first);
    assert_eq!(list.len(), 2);

    let mut list2 = list;
    let second = list2.delete_by_pos(5415);

    assert_eq!(second, None);
    assert_eq!(list2.len(), 2);
}

#[test]
fn linked_list_shoud_pop_back() {
    let mut list = indexed_list::LinkedList::<f32>::new();
    list.add_to_head(&543.42);
    list.add_to_head(&2.42);

    assert_eq!(Some(&543.42), list.pop_back());
    list.pop_back();
    assert_eq!(None, list.pop_back());

    let mut list = linked_list::LinkedList::<f32>::new();
    list.add_to_head(&543.42);
    list.add_to_head(&2.42);

    assert_eq!(Some(&543.42), list.pop_back());
    list.pop_back();
    assert_eq!(None, list.pop_back())
}

#[test]
fn linked_list_shoud_pop_front() {
    let mut list = indexed_list::LinkedList::<f32>::new();
    list.add_to_head(&543.42);
    list.add_to_head(&2.42);

    assert_eq!(Some(&2.42), list.pop_front());
    list.pop_front();
    assert_eq!(None, list.pop_front());

    let mut list = linked_list::LinkedList::<f32>::new();
    list.add_to_head(&543.42);
    list.add_to_head(&2.42);

    assert_eq!(Some(&2.42), list.pop_front());
    list.pop_front();
    assert_eq!(None, list.pop_front())
}

#[test]
fn should_count_index_position() {
    let mut list = indexed_list::LinkedList::<f32>::new();
    list.add_to_head(&543.42);
    list.add_to_head(&2.42);
    list.add_to_head(&2545.2);

    let mut iter = list.iter_mut();
    let mut idx = 0;
    while let Some(node) = iter.next() {
        assert_eq!(idx + 1, node.index);
        idx += 1;
    }
    assert_eq!(idx, 3);
}

#[test]
fn insert_after_puts_the_element_behind_the_first_match() {
    let mut list = indexed_list::LinkedList::<i32>::new();
    list.add_to_tail(&1);
    list.add_to_tail(&2);
    list.add_to_tail(&2);
    list.insert_after(2, &9);
    list.insert_after(7, &8);
    let mut iter = list.iter();
    let mut seen = Vec::new();
    while let Some(x) = iter.next() {
        seen.push(*x);
    }
    assert_eq!(seen, vec![1, 2, 9, 2]);
}

#[test]
fn delete_by_predicate_sees_positions() {
    let mut list = indexed_list::LinkedList::<i32>::new();
    list.add_to_tail(&10);
    list.add_to_tail(&20);
    list.add_to_tail(&30);
    assert_eq!(list.delete_by_predicate(|node| node.index == 3), Some(&30));
    assert_eq!(list.delete_by_predicate(|node| *node.data > 100), None);
    list.clear();
    assert_eq!(list.len(), 0);
    assert_eq!(list.pop_front(), None);
}
