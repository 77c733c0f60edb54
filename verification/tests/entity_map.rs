use entity_arena::entity_map::{Entity, EntityMap, DEFAULT_CAPACITY};

#[test]
fn new_has_default_capacity_and_no_values() {
    let map = EntityMap::<u64>::new();
    assert_eq!(map.capacity(), DEFAULT_CAPACITY);
    assert_eq!(map.capacity(), 4);
    assert_eq!(map.len(), 0);
}

#[test]
fn default_is_new() {
    let map: EntityMap<u64> = Default::default();
    assert_eq!(map.capacity(), 4);
    assert_eq!(map.len(), 0);
}

#[test]
fn with_capacity_zero_reserves_one_slot() {
    let mut map = EntityMap::<u8>::with_capcity(0);
    assert_eq!(map.capacity(), 1);
    let h = map.insert(7);
    assert_eq!(h.index(), 0);
    assert_eq!(map.capacity(), 1);
}

#[test]
fn with_capacity_reserves_exactly() {
    let map = EntityMap::<u8>::with_capcity(9);
    assert_eq!(map.capacity(), 9);
    assert_eq!(map.len(), 0);
}

#[test]
fn insert_then_get_round_trips() {
    let mut map = EntityMap::<String>::new();
    let h = map.insert(String::from("alpha"));
    assert_eq!(map.get(h), Some(&String::from("alpha")));
    assert!(map.contains(h));
    assert_eq!(map.len(), 1);
}

#[test]
fn fresh_slots_are_handed_out_in_rising_order() {
    let mut map = EntityMap::<u32>::with_capcity(4);
    let handles: Vec<Entity> = (0..4).map(|v| map.insert(v)).collect();
    for (k, h) in handles.iter().enumerate() {
        assert_eq!(h.index(), k);
        assert_eq!(h.generation(), 0);
    }
}

#[test]
fn removal_then_insertion_reuses_the_slot() {
    let mut map = EntityMap::<char>::with_capcity(4);
    let a = map.insert('A');
    let b = map.insert('B');
    let c = map.insert('C');
    let d = map.insert('D');
    assert_eq!(
        (a.index(), b.index(), c.index(), d.index()),
        (0, 1, 2, 3)
    );
    assert_eq!(
        (a.generation(), b.generation(), c.generation(), d.generation()),
        (0, 0, 0, 0)
    );

    assert_eq!(map.remove(b), Some('B'));
    assert_eq!(map.get(b), None);
    assert_eq!(map.len(), 3);

    let e = map.insert('E');
    assert_eq!(e.index(), 1);
    assert_eq!(e.generation(), 1);
    assert_eq!(map.get(b), None);
    assert_eq!(map.get(e), Some(&'E'));
    assert_eq!(map.len(), 4);
    assert_eq!(map.capacity(), 4);
}

#[test]
fn fifth_insert_doubles_a_full_table_of_four() {
    let mut map = EntityMap::<u64>::with_capcity(4);
    for v in 0..4 {
        map.insert(v);
    }
    assert_eq!(map.capacity(), 4);
    assert_eq!(map.len(), 4);
    let h = map.insert(40);
    assert!(map.capacity() >= 8);
    assert_eq!(map.capacity(), 8);
    assert_eq!(h.index(), 4);
    assert_eq!(h.generation(), 0);
    assert_eq!(map.get(h), Some(&40));
    assert_eq!(map.len(), 5);
}

#[test]
fn removed_handle_stays_absent() {
    let mut map = EntityMap::<u64>::with_capcity(2);
    let h = map.insert(1);
    assert_eq!(map.remove(h), Some(1));
    assert_eq!(map.remove(h), None);
    assert_eq!(map.get(h), None);
    assert!(!map.contains(h));
    for round in 0..20u64 {
        let k = map.insert(round);
        assert_eq!(map.get(h), None);
        assert_eq!(map.remove(h), None);
        assert_eq!(map.get_mut(h), None);
        assert_eq!(map.remove(k), Some(round));
    }
    assert_eq!(map.len(), 0);
}

#[test]
fn last_removed_slot_is_filled_first() {
    let mut map = EntityMap::<u64>::with_capcity(8);
    let handles: Vec<Entity> = (0..6).map(|v| map.insert(v)).collect();
    assert_eq!(map.remove(handles[2]), Some(2));
    assert_eq!(map.remove(handles[4]), Some(4));
    let first = map.insert(60);
    let second = map.insert(61);
    let third = map.insert(62);
    assert_eq!(first.index(), 4);
    assert_eq!(second.index(), 2);
    assert_eq!(third.index(), 6);
    assert_eq!(first.generation(), 2);
    assert_eq!(second.generation(), 2);
}

#[test]
fn len_counts_the_live_handles() {
    let mut map = EntityMap::<usize>::new();
    let mut live: Vec<Entity> = Vec::new();
    for v in 0..50 {
        live.push(map.insert(v));
        assert_eq!(map.len(), live.len());
        if v % 3 == 2 {
            let h = live.remove(v / 3);
            assert!(map.remove(h).is_some());
            assert_eq!(map.len(), live.len());
        }
    }
    for h in &live {
        assert!(map.contains(*h));
    }
    assert!(map.capacity() >= map.len());
}

#[test]
fn try_insert_fails_only_when_full_and_hands_the_value_back() {
    let mut map = EntityMap::<String>::with_capcity(1);
    let h = map.try_insert(String::from("one")).unwrap();
    assert_eq!(h.index(), 0);
    assert_eq!(map.try_insert(String::from("two")), Err(String::from("two")));
    assert_eq!(map.capacity(), 1);
    assert_eq!(map.len(), 1);
    assert_eq!(map.remove(h), Some(String::from("one")));
    let again = map.try_insert(String::from("three")).unwrap();
    assert_eq!(again.index(), 0);
    assert_eq!(again.generation(), 1);
}

#[test]
fn try_alloc_next_index_reports_the_head_of_the_free_list() {
    let mut map = EntityMap::<u8>::with_capcity(3);
    let h = map.try_alloc_next_index().unwrap();
    assert_eq!(h.index(), 0);
    assert_eq!(h.generation(), 0);
    let mut full = EntityMap::<u8>::with_capcity(1);
    full.insert(1);
    assert_eq!(full.try_alloc_next_index(), None);
    assert_eq!(full.len(), 1);
}

#[test]
fn insert_slow_path_grows_by_the_capacity() {
    let mut map = EntityMap::<u8>::with_capcity(3);
    let h = map.insert_slow_path(5);
    assert_eq!(map.capacity(), 6);
    assert_eq!(h.index(), 3);
    assert_eq!(map.get(h), Some(&5));
    let next = map.insert(6);
    assert_eq!(next.index(), 4);
}

#[test]
fn reserve_puts_new_slots_first() {
    let mut map = EntityMap::<u8>::with_capcity(2);
    let a = map.insert(1);
    assert_eq!(a.index(), 0);
    map.reserve(3);
    assert_eq!(map.capacity(), 5);
    assert_eq!(map.len(), 1);
    let order: Vec<usize> = (0..4).map(|v| map.insert(v).index()).collect();
    assert_eq!(order, vec![2, 3, 4, 1]);
    assert_eq!(map.get(a), Some(&1));
}

#[test]
fn reserve_nothing_changes_nothing() {
    let mut map = EntityMap::<u8>::with_capcity(2);
    map.reserve(0);
    assert_eq!(map.capacity(), 2);
    assert_eq!(map.insert(1).index(), 0);
    assert_eq!(map.insert(2).index(), 1);
    assert_eq!(map.len(), 2);
}

#[test]
fn stale_and_foreign_handles_are_absent() {
    let mut map = EntityMap::<u8>::with_capcity(2);
    let h = map.insert(9);
    assert_eq!(map.get(Entity::new(7, 0)), None);
    assert_eq!(map.remove(Entity::new(7, 0)), None);
    assert_eq!(map.get(Entity::new(1, 0)), None);
    assert_eq!(map.remove(Entity::new(1, 0)), None);
    assert_eq!(map.get(Entity::new(0, 1)), None);
    assert_eq!(map.remove(Entity::new(0, 1)), None);
    assert_eq!(map.get_mut(Entity::new(0, 1)), None);
    assert_eq!(map.len(), 1);
    assert_eq!(map.get(h), Some(&9));
    assert_eq!(Entity::new(0, 0), h);
}

#[test]
fn get_mut_changes_the_value_in_place() {
    let mut map = EntityMap::<Vec<u8>>::new();
    let h = map.insert(vec![1]);
    let other = map.insert(vec![5]);
    map.get_mut(h).unwrap().push(2);
    assert_eq!(map.get(h), Some(&vec![1, 2]));
    assert_eq!(map.get(other), Some(&vec![5]));
    assert_eq!(map.len(), 2);
    assert_eq!(map.remove(h), Some(vec![1, 2]));
}

#[test]
fn generation_advances_once_per_successful_removal() {
    let mut map = EntityMap::<u8>::with_capcity(2);
    assert_eq!(map.generation(), 0);
    let a = map.insert(1);
    let b = map.insert(2);
    assert_eq!(map.generation(), 0);
    assert_eq!(map.remove(a), Some(1));
    assert_eq!(map.generation(), 1);
    assert_eq!(map.remove(a), None);
    assert_eq!(map.generation(), 1);
    assert_eq!(map.remove(b), Some(2));
    assert_eq!(map.generation(), 2);
    let c = map.insert(3);
    assert_eq!(c.generation(), 2);
    assert_eq!(c.index(), 1);
    map.reserve(2);
    assert_eq!(map.get_mut(c).map(|v| *v), Some(3));
    assert_eq!(map.generation(), 2);
}

#[test]
fn clone_keeps_the_handles_valid() {
    let mut map = EntityMap::<u8>::with_capcity(2);
    let a = map.insert(1);
    let mut copy = map.clone();
    assert_eq!(copy.get(a), Some(&1));
    assert_eq!(copy.remove(a), Some(1));
    assert_eq!(map.get(a), Some(&1));
    assert_eq!(copy.insert(4).index(), 0);
}

#[test]
fn handles_copy_and_compare() {
    let h = Entity::new(3, 8);
    let k = h;
    assert_eq!(h, k);
    assert_eq!(h.index(), 3);
    assert_eq!(h.generation(), 8);
    assert_ne!(h, Entity::new(3, 9));
    assert_ne!(h, Entity::new(4, 8));
}
