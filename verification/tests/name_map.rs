use basalt::name_map::{order_names, NameMap, Order};

#[test]
fn names_stand_in_the_order_of_their_bytes() {
    assert_eq!(order_names("a", "b"), Order::Before);
    assert_eq!(order_names("b", "a"), Order::After);
    assert_eq!(order_names("abc", "abc"), Order::Same);
    assert_eq!(order_names("ab", "abc"), Order::Before);
    assert_eq!(order_names("abc", "ab"), Order::After);
    assert_eq!(order_names("", ""), Order::Same);
    assert_eq!(order_names("", "a"), Order::Before);
    assert_eq!(order_names("Z", "a"), Order::Before);
    assert_eq!(order_names("z", "é"), Order::Before);
    assert_eq!("z".cmp("é"), std::cmp::Ordering::Less);
}

#[test]
fn insert_keeps_names_in_order_and_replaces() {
    let mut map: NameMap<u32> = NameMap::new();
    map.insert("work".to_string(), 1);
    map.insert("Obsidian".to_string(), 2);
    map.insert("notes".to_string(), 3);
    map.insert("work".to_string(), 4);
    assert_eq!(map.len(), 3);
    let names: Vec<&str> = map.entries.iter().map(|(name, _)| name.as_str()).collect();
    assert_eq!(names, vec!["Obsidian", "notes", "work"]);
    assert_eq!(map.values(), vec![&2, &3, &4]);
    assert_eq!(map.get("work"), Some(&4));
    assert_eq!(map.get("Work"), None);
    assert_eq!(map.get(""), None);
}

#[test]
fn merge_takes_over_the_values_of_the_other_map() {
    let mut base: NameMap<u32> = NameMap::new();
    base.insert("a".to_string(), 1);
    base.insert("c".to_string(), 3);
    let mut over: NameMap<u32> = NameMap::new();
    over.insert("b".to_string(), 20);
    over.insert("c".to_string(), 30);
    base.merge(over);
    assert_eq!(
        base.entries,
        vec![
            ("a".to_string(), 1),
            ("b".to_string(), 20),
            ("c".to_string(), 30)
        ]
    );
    assert_eq!(base.copy(), base);
    assert!(base.is_well_formed());
    let mut broken = base.copy();
    broken.entries.swap(0, 2);
    assert!(!broken.is_well_formed());
    let twice = NameMap {
        entries: vec![("a".to_string(), 1), ("a".to_string(), 2)],
    };
    assert!(!twice.is_well_formed());
    assert!(NameMap::<u32>::new().is_well_formed());
}
