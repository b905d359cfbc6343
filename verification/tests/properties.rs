use linear_map::LinearMap;

struct Ident {
    id: u32,
    tag: u32,
}

impl PartialEq for Ident {
    fn eq(&self, other: &Ident) -> bool {
        self.id == other.id
    }
}

#[test]
fn insert_get_round_trip() {
    let mut map = LinearMap::new();
    assert_eq!(map.insert(7, "seven"), None);
    assert_eq!(map.get(&7), Some(&"seven"));
    assert_eq!(map.len(), 1);
}

#[test]
fn insert_overwrite_returns_previous() {
    let mut map = LinearMap::new();
    assert_eq!(map.insert(0, "a"), None);
    assert_eq!(map.insert(1, "b"), None);
    assert_eq!(map.insert(1, "c"), Some("b"));
    assert_eq!(map.len(), 2);
    assert_eq!(map.get(&1), Some(&"c"));
}

#[test]
fn insert_overwrite_keeps_stored_key() {
    let mut map = LinearMap::new();
    map.insert(Ident { id: 1, tag: 7 }, "a");
    assert_eq!(map.insert(Ident { id: 1, tag: 8 }, "b"), Some("a"));
    let (stored, value) = map.get_key_value(&Ident { id: 1, tag: 0 }).unwrap();
    assert_eq!(stored.tag, 7);
    assert_eq!(*value, "b");
}

#[test]
fn remove_present_then_absent() {
    let mut map = LinearMap::new();
    map.insert(0, "Hello");
    map.insert(1, "World!");
    assert_eq!(map.remove(&1), Some("World!"));
    assert_eq!(map.get(&1), None);
    assert_eq!(map.len(), 1);
}

#[test]
fn remove_absent_leaves_map() {
    let mut map = LinearMap::new();
    map.insert(0, "Hello");
    assert_eq!(map.remove(&9), None);
    assert_eq!(map.len(), 1);
    assert_eq!(map.get(&0), Some(&"Hello"));
}

#[test]
fn append_incoming_value_wins() {
    let mut map1 = LinearMap::new();
    map1.insert(0, "a");
    map1.insert(1, "b");

    let mut map2 = LinearMap::new();
    map2.insert(1, "c");
    map2.insert(2, "d");

    map1.append(&mut map2);

    assert!(map2.is_empty());
    assert_eq!(map1.len(), 3);
    assert_eq!(map1.get(&0), Some(&"a"));
    assert_eq!(map1.get(&1), Some(&"c"));
    assert_eq!(map1.get(&2), Some(&"d"));
}

#[test]
fn capacity_reservation() {
    assert_eq!(LinearMap::<i32, &str>::with_capacity(100).capacity(), 100);
    assert_eq!(LinearMap::<i32, &str>::new().capacity(), 0);
}

#[test]
fn clear_repeated_leaves_empty() {
    let mut map = LinearMap::new();
    map.insert(0, "a");
    map.clear();
    map.clear();
    map.clear();
    assert!(map.is_empty());
    assert_eq!(map.len(), 0);
}

#[test]
fn iteration_yields_every_entry() {
    let mut map = LinearMap::new();
    let n: usize = 5;
    for i in 0..n {
        map.insert(i, 10 * i);
    }

    let mut seen = Vec::new();
    let mut entries = map.iter();
    while let Some((k, v)) = entries.next() {
        seen.push((*k, *v));
    }
    assert_eq!(seen.len(), n);
    for (idx, pair) in seen.iter().enumerate() {
        assert_eq!(*pair, (idx, 10 * idx));
    }

    let mut owned = Vec::new();
    let mut entries = map.into_iter();
    while let Some(pair) = entries.next() {
        owned.push(pair);
    }
    assert_eq!(owned, seen);
}

#[test]
fn swap_removal_moves_last_entry() {
    let mut map = LinearMap::new();
    map.insert(0, "Hello");
    map.insert(1, "World!");
    map.insert(2, "X");

    assert_eq!(map.remove(&0), Some("Hello"));

    let mut entries = map.iter();
    assert_eq!(entries.next(), Some((&2, &"X")));
    assert_eq!(entries.next(), Some((&1, &"World!")));
    assert_eq!(entries.next(), None);
}
