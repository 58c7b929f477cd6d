use mini_redis_rs::addr::PeerAddr;
use mini_redis_rs::vec_map::{MapKey, VecMap};

#[test]
fn a_new_map_is_empty() {
    let map: VecMap<String, u32> = VecMap::new();
    assert!(map.is_empty());
    assert!(!map.contains_key(&"a".to_owned()));
    assert_eq!(map.get(&"a".to_owned()), None);
}

#[test]
fn insert_holds_a_value_under_its_key() {
    let mut map: VecMap<String, u32> = VecMap::new();
    map.insert("a".to_owned(), 1);
    map.insert("b".to_owned(), 2);

    assert_eq!(map.get(&"a".to_owned()), Some(&1));
    assert_eq!(map.get(&"b".to_owned()), Some(&2));
    assert_eq!(map.get(&"c".to_owned()), None);
    assert!(map.contains_key(&"b".to_owned()));
    assert!(!map.is_empty());
}

#[test]
fn insert_under_a_held_key_replaces_the_value() {
    let mut map: VecMap<String, u32> = VecMap::new();
    map.insert("a".to_owned(), 1);
    map.insert("b".to_owned(), 2);
    map.insert("a".to_owned(), 3);

    assert_eq!(map.get(&"a".to_owned()), Some(&3));
    assert_eq!(map.get(&"b".to_owned()), Some(&2));
    assert_eq!(map.remove(&"a".to_owned()), Some(3));
    assert_eq!(map.get(&"a".to_owned()), None);
}

#[test]
fn remove_gives_the_value_that_was_held() {
    let mut map: VecMap<String, u32> = VecMap::new();
    map.insert("a".to_owned(), 1);
    map.insert("b".to_owned(), 2);
    map.insert("c".to_owned(), 3);

    assert_eq!(map.remove(&"b".to_owned()), Some(2));
    assert_eq!(map.remove(&"b".to_owned()), None);
    assert_eq!(map.remove(&"x".to_owned()), None);

    assert_eq!(map.get(&"a".to_owned()), Some(&1));
    assert_eq!(map.get(&"c".to_owned()), Some(&3));
    assert_eq!(map.remove(&"a".to_owned()), Some(1));
    assert_eq!(map.remove(&"c".to_owned()), Some(3));
    assert!(map.is_empty());
}

#[test]
fn addresses_are_keys_too() {
    let one = PeerAddr::V4 { ipv4: 1, port: 1 };
    let two = PeerAddr::V4 { ipv4: 1, port: 2 };
    let mut map: VecMap<PeerAddr, &str> = VecMap::new();
    map.insert(one, "first");
    map.insert(two, "second");

    assert_eq!(map.get(&one), Some(&"first"));
    assert_eq!(map.get(&two), Some(&"second"));
    assert!(one.same_key(&one));
    assert!(!one.same_key(&two));
    assert!("a".to_owned().same_key(&"a".to_owned()));
    assert!(!"a".to_owned().same_key(&"A".to_owned()));
}
