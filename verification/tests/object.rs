use json::number::Number;
use json::object::{hash_key, Iter, IterMut, StrMap};
use json::value::{JsonValue, Object};

fn keys_of(map: &StrMap<u32>) -> Vec<String> {
    let mut keys = Vec::new();
    let mut iter = map.iter();
    while let Some((key, _)) = iter.next() {
        keys.push(key.to_string());
    }
    keys
}

fn entries_of(map: &StrMap<u32>) -> Vec<(String, u32)> {
    let mut entries = Vec::new();
    let mut iter = map.iter();
    while let Some((key, value)) = iter.next() {
        entries.push((key.to_string(), *value));
    }
    entries
}

#[test]
fn hash_of_empty_key_is_offset_basis() {
    assert_eq!(hash_key(b""), 0xcbf29ce484222325);
}

#[test]
fn hash_of_single_byte() {
    assert_eq!(hash_key(b"a"), 0xaf63dc4c8601ec8c);
}

#[test]
fn hash_of_known_keys() {
    assert_eq!(hash_key(b"foobar"), 0x85944171f73967e8);
    assert_eq!(hash_key(b"10000056"), 15043794053238616431);
    assert_eq!(hash_key(b"10000057"), 15043792953726988220);
    assert_eq!(hash_key(b"10000058"), 15043800650308385697);
    assert_eq!(hash_key(b"10000059"), 15043799550796757486);
}

#[test]
fn new_map_is_empty() {
    let map: StrMap<u32> = StrMap::new();
    assert_eq!(map.len(), 0);
    assert!(map.is_empty());
    assert_eq!(map.get("anything"), None);
}

#[test]
fn with_capacity_is_empty() {
    let map: StrMap<u32> = StrMap::with_capacity(16);
    assert_eq!(map.len(), 0);
    assert!(map.is_empty());
}

#[test]
fn insert_returns_the_stored_value() {
    let mut map: StrMap<u32> = StrMap::new();
    {
        let slot = map.insert("a", 1);
        assert_eq!(*slot, 1);
        *slot = 5;
    }
    assert_eq!(map.get("a"), Some(&5));
    assert_eq!(map.len(), 1);
    assert!(!map.is_empty());
}

#[test]
fn iteration_follows_first_insertion() {
    let mut map: StrMap<u32> = StrMap::new();
    let keys = ["zeta", "alpha", "10000059", "10000056", "mid", "", "beta"];
    for (i, key) in keys.iter().enumerate() {
        map.insert(key, i as u32);
    }
    let expected: Vec<String> = keys.iter().map(|k| k.to_string()).collect();
    assert_eq!(keys_of(&map), expected);
}

#[test]
fn insert_of_a_present_key_keeps_its_place() {
    let mut map: StrMap<u32> = StrMap::new();
    map.insert("a", 1);
    map.insert("b", 2);
    map.insert("c", 3);
    map.insert("b", 20);
    map.insert("a", 10);
    assert_eq!(map.len(), 3);
    assert_eq!(
        entries_of(&map),
        vec![("a".to_string(), 10), ("b".to_string(), 20), ("c".to_string(), 3)]
    );
}

#[test]
fn get_of_an_absent_key_is_none() {
    let mut map: StrMap<u32> = StrMap::new();
    map.insert("present", 1);
    assert_eq!(map.get("absent"), None);
    assert_eq!(map.get(""), None);
    assert_eq!(map.get("presen"), None);
    assert_eq!(map.get("present!"), None);
    assert_eq!(map.get_mut("absent"), None);
}

#[test]
fn index_of_an_absent_key_is_null() {
    let mut object = Object::new();
    object.insert("foo", JsonValue::Boolean(true));
    assert!(matches!(object["bar"], JsonValue::Null));
    assert!(matches!(object["foo"], JsonValue::Boolean(true)));
    assert!(matches!(object[String::from("bar")], JsonValue::Null));
    assert!(matches!(object[&String::from("foo")], JsonValue::Boolean(true)));
    assert_eq!(object.len(), 1);
}

#[test]
fn index_for_writing_inserts_null() {
    let mut object = Object::new();
    assert!(matches!(object["foo"], JsonValue::Null));
    {
        let slot = &mut object["foo"];
        assert!(matches!(*slot, JsonValue::Null));
        *slot = JsonValue::Number(Number::from(42u8));
    }
    assert_eq!(object.len(), 1);
    assert!(object["foo"] == 42u8);
    object["foo"] = JsonValue::Boolean(false);
    assert_eq!(object.len(), 1);
    assert!(object["foo"] == false);
    object[String::from("bar")] = JsonValue::Null;
    assert_eq!(object.len(), 2);
}

#[test]
fn get_mut_writes_through() {
    let mut map: StrMap<u32> = StrMap::new();
    map.insert("a", 1);
    map.insert("b", 2);
    if let Some(value) = map.get_mut("b") {
        assert_eq!(*value, 2);
        *value = 7;
    } else {
        panic!("the key is present");
    }
    assert_eq!(entries_of(&map), vec![("a".to_string(), 1), ("b".to_string(), 7)]);
}

#[test]
fn override_last_replaces_the_newest_value() {
    let mut map: StrMap<u32> = StrMap::new();
    map.override_last(9);
    assert!(map.is_empty());
    map.insert("a", 1);
    map.insert("b", 2);
    map.override_last(9);
    assert_eq!(entries_of(&map), vec![("a".to_string(), 1), ("b".to_string(), 9)]);
}

#[test]
fn remove_takes_the_entry_out() {
    let mut map: StrMap<u32> = StrMap::new();
    for (i, key) in ["a", "b", "c", "d", "e"].iter().enumerate() {
        map.insert(key, i as u32);
    }
    assert_eq!(map.remove("c"), Some(2));
    assert_eq!(map.get("c"), None);
    assert_eq!(map.len(), 4);
    assert_eq!(
        entries_of(&map),
        vec![
            ("a".to_string(), 0),
            ("b".to_string(), 1),
            ("d".to_string(), 3),
            ("e".to_string(), 4)
        ]
    );
    assert_eq!(map.get("a"), Some(&0));
    assert_eq!(map.get("e"), Some(&4));
}

#[test]
fn remove_of_the_first_and_the_last() {
    let mut map: StrMap<u32> = StrMap::new();
    map.insert("a", 1);
    map.insert("b", 2);
    map.insert("c", 3);
    assert_eq!(map.remove("a"), Some(1));
    assert_eq!(keys_of(&map), vec!["b".to_string(), "c".to_string()]);
    assert_eq!(map.remove("c"), Some(3));
    assert_eq!(keys_of(&map), vec!["b".to_string()]);
    assert_eq!(map.remove("b"), Some(2));
    assert!(map.is_empty());
    assert_eq!(map.remove("b"), None);
}

#[test]
fn remove_of_an_absent_key_changes_nothing() {
    let mut map: StrMap<u32> = StrMap::new();
    assert_eq!(map.remove("a"), None);
    map.insert("a", 1);
    map.insert("b", 2);
    assert_eq!(map.remove("z"), None);
    assert_eq!(map.len(), 2);
    assert_eq!(entries_of(&map), vec![("a".to_string(), 1), ("b".to_string(), 2)]);
}

#[test]
fn insert_after_remove_appends() {
    let mut map: StrMap<u32> = StrMap::new();
    map.insert("a", 1);
    map.insert("b", 2);
    map.remove("a");
    map.insert("a", 3);
    assert_eq!(entries_of(&map), vec![("b".to_string(), 2), ("a".to_string(), 3)]);
}

#[test]
fn equality_ignores_the_order_of_insertion() {
    let mut first: StrMap<u32> = StrMap::new();
    first.insert("a", 1);
    first.insert("b", 2);
    let mut second: StrMap<u32> = StrMap::new();
    second.insert("b", 2);
    second.insert("a", 1);
    assert!(first == second);
    assert!(second == first);
}

#[test]
fn equality_sees_values_keys_and_sizes() {
    let mut first: StrMap<u32> = StrMap::new();
    first.insert("a", 1);
    first.insert("b", 2);
    let mut other_value: StrMap<u32> = StrMap::new();
    other_value.insert("a", 1);
    other_value.insert("b", 3);
    assert!(first != other_value);
    let mut other_key: StrMap<u32> = StrMap::new();
    other_key.insert("a", 1);
    other_key.insert("c", 2);
    assert!(first != other_key);
    let mut shorter: StrMap<u32> = StrMap::new();
    shorter.insert("a", 1);
    assert!(first != shorter);
    assert!(shorter != first);
    let empty: StrMap<u32> = StrMap::new();
    assert!(empty == StrMap::new());
}

#[test]
fn long_key_survives_growth() {
    let long = "this key is a good deal longer than thirty-two bytes";
    assert!(long.len() > 32);
    let mut map: StrMap<u32> = StrMap::new();
    map.insert("short", 1);
    map.insert(long, 2);
    for i in 0..2000u32 {
        map.insert(&format!("key number {}", i), i + 100);
    }
    assert_eq!(map.len(), 2002);
    assert_eq!(map.get(long), Some(&2));
    assert_eq!(map.get("short"), Some(&1));
    assert_eq!(map.get("key number 0"), Some(&100));
    assert_eq!(map.get("key number 1999"), Some(&2099));
    let mut iter = map.iter();
    assert_eq!(iter.next(), Some(("short", &1)));
    assert_eq!(iter.next(), Some((long, &2)));
    assert_eq!(iter.next(), Some(("key number 0", &100)));
}

#[test]
fn keys_around_the_inline_threshold() {
    let at = "a".repeat(32);
    let over = "a".repeat(33);
    let under = "a".repeat(31);
    let mut map: StrMap<u32> = StrMap::new();
    map.insert(&over, 33);
    map.insert(&at, 32);
    map.insert(&under, 31);
    assert_eq!(map.get(&at), Some(&32));
    assert_eq!(map.get(&over), Some(&33));
    assert_eq!(map.get(&under), Some(&31));
    assert_eq!(map.get(&"a".repeat(34)), None);
    assert_eq!(keys_of(&map), vec![over.clone(), at.clone(), under.clone()]);
    let copy = map.clone();
    assert_eq!(keys_of(&copy), vec![over, at, under]);
}

#[test]
fn keys_that_are_not_ascii() {
    let mut map: StrMap<u32> = StrMap::new();
    map.insert("ключ", 1);
    map.insert("鍵", 2);
    map.insert("clé", 3);
    map.insert("🔑🔑🔑🔑🔑🔑🔑🔑🔑🔑", 4);
    assert_eq!(map.get("ключ"), Some(&1));
    assert_eq!(map.get("鍵"), Some(&2));
    assert_eq!(map.get("clé"), Some(&3));
    assert_eq!(map.get("🔑🔑🔑🔑🔑🔑🔑🔑🔑🔑"), Some(&4));
    assert_eq!(map.get("cle"), None);
    assert_eq!(
        keys_of(&map),
        vec![
            "ключ".to_string(),
            "鍵".to_string(),
            "clé".to_string(),
            "🔑🔑🔑🔑🔑🔑🔑🔑🔑🔑".to_string()
        ]
    );
}

#[test]
fn clear_empties_the_map() {
    let mut map: StrMap<u32> = StrMap::new();
    map.insert("a", 1);
    map.insert("b", 2);
    map.clear();
    assert!(map.is_empty());
    assert_eq!(map.get("a"), None);
    map.insert("b", 3);
    assert_eq!(entries_of(&map), vec![("b".to_string(), 3)]);
}

#[test]
fn clone_copies_entries_in_order() {
    let mut map: StrMap<u32> = StrMap::new();
    map.insert("x", 1);
    map.insert("a", 2);
    let mut copy = map.clone();
    assert_eq!(entries_of(&copy), entries_of(&map));
    copy.insert("x", 9);
    assert_eq!(map.get("x"), Some(&1));
    assert_eq!(copy.get("x"), Some(&9));
    assert_eq!(copy.get("a"), Some(&2));
}

#[test]
fn iter_runs_from_both_ends() {
    let mut map: StrMap<u32> = StrMap::new();
    map.insert("a", 1);
    map.insert("b", 2);
    map.insert("c", 3);
    let mut iter = map.iter();
    assert_eq!(iter.next(), Some(("a", &1)));
    assert_eq!(iter.next_back(), Some(("c", &3)));
    assert_eq!(iter.next_back(), Some(("b", &2)));
    assert_eq!(iter.next(), None);
    assert_eq!(iter.next_back(), None);
}

#[test]
fn empty_iter_yields_nothing() {
    let mut iter: Iter<u32> = Iter::empty();
    assert_eq!(iter.next(), None);
    assert_eq!(iter.next_back(), None);
    let mut iter_mut: IterMut<u32> = IterMut::empty();
    assert!(iter_mut.next().is_none());
    assert!(iter_mut.next_back().is_none());
}

#[test]
fn iter_mut_writes_values() {
    let mut map: StrMap<u32> = StrMap::new();
    map.insert("a", 1);
    map.insert("b", 2);
    map.insert("c", 3);
    {
        let mut iter = map.iter_mut();
        while let Some((key, value)) = iter.next() {
            if key != "b" {
                *value *= 10;
            }
        }
    }
    assert_eq!(
        entries_of(&map),
        vec![("a".to_string(), 10), ("b".to_string(), 2), ("c".to_string(), 30)]
    );
    {
        let mut iter = map.iter_mut();
        match iter.next_back() {
            Some((key, value)) => {
                assert_eq!(key, "c");
                *value = 0;
            }
            None => panic!("the map has entries"),
        }
        match iter.next() {
            Some((key, value)) => {
                assert_eq!(key, "a");
                assert_eq!(*value, 10);
            }
            None => panic!("the map has entries"),
        }
        assert!(iter.next().is_some());
        assert!(iter.next().is_none());
        assert!(iter.next_back().is_none());
    }
    assert_eq!(map.get("c"), Some(&0));
}
