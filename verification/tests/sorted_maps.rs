use ledger::entities::amount::Amount;
use ledger::sorted_map::{rank, Rank, SortedMap};

fn amount(text: &str) -> Amount {
    Amount::from_str(text).unwrap()
}

fn keys(map: &SortedMap<Amount>) -> Vec<String> {
    (0..map.len()).map(|i| map.key_at(i).clone()).collect()
}

#[test]
fn rank_orders_keys_as_strings_are_ordered() {
    let samples = ["", "a", "ab", "b", "B", "é", "e", "z", "zz", "😀", "日本", "\u{7f}", "\u{80}"];
    for a in samples {
        for b in samples {
            let expected = match a.cmp(b) {
                std::cmp::Ordering::Less => Rank::Before,
                std::cmp::Ordering::Equal => Rank::Same,
                std::cmp::Ordering::Greater => Rank::After,
            };
            assert_eq!(rank(a, b), expected, "{a:?} {b:?}");
        }
    }
}

#[test]
fn a_new_map_is_empty() {
    let map: SortedMap<Amount> = SortedMap::new();
    assert_eq!(map.len(), 0);
    assert!(!map.contains_key("a"));
    assert!(map.get("a").is_none());
}

#[test]
fn entries_are_held_in_ascending_key_order() {
    let mut map: SortedMap<Amount> = SortedMap::new();
    map.insert("pear".to_string(), amount("3"));
    map.insert("apple".to_string(), amount("1"));
    map.insert("zebra".to_string(), amount("4"));
    map.insert("banana".to_string(), amount("2"));
    assert_eq!(keys(&map), ["apple", "banana", "pear", "zebra"]);
    assert_eq!(map.value_at(0), &amount("1"));
    assert_eq!(map.value_at(3), &amount("4"));
    assert_eq!(map.get("pear"), Some(&amount("3")));
    assert!(map.contains_key("banana"));
    assert!(!map.contains_key("cherry"));
}

#[test]
fn a_later_insert_takes_the_place_of_an_earlier_one() {
    let mut map: SortedMap<Amount> = SortedMap::new();
    map.insert("a".to_string(), amount("1"));
    map.insert("b".to_string(), amount("2"));
    map.insert("a".to_string(), amount("3"));
    assert_eq!(map.len(), 2);
    assert_eq!(map.get("a"), Some(&amount("3")));
    assert_eq!(map.get("b"), Some(&amount("2")));
}

#[test]
fn remove_takes_one_entry_out() {
    let mut map: SortedMap<Amount> = SortedMap::new();
    map.insert("a".to_string(), amount("1"));
    map.insert("b".to_string(), amount("2"));
    map.insert("c".to_string(), amount("3"));
    assert_eq!(map.remove("b"), Some(amount("2")));
    assert_eq!(map.remove("b"), None);
    assert_eq!(map.remove("d"), None);
    assert_eq!(keys(&map), ["a", "c"]);
    assert_eq!(map.get("c"), Some(&amount("3")));
}
