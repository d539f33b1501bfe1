use test_server::text::{chars_of, find, substring, TextMap};

#[test]
fn a_new_map_is_empty() {
    let map = TextMap::new();

    assert!(map.is_empty());
    assert_eq!(map.len(), 0);
    assert!(map.get("a").is_none());
    assert!(!map.contains_key("a"));
}

#[test]
fn a_map_gives_back_what_was_written() {
    let mut map = TextMap::new();
    map.insert("a".to_string(), "1".to_string());
    map.insert("b".to_string(), "two".to_string());

    assert_eq!(map.len(), 2);
    assert!(!map.is_empty());
    assert_eq!(map.get("a").unwrap(), "1");
    assert_eq!(map.get("b").unwrap(), "two");
    assert!(map.contains_key("b"));
    assert!(map.get("c").is_none());
}

#[test]
fn the_last_write_to_a_key_wins() {
    let mut map = TextMap::new();
    map.insert("a".to_string(), "1".to_string());
    map.insert("b".to_string(), "2".to_string());
    map.insert("a".to_string(), "3".to_string());

    assert_eq!(map.len(), 2);
    assert_eq!(map.get("a").unwrap(), "3");
    assert_eq!(map.get("b").unwrap(), "2");
}

#[test]
fn keys_differ_by_case() {
    let mut map = TextMap::new();
    map.insert("X-Test".to_string(), "upper".to_string());
    map.insert("x-test".to_string(), "lower".to_string());

    assert_eq!(map.len(), 2);
    assert_eq!(map.get("X-Test").unwrap(), "upper");
    assert_eq!(map.get("x-test").unwrap(), "lower");
}

#[test]
fn chars_of_gives_each_character() {
    assert_eq!(chars_of("a=ü&"), vec!['a', '=', 'ü', '&']);
    assert_eq!(chars_of(""), Vec::<char>::new());
}

#[test]
fn find_gives_the_first_mark_in_the_range() {
    let chars = chars_of("a&b&c");

    assert_eq!(find(&chars, '&', 0, 5), 1);
    assert_eq!(find(&chars, '&', 1, 5), 1);
    assert_eq!(find(&chars, '&', 2, 5), 3);
    assert_eq!(find(&chars, '&', 4, 5), 5);
    assert_eq!(find(&chars, '&', 2, 3), 3);
    assert_eq!(find(&chars, '=', 0, 5), 5);
    assert_eq!(find(&chars, '&', 5, 5), 5);
}

#[test]
fn substring_counts_characters() {
    assert_eq!(substring("käse=1", 0, 4), "käse");
    assert_eq!(substring("käse=1", 5, 6), "1");
    assert_eq!(substring("käse=1", 3, 3), "");
}
