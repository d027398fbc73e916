use bad_browser::links::{copy_links, hint_key, LinkMap, TextMap, HINT_KEYS};

#[test]
fn hint_keys_count_in_base_26() {
    assert_eq!(hint_key(0), "aa");
    assert_eq!(hint_key(1), "ab");
    assert_eq!(hint_key(25), "az");
    assert_eq!(hint_key(26), "ba");
    assert_eq!(hint_key(27), "bb");
    assert_eq!(hint_key(255), "jv");
}

#[test]
fn hint_keys_start_again_after_256() {
    assert_eq!(HINT_KEYS, 256);
    assert_eq!(hint_key(256), "aa");
    assert_eq!(hint_key(257), "ab");
    assert_eq!(hint_key(256 + 26), "ba");
}

#[test]
fn a_later_entry_overrides_an_earlier_one() {
    let mut map: LinkMap = TextMap::new();
    assert_eq!(map.get(&"aa".to_string()), None);
    map.insert("aa".to_string(), "/first".to_string());
    map.insert("ab".to_string(), "/second".to_string());
    assert_eq!(map.get(&"aa".to_string()), Some(&"/first".to_string()));
    assert_eq!(map.get(&"ab".to_string()), Some(&"/second".to_string()));
    assert_eq!(map.get(&"ac".to_string()), None);
    map.insert("aa".to_string(), "/third".to_string());
    assert_eq!(map.get(&"aa".to_string()), Some(&"/third".to_string()));
    assert_eq!(map.entries.len(), 3);
}

#[test]
fn a_copy_binds_what_the_map_binds() {
    let mut map: LinkMap = TextMap::new();
    map.insert("aa".to_string(), "/first".to_string());
    map.insert("aa".to_string(), "/again".to_string());
    let copy = copy_links(&map);
    assert_eq!(copy.get(&"aa".to_string()), Some(&"/again".to_string()));
    assert_eq!(copy.entries.len(), 2);
    assert_eq!(copy.entries[0].value, "/first");
}
