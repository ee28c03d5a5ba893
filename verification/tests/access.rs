use pulsecast::auth::{
    check_token, load_api_keys, new_token_cache, uses_development_keys, validate_token, ApiKeys,
};
use pulsecast::errors::ApiError;
use pulsecast::token_map::TokenCache;
use pulsecast::StringHashMap;

fn load(emit: Option<&str>, subscribe: Option<&str>, production: bool) -> (ApiKeys, TokenCache) {
    let mut cache = new_token_cache();
    let keys = load_api_keys(emit, subscribe, production, &mut cache);
    (keys, cache)
}

fn query(token: &str) -> StringHashMap<String> {
    let mut query = StringHashMap::new();
    query.insert("token".to_string(), token.to_string());
    query
}

#[test]
fn keys_are_read_from_a_comma_separated_list() {
    let (keys, cache) = load(Some(" a , b,,c ,  , a"), Some("x"), true);
    assert_eq!(keys.emit_keys.len(), 3);
    for key in ["a", "b", "c"] {
        assert!(keys.emit_keys.contains(key));
    }
    assert!(!keys.emit_keys.contains(""));
    assert!(!keys.emit_keys.contains(" a "));
    assert_eq!(keys.subscribe_keys.len(), 1);
    assert_eq!(cache.len(), 1);
    assert_eq!(cache.get("x").map(|entry| *entry.value()), Some(true));
}

#[test]
fn white_space_inside_a_key_stays() {
    let (keys, _) = load(Some("\t two words \n"), None, true);
    assert_eq!(keys.emit_keys.len(), 1);
    assert!(keys.emit_keys.contains("two words"));
}

#[test]
fn list_of_nothing_names_no_key() {
    for list in ["", ",", " , ,", "\u{3000},\t"] {
        let (keys, cache) = load(Some(list), Some(list), true);
        assert!(keys.emit_keys.is_empty());
        assert!(keys.subscribe_keys.is_empty());
        assert!(cache.is_empty());
    }
}

#[test]
fn exactly_unicode_white_space_is_trimmed() {
    let mut cache = new_token_cache();
    for c in ('\0'..=char::MAX).filter(|c| *c != ',') {
        if c.is_whitespace() || c as u32 % 257 == 0 || (c as u32) < 0x3100 {
            let list = format!("{c}k{c}");
            let keys = load_api_keys(Some(&list), None, true, &mut cache);
            let white = matches!(c as u32,
                0x9..=0xd | 0x20 | 0x85 | 0xa0 | 0x1680 | 0x2000..=0x200a
                | 0x2028 | 0x2029 | 0x202f | 0x205f | 0x3000);
            assert_eq!(keys.emit_keys.contains("k"), white);
            assert_eq!(keys.emit_keys.contains(&list), !white);
        }
    }
}

#[test]
fn development_keys_stand_in_for_missing_ones() {
    let (keys, cache) = load(None, None, false);
    assert_eq!(keys.emit_keys.len(), 2);
    assert!(keys.emit_keys.contains("emit-dev-key-1"));
    assert!(keys.emit_keys.contains("emit-dev-key-2"));
    assert_eq!(keys.subscribe_keys.len(), 2);
    assert!(keys.subscribe_keys.contains("subscribe-dev-key-1"));
    assert!(keys.subscribe_keys.contains("subscribe-dev-key-2"));
    assert_eq!(cache.len(), 2);
    assert!(cache.contains_key("subscribe-dev-key-1"));
    assert!(cache.contains_key("subscribe-dev-key-2"));
}

#[test]
fn each_set_of_keys_is_completed_by_itself() {
    let (keys, _) = load(Some("mine"), Some(" ,"), false);
    assert_eq!(keys.emit_keys.len(), 1);
    assert!(keys.emit_keys.contains("mine"));
    assert!(keys.subscribe_keys.contains("subscribe-dev-key-1"));
    let (keys, _) = load(None, Some("mine"), false);
    assert!(keys.emit_keys.contains("emit-dev-key-2"));
    assert!(!keys.subscribe_keys.contains("subscribe-dev-key-1"));
}

#[test]
fn production_has_no_development_keys() {
    let (keys, cache) = load(None, None, true);
    assert!(keys.emit_keys.is_empty());
    assert!(keys.subscribe_keys.is_empty());
    assert!(cache.is_empty());
    assert!(check_token("emit-dev-key-1", &keys).is_err());
}

#[test]
fn loading_replaces_what_the_cache_held() {
    let mut cache = new_token_cache();
    load_api_keys(None, Some("old"), true, &mut cache);
    assert!(cache.contains_key("old"));
    load_api_keys(None, Some("new"), true, &mut cache);
    assert!(!cache.contains_key("old"));
    assert!(cache.contains_key("new"));
}

#[test]
fn subscriber_with_a_key_is_admitted() {
    let (keys, mut cache) = load(None, Some("s1,s2"), true);
    assert!(validate_token(&query("s1"), &keys, &mut cache).is_ok());
    assert!(validate_token(&query("s2"), &keys, &mut cache).is_ok());
    assert_eq!(cache.len(), 2);
}

#[test]
fn subscriber_without_a_key_is_refused() {
    let (keys, mut cache) = load(Some("e1"), Some("s1"), true);
    for token in ["", "s2", "e1", "S1", " s1"] {
        let verdict = validate_token(&query(token), &keys, &mut cache);
        assert!(matches!(verdict, Err(ApiError::Unauthorized)));
    }
    assert_eq!(cache.len(), 1);
}

#[test]
fn subscriber_without_a_token_is_refused() {
    let (keys, mut cache) = load(None, Some("s1"), true);
    let mut other = StringHashMap::new();
    other.insert("Token".to_string(), "s1".to_string());
    let verdict = validate_token(&other, &keys, &mut cache);
    assert!(matches!(verdict, Err(ApiError::Unauthorized)));
    let verdict = validate_token(&StringHashMap::new(), &keys, &mut cache);
    assert!(matches!(verdict, Err(ApiError::Unauthorized)));
}

#[test]
fn accepted_token_is_cached() {
    let (keys, _) = load(None, Some("s1"), true);
    let mut cache = new_token_cache();
    assert!(validate_token(&query("s1"), &keys, &mut cache).is_ok());
    assert_eq!(cache.get("s1").map(|entry| *entry.value()), Some(true));
}

#[test]
fn cached_token_is_accepted_whatever_its_flag() {
    let (keys, _) = load(None, None, true);
    let mut cache = new_token_cache();
    cache.insert("t".to_string(), false);
    assert!(validate_token(&query("t"), &keys, &mut cache).is_ok());
    assert_eq!(cache.get("t").map(|entry| *entry.value()), Some(false));
}

#[test]
fn publisher_needs_an_emit_key() {
    let (keys, _) = load(Some("e1"), Some("s1"), true);
    assert!(check_token("e1", &keys).is_ok());
    assert!(check_token("Bearer e1", &keys).is_ok());
    for header in ["", "Bearer ", "Bearer s1", "s1", "bearer e1", "Bearer  e1", "Bearer Bearer e1"] {
        assert!(matches!(check_token(header, &keys), Err(ApiError::Unauthorized)));
    }
}

#[test]
fn only_one_scheme_is_taken_off() {
    let (keys, _) = load(Some("Bearer e1"), None, true);
    assert!(check_token("Bearer e1", &keys).is_err());
    assert!(check_token("Bearer Bearer e1", &keys).is_ok());
}

#[test]
fn copied_keys_grant_the_same() {
    let (keys, _) = load(Some("e1"), Some("s1"), true);
    let copy = keys.clone();
    assert!(check_token("e1", &copy).is_ok());
    assert!(copy.subscribe_keys.contains("s1"));
}

#[test]
fn development_keys_are_in_force_outside_production_where_keys_are_missing() {
    assert!(uses_development_keys(None, None, false));
    assert!(uses_development_keys(Some("a"), Some(" , "), false));
    assert!(uses_development_keys(Some(""), Some("x"), false));
    assert!(!uses_development_keys(Some("a"), Some("x"), false));
    assert!(!uses_development_keys(None, None, true));
}
