use insights_core::cache::{build_param_cache_key, key_from_hash, to_lower_hex};

#[test]
fn test_build_param_cache_key_is_stable() {
    let mut params = serde_json::Map::new();
    params.insert("limit".to_string(), serde_json::Value::from(10));
    params.insert("offset".to_string(), serde_json::Value::from(0));
    let json = serde_json::to_string(&serde_json::Value::Object(params)).unwrap_or_default();

    let key_a = build_param_cache_key("corridor:list", &json);
    let key_b = build_param_cache_key("corridor:list", &json);

    assert_eq!(key_a, key_b);
    assert!(key_a.starts_with("corridor:list:"));
}

#[test]
fn lower_hex_matches_std_formatting() {
    assert_eq!(to_lower_hex(0), "0");
    assert_eq!(to_lower_hex(15), "f");
    assert_eq!(to_lower_hex(16), "10");
    assert_eq!(to_lower_hex(0xdead_beef), "deadbeef");
    assert_eq!(to_lower_hex(u64::MAX), format!("{:x}", u64::MAX));
}

#[test]
fn key_from_hash_joins_prefix_and_digits() {
    assert_eq!(key_from_hash("anchors", 255), "anchors:ff");
    assert_eq!(key_from_hash("", 0), ":0");
}

#[test]
fn different_params_give_different_keys() {
    let a = build_param_cache_key("corridor:list", "{\"limit\":10,\"offset\":0}");
    let b = build_param_cache_key("corridor:list", "{\"limit\":10,\"offset\":10}");
    assert_ne!(a, b);
    assert_ne!(a, "{\"limit\":10,\"offset\":0}");
}

#[test]
fn key_is_prefix_colon_and_hex_of_the_default_hash() {
    use_std_hasher_and_compare("corridor:list", "{\"limit\":10,\"offset\":0}");
    use_std_hasher_and_compare("", "");
    use_std_hasher_and_compare("a:b:c", "[1,2,3]");
}

fn use_std_hasher_and_compare(prefix: &str, json: &str) {
    let mut hasher = std::collections::hash_map::DefaultHasher::new();
    std::hash::Hash::hash(&json.to_string(), &mut hasher);
    let expected = format!("{}:{:x}", prefix, std::hash::Hasher::finish(&hasher));
    assert_eq!(build_param_cache_key(prefix, json), expected);
}
