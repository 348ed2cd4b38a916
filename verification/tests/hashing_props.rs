use bpp_onest_lite::hashing::hash_json;
use bpp_onest_lite::json::JsonValue;

fn sample_item(name: &str) -> JsonValue {
    JsonValue::Obj(vec![
        ("id".to_string(), JsonValue::Str("profile-1".to_string())),
        ("descriptor".to_string(), JsonValue::Obj(vec![
            ("name".to_string(), JsonValue::Str(name.to_string())),
        ])),
        ("tags".to_string(), JsonValue::Arr(vec![
            JsonValue::Int(1),
            JsonValue::Bool(true),
            JsonValue::Null,
        ])),
    ])
}

#[test]
fn hash_is_hex_of_a_real_digest() {
    // A SHA-256 digest is 32 bytes, so the hash is 64 hexadecimal characters
    // whatever the size of the input.
    let h = hash_json(&JsonValue::Null);
    assert_eq!(h.len(), 64);
    assert!(h.chars().all(|c| c.is_ascii_hexdigit() && !c.is_ascii_uppercase()));
}

#[test]
fn equal_values_hash_equally() {
    let a = sample_item("Alice");
    let b = sample_item("Alice");
    assert_eq!(hash_json(&a), hash_json(&b));
}

#[test]
fn changed_values_hash_differently() {
    let a = sample_item("Alice");
    let b = sample_item("Bob");
    assert_ne!(hash_json(&a), hash_json(&b));
    assert_ne!(hash_json(&JsonValue::Null), hash_json(&JsonValue::Bool(true)));
    assert_ne!(hash_json(&JsonValue::Int(1)), hash_json(&JsonValue::Int(2)));
}

#[test]
fn deep_clone_preserves_hash() {
    let a = sample_item("Alice");
    let b = a.deep_clone();
    assert_eq!(a, b);
    assert_eq!(hash_json(&a), hash_json(&b));
}
