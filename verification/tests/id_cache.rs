use media_pipeline::cache::Cache;
use media_pipeline::download::MediaKind;

#[test]
fn set_then_get_returns_the_identifier() {
    let mut cache = Cache::new();
    cache.set("https://youtu.be/a".to_string(), MediaKind::Audio, "id1".to_string());
    assert_eq!(
        cache.get("https://youtu.be/a", MediaKind::Audio),
        Some("id1".to_string())
    );
}

#[test]
fn kinds_have_independent_namespaces() {
    let mut cache = Cache::new();
    cache.set("https://youtu.be/a".to_string(), MediaKind::Audio, "id1".to_string());
    assert_eq!(cache.get("https://youtu.be/a", MediaKind::Video), None);
    cache.set("https://youtu.be/a".to_string(), MediaKind::Video, "vid9".to_string());
    assert_eq!(
        cache.get("https://youtu.be/a", MediaKind::Audio),
        Some("id1".to_string())
    );
    assert_eq!(
        cache.get("https://youtu.be/a", MediaKind::Video),
        Some("vid9".to_string())
    );
}

#[test]
fn repeated_set_overwrites() {
    let mut cache = Cache::new();
    cache.set("u".to_string(), MediaKind::Audio, "first".to_string());
    cache.set("u".to_string(), MediaKind::Audio, "second".to_string());
    assert_eq!(cache.get("u", MediaKind::Audio), Some("second".to_string()));
}

#[test]
fn missing_key_is_a_miss() {
    let cache = Cache::new();
    assert_eq!(cache.get("https://youtu.be/a", MediaKind::Audio), None);
}

#[test]
fn persisted_form_survives_a_restart() {
    let mut cache = Cache::new();
    cache.set("https://youtu.be/a".to_string(), MediaKind::Audio, "id1".to_string());
    cache.set("https://youtu.be/b".to_string(), MediaKind::Video, "id2".to_string());
    let bytes = cache.to_bytes();
    drop(cache);

    let reloaded = Cache::from_bytes(&bytes).unwrap();
    assert_eq!(
        reloaded.get("https://youtu.be/a", MediaKind::Audio),
        Some("id1".to_string())
    );
    assert_eq!(reloaded.get("https://youtu.be/a", MediaKind::Video), None);
    assert_eq!(
        reloaded.get("https://youtu.be/b", MediaKind::Video),
        Some("id2".to_string())
    );
}

#[test]
fn persisted_form_is_json_shaped() {
    let mut cache = Cache::new();
    cache.set("k".to_string(), MediaKind::Audio, "v".to_string());
    let bytes = cache.to_bytes();
    assert_eq!(
        String::from_utf8(bytes).unwrap(),
        r#"{"tracks":{"k":"v"},"videos":{}}"#
    );

    let empty = Cache::new();
    assert_eq!(
        String::from_utf8(empty.to_bytes()).unwrap(),
        r#"{"tracks":{},"videos":{}}"#
    );
}

#[test]
fn quotes_and_backslashes_round_trip() {
    let mut cache = Cache::new();
    cache.set("key \"quoted\"".to_string(), MediaKind::Video, "a\\b\"c".to_string());
    let bytes = cache.to_bytes();
    let reloaded = Cache::from_bytes(&bytes).unwrap();
    assert_eq!(
        reloaded.get("key \"quoted\"", MediaKind::Video),
        Some("a\\b\"c".to_string())
    );
}

#[test]
fn serializer_escapes_like_json() {
    let mut cache = Cache::new();
    cache.set("a\"b".to_string(), MediaKind::Video, "c\\d".to_string());
    assert_eq!(
        String::from_utf8(cache.to_bytes()).unwrap(),
        r#"{"tracks":{},"videos":{"a\"b":"c\\d"}}"#
    );
}

#[test]
fn externally_written_table_is_accepted() {
    let bytes = br#"{"tracks":{"https://youtu.be/x":"t1","https://youtu.be/y":"t2"},"videos":{"https://youtu.be/x":"v1"}}"#;
    let cache = Cache::from_bytes(bytes).unwrap();
    assert_eq!(
        cache.get("https://youtu.be/x", MediaKind::Audio),
        Some("t1".to_string())
    );
    assert_eq!(
        cache.get("https://youtu.be/y", MediaKind::Audio),
        Some("t2".to_string())
    );
    assert_eq!(
        cache.get("https://youtu.be/x", MediaKind::Video),
        Some("v1".to_string())
    );
    assert_eq!(cache.get("https://youtu.be/y", MediaKind::Video), None);
}

#[test]
fn malformed_tables_are_rejected() {
    assert!(Cache::from_bytes(b"").is_none());
    assert!(Cache::from_bytes(b"{}").is_none());
    assert!(Cache::from_bytes(b"{\"tracks\":{},\"videos\":{}").is_none());
    assert!(Cache::from_bytes(b"{\"tracks\":{\"a\"},\"videos\":{}}").is_none());
    assert!(Cache::from_bytes(b"{\"tracks\":{},\"videos\":{}}x").is_none());
    // a repeated key within a namespace is ambiguous and rejected
    assert!(Cache::from_bytes(br#"{"tracks":{"a":"1","a":"2"},"videos":{}}"#).is_none());
    // invalid UTF-8 inside a string is rejected
    assert!(Cache::from_bytes(b"{\"tracks\":{\"\xff\":\"v\"},\"videos\":{}}").is_none());
}
