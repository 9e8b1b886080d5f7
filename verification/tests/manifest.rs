//! The manifest record and its serialized form.

use static_preprocessing::manifest::Manifest;

#[test]
fn test_write_manifest() {
    // Build a sample manifest
    let mut manifest = Manifest::new();
    manifest.insert(
        "/input/example.css".to_string(),
        "example-hashed.css".to_string(),
    );
    manifest.insert(
        "/input/script.js".to_string(),
        "script-hashed.js".to_string(),
    );

    let written_manifest = manifest.serialize().unwrap();

    // Verify the serialized text against an independent serializer run
    // over the same mapping.
    let mut expected_map = std::collections::BTreeMap::new();
    expected_map.insert("/input/example.css".to_string(), "example-hashed.css".to_string());
    expected_map.insert("/input/script.js".to_string(), "script-hashed.js".to_string());
    let expected_manifest = serde_json::to_string_pretty(&expected_map).unwrap();
    assert_eq!(written_manifest, expected_manifest);
}

#[test]
fn manifest_starts_empty() {
    let manifest = Manifest::new();
    assert_eq!(manifest.len(), 0);
    assert!(!manifest.contains_key("anything"));
    assert!(manifest.get("anything").is_none());
    assert_eq!(manifest.serialize().unwrap(), "{}");
}

#[test]
fn manifest_records_entries() {
    let mut manifest = Manifest::new();
    manifest.insert("a.txt".to_string(), "1111.txt".to_string());
    manifest.insert("b/c.txt".to_string(), "2222.txt".to_string());
    assert_eq!(manifest.len(), 2);
    assert!(manifest.contains_key("a.txt"));
    assert!(manifest.contains_key("b/c.txt"));
    assert!(!manifest.contains_key("c.txt"));
    assert_eq!(manifest.get("a.txt").unwrap(), "1111.txt");
    assert_eq!(manifest.get("b/c.txt").unwrap(), "2222.txt");
}

#[test]
fn manifest_serialization_sorts_keys() {
    // Insertion order does not show in the serialized text.
    let mut first = Manifest::new();
    first.insert("z.txt".to_string(), "1.txt".to_string());
    first.insert("a.txt".to_string(), "2.txt".to_string());
    let mut second = Manifest::new();
    second.insert("a.txt".to_string(), "2.txt".to_string());
    second.insert("z.txt".to_string(), "1.txt".to_string());
    assert_eq!(first.serialize().unwrap(), second.serialize().unwrap());
}
