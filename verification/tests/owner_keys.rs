use decman::server::owner_keys::{
    list_local_packages, list_my_owner_keys, match_owner_keys, namespace, namespace_fingerprints,
    owner_key_objects, package_objects, parties_by_namespace, start_owner_keys,
    NamespaceDefinition, OwnerKeysStep, PackageDescription, SigningKey,
};

fn texts(list: &[&str]) -> Vec<String> {
    list.iter().map(|s| s.to_string()).collect()
}

fn key(usage: &[i32], fingerprint: &str) -> SigningKey {
    SigningKey { usage: usage.to_vec(), fingerprint: fingerprint.to_string() }
}

fn definition(namespace: &str, owners: &[&str]) -> Option<NamespaceDefinition> {
    Some(NamespaceDefinition { namespace: namespace.to_string(), owners: texts(owners) })
}

#[test]
fn the_namespace_follows_the_last_double_colon() {
    assert_eq!(namespace("cbtc::1220ab").as_deref(), Some("1220ab"));
    assert_eq!(namespace("a::b::c").as_deref(), Some("c"));
    assert_eq!(namespace("a::").as_deref(), Some(""));
    assert_eq!(namespace("a:b"), None);
}

#[test]
fn the_later_party_of_a_namespace_counts() {
    let found = parties_by_namespace(&texts(&["a::n", "odd", "b::n", "c::m"]));
    assert_eq!(found.get("n").unwrap(), "b::n");
    assert_eq!(found.get("m").unwrap(), "c::m");
    assert_eq!(found.keys().len(), 2);
}

#[test]
fn canton_is_asked_only_where_a_party_has_a_namespace() {
    for parties in [texts(&[]), texts(&["odd", "a:b"])] {
        assert!(matches!(start_owner_keys(&parties), OwnerKeysStep::Done(j) if j == b"[]"));
    }
    assert!(matches!(
        start_owner_keys(&texts(&["a::n"])),
        OwnerKeysStep::Query(found) if found.contains_key("n")
    ));
}

#[test]
fn only_namespace_keys_count() {
    let keys = vec![key(&[1, 2], "f1"), key(&[2], "f2"), key(&[], "f3"), key(&[3, 1], "f4")];
    assert_eq!(namespace_fingerprints(&keys), vec!["f1", "f4"]);
}

#[test]
fn own_keys_of_requested_parties_are_listed() {
    let asked = parties_by_namespace(&texts(&["a::n", "b::m"]));
    let definitions = vec![
        definition("m", &["x", "f1"]),
        None,
        definition("other", &["f1"]),
        definition("n", &["f2", "f1"]),
    ];
    let entries = match_owner_keys(&definitions, &asked, &texts(&["f1", "f2"]));
    let found: Vec<(&str, &str)> =
        entries.iter().map(|e| (e.party_id.as_str(), e.owner_key.as_str())).collect();
    assert_eq!(found, vec![("b::m", "f1"), ("a::n", "f2"), ("a::n", "f1")]);
    let objects = owner_key_objects(entries);
    assert_eq!(objects.len(), 3);
    assert_eq!(objects[0][0], ("party_id".to_string(), "b::m".to_string()));
    assert_eq!(objects[0][1], ("owner_key".to_string(), "f1".to_string()));
}

#[test]
fn the_listing_of_owner_keys_is_json() {
    let asked = parties_by_namespace(&texts(&["a::n"]));
    let keys = vec![key(&[1], "f\"1"), key(&[2], "f2")];
    let json = list_my_owner_keys(&asked, &keys, &vec![definition("n", &["f\"1", "f2"])]).unwrap();
    let read: serde_json::Value = serde_json::from_slice(&json).unwrap();
    assert_eq!(read.as_array().unwrap().len(), 1);
    assert_eq!(read[0]["party_id"], "a::n");
    assert_eq!(read[0]["owner_key"], "f\"1");
    let none = list_my_owner_keys(&asked, &keys, &Vec::new()).unwrap();
    assert_eq!(none, b"[]");
}

#[test]
fn the_listing_of_packages_is_json() {
    let packages = vec![PackageDescription {
        package_id: "id".to_string(),
        name: "splice".to_string(),
        version: "1.2.3".to_string(),
    }];
    let json = list_local_packages(&packages).unwrap();
    let read: serde_json::Value = serde_json::from_slice(&json).unwrap();
    assert_eq!(read.as_array().unwrap().len(), 1);
    assert_eq!(read[0]["package_id"], "id");
    assert_eq!(read[0]["name"], "splice");
    assert_eq!(read[0]["version"], "1.2.3");
    let objects = package_objects(&packages);
    assert_eq!(objects[0][2], ("version".to_string(), "1.2.3".to_string()));
    assert_eq!(list_local_packages(&Vec::new()).unwrap(), b"[]");
}
