use httpie::args::KvPair;
use httpie::client::default_headers;
use httpie::client::json_body_pairs;

fn pair(k: &str, v: &str) -> KvPair {
    KvPair { k: k.to_string(), v: v.to_string() }
}

#[test]
fn default_headers_are_fixed() {
    let h = default_headers();
    assert_eq!(h.len(), 2);
    assert_eq!(h[0].0, "X-POWRRED-BY");
    assert_eq!(h[0].1, "Rust");
    assert_eq!(h[1].0, "User-Agent");
    assert_eq!(h[1].1, "Rust Httpie");
}

#[test]
fn duplicate_keys_last_write_wins() {
    let out = json_body_pairs(&vec![pair("a", "1"), pair("a", "2")]);
    assert_eq!(out.len(), 1);
    assert_eq!(out[0].k, "a");
    assert_eq!(out[0].v, "2");
}

#[test]
fn unique_keys_reordering_gives_same_object() {
    let out1 = json_body_pairs(&vec![pair("a", "1"), pair("b", "2")]);
    let out2 = json_body_pairs(&vec![pair("b", "2"), pair("a", "1")]);
    let mut entries1: Vec<(String, String)> = out1.into_iter().map(|p| (p.k, p.v)).collect();
    let mut entries2: Vec<(String, String)> = out2.into_iter().map(|p| (p.k, p.v)).collect();
    entries1.sort();
    entries2.sort();
    assert_eq!(entries1, entries2);
}

#[test]
fn post_body_serializes_to_expected_json() {
    let out = json_body_pairs(&vec![pair("a", "1"), pair("b", "2")]);
    let mut map = serde_json::Map::new();
    for p in out {
        map.insert(p.k, serde_json::Value::String(p.v));
    }
    let body = serde_json::Value::Object(map).to_string();
    assert_eq!(body, "{\"a\":\"1\",\"b\":\"2\"}");
}

#[test]
fn untouched_unique_pairs_come_out_unchanged() {
    let out = json_body_pairs(&vec![pair("x", "10"), pair("y", "20"), pair("z", "30")]);
    assert_eq!(out.len(), 3);
    let entries: Vec<(String, String)> = out.into_iter().map(|p| (p.k, p.v)).collect();
    assert!(entries.contains(&("x".to_string(), "10".to_string())));
    assert!(entries.contains(&("y".to_string(), "20".to_string())));
    assert!(entries.contains(&("z".to_string(), "30".to_string())));
}
