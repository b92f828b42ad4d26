use match_lighthouse::json::{from_value, to_value, Json, Members};

#[test]
fn values_go_there_and_back() {
    let text = "{\"b\":[1,-2,1.5,true,null,\"x\\n\"],\"a\":{\"k\":18446744073709551615}}";
    let value: serde_json::Value = serde_json::from_str(text).unwrap();
    let json = from_value(&value);
    assert_eq!(to_value(&json), value);
    assert_eq!(json.to_text(), text);
    assert_eq!(json.clone(), json);
}

#[test]
fn a_written_member_is_read() {
    let json = Json::empty()
        .with("a", Json::count(1))
        .with("b", Json::text("x"))
        .with("a", Json::count(2));
    assert_eq!(json.to_text(), "{\"a\":2,\"b\":\"x\"}");
    assert!(json.get("a").unwrap().is_count(2));
    assert_eq!(json.text_at("b"), Some("x"));
    assert_eq!(json.text_at("a"), None);
    assert_eq!(json.get("c"), None);
}

#[test]
fn null_counts_as_the_empty_object() {
    assert_eq!(Json::Null.with("k", Json::Null).to_text(), "{\"k\":null}");
}

#[test]
fn members_are_listed_in_their_order() {
    let members = Members::new().with("z", Json::count(1)).with("a", Json::count(2));
    assert_eq!(members.len(), 2);
    assert_eq!(members.key(0), "z");
    assert!(members.value(1).is_count(2));
    assert!(members.contains_key("a"));
    assert!(!members.contains_key("b"));
}

#[test]
fn paths_are_followed() {
    let json = from_value(
        &serde_json::from_str("{\"a\":{\"b\":{\"c\":\"d\"}},\"list\":[1],\"o\":{\"k\":1}}").unwrap(),
    );
    assert_eq!(json.text_at3("a", "b", "c"), Some("d"));
    assert_eq!(json.text_at2("a", "b"), None);
    assert_eq!(json.items_at("list").unwrap().len(), 1);
    assert_eq!(json.members_at("o").unwrap().len(), 1);
    assert!(json.members_at("list").is_none());
    assert_eq!(json.at3("a", "x", "c"), None);
}
