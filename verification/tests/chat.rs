use match_lighthouse::chat::{
    empty_chat, merge_chat, merge_sized_chat, new_chat, retain_chat_scope, MAX_BATCH_BYTES,
};
use match_lighthouse::json::{from_value, Json};

fn json(text: &str) -> Json {
    from_value(&serde_json::from_str(text).unwrap())
}

fn record(signature: &str, scope: &str) -> Json {
    json(&format!(
        "{{\"signed\":{{\"payload\":{{\"workspaceId\":\"{scope}\"}},\"signature\":\"{signature}\"}}}}"
    ))
}

fn signatures(chat: &Json, section: &str) -> Vec<String> {
    chat.items_at(section)
        .unwrap()
        .iter()
        .map(|item| item.text_at2("signed", "signature").unwrap().to_owned())
        .collect()
}

#[test]
fn a_new_chat_is_empty() {
    assert_eq!(
        empty_chat().to_text(),
        "{\"version\":1,\"messages\":[],\"profiles\":[],\"typing\":[]}"
    );
}

#[test]
fn a_merge_keeps_the_first_of_each_signature_and_drops_unsigned_records() {
    let current = new_chat(vec![record("a", "s"), record("b", "s")], vec![]);
    let unsigned = json("{\"signed\":{\"signature\":\"\"}}");
    let incoming = new_chat(
        vec![record("b", "other"), unsigned, record("c", "s"), json("{}")],
        vec![record("p", "s")],
    );
    let merged = merge_chat(&current, &incoming).unwrap();
    assert_eq!(signatures(&merged, "messages"), vec!["a", "b", "c"]);
    assert_eq!(signatures(&merged, "profiles"), vec!["p"]);
    assert_eq!(
        merged.items_at("messages").unwrap()[1].text_at3("signed", "payload", "workspaceId"),
        Some("s")
    );
    assert_eq!(merged.items_at("typing").unwrap().len(), 0);
}

#[test]
fn a_merge_lists_its_sections_in_its_own_order() {
    assert_eq!(
        merge_chat(&empty_chat(), &empty_chat()).unwrap().to_text(),
        "{\"messages\":[],\"profiles\":[],\"version\":1,\"typing\":[]}"
    );
}

#[test]
fn merging_the_same_batch_again_changes_nothing() {
    let batch = new_chat(vec![record("a", "s"), record("b", "s")], vec![record("p", "s")]);
    let once = merge_chat(&empty_chat(), &batch).unwrap();
    let twice = merge_chat(&once, &batch).unwrap();
    assert_eq!(once, twice);
}

#[test]
fn stored_messages_stay_in_front() {
    let once = merge_chat(&empty_chat(), &new_chat(vec![record("z", "s")], vec![])).unwrap();
    let later = merge_chat(&once, &new_chat(vec![record("a", "s")], vec![])).unwrap();
    assert_eq!(signatures(&later, "messages"), vec!["z", "a"]);
}

#[test]
fn batches_that_cannot_be_read_are_refused() {
    let current = empty_chat();
    for text in [
        "{}",
        "{\"version\":2,\"messages\":[],\"profiles\":[]}",
        "{\"version\":1.0,\"messages\":[],\"profiles\":[]}",
        "{\"version\":1,\"messages\":[],\"profiles\":[],\"typing\":{}}",
        "{\"version\":1,\"profiles\":[]}",
        "{\"version\":1,\"messages\":[]}",
    ] {
        assert_eq!(merge_chat(&current, &json(text)).unwrap_err(), "Invalid chat batch");
    }
    assert!(merge_chat(&current, &json("{\"version\":1,\"messages\":[],\"profiles\":[]}")).is_ok());
}

#[test]
fn long_batches_are_refused() {
    let current = empty_chat();
    let many: Vec<Json> = (0..2_001).map(|i| record(&format!("m{i}"), "s")).collect();
    assert_eq!(
        merge_chat(&current, &new_chat(many, vec![])).unwrap_err(),
        "Invalid chat batch"
    );
    let enough: Vec<Json> = (0..2_000).map(|i| record(&format!("m{i}"), "s")).collect();
    assert!(merge_chat(&current, &new_chat(enough, vec![])).is_ok());
    let profiles: Vec<Json> = (0..513).map(|i| record(&format!("p{i}"), "s")).collect();
    assert_eq!(
        merge_chat(&current, &new_chat(vec![], profiles)).unwrap_err(),
        "Invalid chat batch"
    );
    let typing: Vec<Json> = (0..513).map(|_| json("{}")).collect();
    let batch = empty_chat().with("typing", Json::array(typing));
    assert_eq!(merge_chat(&current, &batch).unwrap_err(), "Invalid chat batch");
}

#[test]
fn the_size_of_a_batch_counts_in_bytes_of_its_text() {
    let current = empty_chat();
    let batch = empty_chat();
    assert!(merge_sized_chat(&current, &batch, MAX_BATCH_BYTES).is_ok());
    assert_eq!(
        merge_sized_chat(&current, &batch, MAX_BATCH_BYTES + 1).unwrap_err(),
        "Invalid chat batch"
    );
    let padded = empty_chat().with("padding", Json::text(&"x".repeat(MAX_BATCH_BYTES)));
    assert_eq!(merge_chat(&current, &padded).unwrap_err(), "Invalid chat batch");
}

#[test]
fn a_full_chat_refuses_more() {
    let stored: Vec<Json> = (0..2_000).map(|i| record(&format!("p{i}"), "s")).collect();
    let current = new_chat(vec![], stored);
    assert!(merge_chat(&current, &new_chat(vec![], vec![record("p0", "s")])).is_ok());
    assert_eq!(
        merge_chat(&current, &new_chat(vec![], vec![record("new", "s")])).unwrap_err(),
        "Lighthouse chat storage limit exceeded"
    );
}

#[test]
fn a_stored_chat_without_its_sections_is_invalid() {
    assert_eq!(
        merge_chat(&json("{\"messages\":[]}"), &empty_chat()).unwrap_err(),
        "Invalid stored chat"
    );
    assert_eq!(
        retain_chat_scope(json("{\"messages\":[],\"profiles\":[]}"), "s").unwrap_err(),
        "Invalid stored chat"
    );
}

#[test]
fn scoping_keeps_the_records_of_the_scope() {
    let chat = new_chat(
        vec![record("a", "s"), record("b", "t"), record("c", "s")],
        vec![record("p", "t")],
    );
    let scoped = retain_chat_scope(chat, "s").unwrap();
    assert_eq!(signatures(&scoped, "messages"), vec!["a", "c"]);
    assert_eq!(signatures(&scoped, "profiles").len(), 0);
    assert!(scoped.get("version").unwrap().is_count(1));
}
