use match_lighthouse::json::{from_value, Json};
use match_lighthouse::records::{keep_first, merge_records};

fn json(text: &str) -> Json {
    from_value(&serde_json::from_str(text).unwrap())
}

fn texts(records: &[Json]) -> Vec<String> {
    records.iter().map(|record| record.to_text()).collect()
}

#[test]
fn records_are_merged_once_each() {
    let existing = vec![json("{\"a\":1}"), json("{\"a\":1}"), json("2")];
    let incoming = vec![json("2"), json("{\"b\":1}"), json("{\"a\":1}")];
    let merged = merge_records(Some(&existing), &incoming);
    assert_eq!(texts(&merged), vec!["{\"a\":1}", "2", "{\"b\":1}"]);
    assert_eq!(texts(&merge_records(Some(&merged), &incoming)), texts(&merged));
}

#[test]
fn without_existing_records_the_incoming_ones_are_kept() {
    assert_eq!(texts(&merge_records(None, &vec![json("1"), json("1")])), vec!["1"]);
}

#[test]
fn what_was_merged_is_the_beginning_of_what_is_merged_later() {
    let first = merge_records(None, &vec![json("3"), json("1")]);
    let later = merge_records(Some(&first), &vec![json("0"), json("1")]);
    assert_eq!(texts(&later), vec!["3", "1", "0"]);
}

#[test]
fn keys_decide_which_records_are_kept() {
    let records = vec![json("1"), json("2"), json("3")];
    let keys = vec!["a".to_owned(), "b".to_owned(), "a".to_owned()];
    assert_eq!(texts(&keep_first(&records, &keys)), vec!["1", "2"]);
}
