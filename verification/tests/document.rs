use automerge::transaction::Transactable;
use automerge::{AutoCommit, ObjType, ROOT};

use match_lighthouse::document::{chat_scope, document_hashes, match_chat_scope, Document};
use match_lighthouse::json::from_value;

fn workspace() -> AutoCommit {
    let mut document = AutoCommit::new();
    document.put(ROOT, "ownerPersonId", "owner").unwrap();
    let entities = document.put_object(ROOT, "entities", ObjType::Map).unwrap();
    let column = document.put_object(&entities, "a-column", ObjType::Map).unwrap();
    document.put(&column, "kind", "column").unwrap();
    let board = document.put_object(&entities, "board-1", ObjType::Map).unwrap();
    document.put(&board, "kind", "board").unwrap();
    document
}

#[test]
fn the_scope_is_the_owner_and_the_first_board() {
    assert_eq!(match_chat_scope(&Document::new(&workspace().save())).unwrap(), "owner:board-1");
}

#[test]
fn a_workspace_without_owner_or_board_has_no_scope() {
    let mut document = AutoCommit::new();
    assert_eq!(
        match_chat_scope(&Document::new(&document.save())).unwrap_err(),
        "Match workspace has no owner"
    );
    document.put(ROOT, "ownerPersonId", "owner").unwrap();
    assert_eq!(
        match_chat_scope(&Document::new(&document.save())).unwrap_err(),
        "Match workspace has no board"
    );
    document.put_object(ROOT, "entities", ObjType::Map).unwrap();
    assert_eq!(
        match_chat_scope(&Document::new(&document.save())).unwrap_err(),
        "Match workspace has no board"
    );
    let view = from_value(
        &serde_json::from_str("{\"ownerPersonId\":\"o\",\"entities\":{\"b\":{\"kind\":\"board\"}}}")
            .unwrap(),
    );
    assert_eq!(chat_scope(&view).unwrap(), "o:b");
}

#[test]
fn bytes_that_are_no_document_are_told() {
    assert!(match_chat_scope(&Document::new(b"no document"))
        .unwrap_err()
        .starts_with("Invalid Match document: "));
    assert!(document_hashes(&Document::new(b"no document"))
        .unwrap_err()
        .starts_with("Invalid lighthouse document: "));
}

#[test]
fn every_change_has_a_hash() {
    let mut document = workspace();
    document.commit();
    document.put(ROOT, "title", "Other").unwrap();
    let bytes = document.save();
    let hashes = document_hashes(&Document::new(&bytes)).unwrap();
    assert_eq!(hashes.len(), 2);
    assert_eq!(hashes[1], document.get_heads()[0].to_string());
}

#[test]
fn nothing_is_an_empty_document() {
    assert_eq!(document_hashes(&Document::new(&[])), Ok(vec![]));
    assert_eq!(Document::new(&[1, 2]).bytes(), [1, 2]);
    let cut = &workspace().save()[..4];
    assert_eq!(cut, [0x85, 0x6f, 0x4a, 0x83]);
}
