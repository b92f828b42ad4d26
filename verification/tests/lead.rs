use automerge::transaction::Transactable;
use automerge::{AutoCommit, AutoSerde, ObjType, ROOT};

use match_lighthouse::document::{document_hashes, Document};
use match_lighthouse::json::{from_value, Json};
use match_lighthouse::lead::{
    accept_lead, add_authorization, authorize_change, draft_lead, file_lead, find_filing, Lead,
    LeadChange, LeadStep,
};
use match_lighthouse::state::{Member, WorkspaceRole};
use match_lighthouse::LeadDraft;

fn json(text: &str) -> Json {
    from_value(&serde_json::from_str(text).unwrap())
}

fn member() -> Member {
    Member {
        role: WorkspaceRole::Editor,
        person_id: "person".to_owned(),
        device_id: "device".to_owned(),
        endpoint: "endpoint".to_owned(),
        device_public_key: "device-key".to_owned(),
        public_key: Json::text("key"),
        certificates: json("[\"certificate\"]"),
        grant: json("{\"role\":\"editor\"}"),
        owner_public_key: Json::text("owner-key"),
        owner_certificates: json("[]"),
    }
}

fn draft<'a>() -> LeadDraft<'a> {
    LeadDraft {
        id: "item-1",
        company: " Acme ",
        role: "Engineer\n",
        job_url: "\thttps://acme.example/job",
        body: " body ",
    }
}

fn lead() -> Lead {
    accept_lead(&draft()).unwrap()
}

const BOARD: &str = "{\"entities\":{\"board\":{\"kind\":\"board\",\"preset\":{\"key\":\"job-search\",\
    \"bindings\":{\"status.lead\":\"column\",\"field.company\":\"f1\",\"field.role\":\"f2\",\
    \"field.url\":\"f3\"}}},\"column\":{\"kind\":\"column\"}}}";

fn board_document() -> Vec<u8> {
    let mut document = AutoCommit::new();
    let entities = document.put_object(ROOT, "entities", ObjType::Map).unwrap();
    let column = document.put_object(&entities, "column", ObjType::Map).unwrap();
    document.put(&column, "kind", "column").unwrap();
    let board = document.put_object(&entities, "board", ObjType::Map).unwrap();
    document.put(&board, "kind", "board").unwrap();
    let preset = document.put_object(&board, "preset", ObjType::Map).unwrap();
    document.put(&preset, "key", "job-search").unwrap();
    let bindings = document.put_object(&preset, "bindings", ObjType::Map).unwrap();
    document.put(&bindings, "status.lead", "column").unwrap();
    document.put(&bindings, "field.company", "f1").unwrap();
    document.put(&bindings, "field.role", "f2").unwrap();
    document.put(&bindings, "field.url", "f3").unwrap();
    document.save()
}

fn change() -> LeadChange {
    let created = 1_700_000_000_123;
    let ranked = 1_700_000_000_124;
    let document = Document::new(&board_document());
    match draft_lead(&document, "w", &lead(), &member(), Ok(created), Ok(ranked)).unwrap() {
        LeadStep::Change(change) => change,
        LeadStep::Present(_) => panic!("the lead is new"),
    }
}

#[test]
fn a_complete_draft_is_accepted_without_white_space() {
    let lead = lead();
    assert_eq!(lead.id, "item-1");
    assert_eq!(lead.company, "Acme");
    assert_eq!(lead.role, "Engineer");
    assert_eq!(lead.job_url, "https://acme.example/job");
    assert_eq!(lead.body, " body ");
}

#[test]
fn an_incomplete_draft_is_refused() {
    let long = "x".repeat(257);
    let url = "x".repeat(2_049);
    let body = "x".repeat(8_501);
    let id = format!("item-{}", "x".repeat(76));
    for wrong in [
        LeadDraft { company: " \u{a0}", ..draft() },
        LeadDraft { role: "", ..draft() },
        LeadDraft { job_url: "\n", ..draft() },
        LeadDraft { company: &long, ..draft() },
        LeadDraft { role: &long, ..draft() },
        LeadDraft { job_url: &url, ..draft() },
        LeadDraft { body: &body, ..draft() },
        LeadDraft { id: "card-1", ..draft() },
        LeadDraft { id: &id, ..draft() },
    ] {
        assert_eq!(
            accept_lead(&wrong).err(),
            Some("Lead needs company, role, and job URL".to_owned())
        );
    }
    let fits = LeadDraft { company: &long[..256], body: &body[..8_500], id: &id[..80], ..draft() };
    assert!(accept_lead(&fits).is_ok());
}

#[test]
fn a_lead_is_filed_by_the_bindings_of_the_board() {
    let target = find_filing(&json(BOARD), "item-1").unwrap().unwrap();
    assert_eq!(target.column_id, "column");
    assert_eq!(target.company_field, "f1");
    assert_eq!(target.role_field, "f2");
    assert_eq!(target.url_field, "f3");
    assert!(find_filing(&json(BOARD), "column").unwrap().is_none());
    let item = file_lead(&lead(), &target, "now", 5);
    assert_eq!(item.title, "Acme — Engineer");
    assert_eq!(item.rank, "5/1");
    assert_eq!(item.created_at, "now");
    assert_eq!(item.company_field, "f1");
    assert_eq!(item.job_url, "https://acme.example/job");
}

#[test]
fn a_board_that_does_not_fit_is_told() {
    for (text, error) in [
        ("{}", "Invalid Match entities"),
        ("{\"entities\":[]}", "Invalid Match entities"),
        ("{\"entities\":{\"b\":{\"kind\":\"board\"}}}", "No job-search board in workspace"),
        (
            "{\"entities\":{\"b\":{\"kind\":\"board\",\"preset\":{\"key\":\"job-search\"}}}}",
            "Missing job-search bindings",
        ),
        (
            "{\"entities\":{\"b\":{\"kind\":\"board\",\"preset\":{\"key\":\"job-search\",\
             \"bindings\":{\"status.lead\":\"c\"}}}}}",
            "Missing job-search binding",
        ),
        (
            "{\"entities\":{\"c\":{\"kind\":\"item\"},\"b\":{\"kind\":\"board\",\"preset\":\
             {\"key\":\"job-search\",\"bindings\":{\"status.lead\":\"c\",\"field.company\":\"f\",\
             \"field.role\":\"f\",\"field.url\":\"f\"}}}}}",
            "Lead column is missing",
        ),
    ] {
        assert_eq!(find_filing(&json(text), "item-1").err(), Some(error.to_owned()));
    }
}

#[test]
fn a_lead_is_written_into_the_document() {
    let change = change();
    let mut document = AutoCommit::load(change.document.bytes()).unwrap();
    let view = serde_json::to_value(AutoSerde::from(&document)).unwrap();
    let item = view.pointer("/entities/item-1").unwrap();
    assert_eq!(item.get("id").unwrap(), "item-1");
    assert_eq!(item.get("title").unwrap(), "Acme — Engineer");
    assert_eq!(item.get("body").unwrap(), " body ");
    assert_eq!(item.get("deleted").unwrap(), false);
    assert_eq!(item.get("createdAt").unwrap(), "2023-11-14T22:13:20.123Z");
    assert_eq!(item.get("updatedAt").unwrap(), "2023-11-14T22:13:20.123Z");
    assert_eq!(item.pointer("/placement/parentId").unwrap(), "column");
    assert_eq!(item.pointer("/placement/rank").unwrap(), "1700000000124/1");
    assert_eq!(item.pointer("/values/f1").unwrap(), "Acme");
    assert_eq!(item.pointer("/values/f2").unwrap(), "Engineer");
    assert_eq!(item.pointer("/values/f3").unwrap(), "https://acme.example/job");
    assert_eq!(item.as_object().unwrap().len(), 8);
    assert_eq!(view.pointer("/entities/column/kind").unwrap(), "column");
    let changes = document.get_changes(&[]);
    let newest = changes.last().unwrap();
    assert_eq!(newest.hash().to_string(), change.hash);
    assert_eq!(newest.actor_id().to_bytes(), b"device");
    assert_eq!(
        newest.message().unwrap(),
        "{\"version\":1,\"transactionId\":\"item-1\",\"action\":\"createItem\",\
         \"entityIds\":[\"item-1\"],\"personId\":\"person\",\"deviceId\":\"device\"}"
    );
}

#[test]
fn a_change_comes_with_what_its_authorization_says() {
    let change = change();
    let hashes = document_hashes(&change.document).unwrap();
    assert_eq!(hashes.last(), Some(&change.hash));
    assert_eq!(change.authorization.kind, "workspace-changes");
    assert_eq!(change.authorization.version, 1);
    assert_eq!(change.authorization.workspace_id, "w");
    assert_eq!(change.authorization.hashes, vec![change.hash.clone()]);
    assert_eq!(change.authorization.person_id, "person");
    assert_eq!(change.authorization.device_id, "device");
    assert_eq!(authorize_change("x", "h", &member()).hashes, vec!["h".to_owned()]);
}

#[test]
fn the_same_lead_is_written_once() {
    let change = change();
    let other = accept_lead(&LeadDraft { company: "Other", body: "", ..draft() }).unwrap();
    for lead in [lead(), other] {
        match draft_lead(&change.document, "w", &lead, &member(), Ok(1), Ok(2)).unwrap() {
            LeadStep::Present(id) => assert_eq!(id, "item-1"),
            LeadStep::Change(_) => panic!("the lead is there"),
        }
    }
}

#[test]
fn a_lead_is_one_change_and_leaves_the_rest() {
    let mut document = AutoCommit::load(&board_document()).unwrap();
    document.put(ROOT, "count", 7).unwrap();
    let list = document.put_object(ROOT, "list", ObjType::List).unwrap();
    document.insert(&list, 0, "first").unwrap();
    document.put_object(ROOT, "table", ObjType::Table).unwrap();
    let before = Document::new(&document.save());
    let written = match draft_lead(&before, "w", &lead(), &member(), Ok(1), Ok(2)).unwrap() {
        LeadStep::Change(change) => change,
        LeadStep::Present(_) => panic!("the lead is new"),
    };
    let mut expected = document_hashes(&before).unwrap();
    expected.push(written.hash.clone());
    expected.sort();
    let mut hashes = document_hashes(&written.document).unwrap();
    hashes.sort();
    assert_eq!(hashes, expected);
    let after = AutoCommit::load(written.document.bytes()).unwrap();
    let view = serde_json::to_value(AutoSerde::from(&after)).unwrap();
    assert_eq!(view.pointer("/count").unwrap(), 7);
    assert_eq!(view.pointer("/list/0").unwrap(), "first");
    assert!(view.pointer("/table").unwrap().as_object().unwrap().is_empty());
}

#[test]
fn a_lead_needs_a_document_and_a_clock() {
    let failed = |document: &[u8], created: Result<i128, String>, ranked: Result<i128, String>| {
        draft_lead(&Document::new(document), "w", &lead(), &member(), created, ranked).err().unwrap()
    };
    assert!(failed(b"no", Ok(1), Ok(1)).starts_with("Invalid Match document: "));
    let document = board_document();
    assert_eq!(failed(&document, Err("created".to_owned()), Ok(1)), "created");
    assert_eq!(failed(&document, Ok(1), Err("ranked".to_owned())), "ranked");
    let mut empty = AutoCommit::new();
    assert_eq!(failed(&empty.save(), Ok(1), Ok(1)), "Invalid Match entities");
}

#[test]
fn a_signed_authorization_is_filed_with_the_others() {
    let authorization = json("{\"version\":1,\"records\":[1],\"authority\":{}}");
    let filed = add_authorization(authorization, json("{\"s\":1}"), &member()).unwrap();
    assert_eq!(
        filed.to_text(),
        "{\"version\":1,\"records\":[1,{\"signed\":{\"s\":1},\"publicKey\":\"key\",\
         \"certificates\":[\"certificate\"],\"grant\":{\"role\":\"editor\"},\
         \"ownerPublicKey\":\"owner-key\",\"ownerCertificates\":[]}],\"authority\":{}}"
    );
    assert_eq!(
        add_authorization(json("{}"), Json::Null, &member()).unwrap_err(),
        "Missing Match write authorizations"
    );
}
