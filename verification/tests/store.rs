use automerge::transaction::Transactable;
use automerge::{AutoCommit, ObjType, ROOT};

use match_lighthouse::authoring::ChatStep;
use match_lighthouse::chat::{empty_chat, new_chat};
use match_lighthouse::clock::timestamp;
use match_lighthouse::document::{document_hashes, Document};
use match_lighthouse::json::{from_value, Json};
use match_lighthouse::lead::LeadStep;
use match_lighthouse::state::{Authority, Member, Owner, Prepared, WorkspaceRole};
use match_lighthouse::store::{
    opening, opening_admission, opening_query, MeshCatalog, PendingState,
};
use match_lighthouse::{now_ms, LeadDraft, MatchLighthouseState, MatchScopeStore};

fn json(text: &str) -> Json {
    from_value(&serde_json::from_str(text).unwrap())
}

fn text(value: &str) -> String {
    value.to_owned()
}

fn owner() -> Owner {
    Owner { person_id: text("person"), public_key: text("key"), certificates: json("[\"c\"]") }
}

fn prepared_over(workspace_id: &str, document: &[u8]) -> Result<Prepared, String> {
    Ok(Prepared {
        document: Document::new(document),
        snapshot: Authority {
            workspace_id: text(workspace_id),
            expected_current_owner: owner(),
            genesis_owner: owner(),
        },
        merged: json("{\"merged\":true}"),
    })
}

fn prepared() -> Result<Prepared, String> {
    prepared_over("board", &[])
}

fn prepared_at(store: &MatchScopeStore) -> Result<Prepared, String> {
    prepared_over("board", &store.state().document)
}

fn failed<T>(message: &str) -> Result<T, String> {
    Err(text(message))
}

fn member(role: WorkspaceRole) -> Member {
    Member {
        role,
        person_id: text("person"),
        device_id: text("device"),
        endpoint: text("endpoint"),
        device_public_key: text("device-key"),
        public_key: Json::text("key"),
        certificates: json("[\"c\"]"),
        grant: Json::Null,
        owner_public_key: Json::text("owner-key"),
        owner_certificates: json("[]"),
    }
}

fn authorization() -> Json {
    json("{\"version\":1,\"records\":[{\"r\":0}],\"authority\":{\"genesisEpoch\":1}}")
}

fn workspace() -> AutoCommit {
    let mut document = AutoCommit::new();
    document.put(ROOT, "id", "board").unwrap();
    document.put(ROOT, "ownerPersonId", "person").unwrap();
    document.put(ROOT, "title", "Original").unwrap();
    let entities = document.put_object(ROOT, "entities", ObjType::Map).unwrap();
    let board = document.put_object(&entities, "board-1", ObjType::Map).unwrap();
    document.put(&board, "kind", "board").unwrap();
    document
}

fn state(document: Vec<u8>) -> MatchLighthouseState {
    MatchLighthouseState { document, authorization: authorization(), chat: empty_chat(), mesh: None }
}

fn open(state: MatchLighthouseState) -> MatchScopeStore {
    let prepared = prepared_over("board", &state.document);
    MatchScopeStore::open(text("board"), text("person"), state, prepared, Ok(vec![])).ok().unwrap()
}

fn store() -> MatchScopeStore {
    open(state(workspace().save()))
}

fn error_of<T>(result: Result<T, String>) -> String {
    result.err().unwrap()
}

fn save(store: &mut MatchScopeStore, next: Result<PendingState, String>) {
    store.save(next.ok().unwrap(), Ok(())).unwrap();
}

fn catalog(peers: Vec<Json>) -> MeshCatalog {
    MeshCatalog {
        peers,
        revocations: 0,
        device_revocations: 0,
        departures: 0,
        ownership_transfers: None,
        has_succession_policy: false,
        succession_votes: None,
        succession_claims: Some(0),
    }
}

fn signed(payload: &Json, signature: &str) -> Json {
    Json::empty().with("payload", payload.clone()).with("signature", Json::text(signature))
}

#[test]
fn signed_document_survives_restart_but_unsigned_change_never_replaces_it() {
    let mut document = workspace();
    let baseline = document.save();
    let initial = state(baseline.clone());
    let mut store = open(initial.clone());
    document.put(ROOT, "title", "Updated").unwrap();
    let candidate = document.save();
    let evidence = "{\"genesisEpoch\":1}";
    let unsigned = json(&format!("{{\"version\":1,\"records\":[],\"authority\":{evidence}}}"));
    assert!(store
        .persist_document(&candidate, Some(&unsigned), prepared(), failed("Unauthorized change"))
        .is_err());
    let peers = || -> Result<Vec<Json>, String> { Ok(vec![]) };
    assert_eq!(store.snapshot(&prepared(), peers()).ok().unwrap().document, baseline);
    let proof = json(&format!(
        "{{\"version\":1,\"records\":[{{\"r\":1}}],\"authority\":{evidence}}}"
    ));
    let next =
        store.persist_document(&candidate, Some(&proof), prepared(), Ok(vec![json("{\"r\":1}")]));
    save(&mut store, next);
    assert!(store
        .persist_document(&baseline, Some(&initial.authorization), prepared(), failed("Rollback"))
        .is_err());
    assert_eq!(store.snapshot(&prepared(), peers()).ok().unwrap().document, candidate);
    let step = store
        .create_chat_message(
            "intake-test",
            "New lead",
            &prepared_at(&store),
            &Ok(member(WorkspaceRole::Owner)),
            &peers(),
            now_ms(),
        )
        .ok()
        .unwrap();
    let draft = match step {
        ChatStep::Draft(draft) => draft,
        ChatStep::Present(_) => panic!("the message is new"),
    };
    let message_id = draft.id.clone();
    let next = store.post_chat_message(
        &draft,
        &member(WorkspaceRole::Owner),
        Ok(signed(&draft.message, "one")),
        Ok(signed(draft.profile.as_ref().unwrap(), "two")),
    );
    save(&mut store, next);
    let chat = store.snapshot(&prepared(), peers()).ok().unwrap().chat.unwrap();
    let message = &chat.items_at("messages").unwrap()[0];
    let profile = &chat.items_at("profiles").unwrap()[0];
    assert_eq!(message.text_at3("signed", "payload", "id"), Some(message_id.as_str()));
    assert_eq!(profile.text_at3("signed", "payload", "text"), Some("Lighthouse"));
    assert_eq!(
        message.text_at3("signed", "payload", "workspaceId"),
        Some("person:board-1")
    );
    let peer = json("{\"advertisement\":{\"payload\":{\"endpoint\":\"signed-route\"}}}");
    let fake = json("{\"advertisement\":{\"payload\":{\"endpoint\":\"fake\"}}}");
    let next = store.merge_mesh(
        Ok(catalog(vec![peer.clone(), fake])),
        &prepared(),
        Ok(vec![peer.clone()]),
    );
    save(&mut store, next);
    assert_eq!(
        store.authorized_peer_endpoints(&prepared(), Ok(store.known_peers())).unwrap(),
        vec!["signed-route"]
    );
    let revoking = MeshCatalog { revocations: 1, ..catalog(vec![]) };
    assert!(store.merge_mesh(Ok(revoking), &prepared(), Ok(vec![])).is_err());
    let stored = store.state().clone();
    let reopened = open(opening(Some(stored), initial).state);
    assert_eq!(reopened.snapshot(&prepared(), peers()).ok().unwrap().document, candidate);
    assert_eq!(
        reopened.authorized_peer_endpoints(&prepared(), Ok(reopened.known_peers())).unwrap(),
        vec!["signed-route"]
    );
}

#[test]
fn a_workspace_is_opened_at_its_stored_state() {
    let stored = state(vec![1]);
    let initial = state(vec![2]);
    let found = opening(Some(stored), initial.clone());
    assert_eq!((found.state.document, found.is_new), (vec![1], false));
    let fresh = opening(None, initial);
    assert_eq!((fresh.state.document, fresh.is_new), (vec![2], true));
}

#[test]
fn opening_asks_for_the_authority_and_the_admission() {
    let bytes = workspace().save();
    let state = state(bytes.clone());
    let query = opening_query(&state, "person").ok().unwrap();
    assert_eq!(query.document, bytes);
    assert_eq!(query.evidence.to_text(), "{\"genesisEpoch\":1}");
    assert!(query.known.is_none());
    assert_eq!(query.records.len(), 1);
    assert_eq!(query.genesis_person_id, "person");
    let admission = opening_admission(&state, &Document::new(&bytes)).ok().unwrap();
    assert!(admission.previous.is_none());
    assert_eq!(admission.candidate, bytes);
    assert_eq!(admission.hashes, document_hashes(&Document::new(&bytes)).unwrap());
    assert_eq!(admission.grounds, Some(authorization()));
}

#[test]
fn a_workspace_that_cannot_be_opened_is_told() {
    let open = |state: MatchLighthouseState, prepared, admitted| {
        error_of(MatchScopeStore::open(text("board"), text("person"), state, prepared, admitted))
    };
    let bytes = workspace().save();
    let bare = |authorization: &str| MatchLighthouseState {
        authorization: json(authorization),
        ..state(bytes.clone())
    };
    let prepared = || prepared_over("board", &bytes);
    assert_eq!(open(bare("{}"), prepared(), Ok(vec![])), "Missing lighthouse authority");
    assert_eq!(
        open(bare("{\"authority\":1}"), prepared(), Ok(vec![])),
        "Missing lighthouse write authorizations"
    );
    assert_eq!(open(state(bytes.clone()), failed("prepare"), Ok(vec![])), "prepare");
    assert_eq!(
        open(state(bytes.clone()), prepared_over("other", &bytes), Ok(vec![])),
        "Lighthouse workspace does not match document"
    );
    assert_eq!(open(state(bytes.clone()), prepared(), failed("admission")), "admission");
    assert!(open(state(vec![1]), prepared_over("board", &[1]), Ok(vec![]))
        .starts_with("Invalid lighthouse document: "));
    assert_eq!(
        error_of(MatchScopeStore::open_loaded(
            text("board"),
            text("person"),
            state(bytes.clone()),
            prepared(),
            failed("hashes"),
            Ok(vec![]),
        )),
        "hashes"
    );
}

#[test]
fn the_authority_has_to_be_over_the_workspace() {
    let store = store();
    assert_eq!(store.workspace_id(), "board");
    assert_eq!(store.authority(prepared()).ok().unwrap().workspace_id, "board");
    assert_eq!(
        error_of(store.authority(prepared_over("other", &[]))),
        "Lighthouse workspace does not match document"
    );
    assert_eq!(store.authority_query().ok().unwrap().records.len(), 1);
    let query = store.member_query(
        &Json::text("peer"),
        &store.authority(prepared()).ok().unwrap(),
    );
    assert_eq!(query.workspace_id, "board");
    assert_eq!(query.owner.public_key, "key");
    assert_eq!(query.owner_history.len(), 1);
}

#[test]
fn a_candidate_needs_grounds() {
    let store = store();
    let persist = |grounds: Option<&Json>| {
        error_of(store.persist_document(&[1], grounds, prepared(), Ok(vec![])))
    };
    assert_eq!(persist(None), "Missing incoming Match authority");
    assert_eq!(persist(Some(&json("{}"))), "Missing incoming Match authority");
    assert_eq!(
        persist(Some(&json("{\"authority\":1}"))),
        "Missing incoming Match write authorizations"
    );
    assert_eq!(
        error_of(store.persist_document(&[1], Some(&authorization()), failed("p"), failed("v"))),
        "p"
    );
    assert_eq!(
        error_of(store.persist_document(&[1], Some(&authorization()), prepared(), failed("v"))),
        "v"
    );
}

#[test]
fn a_candidate_is_asked_about_beside_what_is_known() {
    let store = store();
    let grounds = json("{\"authority\":2,\"records\":[1,2]}");
    let query = store.candidate_query(&[1], Some(&grounds)).ok().unwrap();
    assert_eq!(query.document, vec![1]);
    assert_eq!(query.evidence.to_text(), "2");
    assert_eq!(query.known.unwrap().to_text(), "{\"genesisEpoch\":1}");
    assert_eq!(query.records.len(), 2);
    let admission = store.candidate_admission(&[1], Some(&grounds), &[text("hash")]);
    assert_eq!(admission.previous.unwrap(), store.state().document);
    assert_eq!(admission.candidate, vec![1]);
    assert_eq!(admission.hashes, vec![text("hash")]);
    assert_eq!(admission.grounds.unwrap().to_text(), grounds.to_text());
}

#[test]
fn an_admitted_document_is_stored_with_its_records() {
    let mut store = store();
    let next = store.persist_document(
        &[1, 2],
        Some(&authorization()),
        prepared(),
        Ok(vec![json("{\"r\":0}"), json("{\"r\":1}")]),
    );
    save(&mut store, next);
    assert_eq!(store.state().document, vec![1, 2]);
    assert_eq!(
        store.state().authorization.to_text(),
        "{\"version\":1,\"records\":[{\"r\":0},{\"r\":1}],\"authority\":{\"merged\":true}}"
    );
}

#[test]
fn a_state_that_could_not_be_written_is_given_up() {
    let mut store = store();
    let before = store.state().document.clone();
    let next = store
        .persist_document(&[1], Some(&authorization()), prepared(), Ok(vec![]))
        .ok()
        .unwrap();
    assert_eq!(next.state().document, vec![1]);
    assert_eq!(store.save(next, failed("disk")), Err(text("disk")));
    assert_eq!(store.state().document, before);
}

#[test]
fn an_authorization_is_merged_without_touching_the_document() {
    let mut store = store();
    let before = store.state().document.clone();
    assert_eq!(
        error_of(store.merge_authorization(&json("{}"), prepared(), Ok(vec![]))),
        "Missing Match authority"
    );
    assert_eq!(
        error_of(store.merge_authorization(&json("{\"authority\":1}"), prepared(), Ok(vec![]))),
        "Missing Match write authorizations"
    );
    let incoming = json("{\"authority\":3,\"records\":[7]}");
    let query = store.merge_query(&incoming).ok().unwrap();
    assert_eq!(query.document, before);
    assert_eq!(query.evidence.to_text(), "3");
    let admission = store.merge_admission(&incoming);
    assert_eq!(admission.previous.unwrap(), before);
    assert_eq!(admission.candidate, before);
    assert_eq!(admission.hashes.len(), 0);
    let next = store.merge_authorization(&incoming, prepared(), Ok(vec![json("7")]));
    save(&mut store, next);
    assert_eq!(store.state().document, before);
    assert_eq!(store.state().authorization.items_at("records").unwrap().len(), 2);
}

#[test]
fn a_chat_batch_is_merged() {
    let mut store = store();
    assert_eq!(error_of(store.merge_chat(&json("{}"))), "Invalid chat batch");
    let record = json("{\"signed\":{\"signature\":\"s\"}}");
    let next = store.merge_chat(&new_chat(vec![record], vec![]));
    save(&mut store, next);
    assert_eq!(store.state().chat.items_at("messages").unwrap().len(), 1);
}

#[test]
fn a_store_stands_at_the_same_state_after_a_restart() {
    let mut store = store();
    let restarts = |store: &MatchScopeStore| {
        let state = opening(Some(store.state().clone()), state(vec![0])).state;
        let again = open(state);
        let (was, is) = (store.state(), again.state());
        assert_eq!(is.document, was.document);
        assert_eq!(is.authorization, was.authorization);
        assert_eq!(is.chat, was.chat);
        assert_eq!(is.mesh, was.mesh);
    };
    restarts(&store);
    let record = json("{\"signed\":{\"signature\":\"s\"}}");
    let next = store.merge_chat(&new_chat(vec![record], vec![]));
    save(&mut store, next);
    restarts(&store);
    let next = store.merge_mesh(Ok(catalog(vec![])), &prepared(), Ok(vec![json("1")]));
    save(&mut store, next);
    restarts(&store);
    let next = store.merge_mesh(Ok(catalog(vec![])), &prepared(), Ok(vec![])).ok().unwrap();
    assert!(store.save(next, failed("disk")).is_err());
    assert_eq!(store.known_peers(), vec![json("1")]);
    restarts(&store);
    let next = store.merge_authorization(&authorization(), prepared(), Ok(vec![json("2")]));
    save(&mut store, next);
    restarts(&store);
}

#[test]
fn a_mesh_that_changes_the_authority_is_refused() {
    let store = store();
    let empty = || catalog(vec![]);
    let query = store.catalog_query(&catalog(vec![json("2")]));
    assert!(query.known.is_empty());
    assert_eq!(query.incoming, vec![json("2")]);
    assert!(store.peer_query().incoming.is_empty());
    for wrong in [
        MeshCatalog { revocations: 1, ..empty() },
        MeshCatalog { device_revocations: 1, ..empty() },
        MeshCatalog { departures: 1, ..empty() },
        MeshCatalog { ownership_transfers: Some(1), ..empty() },
        MeshCatalog { has_succession_policy: true, ..empty() },
        MeshCatalog { succession_votes: Some(1), ..empty() },
        MeshCatalog { succession_claims: Some(1), ..empty() },
    ] {
        assert_eq!(
            error_of(store.merge_mesh(Ok(wrong), &prepared(), Ok(vec![]))),
            "Lighthouse cannot apply mesh authority changes yet"
        );
    }
    assert_eq!(error_of(store.merge_mesh(failed("c"), &prepared(), Ok(vec![]))), "c");
    assert_eq!(error_of(store.merge_mesh(Ok(empty()), &failed("p"), Ok(vec![]))), "p");
    assert_eq!(error_of(store.merge_mesh(Ok(empty()), &prepared(), failed("m"))), "m");
    let next = store.merge_mesh(Ok(empty()), &prepared(), Ok(vec![json("1")])).ok().unwrap();
    assert_eq!(
        next.state().mesh.as_ref().unwrap().to_text(),
        "{\"version\":1,\"peers\":[1],\"revocations\":[]}"
    );
}

#[test]
fn a_snapshot_shows_the_verified_peers() {
    let store = store();
    let snapshot = store.snapshot(&prepared(), Ok(vec![json("5")])).ok().unwrap();
    assert_eq!(
        snapshot.mesh.unwrap().to_text(),
        "{\"version\":1,\"peers\":[5],\"revocations\":[]}"
    );
    assert_eq!(snapshot.authorization.unwrap(), authorization());
    assert_eq!(error_of(store.snapshot(&prepared(), failed("peers"))), "peers");
    assert_eq!(error_of(store.authorized_peer_endpoints(&failed("p"), Ok(vec![]))), "p");
    assert_eq!(
        store
            .authorized_peer_endpoints(
                &prepared(),
                Ok(vec![
                    json("{}"),
                    json("{\"advertisement\":{\"payload\":{\"endpoint\":\"b\"}}}"),
                    json("{\"advertisement\":{\"payload\":{\"endpoint\":1}}}"),
                    json("{\"advertisement\":{\"payload\":{\"endpoint\":\"a\"}}}"),
                ]),
            )
            .unwrap(),
        vec!["b", "a"]
    );
}

#[test]
fn imports_and_offers_are_refused_and_gossip_is_taken() {
    let store = store();
    assert_eq!(
        error_of(store.merge_durable_batch(&[])),
        "Match lighthouse does not accept workspace-set imports"
    );
    assert_eq!(
        error_of(store.merge_owner_offer(&[])),
        "Match lighthouse does not accept owner workspace offers"
    );
    assert!(store.receive_gossip(&[1]).is_ok());
}

fn draft<'a>() -> LeadDraft<'a> {
    LeadDraft { id: "item-1", company: "Acme", role: "Engineer", job_url: "url", body: "body" }
}

fn job_store() -> MatchScopeStore {
    let mut document = workspace();
    let entities = document.put_object(ROOT, "entities", ObjType::Map).unwrap();
    let column = document.put_object(&entities, "column", ObjType::Map).unwrap();
    document.put(&column, "kind", "column").unwrap();
    let board = document.put_object(&entities, "board-1", ObjType::Map).unwrap();
    document.put(&board, "kind", "board").unwrap();
    let preset = document.put_object(&board, "preset", ObjType::Map).unwrap();
    document.put(&preset, "key", "job-search").unwrap();
    let bindings = document.put_object(&preset, "bindings", ObjType::Map).unwrap();
    for (key, value) in [
        ("status.lead", "column"),
        ("field.company", "f1"),
        ("field.role", "f2"),
        ("field.url", "f3"),
    ] {
        document.put(&bindings, key, value).unwrap();
    }
    open(state(document.save()))
}

#[test]
fn a_lead_is_created_once() {
    let mut store = job_store();
    let editor = Ok(member(WorkspaceRole::Editor));
    let create = |store: &MatchScopeStore| {
        store.create_lead(&draft(), &prepared_at(store), &editor, &Ok(vec![]), now_ms(), now_ms()).ok().unwrap()
    };
    let change = match create(&store) {
        LeadStep::Change(change) => change,
        LeadStep::Present(_) => panic!("the lead is new"),
    };
    assert_eq!(change.authorization.workspace_id, "board");
    let grounds = store
        .lead_grounds(&member(WorkspaceRole::Editor), Ok(Json::text("signed")))
        .ok()
        .unwrap();
    assert_eq!(grounds.items_at("records").unwrap().len(), 2);
    let next = store.persist_document(change.document.bytes(), Some(&grounds), prepared(), Ok(vec![]));
    save(&mut store, next);
    match create(&store) {
        LeadStep::Present(id) => assert_eq!(id, "item-1"),
        LeadStep::Change(_) => panic!("the lead is there"),
    }
    let other = LeadDraft { company: "Other", role: "Manager", job_url: "x", body: "", ..draft() };
    match store.create_lead(&other, &prepared_at(&store), &editor, &Ok(vec![]), Ok(1), Ok(2)).ok().unwrap() {
        LeadStep::Present(id) => assert_eq!(id, "item-1"),
        LeadStep::Change(_) => panic!("the lead is there"),
    }
    assert_eq!(store.state().document, change.document.bytes());
    assert_eq!(
        error_of(store.lead_grounds(&member(WorkspaceRole::Editor), failed("sign"))),
        "sign"
    );
}

#[test]
fn a_lead_needs_an_editor_and_an_authority() {
    let store = job_store();
    let create = |draft: LeadDraft, prepared, role, peers| {
        let member = Ok(member(role));
        error_of(store.create_lead(&draft, &prepared, &member, &peers, Ok(1), Ok(1)))
    };
    let editor = WorkspaceRole::Editor;
    assert_eq!(
        create(LeadDraft { role: "", ..draft() }, failed("p"), editor, Ok(vec![])),
        "Lead needs company, role, and job URL"
    );
    assert_eq!(create(draft(), failed("p"), editor, Ok(vec![])), "p");
    for role in [WorkspaceRole::Owner, WorkspaceRole::Visitor, WorkspaceRole::Other] {
        assert_eq!(
            create(draft(), prepared_at(&store), role, Ok(vec![])),
            "Lighthouse needs an editor grant to create leads"
        );
    }
    assert_eq!(create(draft(), prepared_at(&store), editor, failed("peers")), "peers");
    assert_eq!(
        error_of(store.create_lead(&draft(), &prepared_at(&store), &failed("m"), &Ok(vec![]), Ok(1), Ok(1))),
        "m"
    );
}

#[test]
fn a_chat_message_is_posted_once() {
    let mut store = store();
    let author = || member(WorkspaceRole::Editor);
    let create = |store: &MatchScopeStore| {
        store
            .create_chat_message("m1", " hello ", &prepared_at(&store), &Ok(author()), &Ok(vec![]), Ok(5))
            .ok()
            .unwrap()
    };
    let draft = match create(&store) {
        ChatStep::Draft(draft) => draft,
        ChatStep::Present(_) => panic!("the message is new"),
    };
    assert_eq!(
        draft.message.to_text(),
        format!(
            "{{\"kind\":\"chat-message\",\"version\":1,\"workspaceId\":\"person:board-1\",\
             \"personId\":\"person\",\"deviceId\":\"device\",\"id\":\"device:m1\",\
             \"createdAt\":\"{}\",\"text\":\"hello\",\"revision\":0}}",
            timestamp(5).unwrap()
        )
    );
    let profile = draft.profile.as_ref().unwrap();
    assert_eq!(profile.text_at("id"), Some("device:lighthouse-profile"));
    assert!(profile.get("revision").unwrap().is_count(1));
    let next = store.post_chat_message(
        &draft,
        &author(),
        Ok(signed(&draft.message, "one")),
        Ok(signed(profile, "two")),
    );
    save(&mut store, next);
    let record = &store.state().chat.items_at("messages").unwrap()[0];
    assert_eq!(record.text_at2("authority", "publicKey"), Some("owner-key"));
    match create(&store) {
        ChatStep::Present(id) => assert_eq!(id, "device:m1"),
        ChatStep::Draft(_) => panic!("the message is there"),
    }
    let other = store
        .create_chat_message("m1", "other text", &prepared_at(&store), &Ok(author()), &Ok(vec![]), Ok(9))
        .ok()
        .unwrap();
    match other {
        ChatStep::Present(id) => assert_eq!(id, "device:m1"),
        ChatStep::Draft(_) => panic!("the message is there"),
    }
    let kept = store.state().chat.items_at("messages").unwrap();
    assert_eq!(kept.len(), 1);
    assert_eq!(kept[0].text_at3("signed", "payload", "text"), Some("hello"));
    let second = store
        .create_chat_message("m2", "again", &prepared_at(&store), &Ok(author()), &Ok(vec![]), Ok(6))
        .ok()
        .unwrap();
    match second {
        ChatStep::Draft(draft) => {
            assert!(draft.profile.is_none());
            let next = store.post_chat_message(
                &draft,
                &author(),
                Ok(signed(&draft.message, "three")),
                failed("not asked for"),
            );
            save(&mut store, next);
        }
        ChatStep::Present(_) => panic!("the message is new"),
    }
    assert_eq!(store.state().chat.items_at("messages").unwrap().len(), 2);
    assert_eq!(store.state().chat.items_at("profiles").unwrap().len(), 1);
}

#[test]
fn posting_drops_the_records_of_other_scopes() {
    let foreign = json("{\"signed\":{\"payload\":{\"workspaceId\":\"x\"},\"signature\":\"f\"}}");
    let mut store = open(MatchLighthouseState {
        chat: new_chat(vec![foreign], vec![]),
        ..state(workspace().save())
    });
    let author = member(WorkspaceRole::Editor);
    let step = store
        .create_chat_message("m", "x", &prepared_at(&store), &Ok(member(WorkspaceRole::Editor)), &Ok(vec![]), Ok(1))
        .ok()
        .unwrap();
    if let ChatStep::Draft(draft) = step {
        assert_eq!(
            error_of(store.post_chat_message(&draft, &author, failed("s"), failed("p"))),
            "s"
        );
        assert_eq!(
            error_of(store.post_chat_message(
                &draft,
                &author,
                Ok(signed(&draft.message, "one")),
                failed("p"),
            )),
            "p"
        );
        let next = store.post_chat_message(
            &draft,
            &author,
            Ok(signed(&draft.message, "one")),
            Ok(signed(&draft.message, "two")),
        );
        save(&mut store, next);
    }
    assert_eq!(store.state().chat.items_at("messages").unwrap().len(), 1);
}

#[test]
fn a_chat_message_needs_a_text_and_an_author_who_may_write() {
    let store = store();
    let create = |id: &str, body: &str, prepared, role, created| {
        let author = Ok(member(role));
        error_of(store.create_chat_message(id, body, &prepared, &author, &Ok(vec![]), created))
    };
    let editor = WorkspaceRole::Editor;
    let long = "x".repeat(8_001);
    for (id, body) in [("m", " "), ("m", long.as_str()), (&long[..81], "x")] {
        assert_eq!(
            create(id, body, prepared_at(&store), editor, Ok(1)),
            "Chat message must contain 1–8,000 characters"
        );
    }
    assert_eq!(create("m", "x", failed("p"), editor, Ok(1)), "p");
    assert_eq!(
        create("m", "x", prepared_at(&store), WorkspaceRole::Visitor, Ok(1)),
        "Lighthouse needs chat.write permission"
    );
    assert_eq!(create("m", "x", prepared_at(&store), editor, failed("clock")), "clock");
    let author = || -> Result<Member, String> { Ok(member(WorkspaceRole::Owner)) };
    let umlauts = "ö".repeat(8_000);
    assert!(store
        .create_chat_message("m", &umlauts, &prepared_at(&store), &author(), &Ok(vec![]), Ok(1))
        .is_ok());
    assert_eq!(
        error_of(store.create_chat_message("m", "x", &prepared_at(&store), &failed("a"), &Ok(vec![]), Ok(1))),
        "a"
    );
    let broken = open(MatchLighthouseState { chat: json("{}"), ..state(workspace().save()) });
    assert_eq!(
        error_of(broken.create_chat_message("m", "x", &prepared_at(&broken), &author(), &Ok(vec![]), Ok(1))),
        "Invalid stored chat"
    );
}
