use automerge::AutoCommit;

use match_lighthouse::chat::empty_chat;
use match_lighthouse::document::Document;
use match_lighthouse::json::{from_value, Json};
use match_lighthouse::state::{Authority, Owner, Prepared};
use match_lighthouse::{MatchLighthouseHost, MatchLighthouseState, MatchScopeStore};

fn owner() -> Owner {
    Owner { person_id: "p".to_owned(), public_key: "k".to_owned(), certificates: Json::Null }
}

fn prepared() -> Result<Prepared, String> {
    Ok(Prepared {
        document: Document::new(&AutoCommit::new().save()),
        snapshot: Authority {
            workspace_id: "w".to_owned(),
            expected_current_owner: owner(),
            genesis_owner: owner(),
        },
        merged: Json::Null,
    })
}

fn host() -> MatchLighthouseHost {
    let authorization =
        from_value(&serde_json::from_str("{\"authority\":1,\"records\":[]}").unwrap());
    let state = MatchLighthouseState {
        document: AutoCommit::new().save(),
        authorization,
        chat: empty_chat(),
        mesh: None,
    };
    let store = MatchScopeStore::open("w".to_owned(), "p".to_owned(), state, prepared(), Ok(vec![]));
    MatchLighthouseHost {
        workspace_id: "w".to_owned(),
        secret: "secret".to_owned(),
        local_device_id: "device".to_owned(),
        local_handshake: Json::text("handshake"),
        store: store.ok().unwrap(),
    }
}

#[test]
fn the_secret_opens_the_workspace() {
    let host = host();
    let credential = host.credential("secret").ok().unwrap().unwrap();
    assert_eq!(credential.workspace_id, "w");
    assert_eq!(credential.secret, "secret");
    assert!(host.credential("other").ok().unwrap().is_none());
    assert_eq!(host.local_device_id(), "device");
}

#[test]
fn only_its_own_workspace_is_served() {
    let host = host();
    let wrong = "Wrong lighthouse workspace";
    assert_eq!(host.outgoing_handshake("w").unwrap(), Json::text("handshake"));
    assert_eq!(host.outgoing_handshake("x").unwrap_err(), wrong);
    assert_eq!(host.authority("w", prepared()).ok().unwrap().workspace_id, "w");
    assert_eq!(host.authority("x", prepared()).err().unwrap(), wrong);
    assert_eq!(host.prepare_handshake("w", prepared()).ok().unwrap().1, Json::text("handshake"));
    assert_eq!(host.prepare_handshake("x", prepared()).err().unwrap(), wrong);
    assert_eq!(host.prepare_handshake("w", Err("p".to_owned())).err().unwrap(), "p");
    assert_eq!(host.open_scope("w").ok().unwrap().workspace_id(), "w");
    assert_eq!(host.open_scope("x").err().unwrap(), wrong);
}
