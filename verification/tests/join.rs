use match_lighthouse::json::{from_value, Json};
use match_lighthouse::join::{
    accept_invitation, advertise, advertisement, agree, cleanup, configure, guest_bundle,
    initial_state, issuer_peer, join_request, local_peer, owner_certificates, owner_key,
    prepare_config, state_to_open, state_with, workspace_set, Cleanup, Config, Guest, GuestSecrets, Invitation, JoinFindings,
    JoinResponse, SignedEnvelope, WorkspaceEntry,
};
use match_lighthouse::state::{Authority, Member, Owner, WorkspaceRole};

fn json(text: &str) -> Json {
    from_value(&serde_json::from_str(text).unwrap())
}

fn text(value: &str) -> String {
    value.to_owned()
}

fn invitation() -> Invitation {
    Invitation {
        workspace_id: text("w"),
        workspaces: 1,
        invitation_id: text("invite"),
        issuer_person_id: text("owner"),
        issuer_device_id: text("owner-device"),
        issuer_public_key: text("device-key"),
        issuer_endpoint: text("owner-endpoint"),
    }
}

fn guest() -> Guest {
    Guest {
        person_id: text("person"),
        device_id: text("device"),
        public_key: text("key"),
        certificate: Json::text("certificate"),
        endpoint: text("endpoint"),
    }
}

const SCOPE: &str = "{\"workspaceId\":\"w\",\"ownerPersonId\":\"owner\",\"ownerPublicKey\":\"ok\",\
    \"ownerCertificates\":[\"oc\"],\"transportSecret\":\"ts\",\"peers\":[{},\
    {\"n\":1,\"advertisement\":{\"payload\":{\"deviceId\":\"owner-device\"}}},\
    {\"n\":2,\"advertisement\":{\"payload\":{\"deviceId\":\"owner-device\"}}}]}";

fn response(scope: &str) -> JoinResponse {
    JoinResponse {
        grants: vec![Json::text("grant")],
        snapshot: text("c2V0"),
        mesh_workspaces: vec![json(scope)],
    }
}

fn member(role: WorkspaceRole) -> Member {
    Member {
        role,
        person_id: text("owner"),
        device_id: text("owner-device"),
        endpoint: text("owner-endpoint"),
        device_public_key: text("device-key"),
        public_key: Json::Null,
        certificates: Json::Null,
        grant: Json::Null,
        owner_public_key: Json::Null,
        owner_certificates: Json::Null,
    }
}

fn authority(person_id: &str, public_key: &str) -> Authority {
    let owner = || Owner {
        person_id: text(person_id),
        public_key: text(public_key),
        certificates: Json::Null,
    };
    Authority { workspace_id: text("w"), expected_current_owner: owner(), genesis_owner: owner() }
}

fn entry() -> WorkspaceEntry {
    WorkspaceEntry { bytes: text("ZG9j"), authorization: Some(json("{\"a\":1}")), chat: None }
}

fn findings() -> JoinFindings {
    JoinFindings {
        key_id: Ok(text("owner")),
        certificates: Ok(json("[\"oc\"]")),
        role: Ok(WorkspaceRole::Editor),
        issuer: Ok(member(WorkspaceRole::Owner)),
        entry: Ok(entry()),
        local: Ok(member(WorkspaceRole::Editor)),
    }
}

fn secrets() -> GuestSecrets {
    GuestSecrets { identity_seed: vec![1], device_seed: vec![2], iroh_secret: vec![3] }
}

fn prepare(scope: &str, findings: JoinFindings) -> Result<Config, String> {
    prepare_with(scope, findings, Ok(authority("owner", "ok")))
}

fn prepare_with(
    scope: &str,
    findings: JoinFindings,
    authority: Result<Authority, String>,
) -> Result<Config, String> {
    prepare_config(
        &invitation(),
        &response(scope),
        "device",
        &json("{\"b\":1}"),
        &secrets(),
        &findings,
        &authority,
    )
}

#[test]
fn an_invitation_is_to_one_workspace() {
    assert!(accept_invitation(Some(invitation()), false).is_ok());
    assert_eq!(
        accept_invitation(None, false).err().unwrap(),
        "Lighthouse requires a workspace invitation"
    );
    let two = Invitation { workspaces: 2, ..invitation() };
    assert_eq!(
        accept_invitation(Some(two), true).err().unwrap(),
        "Lighthouse accepts one workspace per invitation"
    );
    assert_eq!(
        accept_invitation(Some(invitation()), true).err().unwrap(),
        "Lighthouse state directory already exists"
    );
}

#[test]
fn a_failed_join_takes_away_what_it_made() {
    assert_eq!(cleanup(true, true, true), Cleanup::Nothing);
    assert_eq!(cleanup(false, true, false), Cleanup::Nothing);
    assert_eq!(cleanup(false, false, false), Cleanup::Directory);
    assert_eq!(cleanup(false, false, true), Cleanup::MeshState);
}

#[test]
fn a_guest_shows_itself() {
    let advertised = advertise("w", &guest(), "now");
    assert_eq!(
        advertised.to_text(),
        "{\"kind\":\"peer-advertisement\",\"version\":1,\"workspaceId\":\"w\",\
         \"personId\":\"person\",\"deviceId\":\"device\",\"endpoint\":\"endpoint\",\
         \"issuedAt\":\"now\",\"deviceName\":\"mesh-lighthouse\"}"
    );
    assert_eq!(
        advertisement("w", &guest(), 0).unwrap().text_at("issuedAt"),
        Some("1970-01-01T00:00:00.000Z")
    );
    let signed = SignedEnvelope {
        whole: json("{\"w\":1}"),
        payload: json("{\"p\":1}"),
        signer_key_id: text("id"),
        signature: text("s"),
    };
    let bundle = guest_bundle(&signed, &guest());
    assert_eq!(
        bundle.to_text(),
        "{\"advertisement\":{\"w\":1},\"signed\":{\"w\":1},\"payload\":{\"p\":1},\
         \"signerKeyId\":\"id\",\"signature\":\"s\",\"publicKey\":\"key\",\
         \"certificates\":[\"certificate\"]}"
    );
    assert_eq!(
        join_request(&invitation(), &guest(), &Json::text("b")).to_text(),
        "{\"invitationId\":\"invite\",\"personId\":\"person\",\
         \"displayName\":\"mesh-lighthouse\",\"meshPeers\":[\"b\"]}"
    );
    assert_eq!(
        local_peer(&json("{\"b\":1}"), &Json::text("g"), "ok", &json("[]")).to_text(),
        "{\"b\":1,\"grant\":\"g\",\"ownerPublicKey\":\"ok\",\"ownerCertificates\":[]}"
    );
}

#[test]
fn an_answer_sets_the_lighthouse_up() {
    let config = prepare(SCOPE, findings()).ok().unwrap();
    assert_eq!(config.workspace_id, "w");
    assert_eq!(config.transport_secret, "ts");
    assert_eq!(config.device_id, "device");
    assert_eq!(config.iroh_secret, vec![3]);
    assert_eq!(config.owner_endpoint_id, "owner-endpoint");
    assert_eq!(
        config.local_peer.to_text(),
        "{\"b\":1,\"grant\":\"grant\",\"ownerPublicKey\":\"ok\",\"ownerCertificates\":[\"oc\"]}"
    );
    assert_eq!(config.genesis_person_id, "owner");
    assert_eq!(config.initial_state.document, b"doc");
    assert_eq!(config.initial_state.authorization.to_text(), "{\"a\":1}");
    assert_eq!(
        config.initial_state.chat.to_text(),
        "{\"version\":1,\"messages\":[],\"profiles\":[],\"typing\":[]}"
    );
    assert!(config.initial_state.mesh.is_none());
    assert_eq!(config.identity_seed, vec![1]);
    assert_eq!(config.device_seed, vec![2]);
}

#[test]
fn the_answer_has_to_be_about_the_invitation() {
    let error = |scope: &str| prepare(scope, findings()).err().unwrap();
    let mismatch = "Invitation owner or workspace mismatch";
    assert_eq!(error(&SCOPE.replace("\"w\"", "\"x\"")), mismatch);
    assert_eq!(error(&SCOPE.replace("\"owner\"", "\"x\"")), mismatch);
    assert_eq!(error(&SCOPE.replace("\"ok\"", "\"\"")), "Missing owner public key");
    assert_eq!(
        error(&SCOPE.replace("ownerCertificates", "other")),
        "Missing owner certificates"
    );
    assert_eq!(error(&SCOPE.replace("peers", "other")), "Missing owner peer");
    assert_eq!(
        error(&SCOPE.replace("owner-device", "other")),
        "Invitation issuer absent from mesh peers"
    );
    assert_eq!(
        error(&SCOPE.replace("\"ts\"", "\"\"")),
        "Missing workspace transport secret"
    );
    let two = JoinResponse { grants: vec![], ..response(SCOPE) };
    assert_eq!(
        owner_key(&invitation(), &two).unwrap_err(),
        "Workspace invitation must contain exactly one grant and mesh scope"
    );
    assert_eq!(owner_key(&invitation(), &response(SCOPE)).unwrap(), "ok");
    assert_eq!(
        owner_certificates(&invitation(), &response(SCOPE), &Ok(text("owner"))).unwrap().to_text(),
        "[\"oc\"]"
    );
    assert_eq!(
        issuer_peer(&invitation(), &response(SCOPE), &Ok(WorkspaceRole::Editor))
            .unwrap()
            .get("n")
            .unwrap()
            .to_text(),
        "1"
    );
    assert_eq!(workspace_set(&response(SCOPE)).unwrap(), b"set");
}

#[test]
fn what_is_found_of_the_answer_has_to_agree() {
    let error = |findings: JoinFindings| {
        let before = state_to_open(&invitation(), &response(SCOPE), &findings).err().unwrap();
        let error = prepare(SCOPE, findings).err().unwrap();
        assert_eq!(before, error);
        error
    };
    let failed = || text("failed");
    assert_eq!(error(JoinFindings { key_id: Err(failed()), ..findings() }), "failed");
    assert_eq!(
        error(JoinFindings { key_id: Ok(text("x")), ..findings() }),
        "Invitation owner or workspace mismatch"
    );
    assert_eq!(error(JoinFindings { certificates: Err(failed()), ..findings() }), "failed");
    assert_eq!(error(JoinFindings { role: Err(failed()), ..findings() }), "failed");
    for role in [WorkspaceRole::Visitor, WorkspaceRole::Owner, WorkspaceRole::Other] {
        assert_eq!(
            error(JoinFindings { role: Ok(role), ..findings() }),
            "Lighthouse invitation issued an invalid role"
        );
    }
    assert_eq!(error(JoinFindings { issuer: Err(failed()), ..findings() }), "failed");
    let wrong = "Invitation issuer does not match signed owner route";
    for issuer in [
        member(WorkspaceRole::Editor),
        Member { device_public_key: text("x"), ..member(WorkspaceRole::Owner) },
        Member { endpoint: text("x"), ..member(WorkspaceRole::Owner) },
    ] {
        assert_eq!(error(JoinFindings { issuer: Ok(issuer), ..findings() }), wrong);
    }
    assert_eq!(error(JoinFindings { entry: Err(failed()), ..findings() }), "failed");
    assert_eq!(error(JoinFindings { local: Err(failed()), ..findings() }), "failed");
    assert_eq!(
        error(JoinFindings { local: Ok(member(WorkspaceRole::Visitor)), ..findings() }),
        "Lighthouse grant and advertisement disagree"
    );
    assert_eq!(
        state_to_open(&invitation(), &response(SCOPE), &findings()).ok().unwrap().document,
        b"doc"
    );
    assert_eq!(prepare_with(SCOPE, findings(), Err(failed())).err().unwrap(), "failed");
    for authority in [authority("x", "ok"), authority("owner", "x")] {
        assert_eq!(
            prepare_with(SCOPE, findings(), Ok(authority)).err().unwrap(),
            "Match document owner differs from invitation issuer"
        );
    }
}

#[test]
fn a_workspace_begins_with_what_the_snapshot_holds() {
    let chat = json("{\"c\":1}");
    let with_chat = WorkspaceEntry { chat: Some(chat.clone()), ..entry() };
    assert_eq!(initial_state(&with_chat).ok().unwrap().chat, chat);
    assert!(initial_state(&WorkspaceEntry { bytes: text("?"), ..entry() }).is_err());
    assert_eq!(
        initial_state(&WorkspaceEntry { authorization: None, ..entry() }).err().unwrap(),
        "Missing Match write authorization"
    );
    assert_eq!(state_with(Ok(vec![9]), &entry()).ok().unwrap().document, vec![9]);
    assert_eq!(state_with(Err(text("bytes")), &entry()).err().unwrap(), "bytes");
    let result = configure(
        &invitation(),
        &response(SCOPE),
        "device",
        &Json::Null,
        &secrets(),
        &findings(),
        Err(text("state")),
        &Ok(authority("owner", "ok")),
    );
    assert_eq!(result.err().unwrap(), "state");
    let begun = || state_with(Ok(vec![9]), &entry());
    assert_eq!(
        agree(&invitation(), &response(SCOPE), &findings(), begun()).ok().unwrap().document,
        vec![9]
    );
    let broken = JoinResponse { snapshot: text("?"), ..response(SCOPE) };
    assert!(workspace_set(&broken).is_err());
}
