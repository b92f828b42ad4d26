use match_lighthouse::json::{from_value, Json};
use match_lighthouse::node::{
    after_publish, check_advertisement, check_handshake, check_secrets, draft_route, issue_route,
    keep_routes, may_connect, next_route_sequence, next_routes, read_arguments, refresh_route,
    route_changes, sequence_text, serve_address, AfterPublish, Command,
};
use match_lighthouse::state::{Member, WorkspaceRole};

fn json(text: &str) -> Json {
    from_value(&serde_json::from_str(text).unwrap())
}

fn list(values: &[&str]) -> Vec<String> {
    values.iter().map(|value| (*value).to_owned()).collect()
}

fn endpoint(byte: u8) -> String {
    iroh::SecretKey::from_bytes(&[byte; 32]).public().to_string()
}

#[test]
fn arguments_are_read() {
    assert!(matches!(read_arguments(&list(&["c.json"]), Ok(())), Ok(Command::Run { config }) if config == "c.json"));
    assert!(matches!(
        read_arguments(&list(&["join", "url", "dir"]), Ok(())),
        Ok(Command::Join { invite, directory }) if invite == "url" && directory == "dir"
    ));
    assert!(matches!(
        read_arguments(&list(&["serve-http", "dir"]), Ok(())),
        Ok(Command::ServeHttp { directory, address }) if directory == "dir" && address == "0.0.0.0:8080"
    ));
    assert!(matches!(
        read_arguments(&list(&["serve-http", "dir", "127.0.0.1:1"]), Ok(())),
        Ok(Command::ServeHttp { address, .. }) if address == "127.0.0.1:1"
    ));
    assert!(matches!(
        read_arguments(&list(&["create-lead", "c.json", "Acme", "Engineer"]), Ok(())),
        Ok(Command::CreateLead { config, company, role })
            if config == "c.json" && company == "Acme" && role == "Engineer"
    ));
}

#[test]
fn wrong_arguments_are_told() {
    for (arguments, error) in [
        (
            vec![],
            "Usage: match-lighthouse CONFIG.json | match-lighthouse join INVITE_URL STATE_DIR",
        ),
        (vec!["join"], "Missing Match workspace invitation URL"),
        (vec!["join", "url"], "Missing lighthouse state directory"),
        (vec!["join", "url", "dir", "x"], "Too many join arguments"),
        (vec!["serve-http"], "Missing lighthouse state directory"),
        (vec!["serve-http", "dir", "a", "x"], "Too many serve-http arguments"),
        (vec!["create-lead"], "Missing lighthouse configuration"),
        (vec!["create-lead", "c", "Acme"], "Missing lead company or role"),
        (vec!["create-lead", "c", "Acme", "x", "y"], "Too many create-lead arguments"),
        (vec!["c.json", "x"], "Too many arguments"),
    ] {
        assert_eq!(read_arguments(&list(&arguments), Ok(())).err(), Some(error.to_owned()));
    }
}

#[test]
fn the_address_is_read_before_further_arguments() {
    let failed = || Err("invalid socket address syntax".to_owned());
    for arguments in [vec!["serve-http", "dir", "a"], vec!["serve-http", "dir", "a", "x"]] {
        let arguments = list(&arguments);
        assert_eq!(serve_address(&arguments), "a");
        assert_eq!(
            read_arguments(&arguments, failed()).err(),
            Some("invalid socket address syntax".to_owned())
        );
    }
    assert_eq!(serve_address(&list(&["serve-http", "dir"])), "0.0.0.0:8080");
    assert_eq!(
        read_arguments(&list(&["serve-http"]), failed()).err(),
        Some("Missing lighthouse state directory".to_owned())
    );
    assert!(read_arguments(&list(&["c.json"]), failed()).is_ok());
}

#[test]
fn a_configuration_is_checked() {
    assert!(check_secrets(&[0; 32], &[0; 32]).is_ok());
    assert_eq!(
        check_secrets(&[0; 31], &[0; 31]).unwrap_err(),
        "Lighthouse device seed must contain 32 bytes"
    );
    assert_eq!(
        check_secrets(&[0; 32], &[0; 33]).unwrap_err(),
        "Lighthouse Iroh secret must contain 32 bytes"
    );
    assert!(check_handshake("w", "w").is_ok());
    assert_eq!(
        check_handshake("x", "w").unwrap_err(),
        "Lighthouse handshake targets another workspace"
    );
    let member = Member {
        role: WorkspaceRole::Editor,
        person_id: String::new(),
        device_id: "device".to_owned(),
        endpoint: "endpoint".to_owned(),
        device_public_key: String::new(),
        public_key: Json::Null,
        certificates: Json::Null,
        grant: Json::Null,
        owner_public_key: Json::Null,
        owner_certificates: Json::Null,
    };
    assert!(check_advertisement(&member, "device", "endpoint").is_ok());
    for (device, endpoint) in [("x", "endpoint"), ("device", "x")] {
        assert_eq!(
            check_advertisement(&member, device, endpoint).unwrap_err(),
            "Lighthouse advertisement does not match Iroh endpoint"
        );
    }
}

#[test]
fn routes_lead_to_readable_endpoints_and_to_the_owner() {
    let owner = endpoint(1);
    let own = endpoint(2);
    let mut peers = vec![endpoint(3), endpoint(4), endpoint(5)];
    let signed = vec![
        peers[2].clone(),
        owner.clone(),
        "no endpoint".to_owned(),
        peers[0].clone(),
        own.clone(),
        peers[2].clone(),
        peers[1].clone(),
    ];
    let routes = next_routes(&signed, &owner, &own);
    peers.sort();
    peers.push(owner.clone());
    assert_eq!(routes, peers);
    assert_eq!(next_routes(&vec![], &owner, &own), vec![owner]);
}

#[test]
fn what_reads_is_kept_in_order() {
    let signed = list(&["b", "ab", "c", "b", "a", "owner", "own"]);
    let reads = vec![true, true, false, true, true, true, true];
    assert_eq!(keep_routes(&signed, &reads, "owner", "own"), list(&["a", "ab", "b", "owner"]));
}

#[test]
fn routes_are_opened_and_closed() {
    let changes = route_changes(&list(&["a", "b"]), &list(&["b", "c"]));
    assert_eq!(changes.opened, list(&["c"]));
    assert_eq!(changes.closed, list(&["a"]));
}

#[test]
fn connections_wait_for_their_moment() {
    assert!(may_connect(None, 0));
    assert!(may_connect(Some(5), 5));
    assert!(!may_connect(Some(6), 5));
}

#[test]
fn a_failed_publication_ends_the_connection() {
    assert_eq!(after_publish(&Ok(())), AfterPublish::Good);
    assert_eq!(
        after_publish(&Err("Unauthenticated mesh peer".to_owned())),
        AfterPublish::Keep
    );
    assert_eq!(after_publish(&Err("other".to_owned())), AfterPublish::Drop);
}

#[test]
fn routes_are_numbered_on() {
    assert_eq!(next_route_sequence(None, 0), Ok(1));
    assert_eq!(next_route_sequence(None, 500), Ok(500));
    assert_eq!(next_route_sequence(Some(b"700"), 500), Ok(701));
    assert_eq!(next_route_sequence(Some(b"18446744073709551615"), 5), Ok(u64::MAX));
    for bytes in [b"".as_slice(), b"x", b"1\n", b"\xff", b"18446744073709551616"] {
        assert_eq!(
            next_route_sequence(Some(bytes), 5),
            Err("Invalid lighthouse route sequence".to_owned())
        );
    }
    let text = sequence_text(1_234);
    assert_eq!(text, "1234");
    assert_eq!(next_route_sequence(Some(text.as_bytes()), 0), Ok(1_235));
}

const PEER: &str =
    "{\"advertisement\":{\"payload\":{\"deviceId\":\"d\",\"issuedAt\":\"old\"}},\"publicKey\":\"k\"}";

#[test]
fn a_route_is_renewed() {
    let draft = draft_route(&json(PEER), Ok(0), 7, "agent").ok().unwrap();
    assert_eq!(draft.device_id, "d");
    assert_eq!(
        draft.payload.to_text(),
        "{\"deviceId\":\"d\",\"issuedAt\":\"1970-01-01T00:00:00.000Z\",\"routeSequence\":7,\
         \"deviceName\":\"Lighthouse\",\"userAgent\":\"agent\"}"
    );
    let issued = issue_route(&json(PEER), "now", 7, "agent").ok().unwrap();
    assert_eq!(issued.payload.text_at("issuedAt"), Some("now"));
    let signed = json("{\"signature\":\"s\",\"payload\":{}}");
    let bundle = refresh_route(json(PEER), draft.payload, Ok(signed.clone())).unwrap();
    assert_eq!(bundle.get("advertisement"), Some(&signed));
    assert_eq!(bundle.get("signed"), Some(&signed));
    assert_eq!(bundle.text_at2("payload", "deviceName"), Some("Lighthouse"));
    assert_eq!(bundle.text_at("signature"), Some("s"));
    assert_eq!(bundle.get("signerKeyId"), Some(&Json::Null));
    assert_eq!(bundle.text_at("publicKey"), Some("k"));
}

#[test]
fn a_route_that_cannot_be_renewed_is_told() {
    let error = |peer: &str, now: Result<i128, String>| {
        draft_route(&json(peer), now, 7, "agent").err().unwrap()
    };
    assert_eq!(error("{}", Err("clock".to_owned())), "Missing lighthouse route advertisement");
    assert_eq!(error(PEER, Err("clock".to_owned())), "clock");
    assert_eq!(
        error("{\"advertisement\":{\"payload\":{}}}", Ok(0)),
        "Missing lighthouse device id"
    );
    assert_eq!(
        refresh_route(Json::Null, Json::Null, Ok(Json::Null)).unwrap_err(),
        "Invalid lighthouse peer bundle"
    );
    assert_eq!(
        refresh_route(json(PEER), Json::Null, Err("sign".to_owned())).unwrap_err(),
        "sign"
    );
}
