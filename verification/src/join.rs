//! Joining a workspace by an invitation: what the guest offers, and what has to
//! hold of the answer before the lighthouse is set up.

use vstd::prelude::*;

use crate::chat::{empty_chat, fresh_chat, law_fresh_chat_is_read_back};
use crate::codec::{base64_bytes, base64_decode};
use crate::clock::{max_millis, timestamp, utc_text_of};
use crate::json::{count, empty_object, trees, written_member, Json, JsonTree};
use crate::state::{copy_bytes, Authority, MatchLighthouseState, Member, StateView, WorkspaceRole};
use crate::text::{same, shown};

verus! {

/// An invitation to a workspace.
pub struct Invitation {
    pub workspace_id: String,
    pub workspaces: usize,
    pub invitation_id: String,
    pub issuer_person_id: String,
    pub issuer_device_id: String,
    pub issuer_public_key: String,
    pub issuer_endpoint: String,
}

/// Why an invitation is not taken: `invitation` is nothing where it is for
/// something else than a workspace.
pub open spec fn invitation_error(invitation: Option<Invitation>, has_mesh_state: bool) -> Option<
    Seq<char>,
> {
    match invitation {
        None => Some("Lighthouse requires a workspace invitation"@),
        Some(invitation) => if invitation.workspaces != 1 {
            Some("Lighthouse accepts one workspace per invitation"@)
        } else if has_mesh_state {
            Some("Lighthouse state directory already exists"@)
        } else {
            None
        },
    }
}

/// Takes an invitation to one workspace, into a directory that holds no mesh
/// state yet.
pub fn accept_invitation(invitation: Option<Invitation>, has_mesh_state: bool) -> (result: Result<
    Invitation,
    String,
>)
    ensures
        match result {
            Ok(taken) => invitation == Some(taken) && invitation_error(
                invitation,
                has_mesh_state,
            ) is None,
            Err(error) => invitation_error(invitation, has_mesh_state) == Some(error@),
        },
{
    match invitation {
        Some(invitation) => if invitation.workspaces != 1 {
            Err("Lighthouse accepts one workspace per invitation".to_owned())
        } else if has_mesh_state {
            Err("Lighthouse state directory already exists".to_owned())
        } else {
            Ok(invitation)
        },
        None => Err("Lighthouse requires a workspace invitation".to_owned()),
    }
}

/// What is taken away after a join that failed.
#[derive(Clone, Copy, Debug, PartialEq, Eq, Structural)]
pub enum Cleanup {
    Nothing,
    MeshState,
    Directory,
}

/// What is taken away after a join.
pub open spec fn cleanup_after(
    joined: bool,
    has_config: bool,
    directory_was_there: bool,
) -> Cleanup {
    if joined || has_config {
        Cleanup::Nothing
    } else if directory_was_there {
        Cleanup::MeshState
    } else {
        Cleanup::Directory
    }
}

/// A join that succeeded, or left a configuration, keeps what it made; one that failed
/// without takes it away, and never a directory that was there before.
pub proof fn law_failed_join_leaves_what_was_there(
    joined: bool,
    has_config: bool,
    directory_was_there: bool,
)
    ensures
        cleanup_after(joined, has_config, directory_was_there) is Nothing <==> joined || has_config,
        directory_was_there ==> !(cleanup_after(joined, has_config, directory_was_there) is Directory),
        !joined && !has_config && !directory_was_there ==> cleanup_after(
            joined,
            has_config,
            directory_was_there,
        ) is Directory,
{
}

/// What is taken away after a join: nothing where it succeeded, or where a
/// configuration was written; else what the join made, which is the directory
/// only where it was not there before.
pub fn cleanup(joined: bool, has_config: bool, directory_was_there: bool) -> (result: Cleanup)
    ensures
        result == cleanup_after(joined, has_config, directory_was_there),
{
    if joined || has_config {
        Cleanup::Nothing
    } else if directory_was_there {
        Cleanup::MeshState
    } else {
        Cleanup::Directory
    }
}

/// Who joins: a person, on a device, at an endpoint.
pub struct Guest {
    pub person_id: String,
    pub device_id: String,
    pub public_key: String,
    pub certificate: Json,
    pub endpoint: String,
}

/// What a guest advertises, before it is signed.
pub open spec fn advertisement_of(
    workspace_id: Seq<char>,
    guest: Guest,
    issued_at: Seq<char>,
) -> JsonTree {
    empty_object().with("kind"@, JsonTree::Text("peer-advertisement"@)).with(
        "version"@,
        count(1),
    ).with("workspaceId"@, JsonTree::Text(workspace_id)).with(
        "personId"@,
        JsonTree::Text(guest.person_id@),
    ).with("deviceId"@, JsonTree::Text(guest.device_id@)).with(
        "endpoint"@,
        JsonTree::Text(guest.endpoint@),
    ).with("issuedAt"@, JsonTree::Text(issued_at)).with(
        "deviceName"@,
        JsonTree::Text("mesh-lighthouse"@),
    )
}

/// What a guest advertises at the moment `now`, before it is signed.
pub fn advertisement(workspace_id: &str, guest: &Guest, now: i128) -> (result: Result<Json, String>)
    requires
        0 <= now <= max_millis(),
    ensures
        shown(result) == match utc_text_of(now * 1_000_000) {
            Ok(issued_at) => Ok(advertisement_of(workspace_id@, *guest, issued_at)),
            Err(error) => Err(error),
        },
{
    match timestamp(now) {
        Ok(issued_at) => Ok(advertise(workspace_id, guest, issued_at.as_str())),
        Err(error) => Err(error),
    }
}

/// What a guest advertises, issued at the moment that `issued_at` says.
pub fn advertise(workspace_id: &str, guest: &Guest, issued_at: &str) -> (result: Json)
    ensures
        result@ == advertisement_of(workspace_id@, *guest, issued_at@),
{
    Json::empty().with("kind", Json::text("peer-advertisement")).with(
        "version",
        Json::count(1),
    ).with("workspaceId", Json::text(workspace_id)).with(
        "personId",
        Json::text(guest.person_id.as_str()),
    ).with("deviceId", Json::text(guest.device_id.as_str())).with(
        "endpoint",
        Json::text(guest.endpoint.as_str()),
    ).with("issuedAt", Json::text(issued_at)).with("deviceName", Json::text("mesh-lighthouse"))
}

/// A signed envelope: the whole of it, and its parts.
pub struct SignedEnvelope {
    pub whole: Json,
    pub payload: Json,
    pub signer_key_id: String,
    pub signature: String,
}

/// What a guest shows of itself: its signed advertisement, whole and in parts,
/// and what shows that the key is its own.
pub open spec fn bundle_of(signed: SignedEnvelope, guest: Guest) -> JsonTree {
    empty_object().with("advertisement"@, signed.whole@).with("signed"@, signed.whole@).with(
        "payload"@,
        signed.payload@,
    ).with("signerKeyId"@, JsonTree::Text(signed.signer_key_id@)).with(
        "signature"@,
        JsonTree::Text(signed.signature@),
    ).with("publicKey"@, JsonTree::Text(guest.public_key@)).with(
        "certificates"@,
        JsonTree::Array(seq![guest.certificate@]),
    )
}

/// What a guest shows of itself.
pub fn guest_bundle(signed: &SignedEnvelope, guest: &Guest) -> (result: Json)
    ensures
        result@ == bundle_of(*signed, *guest),
{
    let mut certificates: Vec<Json> = Vec::new();
    certificates.push(guest.certificate.clone());
    assert(trees(certificates@) =~= seq![guest.certificate@]);
    Json::empty().with("advertisement", signed.whole.clone()).with(
        "signed",
        signed.whole.clone(),
    ).with("payload", signed.payload.clone()).with(
        "signerKeyId",
        Json::text(signed.signer_key_id.as_str()),
    ).with("signature", Json::text(signed.signature.as_str())).with(
        "publicKey",
        Json::text(guest.public_key.as_str()),
    ).with("certificates", Json::array(certificates))
}

/// What a guest asks the issuer of an invitation.
pub open spec fn request_of(
    invitation_id: Seq<char>,
    person_id: Seq<char>,
    bundle: JsonTree,
) -> JsonTree {
    empty_object().with("invitationId"@, JsonTree::Text(invitation_id)).with(
        "personId"@,
        JsonTree::Text(person_id),
    ).with("displayName"@, JsonTree::Text("mesh-lighthouse"@)).with(
        "meshPeers"@,
        JsonTree::Array(seq![bundle]),
    )
}

/// What a guest asks the issuer of an invitation.
pub fn join_request(invitation: &Invitation, guest: &Guest, bundle: &Json) -> (result: Json)
    ensures
        result@ == request_of(invitation.invitation_id@, guest.person_id@, bundle@),
{
    let mut peers: Vec<Json> = Vec::new();
    peers.push(bundle.clone());
    assert(trees(peers@) =~= seq![bundle@]);
    Json::empty().with("invitationId", Json::text(invitation.invitation_id.as_str())).with(
        "personId",
        Json::text(guest.person_id.as_str()),
    ).with("displayName", Json::text("mesh-lighthouse")).with("meshPeers", Json::array(peers))
}

/// The issuer's answer to a guest who was let in.
pub struct JoinResponse {
    pub grants: Vec<Json>,
    pub snapshot: String,
    pub mesh_workspaces: Vec<Json>,
}

/// The string under `name` of what the issuer says of the workspace, where it is
/// not empty.
pub open spec fn said(scope: JsonTree, name: Seq<char>) -> Option<Seq<char>> {
    match scope.text_at(name) {
        Some(text) => if text.len() > 0 {
            Some(text)
        } else {
            None
        },
        None => None,
    }
}

fn read_field<'a>(scope: &'a Json, name: &str) -> (result: Option<&'a str>)
    ensures
        match result {
            Some(text) => said(scope@, name@) == Some(text@),
            None => said(scope@, name@) is None,
        },
{
    match scope.text_at(name) {
        Some(text) => if text.is_empty() {
            None
        } else {
            Some(text)
        },
        None => None,
    }
}

fn says(scope: &Json, name: &str, wanted: &str) -> (result: bool)
    ensures
        result == (said(scope@, name@) == Some(wanted@)),
{
    match read_field(scope, name) {
        Some(text) => same(text, wanted),
        None => false,
    }
}

/// The public key of the owner, as the issuer says it: there has to be one grant
/// and one workspace, the invited one, owned by the issuer.
pub open spec fn owner_key_of(invitation: Invitation, received: JoinResponse) -> Result<
    Seq<char>,
    Seq<char>,
> {
    if received.grants@.len() != 1 || received.mesh_workspaces@.len() != 1 {
        Err("Workspace invitation must contain exactly one grant and mesh scope"@)
    } else {
        let scope = received.mesh_workspaces@[0]@;
        if said(scope, "workspaceId"@) != Some(invitation.workspace_id@) || said(
            scope,
            "ownerPersonId"@,
        ) != Some(invitation.issuer_person_id@) {
            Err("Invitation owner or workspace mismatch"@)
        } else {
            match said(scope, "ownerPublicKey"@) {
                Some(key) => Ok(key),
                None => Err("Missing owner public key"@),
            }
        }
    }
}

/// The public key of the owner, whose id has to be the issuer's.
pub fn owner_key(invitation: &Invitation, received: &JoinResponse) -> (result: Result<
    String,
    String,
>)
    ensures
        shown(result) == owner_key_of(*invitation, *received),
{
    if received.grants.len() != 1 || received.mesh_workspaces.len() != 1 {
        return Err(
            "Workspace invitation must contain exactly one grant and mesh scope".to_owned(),
        );
    }
    let scope = &received.mesh_workspaces[0];
    if !says(scope, "workspaceId", invitation.workspace_id.as_str()) || !says(
        scope,
        "ownerPersonId",
        invitation.issuer_person_id.as_str(),
    ) {
        return Err("Invitation owner or workspace mismatch".to_owned());
    }
    match read_field(scope, "ownerPublicKey") {
        Some(key) => Ok(key.to_owned()),
        None => Err("Missing owner public key".to_owned()),
    }
}

/// The owner's certificates, as the issuer sends them; `key_id` is the id of the
/// owner's key.
pub open spec fn certificates_of(
    invitation: Invitation,
    received: JoinResponse,
    key_id: Result<String, String>,
) -> Result<JsonTree, Seq<char>> {
    match owner_key_of(invitation, received) {
        Err(error) => Err(error),
        Ok(_) => match key_id {
            Err(error) => Err(error@),
            Ok(id) => if id@ != invitation.issuer_person_id@ {
                Err("Invitation owner or workspace mismatch"@)
            } else {
                match received.mesh_workspaces@[0]@.get("ownerCertificates"@) {
                    Some(certificates) => Ok(certificates),
                    None => Err("Missing owner certificates"@),
                }
            },
        },
    }
}

/// The owner's certificates, as the issuer sends them.
pub fn owner_certificates(
    invitation: &Invitation,
    received: &JoinResponse,
    key_id: &Result<String, String>,
) -> (result: Result<Json, String>)
    ensures
        shown(result) == certificates_of(*invitation, *received, *key_id),
{
    match owner_key(invitation, received) {
        Ok(_) => {},
        Err(error) => return Err(error),
    }
    match key_id {
        Ok(id) => if !same(id.as_str(), invitation.issuer_person_id.as_str()) {
            return Err("Invitation owner or workspace mismatch".to_owned());
        },
        Err(error) => return Err(error.clone()),
    }
    match received.mesh_workspaces[0].get("ownerCertificates") {
        Some(certificates) => Ok(certificates.clone()),
        None => Err("Missing owner certificates".to_owned()),
    }
}

/// The first of `peers` that advertises the device.
pub open spec fn peer_with_device(peers: Seq<JsonTree>, device_id: Seq<char>) -> Option<JsonTree>
    decreases peers.len(),
{
    if peers.len() == 0 {
        None
    } else if peers[0].text_at3("advertisement"@, "payload"@, "deviceId"@) == Some(device_id) {
        Some(peers[0])
    } else {
        peer_with_device(peers.drop_first(), device_id)
    }
}

proof fn lemma_peer_skip(peers: Seq<JsonTree>, device_id: Seq<char>, n: int)
    requires
        0 <= n <= peers.len(),
        forall|i: int|
            0 <= i < n ==> (#[trigger] peers[i]).text_at3(
                "advertisement"@,
                "payload"@,
                "deviceId"@,
            ) != Some(device_id),
    ensures
        peer_with_device(peers, device_id) == peer_with_device(peers.skip(n), device_id),
    decreases n,
{
    if n > 0 {
        lemma_peer_skip(peers.drop_first(), device_id, n - 1);
        assert(peers.drop_first().skip(n - 1) =~= peers.skip(n));
    } else {
        assert(peers.skip(0) =~= peers);
    }
}

fn find_peer<'a>(peers: &'a Vec<Json>, device_id: &str) -> (result: Option<&'a Json>)
    ensures
        match result {
            Some(peer) => peer_with_device(trees(peers@), device_id@) == Some(peer@),
            None => peer_with_device(trees(peers@), device_id@) is None,
        },
{
    let ghost all = trees(peers@);
    let mut index: usize = 0;
    while index < peers.len()
        invariant
            index <= peers@.len(),
            all == trees(peers@),
            forall|i: int|
                0 <= i < index ==> (#[trigger] all[i]).text_at3(
                    "advertisement"@,
                    "payload"@,
                    "deviceId"@,
                ) != Some(device_id@),
        decreases peers@.len() - index,
    {
        assert(all[index as int] == peers@[index as int]@);
        let found = match peers[index].text_at3("advertisement", "payload", "deviceId") {
            Some(text) => same(text, device_id),
            None => false,
        };
        if found {
            proof {
                lemma_peer_skip(all, device_id@, index as int);
                assert(all.skip(index as int)[0] == all[index as int]);
            }
            return Some(&peers[index]);
        }
        index = index + 1;
    }
    proof {
        lemma_peer_skip(all, device_id@, index as int);
    }
    None
}

/// The issuer among the peers of the workspace; `role` is what the grant gives,
/// and a lighthouse joins as an editor.
pub open spec fn issuer_of(
    invitation: Invitation,
    received: JoinResponse,
    role: Result<WorkspaceRole, String>,
) -> Result<JsonTree, Seq<char>> {
    match role {
        Err(error) => Err(error@),
        Ok(role) => if role != WorkspaceRole::Editor {
            Err("Lighthouse invitation issued an invalid role"@)
        } else {
            match received.mesh_workspaces@[0]@.items_at("peers"@) {
                None => Err("Missing owner peer"@),
                Some(peers) => match peer_with_device(peers, invitation.issuer_device_id@) {
                    None => Err("Invitation issuer absent from mesh peers"@),
                    Some(issuer) => Ok(issuer),
                },
            }
        },
    }
}

/// The issuer among the peers of the workspace, to be verified against the owner.
pub fn issuer_peer(
    invitation: &Invitation,
    received: &JoinResponse,
    role: &Result<WorkspaceRole, String>,
) -> (result: Result<Json, String>)
    requires
        received.mesh_workspaces@.len() == 1,
    ensures
        shown(result) == issuer_of(*invitation, *received, *role),
{
    match role {
        Ok(role) => if *role != WorkspaceRole::Editor {
            return Err("Lighthouse invitation issued an invalid role".to_owned());
        },
        Err(error) => return Err(error.clone()),
    }
    let peers = match received.mesh_workspaces[0].items_at("peers") {
        Some(peers) => peers,
        None => return Err("Missing owner peer".to_owned()),
    };
    match find_peer(peers, invitation.issuer_device_id.as_str()) {
        Some(issuer) => Ok(issuer.clone()),
        None => Err("Invitation issuer absent from mesh peers".to_owned()),
    }
}

/// Whether the verified issuer is the owner, with the key and the endpoint of
/// the invitation.
pub open spec fn is_issuer(invitation: Invitation, issuer: Member) -> bool {
    &&& issuer.role == WorkspaceRole::Owner
    &&& issuer.device_public_key@ == invitation.issuer_public_key@
    &&& issuer.endpoint@ == invitation.issuer_endpoint@
}

/// The workspace as the issuer's snapshot holds it, its document in base64.
pub struct WorkspaceEntry {
    pub bytes: String,
    pub authorization: Option<Json>,
    pub chat: Option<Json>,
}

/// The bytes of the issuer's snapshot, in which the workspace is.
pub fn workspace_set(received: &JoinResponse) -> (result: Result<Vec<u8>, String>)
    ensures
        shown(result) == base64_bytes(received.snapshot@),
{
    base64_decode(received.snapshot.as_str())
}

/// The state that a workspace begins with: its document, its authorization, and
/// its chat, empty where it has none.
pub open spec fn first_state(
    document: Result<Seq<u8>, Seq<char>>,
    entry: WorkspaceEntry,
) -> Result<StateView, Seq<char>> {
    match document {
        Err(error) => Err(error),
        Ok(document) => match entry.authorization {
            None => Err("Missing Match write authorization"@),
            Some(authorization) => Ok(
                StateView {
                    document,
                    authorization: authorization@,
                    chat: match entry.chat {
                        Some(chat) => chat@,
                        None => fresh_chat(Seq::empty(), Seq::empty()),
                    },
                    mesh: None,
                },
            ),
        },
    }
}

/// The state that a workspace begins with.
pub fn initial_state(entry: &WorkspaceEntry) -> (result: Result<MatchLighthouseState, String>)
    ensures
        shown(result) == first_state(base64_bytes(entry.bytes@), *entry),
{
    state_with(base64_decode(entry.bytes.as_str()), entry)
}

/// The state that a workspace begins with, by its document as it was decoded.
pub fn state_with(document: Result<Vec<u8>, String>, entry: &WorkspaceEntry) -> (result: Result<
    MatchLighthouseState,
    String,
>)
    ensures
        shown(result) == first_state(shown(document), *entry),
{
    let document = match document {
        Ok(bytes) => bytes,
        Err(error) => return Err(error),
    };
    let authorization = match &entry.authorization {
        Some(authorization) => authorization.clone(),
        None => return Err("Missing Match write authorization".to_owned()),
    };
    let chat = match &entry.chat {
        Some(chat) => chat.clone(),
        None => empty_chat(),
    };
    Ok(MatchLighthouseState { document, authorization, chat, mesh: None })
}

/// What the guest shows of itself as a member: its bundle, with the grant and
/// the owner that gave it.
pub open spec fn member_bundle(
    bundle: JsonTree,
    grant: JsonTree,
    owner_public_key: Seq<char>,
    owner_certificates: JsonTree,
) -> JsonTree {
    bundle.with("grant"@, grant).with("ownerPublicKey"@, JsonTree::Text(owner_public_key)).with(
        "ownerCertificates"@,
        owner_certificates,
    )
}

/// What the guest shows of itself as a member.
pub fn local_peer(
    bundle: &Json,
    grant: &Json,
    owner_public_key: &str,
    owner_certificates: &Json,
) -> (result: Json)
    requires
        bundle@ is Object || bundle@ is Null,
    ensures
        result@ == member_bundle(bundle@, grant@, owner_public_key@, owner_certificates@),
{
    bundle.clone().with("grant", grant.clone()).with(
        "ownerPublicKey",
        Json::text(owner_public_key),
    ).with("ownerCertificates", owner_certificates.clone())
}

/// What was found of the issuer's answer, step by step: the id of the owner's
/// key; the owner's certificates, as they were read; the role that the grant
/// gives; the issuer, verified; the workspace in the snapshot; and the guest,
/// verified as a member.
pub struct JoinFindings {
    pub key_id: Result<String, String>,
    pub certificates: Result<Json, String>,
    pub role: Result<WorkspaceRole, String>,
    pub issuer: Result<Member, String>,
    pub entry: Result<WorkspaceEntry, String>,
    pub local: Result<Member, String>,
}

/// What only the guest knows: the seeds of its keys.
pub struct GuestSecrets {
    pub identity_seed: Vec<u8>,
    pub device_seed: Vec<u8>,
    pub iroh_secret: Vec<u8>,
}

/// What a lighthouse runs by.
pub struct Config {
    pub workspace_id: String,
    pub transport_secret: String,
    pub device_id: String,
    pub iroh_secret: Vec<u8>,
    pub owner_endpoint_id: String,
    pub local_peer: Json,
    pub genesis_person_id: String,
    pub initial_state: MatchLighthouseState,
    pub identity_seed: Vec<u8>,
    pub device_seed: Vec<u8>,
}

/// What a configuration is.
#[verifier::ext_equal]
pub struct ConfigView {
    pub workspace_id: Seq<char>,
    pub transport_secret: Seq<char>,
    pub device_id: Seq<char>,
    pub iroh_secret: Seq<u8>,
    pub owner_endpoint_id: Seq<char>,
    pub local_peer: JsonTree,
    pub genesis_person_id: Seq<char>,
    pub initial_state: StateView,
    pub identity_seed: Seq<u8>,
    pub device_seed: Seq<u8>,
}

impl View for Config {
    type V = ConfigView;

    open spec fn view(&self) -> ConfigView {
        ConfigView {
            workspace_id: self.workspace_id@,
            transport_secret: self.transport_secret@,
            device_id: self.device_id@,
            iroh_secret: self.iroh_secret@,
            owner_endpoint_id: self.owner_endpoint_id@,
            local_peer: self.local_peer@,
            genesis_person_id: self.genesis_person_id@,
            initial_state: self.initial_state@,
            identity_seed: self.identity_seed@,
            device_seed: self.device_seed@,
        }
    }
}

/// What holds of the issuer's answer up to the issuer, or the first thing that
/// does not.
pub open spec fn issuer_error(
    invitation: Invitation,
    received: JoinResponse,
    findings: JoinFindings,
) -> Option<Seq<char>> {
    match certificates_of(invitation, received, findings.key_id) {
        Err(error) => Some(error),
        Ok(_) => match findings.certificates {
            Err(error) => Some(error@),
            Ok(_) => match issuer_of(invitation, received, findings.role) {
                Err(error) => Some(error),
                Ok(_) => match findings.issuer {
                    Err(error) => Some(error@),
                    Ok(issuer) => if is_issuer(invitation, issuer) {
                        None
                    } else {
                        Some("Invitation issuer does not match signed owner route"@)
                    },
                },
            },
        },
    }
}

/// The state that the workspace in the issuer's snapshot begins with, or the
/// first thing that stands in the way.
pub open spec fn received_state(received: JoinResponse, findings: JoinFindings) -> Result<
    StateView,
    Seq<char>,
> {
    match base64_bytes(received.snapshot@) {
        Err(error) => Err(error),
        Ok(_) => match findings.entry {
            Err(error) => Err(error@),
            Ok(entry) => first_state(base64_bytes(entry.bytes@), entry),
        },
    }
}

/// Whether the authority over the workspace is the issuer's.
pub open spec fn is_owned_by_issuer(
    invitation: Invitation,
    owner_key: Seq<char>,
    authority: Authority,
) -> bool {
    &&& authority.expected_current_owner.person_id@ == invitation.issuer_person_id@
    &&& authority.expected_current_owner.public_key@ == owner_key
}

/// The state to open the workspace with, where it begins with `state`: there is
/// one where all that was found of the issuer's answer agrees.
pub open spec fn agreed_state(
    invitation: Invitation,
    received: JoinResponse,
    findings: JoinFindings,
    state: Result<StateView, Seq<char>>,
) -> Result<StateView, Seq<char>> {
    match issuer_error(invitation, received, findings) {
        Some(error) => Err(error),
        None => match state {
            Err(error) => Err(error),
            Ok(state) => match findings.local {
                Err(error) => Err(error@),
                Ok(local) => if local.role != findings.role->Ok_0 {
                    Err("Lighthouse grant and advertisement disagree"@)
                } else {
                    Ok(state)
                },
            },
        },
    }
}

/// What the lighthouse runs by once it joined, or the first thing that stands in
/// the way; `authority` is the authority over the workspace that was opened.
pub open spec fn config_of(
    invitation: Invitation,
    received: JoinResponse,
    device_id: Seq<char>,
    bundle: JsonTree,
    secrets: GuestSecrets,
    findings: JoinFindings,
    authority: Result<Authority, String>,
) -> Result<ConfigView, Seq<char>> {
    config_with(
        invitation,
        received,
        device_id,
        bundle,
        secrets,
        findings,
        received_state(received, findings),
        authority,
    )
}

/// What the lighthouse runs by once it joined, where the workspace begins with
/// `state`; or the first thing that stands in the way.
pub open spec fn config_with(
    invitation: Invitation,
    received: JoinResponse,
    device_id: Seq<char>,
    bundle: JsonTree,
    secrets: GuestSecrets,
    findings: JoinFindings,
    state: Result<StateView, Seq<char>>,
    authority: Result<Authority, String>,
) -> Result<ConfigView, Seq<char>> {
    match agreed_state(invitation, received, findings, state) {
        Err(error) => Err(error),
        Ok(state) => match authority {
            Err(error) => Err(error@),
            Ok(authority) => if !is_owned_by_issuer(
                invitation,
                owner_key_of(invitation, received)->Ok_0,
                authority,
            ) {
                Err("Match document owner differs from invitation issuer"@)
            } else {
                match said(received.mesh_workspaces@[0]@, "transportSecret"@) {
                    None => Err("Missing workspace transport secret"@),
                    Some(transport_secret) => Ok(
                        ConfigView {
                            workspace_id: invitation.workspace_id@,
                            transport_secret,
                            device_id,
                            iroh_secret: secrets.iroh_secret@,
                            owner_endpoint_id: invitation.issuer_endpoint@,
                            local_peer: member_bundle(
                                bundle,
                                received.grants@[0]@,
                                owner_key_of(invitation, received)->Ok_0,
                                findings.certificates->Ok_0@,
                            ),
                            genesis_person_id: invitation.issuer_person_id@,
                            initial_state: state,
                            identity_seed: secrets.identity_seed@,
                            device_seed: secrets.device_seed@,
                        },
                    ),
                }
            },
        },
    }
}

/// Checks the issuer's answer up to the issuer, with the owner's key and
/// certificates.
fn check_issuer(invitation: &Invitation, received: &JoinResponse, findings: &JoinFindings) -> (
    result: Result<(), String>)
    ensures
        match result {
            Ok(_) => issuer_error(*invitation, *received, *findings) is None,
            Err(error) => issuer_error(*invitation, *received, *findings) == Some(error@),
        },
{
    match owner_certificates(invitation, received, &findings.key_id) {
        Ok(_) => {},
        Err(error) => return Err(error),
    }
    match &findings.certificates {
        Ok(_) => {},
        Err(error) => return Err(error.clone()),
    }
    match issuer_peer(invitation, received, &findings.role) {
        Ok(_) => {},
        Err(error) => return Err(error),
    }
    let issuer = match &findings.issuer {
        Ok(issuer) => issuer,
        Err(error) => return Err(error.clone()),
    };
    if issuer.role == WorkspaceRole::Owner && same(
        issuer.device_public_key.as_str(),
        invitation.issuer_public_key.as_str(),
    ) && same(issuer.endpoint.as_str(), invitation.issuer_endpoint.as_str()) {
        Ok(())
    } else {
        Err("Invitation issuer does not match signed owner route".to_owned())
    }
}

/// The state of the workspace in the issuer's snapshot.
fn snapshot_state(received: &JoinResponse, findings: &JoinFindings) -> (result: Result<
    MatchLighthouseState,
    String,
>)
    ensures
        shown(result) == received_state(*received, *findings),
{
    match workspace_set(received) {
        Ok(_) => match &findings.entry {
            Ok(entry) => initial_state(entry),
            Err(error) => Err(error.clone()),
        },
        Err(error) => Err(error),
    }
}

/// The state to open the workspace with: there is one where all that was found of
/// the issuer's answer agrees, so that nothing is opened or written otherwise.
pub fn state_to_open(invitation: &Invitation, received: &JoinResponse, findings: &JoinFindings) -> (
    result: Result<MatchLighthouseState, String>)
    ensures
        shown(result) == agreed_state(
            *invitation,
            *received,
            *findings,
            received_state(*received, *findings),
        ),
{
    agree(invitation, received, findings, snapshot_state(received, findings))
}

/// The state to open the workspace with, where it begins with `state`.
pub fn agree(
    invitation: &Invitation,
    received: &JoinResponse,
    findings: &JoinFindings,
    state: Result<MatchLighthouseState, String>,
) -> (result: Result<MatchLighthouseState, String>)
    ensures
        shown(result) == agreed_state(*invitation, *received, *findings, shown(state)),
{
    match check_issuer(invitation, received, findings) {
        Ok(_) => {},
        Err(error) => return Err(error),
    }
    let state = match state {
        Ok(state) => state,
        Err(error) => return Err(error),
    };
    let local = match &findings.local {
        Ok(local) => local,
        Err(error) => return Err(error.clone()),
    };
    let agrees = match &findings.role {
        Ok(role) => local.role == *role,
        Err(_) => false,
    };
    if agrees {
        Ok(state)
    } else {
        Err("Lighthouse grant and advertisement disagree".to_owned())
    }
}

/// Sets the lighthouse up by the issuer's answer, what was found of it, and the
/// authority over the workspace that was opened.
pub fn prepare_config(
    invitation: &Invitation,
    received: &JoinResponse,
    device_id: &str,
    bundle: &Json,
    secrets: &GuestSecrets,
    findings: &JoinFindings,
    authority: &Result<Authority, String>,
) -> (result: Result<Config, String>)
    requires
        bundle@ is Object || bundle@ is Null,
    ensures
        shown(result) == config_of(
            *invitation,
            *received,
            device_id@,
            bundle@,
            *secrets,
            *findings,
            *authority,
        ),
{
    let state = snapshot_state(received, findings);
    configure(invitation, received, device_id, bundle, secrets, findings, state, authority)
}

/// Sets the lighthouse up by the issuer's answer and what was found of it, where
/// the workspace begins with `state`.
pub fn configure(
    invitation: &Invitation,
    received: &JoinResponse,
    device_id: &str,
    bundle: &Json,
    secrets: &GuestSecrets,
    findings: &JoinFindings,
    state: Result<MatchLighthouseState, String>,
    authority: &Result<Authority, String>,
) -> (result: Result<Config, String>)
    requires
        bundle@ is Object || bundle@ is Null,
    ensures
        shown(result) == config_with(
            *invitation,
            *received,
            device_id@,
            bundle@,
            *secrets,
            *findings,
            shown(state),
            *authority,
        ),
{
    let initial_state = match agree(invitation, received, findings, state) {
        Ok(state) => state,
        Err(error) => return Err(error),
    };
    let owner_public_key = match owner_key(invitation, received) {
        Ok(key) => key,
        Err(error) => return Err(error),
    };
    let authority = match authority {
        Ok(authority) => authority,
        Err(error) => return Err(error.clone()),
    };
    if !same(
        authority.expected_current_owner.person_id.as_str(),
        invitation.issuer_person_id.as_str(),
    ) || !same(
        authority.expected_current_owner.public_key.as_str(),
        owner_public_key.as_str(),
    ) {
        return Err("Match document owner differs from invitation issuer".to_owned());
    }
    let transport_secret = match read_field(&received.mesh_workspaces[0], "transportSecret") {
        Some(secret) => secret.to_owned(),
        None => return Err("Missing workspace transport secret".to_owned()),
    };
    let certificates = match &findings.certificates {
        Ok(certificates) => certificates,
        Err(error) => return Err(error.clone()),
    };
    Ok(
        Config {
            workspace_id: invitation.workspace_id.clone(),
            transport_secret,
            device_id: device_id.to_owned(),
            iroh_secret: copy_bytes(secrets.iroh_secret.as_slice()),
            owner_endpoint_id: invitation.issuer_endpoint.clone(),
            local_peer: local_peer(
                bundle,
                &received.grants[0],
                owner_public_key.as_str(),
                certificates,
            ),
            genesis_person_id: invitation.issuer_person_id.clone(),
            initial_state,
            identity_seed: copy_bytes(secrets.identity_seed.as_slice()),
            device_seed: copy_bytes(secrets.device_seed.as_slice()),
        },
    )
}

/// A join succeeds only with an answer in which the verified issuer, the guest
/// and the authority agree: the issuer owns the workspace, with the invitation's
/// key and endpoint; the guest is a verified editor; and the document is the
/// issuer's.
pub proof fn law_joined_by_the_issuer(
    invitation: Invitation,
    received: JoinResponse,
    device_id: Seq<char>,
    bundle: JsonTree,
    secrets: GuestSecrets,
    findings: JoinFindings,
    authority: Result<Authority, String>,
)
    requires
        config_of(invitation, received, device_id, bundle, secrets, findings, authority) is Ok,
    ensures
        findings.issuer matches Ok(issuer) && is_issuer(invitation, issuer),
        findings.role matches Ok(role) && role == WorkspaceRole::Editor,
        findings.local matches Ok(local) && local.role == WorkspaceRole::Editor,
        authority matches Ok(found) && is_owned_by_issuer(
            invitation,
            owner_key_of(invitation, received)->Ok_0,
            found,
        ),
        findings.key_id matches Ok(id) && id@ == invitation.issuer_person_id@,
{
}

/// A lighthouse is set up with the state that its workspace was opened with.
pub proof fn law_set_up_with_the_opened_state(
    invitation: Invitation,
    received: JoinResponse,
    device_id: Seq<char>,
    bundle: JsonTree,
    secrets: GuestSecrets,
    findings: JoinFindings,
    authority: Result<Authority, String>,
)
    requires
        config_of(invitation, received, device_id, bundle, secrets, findings, authority) is Ok,
    ensures
        agreed_state(invitation, received, findings, received_state(received, findings)) == Ok::<
            StateView,
            Seq<char>,
        >(
            config_of(
                invitation,
                received,
                device_id,
                bundle,
                secrets,
                findings,
                authority,
            )->Ok_0.initial_state,
        ),
{
}

proof fn lemma_advertisement_names()
    ensures
        "kind"@.len() == 4,
        "version"@.len() == 7,
        "workspaceId"@.len() == 11,
        "personId"@.len() == 8,
        "deviceId"@.len() == 8,
        "endpoint"@.len() == 8,
        "issuedAt"@.len() == 8,
        "deviceName"@.len() == 10,
        "personId"@[0] == 'p',
        "deviceId"@[0] == 'd',
        "endpoint"@[0] == 'e',
        "issuedAt"@[0] == 'i',
{
    reveal_strlit("kind");
    reveal_strlit("version");
    reveal_strlit("workspaceId");
    reveal_strlit("personId");
    reveal_strlit("deviceId");
    reveal_strlit("endpoint");
    reveal_strlit("issuedAt");
    reveal_strlit("deviceName");
}

proof fn lemma_guest_names()
    ensures
        "advertisement"@.len() == 13,
        "signed"@.len() == 6,
        "payload"@.len() == 7,
        "signerKeyId"@.len() == 11,
        "signature"@.len() == 9,
        "publicKey"@.len() == 9,
        "certificates"@.len() == 12,
        "signature"@[0] == 's',
        "publicKey"@[0] == 'p',
{
    reveal_strlit("advertisement");
    reveal_strlit("signed");
    reveal_strlit("payload");
    reveal_strlit("signerKeyId");
    reveal_strlit("signature");
    reveal_strlit("publicKey");
    reveal_strlit("certificates");
}

proof fn lemma_request_names()
    ensures
        "invitationId"@.len() == 12,
        "personId"@.len() == 8,
        "displayName"@.len() == 11,
        "meshPeers"@.len() == 9,
{
    reveal_strlit("invitationId");
    reveal_strlit("personId");
    reveal_strlit("displayName");
    reveal_strlit("meshPeers");
}

proof fn lemma_membership_names()
    ensures
        "grant"@.len() == 5,
        "ownerPublicKey"@.len() == 14,
        "ownerCertificates"@.len() == 17,
{
    reveal_strlit("grant");
    reveal_strlit("ownerPublicKey");
    reveal_strlit("ownerCertificates");
}

proof fn lemma_version_one()
    ensures
        count(1) == JsonTree::Number(seq!['1']),
{
    assert(crate::text::digit(1) == '1');
    assert(crate::text::decimal(1) =~= seq!['1']);
}

/// What a guest advertises reads back as the guest's: the workspace, the person, the
/// device, the endpoint and the moment, as a peer of that name, and nothing else.
pub proof fn law_advertisement_is_the_guests(
    workspace_id: Seq<char>,
    guest: Guest,
    issued_at: Seq<char>,
    key: Seq<char>,
)
    ensures
        advertisement_of(workspace_id, guest, issued_at).get(key) == if key == "kind"@ {
            Some(JsonTree::Text("peer-advertisement"@))
        } else if key == "version"@ {
            Some(JsonTree::Number(seq!['1']))
        } else if key == "workspaceId"@ {
            Some(JsonTree::Text(workspace_id))
        } else if key == "personId"@ {
            Some(JsonTree::Text(guest.person_id@))
        } else if key == "deviceId"@ {
            Some(JsonTree::Text(guest.device_id@))
        } else if key == "endpoint"@ {
            Some(JsonTree::Text(guest.endpoint@))
        } else if key == "issuedAt"@ {
            Some(JsonTree::Text(issued_at))
        } else if key == "deviceName"@ {
            Some(JsonTree::Text("mesh-lighthouse"@))
        } else {
            None
        },
{
    broadcast use written_member;

    lemma_advertisement_names();
    lemma_version_one();
}

/// What a guest shows of itself reads back: the signed advertisement, whole and in its
/// parts, with the guest's own key and its one certificate.
pub proof fn law_bundle_is_the_guests(signed: SignedEnvelope, guest: Guest, key: Seq<char>)
    ensures
        bundle_of(signed, guest).get(key) == if key == "advertisement"@ || key == "signed"@ {
            Some(signed.whole@)
        } else if key == "payload"@ {
            Some(signed.payload@)
        } else if key == "signerKeyId"@ {
            Some(JsonTree::Text(signed.signer_key_id@))
        } else if key == "signature"@ {
            Some(JsonTree::Text(signed.signature@))
        } else if key == "publicKey"@ {
            Some(JsonTree::Text(guest.public_key@))
        } else if key == "certificates"@ {
            Some(JsonTree::Array(seq![guest.certificate@]))
        } else {
            None
        },
{
    broadcast use written_member;

    lemma_guest_names();
}

/// What a guest asks names the invitation and the person, and brings the guest's bundle
/// as its one peer.
pub proof fn law_request_brings_the_guest(
    invitation_id: Seq<char>,
    person_id: Seq<char>,
    bundle: JsonTree,
    key: Seq<char>,
)
    ensures
        request_of(invitation_id, person_id, bundle).get(key) == if key == "invitationId"@ {
            Some(JsonTree::Text(invitation_id))
        } else if key == "personId"@ {
            Some(JsonTree::Text(person_id))
        } else if key == "displayName"@ {
            Some(JsonTree::Text("mesh-lighthouse"@))
        } else if key == "meshPeers"@ {
            Some(JsonTree::Array(seq![bundle]))
        } else {
            None
        },
{
    broadcast use written_member;

    lemma_request_names();
}

/// A member shows the guest's bundle, all of it, with the grant and the owner who gave
/// it.
pub proof fn law_member_shows_grant_and_owner(
    bundle: JsonTree,
    grant: JsonTree,
    owner_public_key: Seq<char>,
    owner_certificates: JsonTree,
    key: Seq<char>,
)
    requires
        bundle is Object,
    ensures
        member_bundle(bundle, grant, owner_public_key, owner_certificates).get(key) == if key
            == "grant"@ {
            Some(grant)
        } else if key == "ownerPublicKey"@ {
            Some(JsonTree::Text(owner_public_key))
        } else if key == "ownerCertificates"@ {
            Some(owner_certificates)
        } else {
            bundle.get(key)
        },
{
    broadcast use written_member;

    lemma_membership_names();
}

/// An invitation is taken where it is to one workspace, and no mesh state is there yet.
pub proof fn law_invitation_is_to_one_workspace(
    invitation: Option<Invitation>,
    has_mesh_state: bool,
)
    ensures
        invitation_error(invitation, has_mesh_state) is None <==> invitation is Some
            && invitation->0.workspaces == 1 && !has_mesh_state,
        invitation is None ==> invitation_error(invitation, has_mesh_state) == Some(
            "Lighthouse requires a workspace invitation"@,
        ),
        invitation is Some && invitation->0.workspaces != 1 ==> invitation_error(
            invitation,
            has_mesh_state,
        ) == Some("Lighthouse accepts one workspace per invitation"@),
        invitation is Some && invitation->0.workspaces == 1 && has_mesh_state ==> invitation_error(
            invitation,
            has_mesh_state,
        ) == Some("Lighthouse state directory already exists"@),
{
}

/// The owner's key is taken of an answer with one grant and one workspace, which is the
/// invited one and owned by the issuer, and names a key that is not empty. Otherwise it
/// is told what does not hold.
pub proof fn law_owner_key_is_the_issuers(invitation: Invitation, received: JoinResponse)
    ensures
        ({
            let result = owner_key_of(invitation, received);
            let scope = received.mesh_workspaces@[0]@;
            if received.grants@.len() != 1 || received.mesh_workspaces@.len() != 1 {
                result == Err::<Seq<char>, Seq<char>>(
                    "Workspace invitation must contain exactly one grant and mesh scope"@,
                )
            } else if invitation.workspace_id@.len() == 0 || invitation.issuer_person_id@.len() == 0
                || scope.text_at("workspaceId"@) != Some(invitation.workspace_id@) || scope.text_at(
                "ownerPersonId"@,
            ) != Some(invitation.issuer_person_id@) {
                result == Err::<Seq<char>, Seq<char>>("Invitation owner or workspace mismatch"@)
            } else if scope.text_at("ownerPublicKey"@) is Some && scope.text_at(
                "ownerPublicKey"@,
            )->0.len() > 0 {
                result == Ok::<Seq<char>, Seq<char>>(scope.text_at("ownerPublicKey"@)->0)
            } else {
                result == Err::<Seq<char>, Seq<char>>("Missing owner public key"@)
            }
        }),
{
}

/// The owner's certificates are taken where the id of the owner's key is the issuer's.
pub proof fn law_certificates_are_the_owners(
    invitation: Invitation,
    received: JoinResponse,
    key_id: Result<String, String>,
)
    ensures
        ({
            let result = certificates_of(invitation, received, key_id);
            if owner_key_of(invitation, received) is Err {
                result == Err::<JsonTree, Seq<char>>(owner_key_of(invitation, received)->Err_0)
            } else if key_id is Err {
                result == Err::<JsonTree, Seq<char>>(key_id->Err_0@)
            } else if key_id->Ok_0@ != invitation.issuer_person_id@ {
                result == Err::<JsonTree, Seq<char>>("Invitation owner or workspace mismatch"@)
            } else if received.mesh_workspaces@[0]@.get("ownerCertificates"@) is None {
                result == Err::<JsonTree, Seq<char>>("Missing owner certificates"@)
            } else {
                Ok::<JsonTree, Seq<char>>(
                    received.mesh_workspaces@[0]@.get("ownerCertificates"@)->0,
                ) == result
            }
        }),
{
}

proof fn lemma_peer_at(peers: Seq<JsonTree>, device_id: Seq<char>)
    ensures
        match peer_with_device(peers, device_id) {
            Some(peer) => exists|i: int|
                {
                    &&& 0 <= i < peers.len()
                    &&& #[trigger] peers[i] == peer
                    &&& peers[i].text_at3("advertisement"@, "payload"@, "deviceId"@) == Some(
                        device_id,
                    )
                    &&& forall|j: int|
                        0 <= j < i ==> (#[trigger] peers[j]).text_at3(
                            "advertisement"@,
                            "payload"@,
                            "deviceId"@,
                        ) != Some(device_id)
                },
            None => forall|j: int|
                0 <= j < peers.len() ==> (#[trigger] peers[j]).text_at3(
                    "advertisement"@,
                    "payload"@,
                    "deviceId"@,
                ) != Some(device_id),
        },
    decreases peers.len(),
{
    if peers.len() > 0 {
        if peers[0].text_at3("advertisement"@, "payload"@, "deviceId"@) == Some(device_id) {
            assert(peers[0] == peer_with_device(peers, device_id)->0);
        } else {
            let rest = peers.drop_first();
            lemma_peer_at(rest, device_id);
            if peer_with_device(rest, device_id) is Some {
                let i = choose|i: int|
                    {
                        &&& 0 <= i < rest.len()
                        &&& #[trigger] rest[i] == peer_with_device(rest, device_id)->0
                        &&& rest[i].text_at3("advertisement"@, "payload"@, "deviceId"@) == Some(
                            device_id,
                        )
                        &&& forall|j: int|
                            0 <= j < i ==> (#[trigger] rest[j]).text_at3(
                                "advertisement"@,
                                "payload"@,
                                "deviceId"@,
                            ) != Some(device_id)
                    };
                assert(peers[i + 1] == rest[i]);
                assert forall|j: int| 0 <= j < i + 1 implies (#[trigger] peers[j]).text_at3(
                    "advertisement"@,
                    "payload"@,
                    "deviceId"@,
                ) != Some(device_id) by {
                    if j > 0 {
                        assert(rest[j - 1] == peers[j]);
                    }
                }
            } else {
                assert forall|j: int| 0 <= j < peers.len() implies (#[trigger] peers[j]).text_at3(
                    "advertisement"@,
                    "payload"@,
                    "deviceId"@,
                ) != Some(device_id) by {
                    if j > 0 {
                        assert(rest[j - 1] == peers[j]);
                    }
                }
            }
        }
    }
}

/// The issuer is the first of the workspace's peers that advertises the device of the
/// invitation; a lighthouse joins as an editor and as nothing else.
pub proof fn law_issuer_is_found_by_device(
    invitation: Invitation,
    received: JoinResponse,
    role: Result<WorkspaceRole, String>,
)
    ensures
        ({
            let result = issuer_of(invitation, received, role);
            let peers = received.mesh_workspaces@[0]@.items_at("peers"@);
            if role is Err {
                result == Err::<JsonTree, Seq<char>>(role->Err_0@)
            } else if role->Ok_0 != WorkspaceRole::Editor {
                result == Err::<JsonTree, Seq<char>>(
                    "Lighthouse invitation issued an invalid role"@,
                )
            } else if peers is None {
                result == Err::<JsonTree, Seq<char>>("Missing owner peer"@)
            } else {
                &&& result matches Ok(issuer) ==> issuer.text_at3(
                    "advertisement"@,
                    "payload"@,
                    "deviceId"@,
                ) == Some(invitation.issuer_device_id@) && peers->0.contains(issuer)
                &&& result is Err <==> forall|j: int|
                    0 <= j < peers->0.len() ==> (#[trigger] peers->0[j]).text_at3(
                        "advertisement"@,
                        "payload"@,
                        "deviceId"@,
                    ) != Some(invitation.issuer_device_id@)
                &&& result matches Err(error) ==> error
                    == "Invitation issuer absent from mesh peers"@
            }
        }),
{
    let peers = received.mesh_workspaces@[0]@.items_at("peers"@);
    if peers is Some {
        lemma_peer_at(peers->0, invitation.issuer_device_id@);
        if peer_with_device(peers->0, invitation.issuer_device_id@) is Some {
            let i = choose|i: int|
                0 <= i < peers->0.len() && #[trigger] peers->0[i] == peer_with_device(
                    peers->0,
                    invitation.issuer_device_id@,
                )->0 && peers->0[i].text_at3("advertisement"@, "payload"@, "deviceId"@) == Some(
                    invitation.issuer_device_id@,
                );
            assert(peers->0.contains(peers->0[i]));
        }
    }
}

/// A workspace begins with its document and its authorization as they were received,
/// with its chat, or with an empty one, and without a mesh. Without an authorization it
/// does not begin.
pub proof fn law_workspace_begins_as_received(
    document: Result<Seq<u8>, Seq<char>>,
    entry: WorkspaceEntry,
)
    ensures
        document matches Err(error) ==> first_state(document, entry) == Err::<StateView, Seq<char>>(
            error,
        ),
        document is Ok && entry.authorization is None ==> first_state(document, entry) == Err::<
            StateView,
            Seq<char>,
        >("Missing Match write authorization"@),
        document is Ok && entry.authorization is Some ==> (first_state(document, entry) matches Ok(
            state,
        ) && state.document == document->Ok_0 && state.authorization == entry.authorization->0@
            && state.mesh is None && (entry.chat matches Some(chat) ==> state.chat == chat@) && (
        entry.chat is None ==> state.chat.items_at("messages"@) == Some(Seq::<JsonTree>::empty())
            && state.chat.items_at("profiles"@) == Some(Seq::<JsonTree>::empty())
            && state.chat.items_at("typing"@) == Some(Seq::<JsonTree>::empty()))),
{
    law_fresh_chat_is_read_back(Seq::empty(), Seq::empty());
}

/// A lighthouse is set up only where everything agrees, by what each says of itself: the
/// answer has one grant and one workspace, the invited one, owned by the issuer; the
/// issuer was verified as its owner, with the key and the endpoint of the invitation;
/// the grant and the verified guest are both those of an editor; and the authority over
/// the document has the issuer for its owner, with the key that the answer names.
pub proof fn law_join_needs_everything_to_agree(
    invitation: Invitation,
    received: JoinResponse,
    device_id: Seq<char>,
    bundle: JsonTree,
    secrets: GuestSecrets,
    findings: JoinFindings,
    authority: Result<Authority, String>,
)
    requires
        config_of(invitation, received, device_id, bundle, secrets, findings, authority) is Ok,
    ensures
        received.grants@.len() == 1,
        received.mesh_workspaces@.len() == 1,
        ({
            let scope = received.mesh_workspaces@[0]@;
            &&& scope.text_at("workspaceId"@) == Some(invitation.workspace_id@)
            &&& scope.text_at("ownerPersonId"@) == Some(invitation.issuer_person_id@)
            &&& scope.text_at("ownerPublicKey"@) is Some
            &&& scope.get("ownerCertificates"@) is Some
            &&& scope.text_at("transportSecret"@) is Some
            &&& authority is Ok && authority->Ok_0.expected_current_owner.person_id@
                == invitation.issuer_person_id@
            &&& Some(authority->Ok_0.expected_current_owner.public_key@) == scope.text_at(
                "ownerPublicKey"@,
            )
        }),
        findings.key_id is Ok && findings.key_id->Ok_0@ == invitation.issuer_person_id@,
        findings.certificates is Ok,
        findings.role == Ok::<WorkspaceRole, String>(WorkspaceRole::Editor),
        findings.issuer is Ok && findings.issuer->Ok_0.role == WorkspaceRole::Owner,
        findings.issuer->Ok_0.device_public_key@ == invitation.issuer_public_key@,
        findings.issuer->Ok_0.endpoint@ == invitation.issuer_endpoint@,
        findings.entry is Ok && findings.entry->Ok_0.authorization is Some,
        findings.local is Ok && findings.local->Ok_0.role == WorkspaceRole::Editor,
{
}

/// What a lighthouse runs by once it joined: the workspace and the endpoint of the
/// invitation, the transport secret of the answer, the guest's own device and secrets,
/// the issuer as the person the workspace began with, its own bundle with the grant and
/// the owner, and the workspace's state as it was received.
pub proof fn law_lighthouse_runs_by_the_answer(
    invitation: Invitation,
    received: JoinResponse,
    device_id: Seq<char>,
    bundle: JsonTree,
    secrets: GuestSecrets,
    findings: JoinFindings,
    authority: Result<Authority, String>,
    config: ConfigView,
)
    requires
        bundle is Object,
        config_of(invitation, received, device_id, bundle, secrets, findings, authority) == Ok::<
            ConfigView,
            Seq<char>,
        >(config),
    ensures
        config.workspace_id == invitation.workspace_id@,
        Some(config.transport_secret) == received.mesh_workspaces@[0]@.text_at("transportSecret"@),
        config.transport_secret.len() > 0,
        config.device_id == device_id,
        config.iroh_secret == secrets.iroh_secret@,
        config.identity_seed == secrets.identity_seed@,
        config.device_seed == secrets.device_seed@,
        config.owner_endpoint_id == invitation.issuer_endpoint@,
        config.genesis_person_id == invitation.issuer_person_id@,
        config.local_peer.get("grant"@) == Some(received.grants@[0]@),
        config.local_peer.text_at("ownerPublicKey"@) == received.mesh_workspaces@[0]@.text_at(
            "ownerPublicKey"@,
        ),
        config.local_peer.get("ownerCertificates"@) == Some(findings.certificates->Ok_0@),
        config.local_peer.get("advertisement"@) == bundle.get("advertisement"@),
        base64_bytes(findings.entry->Ok_0.bytes@) == Ok::<Seq<u8>, Seq<char>>(
            config.initial_state.document,
        ),
        config.initial_state.authorization == findings.entry->Ok_0.authorization->0@,
        findings.entry->Ok_0.chat matches Some(chat) ==> config.initial_state.chat == chat@,
        config.initial_state.mesh is None,
{
    broadcast use written_member;

    lemma_membership_names();
    reveal_strlit("advertisement");
    assert("advertisement"@.len() == 13);
}

/// What stands in the way of a join is told in the order in which it is found.
pub proof fn law_join_tells_the_first_disagreement(
    invitation: Invitation,
    received: JoinResponse,
    findings: JoinFindings,
    state: Result<StateView, Seq<char>>,
)
    ensures
        ({
            let result = agreed_state(invitation, received, findings, state);
            if certificates_of(invitation, received, findings.key_id) is Err {
                result == Err::<StateView, Seq<char>>(
                    certificates_of(invitation, received, findings.key_id)->Err_0,
                )
            } else if findings.certificates is Err {
                result == Err::<StateView, Seq<char>>(findings.certificates->Err_0@)
            } else if issuer_of(invitation, received, findings.role) is Err {
                result == Err::<StateView, Seq<char>>(
                    issuer_of(invitation, received, findings.role)->Err_0,
                )
            } else if findings.issuer is Err {
                result == Err::<StateView, Seq<char>>(findings.issuer->Err_0@)
            } else if findings.issuer->Ok_0.role != WorkspaceRole::Owner
                || findings.issuer->Ok_0.device_public_key@ != invitation.issuer_public_key@
                || findings.issuer->Ok_0.endpoint@ != invitation.issuer_endpoint@ {
                result == Err::<StateView, Seq<char>>(
                    "Invitation issuer does not match signed owner route"@,
                )
            } else if state is Err {
                result == Err::<StateView, Seq<char>>(state->Err_0)
            } else if findings.local is Err {
                result == Err::<StateView, Seq<char>>(findings.local->Err_0@)
            } else if findings.local->Ok_0.role != WorkspaceRole::Editor {
                result == Err::<StateView, Seq<char>>(
                    "Lighthouse grant and advertisement disagree"@,
                )
            } else {
                result == Ok::<StateView, Seq<char>>(state->Ok_0)
            }
        }),
{
}

/// Where all that was found agrees, the authority over the opened workspace decides: its
/// owner has to be the issuer with the key of the answer, and a transport secret has to
/// be there.
pub proof fn law_set_up_needs_the_issuers_document(
    invitation: Invitation,
    received: JoinResponse,
    device_id: Seq<char>,
    bundle: JsonTree,
    secrets: GuestSecrets,
    findings: JoinFindings,
    state: Result<StateView, Seq<char>>,
    authority: Result<Authority, String>,
)
    requires
        agreed_state(invitation, received, findings, state) is Ok,
    ensures
        ({
            let result = config_with(
                invitation,
                received,
                device_id,
                bundle,
                secrets,
                findings,
                state,
                authority,
            );
            let scope = received.mesh_workspaces@[0]@;
            if authority is Err {
                result == Err::<ConfigView, Seq<char>>(authority->Err_0@)
            } else if authority->Ok_0.expected_current_owner.person_id@
                != invitation.issuer_person_id@ || Some(
                authority->Ok_0.expected_current_owner.public_key@,
            ) != scope.text_at("ownerPublicKey"@) {
                result == Err::<ConfigView, Seq<char>>(
                    "Match document owner differs from invitation issuer"@,
                )
            } else if scope.text_at("transportSecret"@) is Some && scope.text_at(
                "transportSecret"@,
            )->0.len() > 0 {
                result matches Ok(config) && config.initial_state == state->Ok_0
            } else {
                result == Err::<ConfigView, Seq<char>>("Missing workspace transport secret"@)
            }
        }),
{
}

/// The workspace begins with the entry that was found in the snapshot, once the snapshot
/// is one of base64: what is wrong with the snapshot is told before what is wrong with
/// the entry, and that before what is wrong with the entry's document.
pub proof fn law_workspace_is_found_in_the_snapshot(received: JoinResponse, findings: JoinFindings)
    ensures
        base64_bytes(received.snapshot@) matches Err(error) ==> received_state(received, findings)
            == Err::<StateView, Seq<char>>(error),
        base64_bytes(received.snapshot@) is Ok ==> (findings.entry matches Err(error)
            ==> received_state(received, findings) == Err::<StateView, Seq<char>>(error@)),
        base64_bytes(received.snapshot@) is Ok ==> (findings.entry matches Ok(entry) ==> {
            let result = received_state(received, findings);
            if base64_bytes(entry.bytes@) is Err {
                result == Err::<StateView, Seq<char>>(base64_bytes(entry.bytes@)->Err_0)
            } else if entry.authorization is None {
                result == Err::<StateView, Seq<char>>("Missing Match write authorization"@)
            } else {
                result matches Ok(state) && state.document == base64_bytes(entry.bytes@)->Ok_0
                    && state.authorization == entry.authorization->0@
            }
        }),
{
}

/// A lighthouse is set up wherever everything agrees: the owner's key and certificates,
/// the issuer with the key and the endpoint of the invitation, an entry with a document
/// and an authorization, the guest as an editor, the issuer as the document's owner, and
/// a transport secret. It starts with the document that was received.
pub proof fn law_agreement_sets_the_lighthouse_up(
    invitation: Invitation,
    received: JoinResponse,
    device_id: Seq<char>,
    bundle: JsonTree,
    secrets: GuestSecrets,
    findings: JoinFindings,
    authority: Result<Authority, String>,
)
    requires
        certificates_of(invitation, received, findings.key_id) is Ok,
        findings.certificates is Ok,
        issuer_of(invitation, received, findings.role) is Ok,
        findings.issuer is Ok,
        findings.issuer->Ok_0.role == WorkspaceRole::Owner,
        findings.issuer->Ok_0.device_public_key@ == invitation.issuer_public_key@,
        findings.issuer->Ok_0.endpoint@ == invitation.issuer_endpoint@,
        base64_bytes(received.snapshot@) is Ok,
        findings.entry is Ok,
        findings.entry->Ok_0.authorization is Some,
        base64_bytes(findings.entry->Ok_0.bytes@) is Ok,
        findings.local is Ok,
        findings.local->Ok_0.role == WorkspaceRole::Editor,
        authority is Ok,
        authority->Ok_0.expected_current_owner.person_id@ == invitation.issuer_person_id@,
        received.mesh_workspaces@[0]@.text_at("ownerPublicKey"@) == Some(
            authority->Ok_0.expected_current_owner.public_key@,
        ),
        received.mesh_workspaces@[0]@.text_at("transportSecret"@) matches Some(secret)
            && secret.len() > 0,
    ensures
        config_of(
            invitation,
            received,
            device_id,
            bundle,
            secrets,
            findings,
            authority,
        ) matches Ok(config) && config.initial_state.document == base64_bytes(
            findings.entry->Ok_0.bytes@,
        )->Ok_0,
{
    let state = received_state(received, findings);
    law_workspace_is_found_in_the_snapshot(received, findings);
    law_join_tells_the_first_disagreement(invitation, received, findings, state);
    law_set_up_needs_the_issuers_document(
        invitation,
        received,
        device_id,
        bundle,
        secrets,
        findings,
        state,
        authority,
    );
}

/// A configuration is known by all of its parts, each by itself.
pub proof fn law_config_is_known_by_its_parts(config: Config)
    ensures
        config@.workspace_id == config.workspace_id@,
        config@.transport_secret == config.transport_secret@,
        config@.device_id == config.device_id@,
        config@.iroh_secret == config.iroh_secret@,
        config@.owner_endpoint_id == config.owner_endpoint_id@,
        config@.local_peer == config.local_peer@,
        config@.genesis_person_id == config.genesis_person_id@,
        config@.initial_state.document == config.initial_state.document@,
        config@.initial_state.authorization == config.initial_state.authorization@,
        config@.initial_state.chat == config.initial_state.chat@,
        config@.identity_seed == config.identity_seed@,
        config@.device_seed == config.device_seed@,
{
}

} // verus!
