//! The store of one workspace: what it asks of the workspace's authority, and
//! how its state follows from the answers.

use vstd::prelude::*;

use crate::chat::{chat_after, merge_chat};
use crate::document::{document_hashes, loaded, Document};
use crate::json::{
    copy_items, count, empty_object, json_text, tree_at, tree_of, trees, written_member, Json,
    JsonTree,
};
use crate::records::{
    first_of_each, has_key, law_each_key_once, law_kept_records_stay, lemma_kept_have_key,
    lemma_kept_keys, merge_records, merged_records, whole_record,
};
use crate::state::{
    copy_bytes, copy_option, is_for, Authority, MatchLighthouseState, Owner, Prepared, StateView,
};
use crate::text::{same, shown, texts, told};

verus! {

/// The store of a workspace, with the state it stands at.
pub struct MatchScopeStore {
    workspace_id: String,
    genesis_person_id: String,
    state: MatchLighthouseState,
}

/// What a store is.
#[verifier::ext_equal]
pub struct StoreView {
    pub workspace_id: Seq<char>,
    pub genesis_person_id: Seq<char>,
    pub state: StateView,
}

impl View for MatchScopeStore {
    type V = StoreView;

    closed spec fn view(&self) -> StoreView {
        StoreView {
            workspace_id: self.workspace_id@,
            genesis_person_id: self.genesis_person_id@,
            state: self.state@,
        }
    }
}

/// A state that is to be stored next. Only the store's own operations make one.
pub struct PendingState {
    next: MatchLighthouseState,
}

impl View for PendingState {
    type V = StateView;

    closed spec fn view(&self) -> StateView {
        self.next@
    }
}

impl PendingState {
    /// The state that is to be stored.
    pub fn state(&self) -> (result: &MatchLighthouseState)
        ensures
            result@ == self@,
    {
        &self.next
    }
}

/// What the authority over a workspace is established from.
pub struct AuthorityQuery {
    pub document: Vec<u8>,
    pub evidence: Json,
    pub known: Option<Json>,
    pub records: Vec<Json>,
    pub genesis_person_id: String,
}

/// What a query for the authority is.
#[verifier::ext_equal]
pub struct AuthorityQueryView {
    pub document: Seq<u8>,
    pub evidence: JsonTree,
    pub known: Option<JsonTree>,
    pub records: Seq<JsonTree>,
    pub genesis_person_id: Seq<char>,
}

impl View for AuthorityQuery {
    type V = AuthorityQueryView;

    open spec fn view(&self) -> AuthorityQueryView {
        AuthorityQueryView {
            document: self.document@,
            evidence: self.evidence@,
            known: tree_of(self.known),
            records: trees(self.records@),
            genesis_person_id: self.genesis_person_id@,
        }
    }
}

/// What is admitted against the authority: a candidate document with the hashes
/// of the changes it brings, and their grounds.
pub struct AdmissionQuery {
    pub previous: Option<Vec<u8>>,
    pub candidate: Vec<u8>,
    pub hashes: Vec<String>,
    pub grounds: Option<Json>,
}

/// What a query for an admission is.
#[verifier::ext_equal]
pub struct AdmissionQueryView {
    pub previous: Option<Seq<u8>>,
    pub candidate: Seq<u8>,
    pub hashes: Seq<Seq<char>>,
    pub grounds: Option<JsonTree>,
}

impl View for AdmissionQuery {
    type V = AdmissionQueryView;

    open spec fn view(&self) -> AdmissionQueryView {
        AdmissionQueryView {
            previous: match self.previous {
                Some(bytes) => Some(bytes@),
                None => None,
            },
            candidate: self.candidate@,
            hashes: texts(self.hashes@),
            grounds: tree_of(self.grounds),
        }
    }
}

/// What establishes the authority over the workspace as it is stored.
pub open spec fn stored_query(state: StateView, genesis_person_id: Seq<char>) -> Result<
    AuthorityQueryView,
    Seq<char>,
> {
    match state.authorization.get("authority"@) {
        None => Err("Missing lighthouse authority"@),
        Some(evidence) => match state.authorization.items_at("records"@) {
            None => Err("Missing lighthouse write authorizations"@),
            Some(records) => Ok(
                AuthorityQueryView {
                    document: state.document,
                    evidence,
                    known: None,
                    records,
                    genesis_person_id,
                },
            ),
        },
    }
}

/// The authority that was prepared, if it is one over `workspace_id`.
pub open spec fn authority_of(
    state: StateView,
    genesis_person_id: Seq<char>,
    workspace_id: Seq<char>,
    prepared: Result<Prepared, String>,
) -> Result<Authority, Seq<char>> {
    match stored_query(state, genesis_person_id) {
        Err(error) => Err(error),
        Ok(_) => match prepared {
            Err(error) => Err(error@),
            Ok(authority) => if authority.snapshot.workspace_id@ == workspace_id {
                Ok(authority.snapshot)
            } else {
                Err("Lighthouse workspace does not match document"@)
            },
        },
    }
}

/// The authority that was prepared for the workspace of `store`.
pub open spec fn store_authority(store: StoreView, prepared: Result<Prepared, String>) -> Result<
    Authority,
    Seq<char>,
> {
    authority_of(store.state, store.genesis_person_id, store.workspace_id, prepared)
}

fn query_stored(state: &MatchLighthouseState, genesis_person_id: &str) -> (result: Result<
    AuthorityQuery,
    String,
>)
    ensures
        shown(result) == stored_query(state@, genesis_person_id@),
{
    let evidence = match state.authorization.get("authority") {
        Some(evidence) => evidence.clone(),
        None => return Err("Missing lighthouse authority".to_owned()),
    };
    let records = match state.authorization.items_at("records") {
        Some(records) => copy_items(records),
        None => return Err("Missing lighthouse write authorizations".to_owned()),
    };
    Ok(
        AuthorityQuery {
            document: copy_bytes(state.document.as_slice()),
            evidence,
            known: None,
            records,
            genesis_person_id: genesis_person_id.to_owned(),
        },
    )
}

fn check_authority(
    state: &MatchLighthouseState,
    genesis_person_id: &str,
    workspace_id: &str,
    prepared: &Result<Prepared, String>,
) -> (result: Result<(), String>)
    ensures
        match authority_of(state@, genesis_person_id@, workspace_id@, *prepared) {
            Ok(_) => result is Ok,
            Err(error) => result matches Err(told) && told@ == error,
        },
{
    match query_stored(state, genesis_person_id) {
        Ok(_) => {},
        Err(error) => return Err(error),
    }
    match prepared {
        Ok(authority) => if same(authority.snapshot.workspace_id.as_str(), workspace_id) {
            Ok(())
        } else {
            Err("Lighthouse workspace does not match document".to_owned())
        },
        Err(error) => Err(error.clone()),
    }
}

/// A workspace about to be opened: its state, and whether it has to be stored.
pub struct Opening {
    pub state: MatchLighthouseState,
    pub is_new: bool,
}

/// The state to open a workspace at: the stored one, where there is one, whatever
/// the initial one is; else the initial one.
pub open spec fn opening_state(stored: Option<StateView>, initial: StateView) -> StateView {
    match stored {
        Some(state) => state,
        None => initial,
    }
}

/// Whether a workspace about to be opened has still to be stored.
pub open spec fn is_unstored(stored: Option<StateView>) -> bool {
    stored is None
}

/// A workspace that is opened at its initial state has still to be stored; one that was
/// stored has not, and is opened at what was stored.
pub proof fn law_first_state_is_stored(stored: Option<StateView>, initial: StateView)
    ensures
        is_unstored(stored) ==> opening_state(stored, initial) == initial,
        !is_unstored(stored) ==> stored == Some(opening_state(stored, initial)),
        is_unstored(stored) <==> stored == None::<StateView>,
{
}

/// What is known of a stored state, where there is one.
pub open spec fn state_at(stored: Option<MatchLighthouseState>) -> Option<StateView> {
    match stored {
        Some(state) => Some(state@),
        None => None,
    }
}

/// The state to open a workspace at; one that was not stored yet has to be.
pub fn opening(stored: Option<MatchLighthouseState>, initial: MatchLighthouseState) -> (result:
    Opening)
    ensures
        result.state@ == opening_state(state_at(stored), initial@),
        result.is_new == is_unstored(state_at(stored)),
{
    match stored {
        Some(state) => Opening { state, is_new: false },
        None => Opening { state: initial, is_new: true },
    }
}

/// What establishes the authority over a workspace about to be opened.
pub fn opening_query(state: &MatchLighthouseState, genesis_person_id: &str) -> (result: Result<
    AuthorityQuery,
    String,
>)
    ensures
        shown(result) == stored_query(state@, genesis_person_id@),
{
    query_stored(state, genesis_person_id)
}

/// What has to be admitted of a workspace about to be opened: its document with
/// all its changes, from nothing, on the stored authorization.
pub open spec fn opening_admission_of(state: StateView) -> Result<AdmissionQueryView, Seq<char>> {
    match loaded(state.document) {
        Err(message) => Err("Invalid lighthouse document: "@ + message),
        Ok(held) => Ok(
            AdmissionQueryView {
                previous: None,
                candidate: state.document,
                hashes: held.hashes,
                grounds: Some(state.authorization),
            },
        ),
    }
}

/// What has to be admitted of a workspace about to be opened, whose document is
/// `document`.
pub fn opening_admission(state: &MatchLighthouseState, document: &Document) -> (result: Result<
    AdmissionQuery,
    String,
>)
    requires
        document@ == state@.document,
    ensures
        shown(result) == opening_admission_of(state@),
{
    match document_hashes(document) {
        Ok(hashes) => Ok(
            AdmissionQuery {
                previous: None,
                candidate: copy_bytes(state.document.as_slice()),
                hashes,
                grounds: Some(state.authorization.clone()),
            },
        ),
        Err(error) => Err(error),
    }
}

/// The store that comes of opening a workspace, where the authority over it and
/// the admission of its document were granted.
pub open spec fn opened(
    workspace_id: Seq<char>,
    genesis_person_id: Seq<char>,
    state: StateView,
    prepared: Result<Prepared, String>,
    admitted: Result<Vec<Json>, String>,
) -> Result<StoreView, Seq<char>> {
    opened_as_loaded(
        workspace_id,
        genesis_person_id,
        state,
        prepared,
        match opening_admission_of(state) {
            Ok(_) => None,
            Err(error) => Some(error),
        },
        admitted,
    )
}

/// The store that comes of opening a workspace whose document could not be loaded
/// for the reason `unloaded`, if there is one.
pub open spec fn opened_as_loaded(
    workspace_id: Seq<char>,
    genesis_person_id: Seq<char>,
    state: StateView,
    prepared: Result<Prepared, String>,
    unloaded: Option<Seq<char>>,
    admitted: Result<Vec<Json>, String>,
) -> Result<StoreView, Seq<char>> {
    match authority_of(state, genesis_person_id, workspace_id, prepared) {
        Err(error) => Err(error),
        Ok(_) => match unloaded {
            Some(error) => Err(error),
            None => match admitted {
                Err(error) => Err(error@),
                Ok(_) => Ok(StoreView { workspace_id, genesis_person_id, state }),
            },
        },
    }
}

/// What establishes the authority over a document on incoming grounds, beside
/// the evidence that is known.
pub open spec fn incoming_query(
    document: Seq<u8>,
    grounds: Option<JsonTree>,
    known: Option<JsonTree>,
    genesis_person_id: Seq<char>,
    no_authority: Seq<char>,
    no_records: Seq<char>,
) -> Result<AuthorityQueryView, Seq<char>> {
    match grounds {
        None => Err(no_authority),
        Some(grounds) => match grounds.get("authority"@) {
            None => Err(no_authority),
            Some(evidence) => match grounds.items_at("records"@) {
                None => Err(no_records),
                Some(records) => Ok(
                    AuthorityQueryView { document, evidence, known, records, genesis_person_id },
                ),
            },
        },
    }
}

/// What establishes the authority over a candidate document.
pub open spec fn candidate_query(
    store: StoreView,
    candidate: Seq<u8>,
    grounds: Option<JsonTree>,
) -> Result<AuthorityQueryView, Seq<char>> {
    incoming_query(
        candidate,
        grounds,
        store.state.authorization.get("authority"@),
        store.genesis_person_id,
        "Missing incoming Match authority"@,
        "Missing incoming Match write authorizations"@,
    )
}

/// What establishes the authority over the stored document with an incoming
/// authorization.
pub open spec fn merge_query(store: StoreView, incoming: JsonTree) -> Result<
    AuthorityQueryView,
    Seq<char>,
> {
    incoming_query(
        store.state.document,
        Some(incoming),
        store.state.authorization.get("authority"@),
        store.genesis_person_id,
        "Missing Match authority"@,
        "Missing Match write authorizations"@,
    )
}

/// Whether `query` asks to verify the peers that a state has, and those that come in.
pub open spec fn is_peer_query(
    query: PeerQuery,
    state: StateView,
    incoming: Seq<JsonTree>,
) -> bool {
    trees(query.known@) == stored_peers(state) && trees(query.incoming@) == incoming
}

/// The endpoints that the verified peers of a store advertise.
pub open spec fn authorized_endpoints(
    store: StoreView,
    prepared: Result<Prepared, String>,
    peers: Result<Vec<Json>, String>,
) -> Result<Seq<Seq<char>>, Seq<char>> {
    match verified_peers(store, prepared, peers) {
        Ok(peers) => Ok(endpoints(peers)),
        Err(error) => Err(error),
    }
}

/// Whether `snapshot` is what a store that stands at `state` shows, with these peers.
pub open spec fn is_snapshot(
    snapshot: ScopeSnapshot,
    state: StateView,
    peers: Seq<JsonTree>,
) -> bool {
    &&& snapshot.document@ == state.document
    &&& tree_of(snapshot.authorization) == Some(state.authorization)
    &&& tree_of(snapshot.chat) == Some(state.chat)
    &&& tree_of(snapshot.mesh) == Some(mesh_of(peers))
}

/// What has to be admitted of a candidate document.
pub open spec fn candidate_admission_of(
    store: StoreView,
    candidate: Seq<u8>,
    grounds: Option<JsonTree>,
    hashes: Seq<Seq<char>>,
) -> AdmissionQueryView {
    AdmissionQueryView { previous: Some(store.state.document), candidate, hashes, grounds }
}

/// What has to be admitted of an incoming authorization.
pub open spec fn merge_admission_of(store: StoreView, incoming: JsonTree) -> AdmissionQueryView {
    AdmissionQueryView {
        previous: Some(store.state.document),
        candidate: store.state.document,
        hashes: Seq::empty(),
        grounds: Some(incoming),
    }
}

/// Whether `query` is whom the peer of a store is verified against under an authority.
pub open spec fn is_member_query(
    query: MemberQuery,
    store: StoreView,
    peer: JsonTree,
    authority: Authority,
) -> bool {
    &&& query.peer@ == peer
    &&& query.workspace_id@ == store.workspace_id
    &&& same_owner(query.owner, authority.expected_current_owner)
    &&& query.owner_history@.len() == 1
    &&& same_owner(query.owner_history@[0], authority.genesis_owner)
}

/// The authorization of a workspace: its write authorizations and the evidence
/// of its authority.
pub open spec fn authorization_of(records: Seq<JsonTree>, authority: JsonTree) -> JsonTree {
    empty_object().with("version"@, count(1)).with("records"@, JsonTree::Array(records)).with(
        "authority"@,
        authority,
    )
}

/// The write authorizations that a state has.
pub open spec fn stored_records(state: StateView) -> Seq<JsonTree> {
    match state.authorization.items_at("records"@) {
        Some(records) => records,
        None => Seq::empty(),
    }
}

/// The state with the document that was admitted, the authorizations that were
/// verified, and the evidence that was merged; or the first failure on the way.
pub open spec fn admitted_state(
    query: Result<AuthorityQueryView, Seq<char>>,
    state: StateView,
    prepared: Result<Prepared, String>,
    verified: Result<Vec<Json>, String>,
) -> Result<StateView, Seq<char>> {
    match query {
        Err(error) => Err(error),
        Ok(query) => match prepared {
            Err(error) => Err(error@),
            Ok(authority) => match verified {
                Err(error) => Err(error@),
                Ok(records) => Ok(
                    StateView {
                        document: query.document,
                        authorization: authorization_of(
                            merged_records(stored_records(state), trees(records@)),
                            authority.merged@,
                        ),
                        chat: state.chat,
                        mesh: state.mesh,
                    },
                ),
            },
        },
    }
}

/// The peers that a state has.
pub open spec fn stored_peers(state: StateView) -> Seq<JsonTree> {
    match state.mesh {
        Some(mesh) => match mesh.items_at("peers"@) {
            Some(peers) => peers,
            None => Seq::empty(),
        },
        None => Seq::empty(),
    }
}

/// A mesh of peers of whom none is revoked.
pub open spec fn mesh_of(peers: Seq<JsonTree>) -> JsonTree {
    empty_object().with("version"@, count(1)).with("peers"@, JsonTree::Array(peers)).with(
        "revocations"@,
        JsonTree::Array(Seq::empty()),
    )
}

/// The peers that were verified under the authority over the workspace.
pub open spec fn verified_peers(
    store: StoreView,
    prepared: Result<Prepared, String>,
    peers: Result<Vec<Json>, String>,
) -> Result<Seq<JsonTree>, Seq<char>> {
    match store_authority(store, prepared) {
        Err(error) => Err(error),
        Ok(_) => match peers {
            Err(error) => Err(error@),
            Ok(peers) => Ok(trees(peers@)),
        },
    }
}

/// The endpoints that peers advertise, in their order; a peer that advertises
/// none is passed over.
pub open spec fn endpoints(peers: Seq<JsonTree>) -> Seq<Seq<char>>
    decreases peers.len(),
{
    if peers.len() == 0 {
        Seq::empty()
    } else {
        let earlier = endpoints(peers.drop_last());
        match peers.last().text_at3("advertisement"@, "payload"@, "endpoint"@) {
            Some(endpoint) => earlier.push(endpoint),
            None => earlier,
        }
    }
}

/// What a store shows of its workspace.
pub struct ScopeSnapshot {
    pub document: Vec<u8>,
    pub authorization: Option<Json>,
    pub chat: Option<Json>,
    pub mesh: Option<Json>,
}

/// What a peer brings of the mesh: its peers, and how many records there are of
/// each kind that would change the authority.
pub struct MeshCatalog {
    pub peers: Vec<Json>,
    pub revocations: usize,
    pub device_revocations: usize,
    pub departures: usize,
    pub ownership_transfers: Option<usize>,
    pub has_succession_policy: bool,
    pub succession_votes: Option<usize>,
    pub succession_claims: Option<usize>,
}

/// Whether there is at least one of an optional number of records.
pub open spec fn some_records(number: Option<usize>) -> bool {
    number matches Some(n) && n > 0
}

/// Whether a catalog would change the authority over the workspace.
pub open spec fn changes_authority(catalog: MeshCatalog) -> bool {
    ||| catalog.device_revocations > 0
    ||| catalog.departures > 0
    ||| catalog.revocations > 0
    ||| some_records(catalog.ownership_transfers)
    ||| catalog.has_succession_policy
    ||| some_records(catalog.succession_votes)
    ||| some_records(catalog.succession_claims)
}

fn any_records(number: Option<usize>) -> (result: bool)
    ensures
        result == some_records(number),
{
    match number {
        Some(n) => n > 0,
        None => false,
    }
}

/// The state with the mesh of the peers that were verified; or the first failure
/// on the way.
pub open spec fn meshed_state(
    store: StoreView,
    catalog: Result<MeshCatalog, String>,
    prepared: Result<Prepared, String>,
    peers: Result<Vec<Json>, String>,
) -> Result<StateView, Seq<char>> {
    match catalog {
        Err(error) => Err(error@),
        Ok(catalog) => if changes_authority(catalog) {
            Err("Lighthouse cannot apply mesh authority changes yet"@)
        } else {
            match verified_peers(store, prepared, peers) {
                Err(error) => Err(error),
                Ok(peers) => Ok(StateView { mesh: Some(mesh_of(peers)), ..store.state }),
            }
        },
    }
}

/// The state with the chat that comes of merging a batch into its chat.
pub open spec fn chatted_state(state: StateView, incoming: JsonTree) -> Result<
    StateView,
    Seq<char>,
> {
    match chat_after(state.chat, incoming) {
        Err(error) => Err(error),
        Ok(chat) => Ok(StateView { chat, ..state }),
    }
}

/// The peers that are verified under the authority over the workspace: those that
/// are known, and those that come in.
pub struct PeerQuery {
    pub known: Vec<Json>,
    pub incoming: Vec<Json>,
}

/// Whom a member of the workspace is verified against.
pub struct MemberQuery {
    pub peer: Json,
    pub workspace_id: String,
    pub owner: Owner,
    pub owner_history: Vec<Owner>,
}

fn copy_owner(owner: &Owner) -> (result: Owner)
    ensures
        same_owner(result, *owner),
{
    Owner {
        person_id: owner.person_id.clone(),
        public_key: owner.public_key.clone(),
        certificates: owner.certificates.clone(),
    }
}

/// Whether two owners are the same, with the same key and certificates.
pub open spec fn same_owner(a: Owner, b: Owner) -> bool {
    a.person_id@ == b.person_id@ && a.public_key@ == b.public_key@ && a.certificates@
        == b.certificates@
}

fn mesh_with(peers: Vec<Json>) -> (result: Json)
    ensures
        result@ == mesh_of(trees(peers@)),
{
    let revocations: Vec<Json> = Vec::new();
    assert(trees(revocations@) =~= Seq::empty());
    Json::empty().with("version", Json::count(1)).with("peers", Json::array(peers)).with(
        "revocations",
        Json::array(revocations),
    )
}

fn advertised_endpoints(peers: &Vec<Json>) -> (result: Vec<String>)
    ensures
        texts(result@) == endpoints(trees(peers@)),
{
    let ghost all = trees(peers@);
    let mut result: Vec<String> = Vec::new();
    assert(texts(result@) =~= endpoints(all.take(0)));
    let mut index: usize = 0;
    while index < peers.len()
        invariant
            index <= peers@.len(),
            all == trees(peers@),
            texts(result@) == endpoints(all.take(index as int)),
        decreases peers@.len() - index,
    {
        let ghost before = texts(result@);
        assert(all.take(index + 1).drop_last() =~= all.take(index as int));
        assert(all.take(index + 1).last() == peers@[index as int]@);
        if let Some(endpoint) = peers[index].text_at3("advertisement", "payload", "endpoint") {
            result.push(endpoint.to_owned());
            assert(texts(result@) =~= before.push(endpoint@));
        }
        index = index + 1;
    }
    assert(all.take(index as int) =~= all);
    result
}

fn query_incoming(
    document: &[u8],
    grounds: Option<&Json>,
    known: Option<&Json>,
    genesis_person_id: &str,
    no_authority: &str,
    no_records: &str,
) -> (result: Result<AuthorityQuery, String>)
    ensures
        shown(result) == incoming_query(
            document@,
            tree_at(grounds),
            tree_at(known),
            genesis_person_id@,
            no_authority@,
            no_records@,
        ),
{
    let grounds = match grounds {
        Some(grounds) => grounds,
        None => return Err(no_authority.to_owned()),
    };
    let evidence = match grounds.get("authority") {
        Some(evidence) => evidence.clone(),
        None => return Err(no_authority.to_owned()),
    };
    let records = match grounds.items_at("records") {
        Some(records) => copy_items(records),
        None => return Err(no_records.to_owned()),
    };
    let known = match known {
        Some(known) => Some(known.clone()),
        None => None,
    };
    Ok(
        AuthorityQuery {
            document: copy_bytes(document),
            evidence,
            known,
            records,
            genesis_person_id: genesis_person_id.to_owned(),
        },
    )
}

fn take_admitted(
    query: Result<AuthorityQuery, String>,
    state: &MatchLighthouseState,
    prepared: Result<Prepared, String>,
    verified: Result<Vec<Json>, String>,
) -> (result: Result<PendingState, String>)
    ensures
        shown(result) == admitted_state(shown(query), state@, prepared, verified),
{
    let query = match query {
        Ok(query) => query,
        Err(error) => return Err(error),
    };
    let authority = match prepared {
        Ok(authority) => authority,
        Err(error) => return Err(error),
    };
    let verified = match verified {
        Ok(verified) => verified,
        Err(error) => return Err(error),
    };
    let records = merge_records(state.authorization.items_at("records"), &verified);
    let authorization = Json::empty().with("version", Json::count(1)).with(
        "records",
        Json::array(records),
    ).with("authority", authority.merged);
    Ok(
        PendingState {
            next: MatchLighthouseState {
                document: query.document,
                authorization,
                chat: state.chat.clone(),
                mesh: copy_option(&state.mesh),
            },
        },
    )
}

fn copy_texts(list: &[String]) -> (result: Vec<String>)
    ensures
        texts(result@) == texts(list@),
{
    let mut result: Vec<String> = Vec::new();
    let mut index: usize = 0;
    while index < list.len()
        invariant
            index <= list@.len(),
            result@.len() == index,
            forall|i: int| 0 <= i < index ==> (#[trigger] result@[i])@ == list@[i]@,
        decreases list@.len() - index,
    {
        result.push(list[index].clone());
        index = index + 1;
    }
    assert(texts(result@) =~= texts(list@));
    result
}

impl MatchScopeStore {
    /// Opens a workspace at `state`, where the authority over its document was
    /// prepared and the document admitted.
    pub fn open(
        workspace_id: String,
        genesis_person_id: String,
        state: MatchLighthouseState,
        prepared: Result<Prepared, String>,
        admitted: Result<Vec<Json>, String>,
    ) -> (result: Result<MatchScopeStore, String>)
        requires
            is_for(prepared, state@.document),
        ensures
            shown(result) == opened(
                workspace_id@,
                genesis_person_id@,
                state@,
                prepared,
                admitted,
            ),
    {
        let hashes = match &prepared {
            Ok(authority) => document_hashes(&authority.document),
            Err(_) => Ok(Vec::new()),
        };
        MatchScopeStore::open_loaded(
            workspace_id,
            genesis_person_id,
            state,
            prepared,
            hashes,
            admitted,
        )
    }

    /// Opens a workspace at `state`, by whether the hashes of its document's
    /// changes could be read.
    pub fn open_loaded(
        workspace_id: String,
        genesis_person_id: String,
        state: MatchLighthouseState,
        prepared: Result<Prepared, String>,
        hashes: Result<Vec<String>, String>,
        admitted: Result<Vec<Json>, String>,
    ) -> (result: Result<MatchScopeStore, String>)
        ensures
            shown(result) == opened_as_loaded(
                workspace_id@,
                genesis_person_id@,
                state@,
                prepared,
                match hashes {
                    Ok(_) => None,
                    Err(error) => Some(error@),
                },
                admitted,
            ),
    {
        match check_authority(
            &state,
            genesis_person_id.as_str(),
            workspace_id.as_str(),
            &prepared,
        ) {
            Ok(_) => {},
            Err(error) => return Err(error),
        }
        match hashes {
            Ok(_) => {},
            Err(error) => return Err(error),
        }
        match admitted {
            Ok(_) => Ok(MatchScopeStore { workspace_id, genesis_person_id, state }),
            Err(error) => Err(error),
        }
    }

    /// The workspace's id.
    pub fn workspace_id(&self) -> (result: &str)
        ensures
            result@ == self@.workspace_id,
    {
        self.workspace_id.as_str()
    }

    /// The state that the store stands at.
    pub fn state(&self) -> (result: &MatchLighthouseState)
        ensures
            result@ == self@.state,
    {
        &self.state
    }

    /// The state with another chat.
    pub(crate) fn with_chat(&self, chat: Json) -> (result: PendingState)
        ensures
            result@ == (StateView { chat: chat@, ..self@.state }),
    {
        let mut next = self.state.clone();
        next.chat = chat;
        PendingState { next }
    }

    /// Whether what was prepared and what was verified hold for the workspace.
    pub(crate) fn check(
        &self,
        prepared: &Result<Prepared, String>,
        peers: &Result<Vec<Json>, String>,
    ) -> (result: Result<(), String>)
        ensures
            match verified_peers(self@, *prepared, *peers) {
                Ok(_) => result is Ok,
                Err(error) => result matches Err(told) && told@ == error,
            },
    {
        match self.check_authority(prepared) {
            Ok(_) => {},
            Err(error) => return Err(error),
        }
        match peers {
            Ok(_) => Ok(()),
            Err(error) => Err(error.clone()),
        }
    }

    /// Whether what was prepared is an authority over the workspace.
    pub(crate) fn check_authority(&self, prepared: &Result<Prepared, String>) -> (result: Result<
        (),
        String,
    >)
        ensures
            match store_authority(self@, *prepared) {
                Ok(_) => result is Ok,
                Err(error) => result matches Err(told) && told@ == error,
            },
    {
        check_authority(
            &self.state,
            self.genesis_person_id.as_str(),
            self.workspace_id.as_str(),
            prepared,
        )
    }

    /// What establishes the authority over the workspace.
    pub fn authority_query(&self) -> (result: Result<AuthorityQuery, String>)
        ensures
            shown(result) == stored_query(self@.state, self@.genesis_person_id),
    {
        query_stored(&self.state, self.genesis_person_id.as_str())
    }

    /// The authority over the workspace, where what was prepared is one over it.
    pub fn authority(&self, prepared: Result<Prepared, String>) -> (result: Result<
        Authority,
        String,
    >)
        ensures
            told(result) == store_authority(self@, prepared),
    {
        match self.check_authority(&prepared) {
            Ok(_) => {},
            Err(error) => return Err(error),
        }
        match prepared {
            Ok(authority) => Ok(authority.snapshot),
            Err(error) => Err(error),
        }
    }

    /// The peers to verify under the authority over the workspace where none come in.
    pub fn peer_query(&self) -> (result: PeerQuery)
        ensures
            is_peer_query(result, self@.state, Seq::empty()),
    {
        let none: Vec<Json> = Vec::new();
        assert(trees(none@) =~= Seq::empty());
        PeerQuery { known: self.known_peers(), incoming: none }
    }

    /// The peers to verify under the authority over the workspace where a catalog
    /// comes in: the known ones, and the catalog's.
    pub fn catalog_query(&self, catalog: &MeshCatalog) -> (result: PeerQuery)
        ensures
            is_peer_query(result, self@.state, trees(catalog.peers@)),
    {
        PeerQuery { known: self.known_peers(), incoming: copy_items(&catalog.peers) }
    }

    /// The peers that are known of the workspace.
    pub fn known_peers(&self) -> (result: Vec<Json>)
        ensures
            trees(result@) == stored_peers(self@.state),
    {
        match &self.state.mesh {
            Some(mesh) => match mesh.items_at("peers") {
                Some(peers) => copy_items(peers),
                None => {
                    let none: Vec<Json> = Vec::new();
                    assert(trees(none@) =~= Seq::empty());
                    none
                },
            },
            None => {
                let none: Vec<Json> = Vec::new();
                assert(trees(none@) =~= Seq::empty());
                none
            },
        }
    }

    /// The endpoints that the verified peers advertise.
    pub fn authorized_peer_endpoints(
        &self,
        prepared: &Result<Prepared, String>,
        peers: Result<Vec<Json>, String>,
    ) -> (result: Result<Vec<String>, String>)
        ensures
            match result {
                Ok(found) => authorized_endpoints(self@, *prepared, peers) == Ok::<
                    Seq<Seq<char>>,
                    Seq<char>,
                >(texts(found@)),
                Err(error) => authorized_endpoints(self@, *prepared, peers) == Err::<
                    Seq<Seq<char>>,
                    Seq<char>,
                >(error@),
            },
    {
        match self.check_authority(prepared) {
            Ok(_) => {},
            Err(error) => return Err(error),
        }
        match peers {
            Ok(peers) => Ok(advertised_endpoints(&peers)),
            Err(error) => Err(error),
        }
    }

    /// What the store shows of its workspace, with the mesh of the verified peers.
    pub fn snapshot(&self, prepared: &Result<Prepared, String>, peers: Result<Vec<Json>, String>) -> (
        result: Result<ScopeSnapshot, String>)
        ensures
            match verified_peers(self@, *prepared, peers) {
                Ok(peers) => result matches Ok(snapshot) && is_snapshot(
                    snapshot,
                    self@.state,
                    peers,
                ) && tree_of(snapshot.mesh)->0.items_at("peers"@) == Some(peers),
                Err(error) => result matches Err(told) && told@ == error,
            },
    {
        match self.check_authority(prepared) {
            Ok(_) => {},
            Err(error) => return Err(error),
        }
        proof {
            if let Ok(found) = verified_peers(self@, *prepared, peers) {
                law_mesh_gives_its_peers_back(found, "peers"@);
            }
        }
        match peers {
            Ok(peers) => Ok(
                ScopeSnapshot {
                    document: copy_bytes(self.state.document.as_slice()),
                    authorization: Some(self.state.authorization.clone()),
                    chat: Some(self.state.chat.clone()),
                    mesh: Some(mesh_with(peers)),
                },
            ),
            Err(error) => Err(error),
        }
    }

    /// Whom a member of the workspace is verified against: the current owner, and
    /// the owner that the workspace began with.
    pub fn member_query(&self, peer: &Json, authority: &Authority) -> (result: MemberQuery)
        ensures
            is_member_query(result, self@, peer@, *authority),
    {
        let mut owner_history: Vec<Owner> = Vec::new();
        owner_history.push(copy_owner(&authority.genesis_owner));
        MemberQuery {
            peer: peer.clone(),
            workspace_id: self.workspace_id.clone(),
            owner: copy_owner(&authority.expected_current_owner),
            owner_history,
        }
    }

    /// What establishes the authority over a candidate document.
    pub fn candidate_query(&self, candidate: &[u8], grounds: Option<&Json>) -> (result: Result<
        AuthorityQuery,
        String,
    >)
        ensures
            shown(result) == candidate_query(self@, candidate@, tree_at(grounds)),
    {
        query_incoming(
            candidate,
            grounds,
            self.state.authorization.get("authority"),
            self.genesis_person_id.as_str(),
            "Missing incoming Match authority",
            "Missing incoming Match write authorizations",
        )
    }

    /// What has to be admitted of a candidate document: the hashes it brings to
    /// the stored document, on its grounds.
    pub fn candidate_admission(
        &self,
        candidate: &[u8],
        grounds: Option<&Json>,
        accepted_hashes: &[String],
    ) -> (result: AdmissionQuery)
        ensures
            result@ == candidate_admission_of(
                self@,
                candidate@,
                tree_at(grounds),
                texts(accepted_hashes@),
            ),
    {
        AdmissionQuery {
            previous: Some(copy_bytes(self.state.document.as_slice())),
            candidate: copy_bytes(candidate),
            hashes: copy_texts(accepted_hashes),
            grounds: match grounds {
                Some(grounds) => Some(grounds.clone()),
                None => None,
            },
        }
    }

    /// The state with a candidate document, where the authority over it was
    /// prepared and it was admitted.
    pub fn persist_document(
        &self,
        candidate: &[u8],
        grounds: Option<&Json>,
        prepared: Result<Prepared, String>,
        verified: Result<Vec<Json>, String>,
    ) -> (result: Result<PendingState, String>)
        ensures
            shown(result) == admitted_state(
                candidate_query(self@, candidate@, tree_at(grounds)),
                self@.state,
                prepared,
                verified,
            ),
    {
        take_admitted(self.candidate_query(candidate, grounds), &self.state, prepared, verified)
    }

    /// What establishes the authority over the stored document with an incoming
    /// authorization.
    pub fn merge_query(&self, incoming: &Json) -> (result: Result<AuthorityQuery, String>)
        ensures
            shown(result) == merge_query(self@, incoming@),
    {
        query_incoming(
            self.state.document.as_slice(),
            Some(incoming),
            self.state.authorization.get("authority"),
            self.genesis_person_id.as_str(),
            "Missing Match authority",
            "Missing Match write authorizations",
        )
    }

    /// What has to be admitted of an incoming authorization: the stored document
    /// as it is, without changes, on that authorization.
    pub fn merge_admission(&self, incoming: &Json) -> (result: AdmissionQuery)
        ensures
            result@ == merge_admission_of(self@, incoming@),
    {
        let hashes: Vec<String> = Vec::new();
        assert(texts(hashes@) =~= Seq::empty());
        AdmissionQuery {
            previous: Some(copy_bytes(self.state.document.as_slice())),
            candidate: copy_bytes(self.state.document.as_slice()),
            hashes,
            grounds: Some(incoming.clone()),
        }
    }

    /// The state with an incoming authorization, where the authority was prepared
    /// and the authorization verified.
    pub fn merge_authorization(
        &self,
        incoming: &Json,
        prepared: Result<Prepared, String>,
        verified: Result<Vec<Json>, String>,
    ) -> (result: Result<PendingState, String>)
        ensures
            shown(result) == admitted_state(
                merge_query(self@, incoming@),
                self@.state,
                prepared,
                verified,
            ),
    {
        take_admitted(self.merge_query(incoming), &self.state, prepared, verified)
    }

    /// The state with an incoming chat batch.
    pub fn merge_chat(&self, incoming: &Json) -> (result: Result<PendingState, String>)
        ensures
            shown(result) == chatted_state(self@.state, incoming@),
    {
        match merge_chat(&self.state.chat, incoming) {
            Ok(chat) => Ok(self.with_chat(chat)),
            Err(error) => Err(error),
        }
    }

    /// The state with the peers of an incoming catalog, where they were verified.
    pub fn merge_mesh(
        &self,
        catalog: Result<MeshCatalog, String>,
        prepared: &Result<Prepared, String>,
        peers: Result<Vec<Json>, String>,
    ) -> (result: Result<PendingState, String>)
        ensures
            shown(result) == meshed_state(self@, catalog, *prepared, peers),
    {
        let catalog = match catalog {
            Ok(catalog) => catalog,
            Err(error) => return Err(error),
        };
        if catalog.device_revocations > 0 || catalog.departures > 0 || catalog.revocations > 0
            || any_records(catalog.ownership_transfers) || catalog.has_succession_policy
            || any_records(catalog.succession_votes) || any_records(catalog.succession_claims) {
            return Err("Lighthouse cannot apply mesh authority changes yet".to_owned());
        }
        match self.check_authority(prepared) {
            Ok(_) => {},
            Err(error) => return Err(error),
        }
        match peers {
            Ok(peers) => {
                let mut next = self.state.clone();
                next.mesh = Some(mesh_with(peers));
                Ok(PendingState { next })
            },
            Err(error) => Err(error),
        }
    }

    /// Workspace-set imports are refused.
    pub fn merge_durable_batch(&self, batch: &[u8]) -> (result: Result<PendingState, String>)
        ensures
            shown(result) == Err::<StateView, Seq<char>>(
                "Match lighthouse does not accept workspace-set imports"@,
            ),
    {
        Err("Match lighthouse does not accept workspace-set imports".to_owned())
    }

    /// Owner workspace offers are refused.
    pub fn merge_owner_offer(&self, offer: &[u8]) -> (result: Result<PendingState, String>)
        ensures
            shown(result) == Err::<StateView, Seq<char>>(
                "Match lighthouse does not accept owner workspace offers"@,
            ),
    {
        Err("Match lighthouse does not accept owner workspace offers".to_owned())
    }

    /// Gossip only wakes the lighthouse up: it is taken, and changes nothing.
    pub fn receive_gossip(&self, gossip: &[u8]) -> (result: Result<(), String>)
        ensures
            result is Ok,
    {
        Ok(())
    }

    /// Goes on to the next state once it was written; a state that could not be
    /// written is given up.
    pub fn save(&mut self, next: PendingState, written: Result<(), String>) -> (result: Result<
        (),
        String,
    >)
        ensures
            told(result) == told(written),
            final(self)@ == (StoreView {
                state: state_after(old(self)@.state, next@, written is Ok),
                ..old(self)@
            }),
    {
        match written {
            Ok(_) => {
                self.state = next.next;
                Ok(())
            },
            Err(error) => Err(error),
        }
    }
}

/// The state after the attempt to write the next one.
pub open spec fn state_after(state: StateView, next: StateView, written: bool) -> StateView {
    if written {
        next
    } else {
        state
    }
}

/// A document that differs from the stored one is stored only where the
/// authority over it was prepared and it was admitted; then it is the candidate,
/// with the chat and the mesh as they were.
pub proof fn law_only_admitted_documents_are_stored(
    store: StoreView,
    candidate: Seq<u8>,
    grounds: Option<JsonTree>,
    prepared: Result<Prepared, String>,
    verified: Result<Vec<Json>, String>,
)
    ensures
        prepared is Err || verified is Err ==> admitted_state(
            candidate_query(store, candidate, grounds),
            store.state,
            prepared,
            verified,
        ) is Err,
        admitted_state(
            candidate_query(store, candidate, grounds),
            store.state,
            prepared,
            verified,
        ) matches Ok(next) ==> next.document == candidate && next.chat == store.state.chat
            && next.mesh == store.state.mesh,
{
}

/// Authorizations, chats and meshes are merged without touching the document.
pub proof fn law_merges_keep_the_document(
    store: StoreView,
    incoming: JsonTree,
    catalog: Result<MeshCatalog, String>,
    prepared: Result<Prepared, String>,
    verified: Result<Vec<Json>, String>,
)
    ensures
        admitted_state(
            merge_query(store, incoming),
            store.state,
            prepared,
            verified,
        ) matches Ok(next) ==> next.document == store.state.document,
        chatted_state(store.state, incoming) matches Ok(next) ==> next.document
            == store.state.document,
        meshed_state(store, catalog, prepared, verified) matches Ok(next) ==> next.document
            == store.state.document,
{
}

proof fn lemma_authorization_names()
    ensures
        "version"@ != "records"@,
        "version"@ != "authority"@,
        "records"@ != "authority"@,
{
    reveal_strlit("version");
    reveal_strlit("records");
    reveal_strlit("authority");
    assert("authority"@.len() == 9);
    assert("version"@[0] == 'v');
    assert("records"@[0] == 'r');
    assert("version"@.len() == 7);
    assert("records"@.len() == 7);
}

/// Every write authorization that a store admitted stays when another is
/// admitted: what was stored is the beginning of what is stored next. The
/// evidence is the one that was merged last.
pub proof fn law_admitted_records_stay(
    store: StoreView,
    first: Result<AuthorityQueryView, Seq<char>>,
    second: Result<AuthorityQueryView, Seq<char>>,
    prepared: Result<Prepared, String>,
    verified: Result<Vec<Json>, String>,
    prepared_again: Result<Prepared, String>,
    verified_again: Result<Vec<Json>, String>,
    next: StateView,
    later: StateView,
)
    requires
        admitted_state(first, store.state, prepared, verified) == Ok::<StateView, Seq<char>>(next),
        admitted_state(second, next, prepared_again, verified_again) == Ok::<StateView, Seq<char>>(
            later,
        ),
    ensures
        stored_records(next).is_prefix_of(stored_records(later)),
        later.authorization.get("authority"@) == Some(prepared_again->Ok_0.merged@),
{
    broadcast use written_member;

    lemma_authorization_names();
    let all = stored_records(store.state) + trees(verified->Ok_0@);
    law_kept_records_stay(all, trees(verified_again->Ok_0@), whole_record());
    assert(stored_records(next) == merged_records(
        stored_records(store.state),
        trees(verified->Ok_0@),
    ));
    assert(stored_records(later) == merged_records(
        stored_records(next),
        trees(verified_again->Ok_0@),
    ));
}

/// Whether a workspace can be opened at a state, where the authority over it and the
/// admission of its document are granted: the authorization names an authority and
/// write authorizations, and the document loads.
pub open spec fn is_openable(state: StateView, genesis_person_id: Seq<char>) -> bool {
    stored_query(state, genesis_person_id) is Ok && loaded(state.document) is Ok
}

/// What a store admits can be opened again, where the document loads.
pub proof fn law_admitted_state_is_openable(
    state: StateView,
    genesis_person_id: Seq<char>,
    query: Result<AuthorityQueryView, Seq<char>>,
    prepared: Result<Prepared, String>,
    verified: Result<Vec<Json>, String>,
    next: StateView,
)
    requires
        admitted_state(query, state, prepared, verified) == Ok::<StateView, Seq<char>>(next),
        loaded(next.document) is Ok,
    ensures
        is_openable(next, genesis_person_id),
{
    broadcast use written_member;

    lemma_authorization_names();
    assert(next.authorization.get("authority"@) is Some);
    assert(next.authorization.items_at("records"@) is Some);
}

proof fn lemma_mesh_names()
    ensures
        "version"@.len() == 7,
        "peers"@.len() == 5,
        "revocations"@.len() == 11,
{
    reveal_strlit("version");
    reveal_strlit("peers");
    reveal_strlit("revocations");
}

proof fn lemma_version_one()
    ensures
        count(1) == JsonTree::Number(seq!['1']),
{
    assert(crate::text::digit(1) == '1');
    assert(crate::text::decimal(1) =~= seq!['1']);
}

/// A mesh gives back its peers, all of them in their order, in version 1, with nobody
/// revoked, and has nothing else.
pub proof fn law_mesh_gives_its_peers_back(peers: Seq<JsonTree>, key: Seq<char>)
    ensures
        mesh_of(peers).items_at("peers"@) == Some(peers),
        mesh_of(peers).items_at("revocations"@) == Some(Seq::<JsonTree>::empty()),
        mesh_of(peers).get("version"@) == Some(JsonTree::Number(seq!['1'])),
        mesh_of(peers).get(key) is Some <==> key == "version"@ || key == "peers"@ || key
            == "revocations"@,
{
    broadcast use written_member;

    lemma_mesh_names();
    lemma_version_one();
}

/// Merging a mesh stores every peer that was verified, in their order, and leaves the
/// rest of the state as it was: a store that stands at the next state knows exactly
/// these peers. What it shows of its mesh are the peers that are verified then.
pub proof fn law_merged_peers_are_known(
    store: StoreView,
    catalog: Result<MeshCatalog, String>,
    prepared: Result<Prepared, String>,
    peers: Result<Vec<Json>, String>,
    next: StateView,
)
    requires
        meshed_state(store, catalog, prepared, peers) == Ok::<StateView, Seq<char>>(next),
    ensures
        peers is Ok,
        next.mesh matches Some(mesh) && mesh.items_at("peers"@) == Some(trees(peers->Ok_0@))
            && mesh.items_at("revocations"@) == Some(Seq::<JsonTree>::empty()) && mesh.get(
            "version"@,
        ) == Some(JsonTree::Number(seq!['1'])),
        stored_peers(next) == trees(peers->Ok_0@),
        next.document == store.state.document,
        next.authorization == store.state.authorization,
        next.chat == store.state.chat,
{
    law_mesh_gives_its_peers_back(trees(peers->Ok_0@), "peers"@);
}

/// The peers that a state has are the array under "peers" of its mesh, or none.
pub proof fn law_known_peers_are_the_stored_ones(state: StateView)
    ensures
        state.mesh is None ==> stored_peers(state).len() == 0,
        state.mesh matches Some(mesh) ==> (mesh.items_at("peers"@) matches Some(peers)
            ==> stored_peers(state) == peers) && (mesh.items_at("peers"@) is None ==> stored_peers(
            state,
        ).len() == 0),
{
}

/// A mesh is merged exactly where its catalog could be read and brings no revocation,
/// departure, transfer of ownership or succession, the authority over the workspace
/// was prepared, and the peers were verified. Otherwise it is told why not.
pub proof fn law_mesh_changes_no_authority(
    store: StoreView,
    catalog: Result<MeshCatalog, String>,
    prepared: Result<Prepared, String>,
    peers: Result<Vec<Json>, String>,
)
    ensures
        ({
            let result = meshed_state(store, catalog, prepared, peers);
            let authorization = store.state.authorization;
            if catalog is Err {
                result == Err::<StateView, Seq<char>>(catalog->Err_0@)
            } else if catalog->Ok_0.revocations > 0 || catalog->Ok_0.device_revocations > 0
                || catalog->Ok_0.departures > 0 || catalog->Ok_0.has_succession_policy || (
            catalog->Ok_0.ownership_transfers is Some && catalog->Ok_0.ownership_transfers->0 > 0)
                || (catalog->Ok_0.succession_votes is Some && catalog->Ok_0.succession_votes->0 > 0)
                || (catalog->Ok_0.succession_claims is Some && catalog->Ok_0.succession_claims->0
                > 0) {
                result == Err::<StateView, Seq<char>>(
                    "Lighthouse cannot apply mesh authority changes yet"@,
                )
            } else if authorization.get("authority"@) is None {
                result == Err::<StateView, Seq<char>>("Missing lighthouse authority"@)
            } else if authorization.items_at("records"@) is None {
                result == Err::<StateView, Seq<char>>("Missing lighthouse write authorizations"@)
            } else if prepared is Err {
                result == Err::<StateView, Seq<char>>(prepared->Err_0@)
            } else if prepared->Ok_0.snapshot.workspace_id@ != store.workspace_id {
                result == Err::<StateView, Seq<char>>(
                    "Lighthouse workspace does not match document"@,
                )
            } else if peers is Err {
                result == Err::<StateView, Seq<char>>(peers->Err_0@)
            } else {
                result is Ok
            }
        }),
{
}

/// The endpoints of peers are those of each of them in turn: a peer gives the text
/// under "endpoint" of the payload of its advertisement, or nothing, and the peers of
/// two lists give what the one gives and then what the other gives.
pub proof fn law_endpoints_are_those_of_each_peer(
    peers: Seq<JsonTree>,
    others: Seq<JsonTree>,
    peer: JsonTree,
)
    ensures
        endpoints(seq![peer]) == match peer.text_at3("advertisement"@, "payload"@, "endpoint"@) {
            Some(endpoint) => seq![endpoint],
            None => Seq::<Seq<char>>::empty(),
        },
        endpoints(peers + others) == endpoints(peers) + endpoints(others),
    decreases others.len(),
{
    let one = seq![peer];
    assert(one.drop_last() =~= Seq::<JsonTree>::empty());
    assert(endpoints(one.drop_last()) =~= Seq::<Seq<char>>::empty());
    assert(one.last() == peer);
    if others.len() == 0 {
        assert(peers + others =~= peers);
        assert(endpoints(peers) + endpoints(others) =~= endpoints(peers));
    } else {
        law_endpoints_are_those_of_each_peer(peers, others.drop_last(), peer);
        assert((peers + others).drop_last() =~= peers + others.drop_last());
        assert((peers + others).last() == others.last());
        assert(endpoints(peers + others) =~= endpoints(peers) + endpoints(others));
    }
}

/// Peers are shown, and their endpoints given out, only where the authority over the
/// workspace was prepared and they were verified; then they are all of these.
pub proof fn law_verified_peers_are_all_of_them(
    store: StoreView,
    prepared: Result<Prepared, String>,
    peers: Result<Vec<Json>, String>,
)
    ensures
        verified_peers(store, prepared, peers) matches Ok(found) ==> peers is Ok && found == trees(
            peers->Ok_0@,
        ) && (prepared matches Ok(authority) && authority.snapshot.workspace_id@
            == store.workspace_id),
        store_authority(store, prepared) is Ok && peers is Ok ==> verified_peers(
            store,
            prepared,
            peers,
        ) is Ok,
        store_authority(store, prepared) is Ok ==> (peers matches Err(error) ==> verified_peers(
            store,
            prepared,
            peers,
        ) == Err::<Seq<JsonTree>, Seq<char>>(error@)),
{
}

/// The authority over a workspace is the one that was prepared, for that workspace,
/// where the stored authorization has the evidence of one and write authorizations.
/// Otherwise it is told what is missing.
pub proof fn law_authority_is_over_the_workspace(
    state: StateView,
    genesis_person_id: Seq<char>,
    workspace_id: Seq<char>,
    prepared: Result<Prepared, String>,
)
    ensures
        authority_of(state, genesis_person_id, workspace_id, prepared)
            == if state.authorization.get("authority"@) is None {
            Err::<Authority, Seq<char>>("Missing lighthouse authority"@)
        } else if state.authorization.items_at("records"@) is None {
            Err("Missing lighthouse write authorizations"@)
        } else if prepared is Err {
            Err(prepared->Err_0@)
        } else if prepared->Ok_0.snapshot.workspace_id@ != workspace_id {
            Err("Lighthouse workspace does not match document"@)
        } else {
            Ok(prepared->Ok_0.snapshot)
        },
{
}

/// The stored workspace is asked about as it is stored: its document, the evidence
/// and the write authorizations of its authorization, and nothing known beside them.
pub proof fn law_stored_workspace_is_asked_about(state: StateView, genesis_person_id: Seq<char>)
    requires
        stored_query(state, genesis_person_id) is Ok,
    ensures
        stored_query(state, genesis_person_id) matches Ok(query) && {
            &&& query.document == state.document
            &&& state.authorization.get("authority"@) == Some(query.evidence)
            &&& state.authorization.items_at("records"@) == Some(query.records)
            &&& query.known is None
            &&& query.genesis_person_id == genesis_person_id
        },
{
}

/// A candidate is asked about by what comes with it: the candidate, the evidence and
/// the write authorizations of its grounds, beside the stored evidence. Grounds
/// without evidence, or without write authorizations, are refused.
pub proof fn law_candidate_is_asked_about_on_its_grounds(
    store: StoreView,
    candidate: Seq<u8>,
    grounds: Option<JsonTree>,
)
    ensures
        grounds is None || grounds->0.get("authority"@) is None ==> candidate_query(
            store,
            candidate,
            grounds,
        ) == Err::<AuthorityQueryView, Seq<char>>("Missing incoming Match authority"@),
        grounds matches Some(given) ==> given.get("authority"@) is Some ==> {
            &&& given.items_at("records"@) is None ==> candidate_query(store, candidate, grounds)
                == Err::<AuthorityQueryView, Seq<char>>(
                "Missing incoming Match write authorizations"@,
            )
            &&& given.items_at("records"@) is Some ==> (candidate_query(
                store,
                candidate,
                grounds,
            ) matches Ok(query) && query.document == candidate && Some(query.evidence) == given.get(
                "authority"@,
            ) && Some(query.records) == given.items_at("records"@) && query.known
                == store.state.authorization.get("authority"@) && query.genesis_person_id
                == store.genesis_person_id)
        },
{
}

/// An incoming authorization is asked about for the stored document: its evidence and
/// its write authorizations, beside the stored evidence.
pub proof fn law_authorization_is_asked_about_for_the_document(store: StoreView, incoming: JsonTree)
    ensures
        incoming.get("authority"@) is None ==> merge_query(store, incoming) == Err::<
            AuthorityQueryView,
            Seq<char>,
        >("Missing Match authority"@),
        incoming.get("authority"@) is Some && incoming.items_at("records"@) is None ==> merge_query(
            store,
            incoming,
        ) == Err::<AuthorityQueryView, Seq<char>>("Missing Match write authorizations"@),
        incoming.get("authority"@) is Some && incoming.items_at("records"@) is Some ==> (
        merge_query(store, incoming) matches Ok(query) && query.document == store.state.document
            && Some(query.evidence) == incoming.get("authority"@) && Some(query.records)
            == incoming.items_at("records"@) && query.known == store.state.authorization.get(
            "authority"@,
        ) && query.genesis_person_id == store.genesis_person_id),
{
}

/// Whether one of `records` has the JSON text `text`.
pub open spec fn has_text(records: Seq<JsonTree>, text: Seq<char>) -> bool {
    exists|n: int| 0 <= n < records.len() && json_text(#[trigger] records[n]) == text
}

/// What is admitted is stored with its authorization: every verified record is among
/// the write authorizations, by its text, and so is every stored one; each of them
/// was verified or stored; no text occurs twice; and the evidence is the one that was
/// merged.
pub proof fn law_admitted_records_are_stored(
    query: Result<AuthorityQueryView, Seq<char>>,
    state: StateView,
    prepared: Result<Prepared, String>,
    verified: Result<Vec<Json>, String>,
    next: StateView,
    i: int,
    j: int,
    k: int,
)
    requires
        admitted_state(query, state, prepared, verified) == Ok::<StateView, Seq<char>>(next),
    ensures
        query is Ok && next.document == query->Ok_0.document,
        next.chat == state.chat,
        next.mesh == state.mesh,
        prepared is Ok && next.authorization.get("authority"@) == Some(prepared->Ok_0.merged@),
        next.authorization.get("version"@) == Some(JsonTree::Number(seq!['1'])),
        verified is Ok,
        next.authorization.items_at("records"@) is Some,
        0 <= i < trees(verified->Ok_0@).len() ==> has_text(
            next.authorization.items_at("records"@)->0,
            json_text(trees(verified->Ok_0@)[i]),
        ),
        state.authorization.items_at("records"@) matches Some(before) ==> (0 <= i < before.len()
            ==> has_text(next.authorization.items_at("records"@)->0, json_text(before[i]))),
        0 <= j < next.authorization.items_at("records"@)->0.len() ==> trees(
            verified->Ok_0@,
        ).contains(next.authorization.items_at("records"@)->0[j]) || (
        state.authorization.items_at("records"@) is Some && state.authorization.items_at(
            "records"@,
        )->0.contains(next.authorization.items_at("records"@)->0[j])),
        0 <= j < k < next.authorization.items_at("records"@)->0.len() ==> json_text(
            next.authorization.items_at("records"@)->0[j],
        ) != json_text(next.authorization.items_at("records"@)->0[k]),
{
    broadcast use written_member;

    lemma_authorization_names();
    lemma_version_one();
    let old_records = stored_records(state);
    let new_records = trees(verified->Ok_0@);
    let all = old_records + new_records;
    let records = first_of_each(all, whole_record());
    assert(next.authorization.items_at("records"@) == Some(records));
    if 0 <= i < new_records.len() {
        assert(all[old_records.len() + i] == new_records[i]);
        assert(whole_record()(all[old_records.len() + i]) == Some(json_text(new_records[i])));
        assert(has_key(all, whole_record(), json_text(new_records[i])));
        lemma_kept_keys(all, whole_record(), json_text(new_records[i]));
        let n = choose|n: int|
            0 <= n < records.len() && whole_record()(#[trigger] records[n]) == Some(
                json_text(new_records[i]),
            );
        assert(has_text(records, json_text(new_records[i])));
    }
    if 0 <= i < old_records.len() {
        assert(all[i] == old_records[i]);
        assert(whole_record()(all[i]) == Some(json_text(old_records[i])));
        assert(has_key(all, whole_record(), json_text(old_records[i])));
        lemma_kept_keys(all, whole_record(), json_text(old_records[i]));
        let n = choose|n: int|
            0 <= n < records.len() && whole_record()(#[trigger] records[n]) == Some(
                json_text(old_records[i]),
            );
        assert(has_text(records, json_text(old_records[i])));
    }
    if 0 <= j < records.len() {
        lemma_kept_have_key(all, whole_record(), j);
        let n = choose|n: int| 0 <= n < all.len() && all[n] == records[j];
        if n < old_records.len() {
            assert(old_records[n] == records[j]);
        } else {
            assert(new_records[n - old_records.len()] == records[j]);
        }
    }
    if 0 <= j < k < records.len() {
        law_each_key_once(all, whole_record(), j, k);
        assert(whole_record()(records[j]) == Some(json_text(records[j])));
        assert(whole_record()(records[k]) == Some(json_text(records[k])));
    }
}

/// A candidate or an authorization is stored exactly where it could be asked about,
/// the authority was prepared, and it was verified; otherwise the first failure on
/// the way is told.
pub proof fn law_admission_tells_the_first_failure(
    query: Result<AuthorityQueryView, Seq<char>>,
    state: StateView,
    prepared: Result<Prepared, String>,
    verified: Result<Vec<Json>, String>,
)
    ensures
        ({
            let result = admitted_state(query, state, prepared, verified);
            if query is Err {
                result == Err::<StateView, Seq<char>>(query->Err_0)
            } else if prepared is Err {
                result == Err::<StateView, Seq<char>>(prepared->Err_0@)
            } else if verified is Err {
                result == Err::<StateView, Seq<char>>(verified->Err_0@)
            } else {
                result is Ok
            }
        }),
{
}

/// A workspace is opened at the state it is to be opened at, exactly where the
/// authority over it was prepared, its document loads and was admitted with all its
/// changes on the stored authorization.
pub proof fn law_opened_workspace_was_admitted(
    workspace_id: Seq<char>,
    genesis_person_id: Seq<char>,
    state: StateView,
    prepared: Result<Prepared, String>,
    admitted: Result<Vec<Json>, String>,
)
    ensures
        ({
            let result = opened(workspace_id, genesis_person_id, state, prepared, admitted);
            if state.authorization.get("authority"@) is None {
                result == Err::<StoreView, Seq<char>>("Missing lighthouse authority"@)
            } else if state.authorization.items_at("records"@) is None {
                result == Err::<StoreView, Seq<char>>("Missing lighthouse write authorizations"@)
            } else if prepared is Err {
                result == Err::<StoreView, Seq<char>>(prepared->Err_0@)
            } else if prepared->Ok_0.snapshot.workspace_id@ != workspace_id {
                result == Err::<StoreView, Seq<char>>(
                    "Lighthouse workspace does not match document"@,
                )
            } else if loaded(state.document) is Err {
                result == Err::<StoreView, Seq<char>>(
                    "Invalid lighthouse document: "@ + loaded(state.document)->Err_0,
                )
            } else if admitted is Err {
                result == Err::<StoreView, Seq<char>>(admitted->Err_0@)
            } else {
                result matches Ok(store) && store.workspace_id == workspace_id
                    && store.genesis_person_id == genesis_person_id && store.state == state
            }
        }),
        loaded(state.document) matches Ok(held) ==> (opening_admission_of(state) matches Ok(query)
            && query.previous is None && query.candidate == state.document && query.hashes
            == held.hashes && query.grounds == Some(state.authorization)),
{
}

/// A workspace that was stored is opened at what was stored, whatever it was to begin
/// with; one that was not begins with the initial state.
pub proof fn law_stored_state_comes_first(stored: Option<StateView>, initial: StateView)
    ensures
        stored matches Some(state) ==> opening_state(stored, initial) == state,
        stored is None ==> opening_state(stored, initial) == initial,
{
}

/// A state that was written is the one the store goes on with; one that was not is
/// given up.
pub proof fn law_only_written_states_count(state: StateView, next: StateView)
    ensures
        state_after(state, next, true) == next,
        state_after(state, next, false) == state,
{
}

/// A merged chat is stored with the rest of the state as it was; a batch that cannot
/// be merged is told why, and nothing is stored.
pub proof fn law_merged_chat_is_stored(state: StateView, incoming: JsonTree)
    ensures
        chat_after(state.chat, incoming) matches Ok(chat) ==> (chatted_state(
            state,
            incoming,
        ) matches Ok(next) && next.chat == chat && next.document == state.document
            && next.authorization == state.authorization && next.mesh == state.mesh),
        chat_after(state.chat, incoming) matches Err(error) ==> chatted_state(state, incoming)
            == Err::<StateView, Seq<char>>(error),
{
}

/// What is admitted is weighed against the stored document: a candidate with the changes
/// that it brings, on its own grounds; an authorization with the stored document as it
/// is, and no change, on that authorization.
pub proof fn law_admissions_are_weighed_against_the_document(
    store: StoreView,
    candidate: Seq<u8>,
    grounds: Option<JsonTree>,
    hashes: Seq<Seq<char>>,
    incoming: JsonTree,
)
    ensures
        candidate_admission_of(store, candidate, grounds, hashes).previous == Some(
            store.state.document,
        ),
        candidate_admission_of(store, candidate, grounds, hashes).candidate == candidate,
        candidate_admission_of(store, candidate, grounds, hashes).hashes == hashes,
        candidate_admission_of(store, candidate, grounds, hashes).grounds == grounds,
        merge_admission_of(store, incoming).previous == Some(store.state.document),
        merge_admission_of(store, incoming).candidate == store.state.document,
        merge_admission_of(store, incoming).hashes.len() == 0,
        merge_admission_of(store, incoming).grounds == Some(incoming),
{
}

/// A member is verified against the current owner of the workspace, by id, key and
/// certificates, and against the owner that the workspace began with.
pub proof fn law_members_are_verified_against_the_owners(
    query: MemberQuery,
    store: StoreView,
    peer: JsonTree,
    authority: Authority,
)
    requires
        is_member_query(query, store, peer, authority),
    ensures
        query.peer@ == peer,
        query.workspace_id@ == store.workspace_id,
        query.owner.person_id@ == authority.expected_current_owner.person_id@,
        query.owner.public_key@ == authority.expected_current_owner.public_key@,
        query.owner.certificates@ == authority.expected_current_owner.certificates@,
        query.owner_history@.len() == 1,
        query.owner_history@[0].person_id@ == authority.genesis_owner.person_id@,
        query.owner_history@[0].public_key@ == authority.genesis_owner.public_key@,
        query.owner_history@[0].certificates@ == authority.genesis_owner.certificates@,
{
}

/// What a store shows of its workspace is what it stands at, document, authorization and
/// chat, and of the mesh every peer that was verified, in their order, with nobody
/// revoked.
pub proof fn law_snapshot_shows_the_state_and_all_peers(
    snapshot: ScopeSnapshot,
    state: StateView,
    peers: Seq<JsonTree>,
)
    requires
        is_snapshot(snapshot, state, peers),
    ensures
        snapshot.document@ == state.document,
        snapshot.authorization is Some && snapshot.authorization->0@ == state.authorization,
        snapshot.chat is Some && snapshot.chat->0@ == state.chat,
        snapshot.mesh is Some && snapshot.mesh->0@.items_at("peers"@) == Some(peers),
        snapshot.mesh->0@.items_at("revocations"@) == Some(Seq::<JsonTree>::empty()),
{
    law_mesh_gives_its_peers_back(peers, "peers"@);
}

/// The peers that are put to the authority are all that are stored and all that come in,
/// in their order.
pub proof fn law_all_peers_are_put_to_the_authority(
    query: PeerQuery,
    state: StateView,
    incoming: Seq<JsonTree>,
)
    requires
        is_peer_query(query, state, incoming),
    ensures
        trees(query.incoming@) == incoming,
        state.mesh matches Some(mesh) ==> (mesh.items_at("peers"@) matches Some(peers) ==> trees(
            query.known@,
        ) == peers),
        state.mesh is None || state.mesh->0.items_at("peers"@) is None ==> query.known@.len() == 0,
{
    assert(trees(query.known@).len() == query.known@.len());
}

/// The endpoints that a store gives out are those of its verified peers, of each that
/// advertises one, in their order: one peer more adds its endpoint at the end.
pub proof fn law_every_verified_endpoint_is_given_out(
    store: StoreView,
    prepared: Result<Prepared, String>,
    peers: Vec<Json>,
    i: int,
)
    requires
        authorized_endpoints(store, prepared, Ok(peers)) is Ok,
        0 <= i < peers@.len(),
    ensures
        peers@[i]@.text_at3("advertisement"@, "payload"@, "endpoint"@) matches Some(endpoint)
            ==> authorized_endpoints(store, prepared, Ok(peers))->Ok_0.contains(endpoint),
        authorized_endpoints(store, prepared, Ok(peers))->Ok_0 == endpoints(trees(peers@).take(i))
            + endpoints(seq![peers@[i]@]) + endpoints(trees(peers@).skip(i + 1)),
{
    let all = trees(peers@);
    let before = all.take(i);
    let one = seq![all[i]];
    let after = all.skip(i + 1);
    assert(all =~= before + (one + after));
    law_endpoints_are_those_of_each_peer(before, one + after, all[i]);
    law_endpoints_are_those_of_each_peer(one, after, all[i]);
    assert(endpoints(all) =~= endpoints(before) + endpoints(one) + endpoints(after));
    if peers@[i]@.text_at3("advertisement"@, "payload"@, "endpoint"@) is Some {
        assert(endpoints(one).len() == 1);
        let n = endpoints(before).len() as int;
        assert(endpoints(all)[n] == endpoints(one)[0]);
    }
}

/// A store gives endpoints out wherever its peers were verified, and otherwise tells why
/// they were not.
pub proof fn law_endpoints_come_with_verified_peers(
    store: StoreView,
    prepared: Result<Prepared, String>,
    peers: Result<Vec<Json>, String>,
)
    ensures
        verified_peers(store, prepared, peers) is Ok ==> authorized_endpoints(
            store,
            prepared,
            peers,
        ) is Ok,
        verified_peers(store, prepared, peers) matches Err(error) ==> authorized_endpoints(
            store,
            prepared,
            peers,
        ) == Err::<Seq<Seq<char>>, Seq<char>>(error),
{
}

/// What is asked of the authority is known by its parts: the document, the evidence, what
/// is known already, the records in their order, and the person that the workspace began
/// with; and of an admission the two documents, the hashes and the grounds.
pub proof fn law_queries_are_known_by_their_parts(
    query: AuthorityQuery,
    admission: AdmissionQuery,
    i: int,
)
    ensures
        query@.document == query.document@,
        query@.evidence == query.evidence@,
        query.known matches Some(known) ==> query@.known == Some(known@),
        query.known is None ==> query@.known is None,
        query@.records.len() == query.records@.len(),
        0 <= i < query.records@.len() ==> query@.records[i] == query.records@[i]@,
        query@.genesis_person_id == query.genesis_person_id@,
        admission.previous matches Some(previous) ==> admission@.previous == Some(previous@),
        admission.previous is None ==> admission@.previous is None,
        admission@.candidate == admission.candidate@,
        admission@.hashes.len() == admission.hashes@.len(),
        0 <= i < admission.hashes@.len() ==> admission@.hashes[i] == admission.hashes@[i]@,
        admission.grounds matches Some(grounds) ==> admission@.grounds == Some(grounds@),
        admission.grounds is None ==> admission@.grounds is None,
{
}

/// A stored state is taken as it was stored, and none is made up.
pub proof fn law_stored_state_is_taken_as_it_is(stored: Option<MatchLighthouseState>)
    ensures
        stored matches Some(state) ==> (state_at(stored) matches Some(known) && known.document
            == state.document@ && known.authorization == state.authorization@ && known.chat
            == state.chat@),
        stored is None ==> state_at(stored) is None,
{
}

} // verus!
