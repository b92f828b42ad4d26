//! What the lighthouse stores of a workspace, and what it is told of the
//! workspace's authority and members.

use vstd::prelude::*;

use crate::document::Document;
use crate::json::{tree_of, Json, JsonTree};

verus! {

/// The stored state of a workspace.
pub struct MatchLighthouseState {
    pub document: Vec<u8>,
    pub authorization: Json,
    pub chat: Json,
    pub mesh: Option<Json>,
}

/// What a stored state is.
#[verifier::ext_equal]
pub struct StateView {
    pub document: Seq<u8>,
    pub authorization: JsonTree,
    pub chat: JsonTree,
    pub mesh: Option<JsonTree>,
}

impl View for MatchLighthouseState {
    type V = StateView;

    open spec fn view(&self) -> StateView {
        StateView {
            document: self.document@,
            authorization: self.authorization@,
            chat: self.chat@,
            mesh: tree_of(self.mesh),
        }
    }
}

/// The same bytes again.
pub(crate) fn copy_bytes(bytes: &[u8]) -> (result: Vec<u8>)
    ensures
        result@ == bytes@,
{
    let mut result: Vec<u8> = Vec::new();
    let mut index: usize = 0;
    while index < bytes.len()
        invariant
            index <= bytes@.len(),
            result@ == bytes@.take(index as int),
        decreases bytes@.len() - index,
    {
        result.push(bytes[index]);
        assert(bytes@.take(index + 1) =~= bytes@.take(index as int).push(bytes@[index as int]));
        index = index + 1;
    }
    assert(bytes@.take(index as int) =~= bytes@);
    result
}

/// The same optional value again.
pub(crate) fn copy_option(item: &Option<Json>) -> (result: Option<Json>)
    ensures
        tree_of(result) == tree_of(*item),
{
    match item {
        Some(json) => Some(json.clone()),
        None => None,
    }
}

impl Clone for MatchLighthouseState {
    fn clone(&self) -> (result: MatchLighthouseState)
        ensures
            result@ == self@,
    {
        MatchLighthouseState {
            document: copy_bytes(self.document.as_slice()),
            authorization: self.authorization.clone(),
            chat: self.chat.clone(),
            mesh: copy_option(&self.mesh),
        }
    }
}

/// An owner of a workspace.
pub struct Owner {
    pub person_id: String,
    pub public_key: String,
    pub certificates: Json,
}

/// The authority over a workspace that its document and its evidence establish.
pub struct Authority {
    pub workspace_id: String,
    pub expected_current_owner: Owner,
    pub genesis_owner: Owner,
}

/// A prepared authority, with the document that was read for it and the evidence
/// that it was merged from.
pub struct Prepared {
    pub document: Document,
    pub snapshot: Authority,
    pub merged: Json,
}

/// Whether what was prepared, if anything was, is the authority over `document`.
pub open spec fn is_for(prepared: Result<Prepared, String>, document: Seq<u8>) -> bool {
    prepared matches Ok(authority) ==> authority.document@ == document
}

/// What a member of a workspace may do.
#[derive(Clone, Copy, Debug, PartialEq, Eq, Structural)]
pub enum WorkspaceRole {
    Owner,
    Editor,
    Visitor,
    Other,
}

/// A member of a workspace, as a verified bundle shows them.
pub struct Member {
    pub role: WorkspaceRole,
    pub person_id: String,
    pub device_id: String,
    pub endpoint: String,
    pub device_public_key: String,
    pub public_key: Json,
    pub certificates: Json,
    pub grant: Json,
    pub owner_public_key: Json,
    pub owner_certificates: Json,
}

/// What an authorization of changes says, before it is signed.
pub struct ChangeAuthorization {
    pub kind: String,
    pub version: u64,
    pub workspace_id: String,
    pub hashes: Vec<String>,
    pub person_id: String,
    pub device_id: String,
}

/// A state is known by its document, its authorization, its chat and its mesh, where it
/// has one.
pub proof fn law_state_is_known_by_its_parts(state: MatchLighthouseState)
    ensures
        state@.document == state.document@,
        state@.authorization == state.authorization@,
        state@.chat == state.chat@,
        state.mesh matches Some(mesh) ==> state@.mesh == Some(mesh@),
        state.mesh is None ==> state@.mesh is None,
{
}

} // verus!
