//! The host that peers of the mesh reach: one workspace, behind its secret.

use vstd::prelude::*;

use crate::json::Json;
use crate::state::{Authority, Prepared};
use crate::store::{store_authority, MatchScopeStore};
use crate::text::{same, told};

verus! {

/// What is said to one who comes for a workspace, where the host has `own`.
pub open spec fn served(workspace_id: Seq<char>, own: Seq<char>) -> Result<(), Seq<char>> {
    if workspace_id == own {
        Ok(())
    } else {
        Err("Wrong lighthouse workspace"@)
    }
}

/// The workspace and the secret that one who says `secret` is given.
pub open spec fn credential_for(
    secret: Seq<char>,
    own_secret: Seq<char>,
    workspace_id: Seq<char>,
) -> Option<(Seq<char>, Seq<char>)> {
    if secret == own_secret {
        Some((workspace_id, own_secret))
    } else {
        None
    }
}

/// What a credential says, where there is one.
pub open spec fn credential_at(credential: Option<ScopeCredential>) -> Option<
    (Seq<char>, Seq<char>),
> {
    match credential {
        Some(credential) => Some((credential.workspace_id@, credential.secret@)),
        None => None,
    }
}

/// A host serves its own workspace and no other.
pub proof fn law_host_serves_one_workspace(workspace_id: Seq<char>, own: Seq<char>)
    ensures
        served(own, own) is Ok,
        workspace_id != own ==> served(workspace_id, own) == Err::<(), Seq<char>>(
            "Wrong lighthouse workspace"@,
        ),
{
}

/// The secret opens the workspace, and nothing else does: who says it is given the
/// workspace's credential, and anyone else none.
pub proof fn law_secret_opens_the_workspace(
    secret: Seq<char>,
    own_secret: Seq<char>,
    workspace_id: Seq<char>,
)
    ensures
        credential_for(own_secret, own_secret, workspace_id) == Some((workspace_id, own_secret)),
        secret != own_secret ==> credential_for(secret, own_secret, workspace_id) is None,
{
}

/// The host of a workspace.
pub struct MatchLighthouseHost {
    pub workspace_id: String,
    pub secret: String,
    pub local_device_id: String,
    pub local_handshake: Json,
    pub store: MatchScopeStore,
}

/// What lets a peer in: the workspace and the secret that opens it.
pub struct ScopeCredential {
    pub workspace_id: String,
    pub secret: String,
}

impl MatchLighthouseHost {
    /// Whether the host serves the workspace.
    fn check_workspace(&self, workspace_id: &str) -> (result: Result<(), String>)
        ensures
            told(result) == served(workspace_id@, self.workspace_id@),
    {
        if same(workspace_id, self.workspace_id.as_str()) {
            Ok(())
        } else {
            Err("Wrong lighthouse workspace".to_owned())
        }
    }

    /// The id of the device that the host runs on.
    pub fn local_device_id(&self) -> (result: &str)
        ensures
            result@ == self.local_device_id@,
    {
        self.local_device_id.as_str()
    }

    /// The workspace's credential, for those who know its secret.
    pub fn credential(&self, secret: &str) -> (result: Result<Option<ScopeCredential>, String>)
        ensures
            result matches Ok(found) && credential_at(found) == credential_for(
                secret@,
                self.secret@,
                self.workspace_id@,
            ),
    {
        if same(secret, self.secret.as_str()) {
            Ok(
                Some(
                    ScopeCredential {
                        workspace_id: self.workspace_id.clone(),
                        secret: self.secret.clone(),
                    },
                ),
            )
        } else {
            Ok(None)
        }
    }

    /// The authority over the workspace, and the handshake to answer with.
    pub fn prepare_handshake(&self, workspace_id: &str, prepared: Result<Prepared, String>) -> (
        result: Result<(Authority, Json), String>)
        ensures
            match served(workspace_id@, self.workspace_id@) {
                Err(error) => result matches Err(told) && told@ == error,
                Ok(_) => match store_authority(self.store@, prepared) {
                    Ok(authority) => result matches Ok(answer) && answer.0 == authority && answer.1@
                        == self.local_handshake@,
                    Err(error) => result matches Err(told) && told@ == error,
                },
            },
    {
        match self.check_workspace(workspace_id) {
            Ok(_) => {},
            Err(error) => return Err(error),
        }
        match self.store.authority(prepared) {
            Ok(authority) => Ok((authority, self.local_handshake.clone())),
            Err(error) => Err(error),
        }
    }

    /// The authority over the workspace.
    pub fn authority(&self, workspace_id: &str, prepared: Result<Prepared, String>) -> (result:
        Result<Authority, String>)
        ensures
            told(result) == match served(workspace_id@, self.workspace_id@) {
                Ok(_) => store_authority(self.store@, prepared),
                Err(error) => Err(error),
            },
    {
        match self.check_workspace(workspace_id) {
            Ok(_) => self.store.authority(prepared),
            Err(error) => Err(error),
        }
    }

    /// The handshake to open a connection with.
    pub fn outgoing_handshake(&self, workspace_id: &str) -> (result: Result<Json, String>)
        ensures
            match result {
                Ok(handshake) => served(workspace_id@, self.workspace_id@) is Ok && handshake@
                    == self.local_handshake@,
                Err(error) => served(workspace_id@, self.workspace_id@) == Err::<(), Seq<char>>(
                    error@,
                ),
            },
    {
        match self.check_workspace(workspace_id) {
            Ok(_) => Ok(self.local_handshake.clone()),
            Err(error) => Err(error),
        }
    }

    /// The store of the workspace, for a peer that was admitted to it.
    pub fn open_scope(&self, peer_workspace_id: &str) -> (result: Result<&MatchScopeStore, String>)
        ensures
            match result {
                Ok(store) => served(peer_workspace_id@, self.workspace_id@) is Ok && *store
                    == self.store,
                Err(error) => served(peer_workspace_id@, self.workspace_id@) == Err::<
                    (),
                    Seq<char>,
                >(error@),
            },
    {
        match self.check_workspace(peer_workspace_id) {
            Ok(_) => Ok(&self.store),
            Err(error) => Err(error),
        }
    }
}

/// A credential is for its workspace, with its secret; where there is none, none is shown.
pub proof fn law_credential_names_workspace_and_secret(credential: Option<ScopeCredential>)
    ensures
        credential matches Some(given) ==> credential_at(credential) == Some(
            (given.workspace_id@, given.secret@),
        ),
        credential is None ==> credential_at(credential) is None,
{
}

} // verus!
