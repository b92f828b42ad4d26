//! What a store stands at, call by call, and after a restart.

use vstd::prelude::*;

use crate::authoring::{posted_state, ChatDraft};
use crate::document::loaded;
use crate::json::{Json, JsonTree};
use crate::state::{Member, Prepared, StateView};
use crate::store::{
    admitted_state, chatted_state, is_openable, law_admitted_state_is_openable, meshed_state, opened,
    opening_state, state_after, AuthorityQueryView, MeshCatalog, StoreView,
};

verus! {

/// Whether an operation of a store that stands at `state` may give the state `next`
/// to be stored: it admits a document or an authorization, merges a chat or a mesh,
/// or posts a message. A document that it admits has to load.
pub open spec fn is_offered(
    workspace_id: Seq<char>,
    genesis_person_id: Seq<char>,
    state: StateView,
    next: StateView,
) -> bool {
    ||| exists|
        query: Result<AuthorityQueryView, Seq<char>>,
        prepared: Result<Prepared, String>,
        verified: Result<Vec<Json>, String>,
    | #[trigger]
        admitted_state(query, state, prepared, verified) == Ok::<StateView, Seq<char>>(next)
            && loaded(next.document) is Ok
    ||| exists|incoming: JsonTree| #[trigger]
        chatted_state(state, incoming) == Ok::<StateView, Seq<char>>(next)
    ||| exists|
        catalog: Result<MeshCatalog, String>,
        prepared: Result<Prepared, String>,
        peers: Result<Vec<Json>, String>,
    | #[trigger]
        meshed_state(
            (StoreView { workspace_id, genesis_person_id, state }),
            catalog,
            prepared,
            peers,
        ) == Ok::<StateView, Seq<char>>(next)
    ||| exists|
        draft: ChatDraft,
        author: Member,
        message: Result<Json, String>,
        profile: Result<Json, String>,
    | #[trigger]
        posted_state(state, draft, author, message, profile) == Ok::<StateView, Seq<char>>(next)
}

/// Whether a call of a store may take it from `state` to `next`: it stays where it
/// is, as after a call that failed or has nothing to store, or it goes on to what
/// was offered, if that was written.
pub open spec fn is_call(
    workspace_id: Seq<char>,
    genesis_person_id: Seq<char>,
    state: StateView,
    next: StateView,
) -> bool {
    ||| next == state
    ||| exists|offered: StateView, written: bool|
        is_offered(workspace_id, genesis_person_id, state, offered) && next
            == #[trigger] state_after(state, offered, written)
}

/// Whether a store that was opened at the first of `states` may have stood at each
/// of them in turn, one call after the other.
pub open spec fn is_history(
    workspace_id: Seq<char>,
    genesis_person_id: Seq<char>,
    states: Seq<StateView>,
) -> bool {
    &&& states.len() > 0
    &&& forall|i: int|
        0 < i < states.len() ==> is_call(
            workspace_id,
            genesis_person_id,
            states[i - 1],
            #[trigger] states[i],
        )
}

/// What an operation offers can be opened again, where what it started from can.
pub proof fn law_offered_state_is_openable(
    workspace_id: Seq<char>,
    genesis_person_id: Seq<char>,
    state: StateView,
    next: StateView,
)
    requires
        is_openable(state, genesis_person_id),
        is_offered(workspace_id, genesis_person_id, state, next),
    ensures
        is_openable(next, genesis_person_id),
{
    if exists|
        query: Result<AuthorityQueryView, Seq<char>>,
        prepared: Result<Prepared, String>,
        verified: Result<Vec<Json>, String>,
    | #[trigger]
        admitted_state(query, state, prepared, verified) == Ok::<StateView, Seq<char>>(next)
            && loaded(next.document) is Ok {
        let (query, prepared, verified) = choose|
            query: Result<AuthorityQueryView, Seq<char>>,
            prepared: Result<Prepared, String>,
            verified: Result<Vec<Json>, String>,
        | #[trigger]
            admitted_state(query, state, prepared, verified) == Ok::<StateView, Seq<char>>(next)
                && loaded(next.document) is Ok;
        law_admitted_state_is_openable(
            state,
            genesis_person_id,
            query,
            prepared,
            verified,
            next,
        );
    } else {
        assert(next.document == state.document);
        assert(next.authorization == state.authorization);
    }
}

/// A store stands at the same state after a restart, whatever calls were made of it
/// and whether they failed or not: opening the workspace again takes the stored
/// state and ignores the initial one, succeeds where the authority and the admission
/// are granted again, and gives that state back, with its document, authorization,
/// chat and mesh.
pub proof fn law_state_survives_restart(
    workspace_id: Seq<char>,
    genesis_person_id: Seq<char>,
    states: Seq<StateView>,
    prepared: Result<Prepared, String>,
    admitted: Result<Vec<Json>, String>,
    initial: StateView,
    prepared_again: Result<Prepared, String>,
    admitted_again: Result<Vec<Json>, String>,
)
    requires
        is_history(workspace_id, genesis_person_id, states),
        opened(workspace_id, genesis_person_id, states[0], prepared, admitted) is Ok,
        prepared_again matches Ok(authority) && authority.snapshot.workspace_id@ == workspace_id,
        admitted_again is Ok,
    ensures
        opened(
            workspace_id,
            genesis_person_id,
            opening_state(Some(states.last()), initial),
            prepared_again,
            admitted_again,
        ) == Ok::<StoreView, Seq<char>>(
            StoreView { workspace_id, genesis_person_id, state: states.last() },
        ),
{
    lemma_history_is_openable(workspace_id, genesis_person_id, states, states.len() - 1);
}

proof fn lemma_history_is_openable(
    workspace_id: Seq<char>,
    genesis_person_id: Seq<char>,
    states: Seq<StateView>,
    i: int,
)
    requires
        is_history(workspace_id, genesis_person_id, states),
        is_openable(states[0], genesis_person_id),
        0 <= i < states.len(),
    ensures
        is_openable(states[i], genesis_person_id),
    decreases i,
{
    if i > 0 {
        let state = states[i - 1];
        let next = states[i];
        lemma_history_is_openable(workspace_id, genesis_person_id, states, i - 1);
        assert(is_call(workspace_id, genesis_person_id, state, next));
        if next != state {
            let (offered, written) = choose|offered: StateView, written: bool|
                is_offered(workspace_id, genesis_person_id, state, offered) && next
                    == #[trigger] state_after(state, offered, written);
            law_offered_state_is_openable(workspace_id, genesis_person_id, state, offered);
        }
    }
}

/// What a store stands at and what its file holds are the same after every attempt
/// to write, where they were the same before.
pub proof fn law_file_holds_the_state(
    state: StateView,
    file: StateView,
    offered: StateView,
    written: bool,
)
    requires
        file == state,
    ensures
        state_after(state, offered, written) == if written {
            offered
        } else {
            file
        },
{
}

} // verus!
