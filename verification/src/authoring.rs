//! What the lighthouse writes itself: leads and chat messages, under its own
//! membership of the workspace.

use vstd::prelude::*;
use vstd::string::*;
use vstd::utf8::encode_utf8;

use automerge::AutoCommit;

use crate::chat::{
    chat_after, fresh_chat, in_scope, law_batches_are_merged_by_their_size,
    law_fresh_chat_is_read_back, law_merged_chat_is_read_back, law_scoped_chat,
    law_scoped_chat_is_the_workspaces, merge_chat, new_chat, retain_chat_scope, scoped_chat,
    signature,
};
use crate::clock::{formatted_utc, max_millis, timestamp, utc_text_of};
use crate::document::{
    actor_of, chat_scope_of, committed, contents, has_room, is_genuine, is_saved_as,
    law_lead_takes_an_operation_for_each_character, law_written_lead_leaves_the_rest,
    law_written_lead_reads_back, lead_added, lead_size, loaded, match_chat_scope, root_map,
    same_rest, saved_bytes, saved_in, view_of, Field, LeadItem,
};
use crate::json::{count, empty_object, json_text, trees, written_member, Json, JsonTree};
use crate::lead::{
    accept_lead, accepted, add_authorization, authorization_record, comes_alone, commit_note,
    draft_lead, filing_of, is_drafted, is_filed, law_authorization_is_filed_behind_the_others,
    law_commit_note_is_read_back, law_drafts_are_accepted_by_their_size,
    law_lead_is_filed_by_the_job_board, law_lead_is_written_once,
    law_leads_without_a_place_are_refused, lead_plan, with_record, Filing, LeadChange, LeadDraft,
    LeadStep, LeadView,
};
use crate::records::{
    first_of_each, has_key, law_no_more_is_kept_than_there_is, lemma_kept_have_key, lemma_kept_keys,
};
use crate::state::{is_for, Member, Prepared, StateView, WorkspaceRole};
use crate::store::{
    admitted_state, candidate_query, store_authority, verified_peers, MatchScopeStore, PendingState,
    StoreView,
};
use crate::text::{byte_len, decimal, digit, joined, same, shown, texts, trim, trimmed};

verus! {

/// The lead that may be written of a draft: it has to be complete, by an editor
/// of the workspace, which has to have an authority and verified peers.
pub open spec fn permitted_lead(
    store: StoreView,
    draft: LeadDraft,
    prepared: Result<Prepared, String>,
    member: Result<Member, String>,
    peers: Result<Vec<Json>, String>,
) -> Result<LeadView, Seq<char>> {
    match accepted(draft) {
        Err(error) => Err(error),
        Ok(lead) => match store_authority(store, prepared) {
            Err(error) => Err(error),
            Ok(_) => match member {
                Err(error) => Err(error@),
                Ok(member) => if member.role != WorkspaceRole::Editor {
                    Err("Lighthouse needs an editor grant to create leads"@)
                } else {
                    match verified_peers(store, prepared, peers) {
                        Err(error) => Err(error),
                        Ok(_) => Ok(lead),
                    }
                },
            },
        },
    }
}

/// Whether `result` is the answer to a draft of a lead: why it may not be written,
/// or what becomes of it. A document whose entities are no map to Automerge refuses
/// it, with Automerge's message; so does one that has no room for it.
pub open spec fn is_lead_answer(
    result: Result<LeadStep, String>,
    store: StoreView,
    draft: LeadDraft,
    prepared: Result<Prepared, String>,
    member: Result<Member, String>,
    peers: Result<Vec<Json>, String>,
    created: Result<i128, String>,
    ranked: Result<i128, String>,
) -> bool {
    match permitted_lead(store, draft, prepared, member, peers) {
        Err(error) => result matches Err(told) && told@ == error,
        Ok(lead) => is_drafted(
            result,
            store.state.document,
            store.workspace_id,
            lead,
            member->Ok_0,
            created,
            ranked,
        ),
    }
}

/// Whom a chat message is by, where it is for, and when it was written.
pub ghost struct Byline {
    pub scope: Seq<char>,
    pub person_id: Seq<char>,
    pub device_id: Seq<char>,
    pub created_at: Seq<char>,
}

/// What a chat record says, before it is signed.
pub open spec fn chat_payload(
    kind: Seq<char>,
    by: Byline,
    id: Seq<char>,
    text: Seq<char>,
    revision: nat,
) -> JsonTree {
    empty_object().with("kind"@, JsonTree::Text(kind)).with("version"@, count(1)).with(
        "workspaceId"@,
        JsonTree::Text(by.scope),
    ).with("personId"@, JsonTree::Text(by.person_id)).with(
        "deviceId"@,
        JsonTree::Text(by.device_id),
    ).with("id"@, JsonTree::Text(id)).with("createdAt"@, JsonTree::Text(by.created_at)).with(
        "text"@,
        JsonTree::Text(text),
    ).with("revision"@, count(revision))
}

fn write_payload(
    kind: &str,
    scope: &str,
    member: &Member,
    created_at: &str,
    id: &str,
    text: &str,
    revision: u64,
) -> (result: Json)
    ensures
        result@ == chat_payload(
            kind@,
            (Byline {
                scope: scope@,
                person_id: member.person_id@,
                device_id: member.device_id@,
                created_at: created_at@,
            }),
            id@,
            text@,
            revision as nat,
        ),
{
    Json::empty().with("kind", Json::text(kind)).with("version", Json::count(1)).with(
        "workspaceId",
        Json::text(scope),
    ).with("personId", Json::text(member.person_id.as_str())).with(
        "deviceId",
        Json::text(member.device_id.as_str()),
    ).with("id", Json::text(id)).with("createdAt", Json::text(created_at)).with(
        "text",
        Json::text(text),
    ).with("revision", Json::count(revision))
}

/// A signed chat record, with what shows that its author may write.
pub open spec fn chat_record(signed: JsonTree, author: Member) -> JsonTree {
    empty_object().with("signed"@, signed).with("publicKey"@, author.public_key@).with(
        "certificates"@,
        author.certificates@,
    ).with(
        "authority"@,
        empty_object().with("publicKey"@, author.owner_public_key@).with(
            "certificates"@,
            author.owner_certificates@,
        ).with("grant"@, author.grant@),
    )
}

fn file_record(signed: Json, author: &Member) -> (result: Json)
    ensures
        result@ == chat_record(signed@, *author),
{
    let authority = Json::empty().with("publicKey", author.owner_public_key.clone()).with(
        "certificates",
        author.owner_certificates.clone(),
    ).with("grant", author.grant.clone());
    Json::empty().with("signed", signed).with("publicKey", author.public_key.clone()).with(
        "certificates",
        author.certificates.clone(),
    ).with("authority", authority)
}

/// Whether a record belongs to the chat `scope` and says `value` under `field`.
pub open spec fn says(scope: Seq<char>, field: Seq<char>, value: Seq<char>) -> spec_fn(
    JsonTree,
) -> bool {
    |record: JsonTree|
        record.text_at3("signed"@, "payload"@, field) == Some(value) && in_scope(scope)(record)
}

/// Whether one of `records` belongs to the chat `scope` and says `value` under
/// `field`.
pub open spec fn one_says(
    records: Seq<JsonTree>,
    scope: Seq<char>,
    field: Seq<char>,
    value: Seq<char>,
) -> bool {
    exists|i: int| 0 <= i < records.len() && says(scope, field, value)(#[trigger] records[i])
}

/// Whether the author has a profile in the chat `scope`.
pub open spec fn has_profile(chat: JsonTree, scope: Seq<char>, person_id: Seq<char>) -> bool {
    match chat.items_at("profiles"@) {
        Some(profiles) => one_says(profiles, scope, "personId"@, person_id),
        None => false,
    }
}

fn find_record(records: &Vec<Json>, scope: &str, field: &str, value: &str) -> (result: bool)
    ensures
        result == one_says(trees(records@), scope@, field@, value@),
{
    let ghost all = trees(records@);
    let mut index: usize = 0;
    while index < records.len()
        invariant
            index <= records@.len(),
            all == trees(records@),
            forall|i: int| 0 <= i < index ==> !says(scope@, field@, value@)(#[trigger] all[i]),
        decreases records@.len() - index,
    {
        let record = &records[index];
        assert(all[index as int] == record@);
        let valued = match record.text_at3("signed", "payload", field) {
            Some(text) => same(text, value),
            None => false,
        };
        let scoped = match record.text_at3("signed", "payload", "workspaceId") {
            Some(text) => same(text, scope),
            None => false,
        };
        if valued && scoped {
            assert(says(scope@, field@, value@)(all[index as int]));
            return true;
        }
        index = index + 1;
    }
    false
}

/// What is to be signed of a chat message: the message, and a profile where its
/// author has none in the chat.
pub struct ChatDraft {
    pub id: String,
    pub scope: String,
    pub message: Json,
    pub profile: Option<Json>,
}

/// What becomes of a chat message: it is there already, or is to be signed.
pub enum ChatStep {
    Present(String),
    Draft(ChatDraft),
}

/// Whether a chat message has a text of at most 8,000 characters and an id that
/// fits.
pub open spec fn is_message(message_id: Seq<char>, body: Seq<char>) -> bool {
    0 < trimmed(body).len() <= 8_000 && encode_utf8(message_id).len() <= 80
}

/// Whom a chat message is by and where it is for: a member who may write, of a
/// workspace with an authority, verified peers, an owner and a board.
pub open spec fn permitted_message(
    store: StoreView,
    message_id: Seq<char>,
    body: Seq<char>,
    prepared: Result<Prepared, String>,
    author: Result<Member, String>,
    peers: Result<Vec<Json>, String>,
    created: Result<i128, String>,
) -> Result<Byline, Seq<char>> {
    if !is_message(message_id, body) {
        Err("Chat message must contain 1–8,000 characters"@)
    } else {
        match store_authority(store, prepared) {
            Err(error) => Err(error),
            Ok(_) => match author {
                Err(error) => Err(error@),
                Ok(author) => if author.role == WorkspaceRole::Visitor {
                    Err("Lighthouse needs chat.write permission"@)
                } else {
                    match verified_peers(store, prepared, peers) {
                        Err(error) => Err(error),
                        Ok(_) => byline(store.state.document, author, created),
                    }
                },
            },
        }
    }
}

/// The byline of what `author` writes, at the moment `created`, in the workspace
/// of `document`.
pub open spec fn byline(document: Seq<u8>, author: Member, created: Result<i128, String>) -> Result<
    Byline,
    Seq<char>,
> {
    match view_of(document) {
        Err(error) => Err(error),
        Ok(view) => match chat_scope_of(view) {
            Err(error) => Err(error),
            Ok(scope) => match created {
                Err(error) => Err(error@),
                Ok(moment) => match utc_text_of(moment * 1_000_000) {
                    Err(error) => Err(error),
                    Ok(created_at) => Ok(
                        Byline {
                            scope,
                            person_id: author.person_id@,
                            device_id: author.device_id@,
                            created_at,
                        },
                    ),
                },
            },
        },
    }
}

/// The id of the record of a chat message.
pub open spec fn record_id(by: Byline, message_id: Seq<char>) -> Seq<char> {
    by.device_id + ":"@ + message_id
}

/// Whether `step` is what the chat allows for a message: nothing to do where one
/// has its id, else the message to sign, with a profile where there is none.
pub open spec fn is_chat_step(
    step: ChatStep,
    chat: JsonTree,
    by: Byline,
    message_id: Seq<char>,
    text: Seq<char>,
) -> bool {
    let id = record_id(by, message_id);
    let present = one_says(chat.items_at("messages"@)->0, by.scope, "id"@, id);
    match step {
        ChatStep::Present(told) => present && told@ == id,
        ChatStep::Draft(draft) => {
            &&& !present
            &&& draft.id@ == id
            &&& draft.scope@ == by.scope
            &&& draft.message@ == chat_payload("chat-message"@, by, id, text, 0)
            &&& match draft.profile {
                Some(profile) => !has_profile(chat, by.scope, by.person_id) && profile@
                    == chat_payload(
                    "chat-profile"@,
                    by,
                    by.device_id + ":lighthouse-profile"@,
                    "Lighthouse"@,
                    1,
                ),
                None => has_profile(chat, by.scope, by.person_id),
            }
        },
    }
}

/// Whether `result` is the answer to a chat message: why it may not be written, or
/// what becomes of it.
pub open spec fn is_chat_answer(
    result: Result<ChatStep, String>,
    store: StoreView,
    message_id: Seq<char>,
    body: Seq<char>,
    prepared: Result<Prepared, String>,
    author: Result<Member, String>,
    peers: Result<Vec<Json>, String>,
    created: Result<i128, String>,
) -> bool {
    match permitted_message(store, message_id, body, prepared, author, peers, created) {
        Err(error) => result matches Err(told) && told@ == error,
        Ok(by) => if store.state.chat.items_at("messages"@) is None {
            result matches Err(told) && told@ == "Invalid stored chat"@
        } else {
            result matches Ok(step) && is_chat_step(
                step,
                store.state.chat,
                by,
                message_id,
                trimmed(body),
            )
        },
    }
}

/// The batch of a signed message and, where one is due, a signed profile.
pub open spec fn posted_batch(
    draft: ChatDraft,
    author: Member,
    message: Json,
    profile: Result<Json, String>,
) -> JsonTree {
    fresh_chat(
        seq![chat_record(message@, author)],
        if draft.profile is Some {
            seq![chat_record(profile->Ok_0@, author)]
        } else {
            Seq::empty()
        },
    )
}

/// The state with a chat message, once it is signed: its chat keeps the records
/// of the scope alone, with the message and the profile added.
pub open spec fn posted_state(
    state: StateView,
    draft: ChatDraft,
    author: Member,
    message: Result<Json, String>,
    profile: Result<Json, String>,
) -> Result<StateView, Seq<char>> {
    match message {
        Err(error) => Err(error@),
        Ok(message) => if draft.profile is Some && profile is Err {
            Err(profile->Err_0@)
        } else {
            match scoped_chat(state.chat, draft.scope@) {
                Err(error) => Err(error),
                Ok(scoped) => match chat_after(
                    scoped,
                    posted_batch(draft, author, message, profile),
                ) {
                    Err(error) => Err(error),
                    Ok(chat) => Ok(StateView { chat, ..state }),
                },
            }
        },
    }
}

/// Drafts a chat message of `author` for the chat `scope`, with the text as it is,
/// unless the chat has a message with its id already.
pub fn draft_message(
    chat: &Json,
    scope: &str,
    author: &Member,
    created_at: &str,
    message_id: &str,
    text: &str,
) -> (result: Result<ChatStep, String>)
    ensures
        if chat@.items_at("messages"@) is None {
            result matches Err(told) && told@ == "Invalid stored chat"@
        } else {
            result matches Ok(step) && is_chat_step(
                step,
                chat@,
                (Byline {
                    scope: scope@,
                    person_id: author.person_id@,
                    device_id: author.device_id@,
                    created_at: created_at@,
                }),
                message_id@,
                text@,
            )
        },
{
    let id = joined(joined(author.device_id.as_str(), ":").as_str(), message_id);
    let messages = match chat.items_at("messages") {
        Some(messages) => messages,
        None => return Err("Invalid stored chat".to_owned()),
    };
    if find_record(messages, scope, "id", id.as_str()) {
        return Ok(ChatStep::Present(id));
    }
    let message = write_payload("chat-message", scope, author, created_at, id.as_str(), text, 0);
    let known = match chat.items_at("profiles") {
        Some(profiles) => find_record(profiles, scope, "personId", author.person_id.as_str()),
        None => false,
    };
    let profile = if known {
        None
    } else {
        let profile_id = joined(author.device_id.as_str(), ":lighthouse-profile");
        Some(
            write_payload(
                "chat-profile",
                scope,
                author,
                created_at,
                profile_id.as_str(),
                "Lighthouse",
                1,
            ),
        )
    };
    Ok(ChatStep::Draft(ChatDraft { id, scope: scope.to_owned(), message, profile }))
}

impl MatchScopeStore {
    /// Drafts a lead under the lighthouse's own editor grant, unless the workspace
    /// has an entity with its id already. What was prepared is over the stored
    /// document. One whose entities are no map to Automerge refuses the lead, with
    /// Automerge's message; so does one that has no room for it.
    pub fn create_lead(
        &self,
        draft: &LeadDraft,
        prepared: &Result<Prepared, String>,
        member: &Result<Member, String>,
        peers: &Result<Vec<Json>, String>,
        created: Result<i128, String>,
        ranked: Result<i128, String>,
    ) -> (result: Result<LeadStep, String>)
        requires
            is_for(*prepared, self@.state.document),
            created matches Ok(moment) ==> 0 <= moment <= max_millis(),
            ranked matches Ok(moment) ==> 0 <= moment <= max_millis(),
        ensures
            is_lead_answer(
                result,
                self@,
                *draft,
                *prepared,
                *member,
                *peers,
                created,
                ranked,
            ),
    {
        let lead = match accept_lead(draft) {
            Ok(lead) => lead,
            Err(error) => return Err(error),
        };
        match self.check_authority(prepared) {
            Ok(_) => {},
            Err(error) => return Err(error),
        }
        let member = match member {
            Ok(member) => member,
            Err(error) => return Err(error.clone()),
        };
        if member.role != WorkspaceRole::Editor {
            return Err("Lighthouse needs an editor grant to create leads".to_owned());
        }
        match self.check(prepared, peers) {
            Ok(_) => {},
            Err(error) => return Err(error),
        }
        let authority = match prepared {
            Ok(authority) => authority,
            Err(error) => return Err(error.clone()),
        };
        draft_lead(
            &authority.document,
            self.workspace_id(),
            &lead,
            member,
            created,
            ranked,
        )
    }

    /// The grounds on which a lead's change is stored: the workspace's
    /// authorization, with the signed authorization of the change.
    pub fn lead_grounds(&self, member: &Member, signed: Result<Json, String>) -> (result: Result<
        Json,
        String,
    >)
        ensures
            shown(result) == match signed {
                Err(error) => Err(error@),
                Ok(signed) => with_record(
                    self@.state.authorization,
                    authorization_record(signed@, *member),
                ),
            },
    {
        match signed {
            Ok(signed) => add_authorization(self.state().authorization.clone(), signed, member),
            Err(error) => Err(error),
        }
    }

    /// Drafts a chat message under the lighthouse's own membership, unless the
    /// chat has a message with its id already. What was prepared is over the stored
    /// document.
    pub fn create_chat_message(
        &self,
        message_id: &str,
        body: &str,
        prepared: &Result<Prepared, String>,
        author: &Result<Member, String>,
        peers: &Result<Vec<Json>, String>,
        created: Result<i128, String>,
    ) -> (result: Result<ChatStep, String>)
        requires
            is_for(*prepared, self@.state.document),
            created matches Ok(moment) ==> 0 <= moment <= max_millis(),
        ensures
            is_chat_answer(
                result,
                self@,
                message_id@,
                body@,
                *prepared,
                *author,
                *peers,
                created,
            ),
    {
        let text = trim(body);
        if text.is_empty() || text.unicode_len() > 8_000 || byte_len(message_id) > 80 {
            return Err("Chat message must contain 1–8,000 characters".to_owned());
        }
        match self.check_authority(prepared) {
            Ok(_) => {},
            Err(error) => return Err(error),
        }
        let author = match author {
            Ok(author) => author,
            Err(error) => return Err(error.clone()),
        };
        if author.role == WorkspaceRole::Visitor {
            return Err("Lighthouse needs chat.write permission".to_owned());
        }
        match self.check(prepared, peers) {
            Ok(_) => {},
            Err(error) => return Err(error),
        }
        let authority = match prepared {
            Ok(authority) => authority,
            Err(error) => return Err(error.clone()),
        };
        let scope = match match_chat_scope(&authority.document) {
            Ok(scope) => scope,
            Err(error) => return Err(error),
        };
        let moment = match created {
            Ok(moment) => moment,
            Err(error) => return Err(error),
        };
        let created_at = match timestamp(moment) {
            Ok(text) => text,
            Err(error) => return Err(error),
        };
        draft_message(
            &self.state().chat,
            scope.as_str(),
            author,
            created_at.as_str(),
            message_id,
            text,
        )
    }

    /// The state with a chat message that was signed, and with the profile where
    /// one is due; what `profile` holds does not count where none is.
    pub fn post_chat_message(
        &self,
        draft: &ChatDraft,
        author: &Member,
        message: Result<Json, String>,
        profile: Result<Json, String>,
    ) -> (result: Result<PendingState, String>)
        ensures
            shown(result) == posted_state(self@.state, *draft, *author, message, profile),
    {
        let message = match message {
            Ok(message) => message,
            Err(error) => return Err(error),
        };
        let mut messages: Vec<Json> = Vec::new();
        let record = file_record(message, author);
        messages.push(record);
        assert(trees(messages@) =~= seq![chat_record(message@, *author)]);
        let mut profiles: Vec<Json> = Vec::new();
        assert(trees(profiles@) =~= Seq::empty());
        if draft.profile.is_some() {
            let profile = match profile {
                Ok(profile) => profile,
                Err(error) => return Err(error),
            };
            let record = file_record(profile, author);
            profiles.push(record);
            assert(trees(profiles@) =~= seq![chat_record(profile@, *author)]);
        }
        let batch = new_chat(messages, profiles);
        let chat = match retain_chat_scope(self.state().chat.clone(), draft.scope.as_str()) {
            Ok(chat) => chat,
            Err(error) => return Err(error),
        };
        match merge_chat(&chat, &batch) {
            Ok(chat) => Ok(self.with_chat(chat)),
            Err(error) => Err(error),
        }
    }
}

/// A lead that was stored is not written a second time: any complete draft with its
/// id, by whoever may write it and at any moment, is answered that the lead is
/// there, so that the state stays as it is. Where no change waited for the lead's
/// alone, this holds of every stored document that loads; one that does not load is
/// answered with its error, and nothing is written either.
pub proof fn law_lead_is_created_once(
    store: StoreView,
    draft: LeadDraft,
    prepared: Result<Prepared, String>,
    member: Result<Member, String>,
    peers: Result<Vec<Json>, String>,
    created: Result<i128, String>,
    ranked: Result<i128, String>,
    change: LeadChange,
    grounds: Option<JsonTree>,
    admitting: Result<Prepared, String>,
    verified: Result<Vec<Json>, String>,
    next: StateView,
    draft_again: LeadDraft,
    prepared_again: Result<Prepared, String>,
    member_again: Result<Member, String>,
    peers_again: Result<Vec<Json>, String>,
    created_again: Result<i128, String>,
    ranked_again: Result<i128, String>,
    result: Result<LeadStep, String>,
)
    requires
        is_lead_answer(
            Ok(LeadStep::Change(change)),
            store,
            draft,
            prepared,
            member,
            peers,
            created,
            ranked,
        ),
        admitted_state(
            candidate_query(store, change.document@, grounds),
            store.state,
            admitting,
            verified,
        ) == Ok::<StateView, Seq<char>>(next),
        draft_again.id@ == draft.id@,
        permitted_lead(
            (StoreView { state: next, ..store }),
            draft_again,
            prepared_again,
            member_again,
            peers_again,
        ) is Ok,
        is_lead_answer(
            result,
            (StoreView { state: next, ..store }),
            draft_again,
            prepared_again,
            member_again,
            peers_again,
            created_again,
            ranked_again,
        ),
    ensures
        loaded(next.document) is Ok && comes_alone(change, store.state.document) ==> (
        result matches Ok(LeadStep::Present(id)) && id@ == draft.id@),
        loaded(next.document) matches Err(message) ==> (result matches Err(error) && error@
            == "Invalid Match document: "@ + message),
{
    let lead = permitted_lead(store, draft, prepared, member, peers)->Ok_0;
    let filing = lead_plan(store.state.document, lead.id, created, ranked)->Ok_0->0;
    if loaded(next.document) is Ok && comes_alone(change, store.state.document) {
        law_lead_is_written_once(
            change,
            store.state.document,
            store.workspace_id,
            lead,
            member->Ok_0,
            created->Ok_0 as int,
            ranked->Ok_0 as nat,
            filing,
        );
        assert(lead_plan(next.document, draft.id@, created_again, ranked_again) == Ok::<
            Option<Filing>,
            Seq<char>,
        >(None));
    }
}

proof fn lemma_payload_names()
    ensures
        "id"@ != "createdAt"@,
        "id"@ != "text"@,
        "id"@ != "revision"@,
        "text"@ != "revision"@,
        "workspaceId"@ != "personId"@,
        "workspaceId"@ != "deviceId"@,
        "workspaceId"@ != "id"@,
        "workspaceId"@ != "createdAt"@,
        "workspaceId"@ != "text"@,
        "workspaceId"@ != "revision"@,
        "signed"@ != "publicKey"@,
        "signed"@ != "certificates"@,
        "signed"@ != "authority"@,
{
    reveal_strlit("id");
    reveal_strlit("createdAt");
    reveal_strlit("text");
    reveal_strlit("revision");
    reveal_strlit("workspaceId");
    reveal_strlit("personId");
    reveal_strlit("deviceId");
    reveal_strlit("signed");
    reveal_strlit("publicKey");
    reveal_strlit("certificates");
    reveal_strlit("authority");
    assert("id"@.len() == 2);
    assert("createdAt"@.len() == 9);
    assert("text"@.len() == 4);
    assert("revision"@.len() == 8);
    assert("workspaceId"@.len() == 11);
    assert("personId"@.len() == 8);
    assert("deviceId"@.len() == 8);
    assert("signed"@.len() == 6);
    assert("publicKey"@.len() == 9);
    assert("certificates"@.len() == 12);
    assert("authority"@.len() == 9);
}

/// A chat message that was posted is in the chat: where its signature holds the
/// message that was drafted, and is none that a message of the chat has, the chat
/// afterwards has one message with its id, with the text that was drafted. The rest
/// of the state is left as it was.
pub proof fn law_posted_message_is_present(
    state: StateView,
    draft: ChatDraft,
    by: Byline,
    message_id: Seq<char>,
    text: Seq<char>,
    author: Member,
    message: Json,
    profile: Result<Json, String>,
    next: StateView,
)
    requires
        is_chat_step(ChatStep::Draft(draft), state.chat, by, message_id, text),
        message@.get("payload"@) == Some(draft.message@),
        message@.text_at("signature"@) matches Some(mark) && mark.len() > 0 && !has_key(
            state.chat.items_at("messages"@)->0,
            signature(),
            mark,
        ),
        posted_state(state, draft, author, Ok(message), profile) == Ok::<StateView, Seq<char>>(next),
    ensures
        one_says(
            next.chat.items_at("messages"@)->0,
            by.scope,
            "id"@,
            record_id(by, message_id),
        ),
        forall|i: int|
            0 <= i < next.chat.items_at("messages"@)->0.len() && says(
                by.scope,
                "id"@,
                record_id(by, message_id),
            )(#[trigger] next.chat.items_at("messages"@)->0[i]) ==> i
                == next.chat.items_at("messages"@)->0.len() - 1 && next.chat.items_at(
                "messages"@,
            )->0[i].text_at3("signed"@, "payload"@, "text"@) == Some(text),
        next == (StateView { chat: next.chat, ..state }),
{
    broadcast use written_member;

    let record = chat_record(message@, author);
    let batch = posted_batch(draft, author, message, profile);
    let scoped = scoped_chat(state.chat, draft.scope@)->Ok_0;
    let stored = state.chat.items_at("messages"@)->0;
    let kept = stored.filter(in_scope(draft.scope@));
    lemma_payload_names();
    assert(record.get("signed"@) == Some(message@));
    assert(draft.message@.get("id"@) == Some(JsonTree::Text(draft.id@)));
    assert(draft.message@.get("workspaceId"@) == Some(JsonTree::Text(by.scope)));
    assert(says(by.scope, "id"@, draft.id@)(record));
    law_scoped_chat(state.chat, draft.scope@, "messages"@);
    law_fresh_chat_is_read_back(batch.items_at("messages"@)->0, batch.items_at("profiles"@)->0);
    let profiles = if draft.profile is Some {
        seq![chat_record(profile->Ok_0@, author)]
    } else {
        Seq::empty()
    };
    law_fresh_chat_is_read_back(seq![record], profiles);
    let all = kept + seq![record];
    let mark = message@.text_at("signature"@)->0;
    assert(signature()(record) == Some(mark));
    assert(!has_key(kept, signature(), mark)) by {
        if has_key(kept, signature(), mark) {
            let i = choose|i: int|
                0 <= i < kept.len() && signature()(#[trigger] kept[i]) == Some(mark);
            assert(kept.contains(kept[i]));
            stored.lemma_filter_contains_rev(in_scope(draft.scope@), kept[i]);
            let j = choose|j: int| 0 <= j < stored.len() && stored[j] == kept[i];
            assert(signature()(stored[j]) == Some(mark));
        }
    }
    assert(all.drop_last() =~= kept);
    assert(all.last() == record);
    let merged = first_of_each(all, signature());
    assert(merged == first_of_each(kept, signature()).push(record));
    law_merged_chat_is_read_back(
        merged,
        first_of_each(
            scoped.items_at("profiles"@)->0 + batch.items_at("profiles"@)->0,
            signature(),
        ),
    );
    assert(next.chat.items_at("messages"@) == Some(merged));
    assert(says(by.scope, "id"@, draft.id@)(merged[merged.len() - 1]));
    assert(draft.message@.get("text"@) == Some(JsonTree::Text(text)));
    assert(record.text_at3("signed"@, "payload"@, "text"@) == Some(text));
    assert forall|i: int| 0 <= i < merged.len() - 1 implies !says(by.scope, "id"@, draft.id@)(
        #[trigger] merged[i],
    ) by {
        lemma_kept_have_key(kept, signature(), i);
        assert(merged[i] == first_of_each(kept, signature())[i]);
        stored.lemma_filter_contains_rev(in_scope(draft.scope@), merged[i]);
        let j = choose|j: int| 0 <= j < stored.len() && stored[j] == merged[i];
        assert(!says(by.scope, "id"@, draft.id@)(stored[j]));
    }
}

/// A chat message that was posted is not posted a second time: whatever its text is
/// then, and whenever it is written, the message with its id is answered to be
/// there, so that the chat stays as it is, with the first text.
pub proof fn law_message_is_posted_once(
    state: StateView,
    draft: ChatDraft,
    by: Byline,
    message_id: Seq<char>,
    text: Seq<char>,
    author: Member,
    message: Json,
    profile: Result<Json, String>,
    next: StateView,
    store: StoreView,
    body_again: Seq<char>,
    prepared_again: Result<Prepared, String>,
    author_again: Result<Member, String>,
    peers_again: Result<Vec<Json>, String>,
    created_again: Result<i128, String>,
    by_again: Byline,
    result: Result<ChatStep, String>,
)
    requires
        is_chat_step(ChatStep::Draft(draft), state.chat, by, message_id, text),
        message@.get("payload"@) == Some(draft.message@),
        message@.text_at("signature"@) matches Some(mark) && mark.len() > 0 && !has_key(
            state.chat.items_at("messages"@)->0,
            signature(),
            mark,
        ),
        posted_state(state, draft, author, Ok(message), profile) == Ok::<StateView, Seq<char>>(next),
        store.state == next,
        permitted_message(
            store,
            message_id,
            body_again,
            prepared_again,
            author_again,
            peers_again,
            created_again,
        ) == Ok::<Byline, Seq<char>>(by_again),
        by_again.scope == by.scope,
        by_again.device_id == by.device_id,
        is_chat_answer(
            result,
            store,
            message_id,
            body_again,
            prepared_again,
            author_again,
            peers_again,
            created_again,
        ),
    ensures
        result matches Ok(ChatStep::Present(id)) && id@ == record_id(by, message_id),
{
    law_posted_message_is_present(
        state,
        draft,
        by,
        message_id,
        text,
        author,
        message,
        profile,
        next,
    );
}

/// A lead is created on the workspace's job-search board: where a draft becomes a
/// change, the document shows no entity with its id, and the lead has the column and
/// the fields that the first board with the preset key "job-search" binds, whatever
/// other boards there are.
pub proof fn law_lead_is_created_on_the_job_board(
    store: StoreView,
    draft: LeadDraft,
    prepared: Result<Prepared, String>,
    member: Result<Member, String>,
    peers: Result<Vec<Json>, String>,
    created: Result<i128, String>,
    ranked: Result<i128, String>,
    change: LeadChange,
)
    requires
        is_lead_answer(
            Ok(LeadStep::Change(change)),
            store,
            draft,
            prepared,
            member,
            peers,
            created,
            ranked,
        ),
    ensures
        loaded(store.state.document) matches Ok(held) && (held.json.members_at(
            "entities"@,
        ) matches Some(entities) && crate::json::member(entities, draft.id@) is None && (
        crate::json::member(entities, change.item.column_id@) matches Some(column)
            && column.text_at("kind"@) == Some("column"@)) && exists|i: int|
            {
                &&& 0 <= i < entities.len()
                &&& (#[trigger] entities[i]).1.text_at("kind"@) == Some("board"@)
                &&& entities[i].1.text_at2("preset"@, "key"@) == Some("job-search"@)
                &&& entities[i].1.text_at3("preset"@, "bindings"@, "status.lead"@) == Some(
                    change.item.column_id@,
                )
                &&& entities[i].1.text_at3("preset"@, "bindings"@, "field.company"@) == Some(
                    change.item.company_field@,
                )
                &&& entities[i].1.text_at3("preset"@, "bindings"@, "field.role"@) == Some(
                    change.item.role_field@,
                )
                &&& entities[i].1.text_at3("preset"@, "bindings"@, "field.url"@) == Some(
                    change.item.url_field@,
                )
                &&& forall|j: int|
                    0 <= j < i ==> (#[trigger] entities[j]).1.text_at("kind"@) != Some("board"@)
                        || entities[j].1.text_at2("preset"@, "key"@) != Some("job-search"@)
            }),
{
    let document = store.state.document;
    let filing = lead_plan(document, draft.id@, created, ranked)->Ok_0->0;
    law_lead_is_filed_by_the_job_board(loaded(document)->Ok_0.json, draft.id@, filing);
}

/// A workspace none of whose entities has the preset key "job-search" refuses a lead
/// that may otherwise be written, and says so; one that has an entity with the
/// lead's id answers that the lead is there.
pub proof fn law_lead_needs_a_job_board(
    store: StoreView,
    draft: LeadDraft,
    prepared: Result<Prepared, String>,
    member: Result<Member, String>,
    peers: Result<Vec<Json>, String>,
    created: Result<i128, String>,
    ranked: Result<i128, String>,
    result: Result<LeadStep, String>,
)
    requires
        is_lead_answer(result, store, draft, prepared, member, peers, created, ranked),
        permitted_lead(store, draft, prepared, member, peers) is Ok,
        loaded(store.state.document) is Ok,
        loaded(store.state.document)->Ok_0.json.members_at("entities"@) is Some,
    ensures
        ({
            let entities = loaded(store.state.document)->Ok_0.json.members_at("entities"@)->0;
            if crate::json::member(entities, draft.id@) is Some {
                result matches Ok(LeadStep::Present(id)) && id@ == draft.id@
            } else {
                (forall|i: int|
                    0 <= i < entities.len() ==> (#[trigger] entities[i]).1.text_at2(
                        "preset"@,
                        "key"@,
                    ) != Some("job-search"@)) ==> (result matches Err(error) && error@
                    == "No job-search board in workspace"@)
            }
        }),
{
    law_leads_without_a_place_are_refused(
        loaded(store.state.document)->Ok_0.json,
        draft.id@,
        0,
    );
    law_drafts_are_accepted_by_their_size(draft);
}

/// A lead comes of an editor's draft alone: a draft that becomes anything is
/// complete, by a member whose role is editor, in a workspace with the evidence of
/// an authority and write authorizations, over which the authority was prepared and
/// whose peers were verified.
pub proof fn law_lead_is_by_an_editor(
    store: StoreView,
    draft: LeadDraft,
    prepared: Result<Prepared, String>,
    member: Result<Member, String>,
    peers: Result<Vec<Json>, String>,
    created: Result<i128, String>,
    ranked: Result<i128, String>,
    step: LeadStep,
)
    requires
        is_lead_answer(Ok(step), store, draft, prepared, member, peers, created, ranked),
    ensures
        member matches Ok(member) && member.role == WorkspaceRole::Editor,
        prepared matches Ok(authority) && authority.snapshot.workspace_id@ == store.workspace_id,
        peers is Ok,
        store.state.authorization.get("authority"@) is Some,
        store.state.authorization.items_at("records"@) is Some,
        trimmed(draft.company@).len() > 0,
        trimmed(draft.role@).len() > 0,
        trimmed(draft.job_url@).len() > 0,
        "item-"@.is_prefix_of(draft.id@),
{
}

/// Why a lead may not be written, in the order in which it is found: a draft that is
/// not complete, evidence or write authorizations that are missing, an authority
/// that was not prepared or is over another workspace, a member that was not
/// verified or is no editor, and peers that were not verified.
pub proof fn law_refused_lead_is_told_why(
    store: StoreView,
    draft: LeadDraft,
    prepared: Result<Prepared, String>,
    member: Result<Member, String>,
    peers: Result<Vec<Json>, String>,
    created: Result<i128, String>,
    ranked: Result<i128, String>,
    result: Result<LeadStep, String>,
)
    requires
        is_lead_answer(result, store, draft, prepared, member, peers, created, ranked),
    ensures
        trimmed(draft.company@).len() == 0 || trimmed(draft.role@).len() == 0 || trimmed(
            draft.job_url@,
        ).len() == 0 || !"item-"@.is_prefix_of(draft.id@) ==> (result matches Err(error) && error@
            == "Lead needs company, role, and job URL"@),
        accepted(draft) is Ok ==> {
            let authorization = store.state.authorization;
            if authorization.get("authority"@) is None {
                result matches Err(error) && error@ == "Missing lighthouse authority"@
            } else if authorization.items_at("records"@) is None {
                result matches Err(error) && error@ == "Missing lighthouse write authorizations"@
            } else if prepared is Err {
                result matches Err(error) && error@ == prepared->Err_0@
            } else if prepared->Ok_0.snapshot.workspace_id@ != store.workspace_id {
                result matches Err(error) && error@
                    == "Lighthouse workspace does not match document"@
            } else if member is Err {
                result matches Err(error) && error@ == member->Err_0@
            } else if member->Ok_0.role != WorkspaceRole::Editor {
                result matches Err(error) && error@
                    == "Lighthouse needs an editor grant to create leads"@
            } else if peers is Err {
                result matches Err(error) && error@ == peers->Err_0@
            } else {
                loaded(store.state.document) matches Err(message) ==> (result matches Err(error)
                    && error@ == "Invalid Match document: "@ + message)
            }
        },
{
}

/// What is written of a lead: its id, the company and the role as its title, its
/// body, the moment of creation, and the moment of ranking as a fraction; the
/// company, the role and the address as they were accepted. The change is to be
/// authorized by the member, for that change in that workspace alone.
pub proof fn law_created_lead_says_what_was_drafted(
    store: StoreView,
    draft: LeadDraft,
    prepared: Result<Prepared, String>,
    member: Result<Member, String>,
    peers: Result<Vec<Json>, String>,
    created: Result<i128, String>,
    ranked: Result<i128, String>,
    change: LeadChange,
)
    requires
        is_lead_answer(
            Ok(LeadStep::Change(change)),
            store,
            draft,
            prepared,
            member,
            peers,
            created,
            ranked,
        ),
    ensures
        change.item.id@ == draft.id@,
        change.item.title@ == trimmed(draft.company@) + " — "@ + trimmed(draft.role@),
        change.item.body@ == draft.body@,
        change.item.company@ == trimmed(draft.company@),
        change.item.role@ == trimmed(draft.role@),
        change.item.job_url@ == trimmed(draft.job_url@),
        created is Ok && formatted_utc(
            created->Ok_0 * 1_000_000,
            "[year]-[month]-[day]T[hour]:[minute]:[second].[subsecond digits:3]Z"@,
        ) == Ok::<Seq<char>, Seq<char>>(change.item.created_at@),
        ranked is Ok && change.item.rank@ == decimal(ranked->Ok_0 as nat) + "/1"@,
        change.authorization.kind@ == "workspace-changes"@,
        change.authorization.version == 1,
        change.authorization.workspace_id@ == store.workspace_id,
        change.authorization.hashes@.len() == 1,
        change.authorization.hashes@[0]@ == change.hash@,
        change.authorization.person_id@ == member->Ok_0.person_id@,
        change.authorization.device_id@ == member->Ok_0.device_id@,
{
    let hashes = change.authorization.hashes@;
    assert(texts(hashes) == seq![change.hash@]);
    assert(texts(hashes).len() == hashes.len());
    assert(texts(hashes)[0] == hashes[0]@);
}

/// A lead is one change, by the member's device, with a note that names the lead and
/// the member: its hash is that of the commit of a document in which the lead was
/// added among the entities.
pub proof fn law_created_lead_is_one_change_by_the_device(
    store: StoreView,
    draft: LeadDraft,
    prepared: Result<Prepared, String>,
    member: Result<Member, String>,
    peers: Result<Vec<Json>, String>,
    created: Result<i128, String>,
    ranked: Result<i128, String>,
    change: LeadChange,
)
    requires
        is_lead_answer(
            Ok(LeadStep::Change(change)),
            store,
            draft,
            prepared,
            member,
            peers,
            created,
            ranked,
        ),
    ensures
        exists|edited: AutoCommit, note: JsonTree|
            {
                &&& #[trigger] committed(edited, json_text(note)) == change.hash@
                &&& actor_of(edited) == encode_utf8(member->Ok_0.device_id@)
                &&& note.get("action"@) == Some(JsonTree::Text("createItem"@))
                &&& note.get("transactionId"@) == Some(JsonTree::Text(draft.id@))
                &&& note.get("entityIds"@) == Some(
                    JsonTree::Array(seq![JsonTree::Text(draft.id@)]),
                )
                &&& note.get("personId"@) == Some(JsonTree::Text(member->Ok_0.person_id@))
                &&& note.get("deviceId"@) == Some(JsonTree::Text(member->Ok_0.device_id@))
                &&& contents(edited).hashes == loaded(store.state.document)->Ok_0.hashes
            },
{
    let by = member->Ok_0;
    let note = commit_note(draft.id@, by.person_id@, by.device_id@);
    law_commit_note_is_read_back(draft.id@, by.person_id@, by.device_id@, "action"@);
    law_commit_note_is_read_back(draft.id@, by.person_id@, by.device_id@, "transactionId"@);
    law_commit_note_is_read_back(draft.id@, by.person_id@, by.device_id@, "entityIds"@);
    law_commit_note_is_read_back(draft.id@, by.person_id@, by.device_id@, "personId"@);
    law_commit_note_is_read_back(draft.id@, by.person_id@, by.device_id@, "deviceId"@);
    lemma_note_is_told_apart();
    let before = loaded(store.state.document)->Ok_0;
    let entities = root_map(before, "entities"@)->0;
    let (edited, done) = choose|edited: AutoCommit, done: AutoCommit|
        {
            &&& lead_added(before, contents(edited), entities, change.item)
            &&& same_rest(before, contents(edited))
            &&& actor_of(edited) == encode_utf8(by.device_id@)
            &&& #[trigger] committed(edited, json_text(note)) == change.hash@
            &&& contents(done).maps == contents(edited).maps
            &&& contents(done).texts == contents(edited).texts
            &&& contents(done).hashes.to_set() == before.hashes.to_set().insert(change.hash@)
            &&& is_genuine(done)
            &&& is_saved_as(done, change.document@)
            &&& change.document@ == #[trigger] saved_bytes(done)
            &&& saved_in(
                change.document@,
                contents(edited),
                before.hashes.to_set().insert(change.hash@),
            )
        };
    assert(committed(edited, json_text(note)) == change.hash@);
}

proof fn lemma_note_is_told_apart()
    ensures
        "action"@.len() == 6,
        "transactionId"@.len() == 13,
        "entityIds"@.len() == 9,
        "personId"@.len() == 8,
        "deviceId"@.len() == 8,
        "version"@.len() == 7,
        "personId"@[0] == 'p',
        "deviceId"@[0] == 'd',
{
    reveal_strlit("action");
    reveal_strlit("transactionId");
    reveal_strlit("entityIds");
    reveal_strlit("personId");
    reveal_strlit("deviceId");
    reveal_strlit("version");
}

/// The grounds of a lead's change are the workspace's own, with one record more, the
/// signed authorization with what shows that the member may write. Where it was not
/// signed, the failure is told.
pub proof fn law_lead_grounds_add_one_record(
    store: StoreView,
    member: Member,
    signed: JsonTree,
    other: Seq<char>,
)
    requires
        store.state.authorization.items_at("records"@) is Some,
    ensures
        with_record(
            store.state.authorization,
            authorization_record(signed, member),
        ) matches Ok(grounds) && {
            &&& grounds.items_at("records"@) matches Some(records) && records.drop_last()
                == store.state.authorization.items_at("records"@)->0 && records.len() > 0
                && records.last().get("signed"@) == Some(signed) && records.last().get("publicKey"@)
                == Some(member.public_key@)
            &&& grounds.get("authority"@) == store.state.authorization.get("authority"@)
        },
{
    law_authorization_is_filed_behind_the_others(
        store.state.authorization,
        signed,
        member,
        "authority"@,
    );
    reveal_strlit("authority");
    reveal_strlit("records");
    assert("authority"@.len() == 9);
    assert("records"@.len() == 7);
}

proof fn lemma_record_names()
    ensures
        "signed"@.len() == 6,
        "publicKey"@.len() == 9,
        "certificates"@.len() == 12,
        "authority"@.len() == 9,
        "grant"@.len() == 5,
        "payload"@.len() == 7,
        "signature"@.len() == 9,
        "publicKey"@[0] == 'p',
        "authority"@[0] == 'a',
        "signature"@[0] == 's',
{
    reveal_strlit("signed");
    reveal_strlit("publicKey");
    reveal_strlit("certificates");
    reveal_strlit("authority");
    reveal_strlit("grant");
    reveal_strlit("payload");
    reveal_strlit("signature");
}

proof fn lemma_message_names()
    ensures
        "kind"@.len() == 4,
        "version"@.len() == 7,
        "workspaceId"@.len() == 11,
        "personId"@.len() == 8,
        "deviceId"@.len() == 8,
        "id"@.len() == 2,
        "createdAt"@.len() == 9,
        "text"@.len() == 4,
        "revision"@.len() == 8,
        "kind"@[0] == 'k',
        "text"@[0] == 't',
        "personId"@[0] == 'p',
        "deviceId"@[0] == 'd',
        "revision"@[0] == 'r',
{
    reveal_strlit("kind");
    reveal_strlit("version");
    reveal_strlit("workspaceId");
    reveal_strlit("personId");
    reveal_strlit("deviceId");
    reveal_strlit("id");
    reveal_strlit("createdAt");
    reveal_strlit("text");
    reveal_strlit("revision");
}

/// A filed record reads back, member by member, as its author's: what was signed, the
/// author's own key and certificates, and as its authority the owner's key, the
/// owner's certificates and the author's grant. It has nothing else.
pub proof fn law_filed_record_is_the_authors(signed: JsonTree, author: Member, key: Seq<char>)
    ensures
        chat_record(signed, author).get(key) is Some <==> key == "signed"@ || key == "publicKey"@
            || key == "certificates"@ || key == "authority"@,
        chat_record(signed, author).get("signed"@) == Some(signed),
        chat_record(signed, author).get("publicKey"@) == Some(author.public_key@),
        chat_record(signed, author).get("certificates"@) == Some(author.certificates@),
        chat_record(signed, author).at2("authority"@, "publicKey"@) == Some(
            author.owner_public_key@,
        ),
        chat_record(signed, author).at2("authority"@, "certificates"@) == Some(
            author.owner_certificates@,
        ),
        chat_record(signed, author).at2("authority"@, "grant"@) == Some(author.grant@),
{
    broadcast use written_member;

    lemma_record_names();
}

/// A record with a signature that none of `stored` has stands last, behind those of
/// the scope.
proof fn lemma_new_record_is_last(
    stored: Seq<JsonTree>,
    scope: Seq<char>,
    record: JsonTree,
    mark: Seq<char>,
)
    requires
        mark.len() > 0,
        record.text_at2("signed"@, "signature"@) == Some(mark),
        forall|i: int|
            0 <= i < stored.len() ==> (#[trigger] stored[i]).text_at2("signed"@, "signature"@)
                != Some(mark),
    ensures
        first_of_each(stored.filter(in_scope(scope)) + seq![record], signature()) == first_of_each(
            stored.filter(in_scope(scope)),
            signature(),
        ).push(record),
{
    let kept = stored.filter(in_scope(scope));
    let all = kept + seq![record];
    assert(all.drop_last() =~= kept);
    assert(all.last() == record);
    assert(signature()(record) == Some(mark));
    if has_key(kept, signature(), mark) {
        let i = choose|i: int| 0 <= i < kept.len() && signature()(#[trigger] kept[i]) == Some(mark);
        assert(kept.contains(kept[i]));
        stored.lemma_filter_contains_rev(in_scope(scope), kept[i]);
        let j = choose|j: int| 0 <= j < stored.len() && stored[j] == kept[i];
        assert(stored[j].text_at2("signed"@, "signature"@) != Some(mark));
    }
}

/// The sections of a chat once a message was posted: of the stored records those of
/// the scope, and behind them what was posted, of each signature the first.
proof fn lemma_posted_sections(
    state: StateView,
    draft: ChatDraft,
    author: Member,
    message: Json,
    profile: Result<Json, String>,
    next: StateView,
)
    requires
        posted_state(state, draft, author, Ok(message), profile) == Ok::<StateView, Seq<char>>(next),
    ensures
        state.chat.items_at("messages"@) is Some,
        state.chat.items_at("profiles"@) is Some,
        next.chat.items_at("messages"@) == Some(
            first_of_each(
                state.chat.items_at("messages"@)->0.filter(in_scope(draft.scope@)) + seq![
                    chat_record(message@, author),
                ],
                signature(),
            ),
        ),
        draft.profile is Some ==> next.chat.items_at("profiles"@) == Some(
            first_of_each(
                state.chat.items_at("profiles"@)->0.filter(in_scope(draft.scope@)) + seq![
                    chat_record(profile->Ok_0@, author),
                ],
                signature(),
            ),
        ),
        draft.profile is None ==> next.chat.items_at("profiles"@) == Some(
            first_of_each(
                state.chat.items_at("profiles"@)->0.filter(in_scope(draft.scope@)),
                signature(),
            ),
        ),
{
    broadcast use written_member;

    let batch = posted_batch(draft, author, message, profile);
    let scoped = scoped_chat(state.chat, draft.scope@)->Ok_0;
    let profiles = if draft.profile is Some {
        seq![chat_record(profile->Ok_0@, author)]
    } else {
        Seq::empty()
    };
    lemma_payload_names();
    law_scoped_chat(state.chat, draft.scope@, "messages"@);
    law_scoped_chat(state.chat, draft.scope@, "profiles"@);
    law_fresh_chat_is_read_back(seq![chat_record(message@, author)], profiles);
    law_merged_chat_is_read_back(
        first_of_each(
            scoped.items_at("messages"@)->0 + batch.items_at("messages"@)->0,
            signature(),
        ),
        first_of_each(
            scoped.items_at("profiles"@)->0 + batch.items_at("profiles"@)->0,
            signature(),
        ),
    );
    let kept = state.chat.items_at("profiles"@)->0.filter(in_scope(draft.scope@));
    assert(kept + Seq::<JsonTree>::empty() =~= kept);
}

/// Posting adds the author's record: under a signature that no stored message has,
/// the last message of the chat is what was signed, with the author's key and
/// certificates, and with the owner's key, the owner's certificates and the author's
/// grant as its authority, so that a peer can verify it. The profile, where one is
/// due, is added to the profiles in the same way. All else of the state stays.
pub proof fn law_posted_record_is_the_authors(
    state: StateView,
    draft: ChatDraft,
    author: Member,
    message: Json,
    profile: Result<Json, String>,
    next: StateView,
)
    requires
        posted_state(state, draft, author, Ok(message), profile) == Ok::<StateView, Seq<char>>(next),
        message@.text_at("signature"@) matches Some(mark) && mark.len() > 0,
        forall|i: int|
            0 <= i < state.chat.items_at("messages"@)->0.len() ==> (
            #[trigger] state.chat.items_at("messages"@)->0[i]).text_at2("signed"@, "signature"@)
                != message@.text_at("signature"@),
    ensures
        next.chat.items_at("messages"@) matches Some(messages) && messages.len() > 0 && {
            let record = messages.last();
            &&& record.get("signed"@) == Some(message@)
            &&& record.get("publicKey"@) == Some(author.public_key@)
            &&& record.get("certificates"@) == Some(author.certificates@)
            &&& record.at2("authority"@, "publicKey"@) == Some(author.owner_public_key@)
            &&& record.at2("authority"@, "certificates"@) == Some(author.owner_certificates@)
            &&& record.at2("authority"@, "grant"@) == Some(author.grant@)
        },
        draft.profile is Some && (profile->Ok_0@.text_at("signature"@) matches Some(mark)
            && mark.len() > 0) && (forall|i: int|
            0 <= i < state.chat.items_at("profiles"@)->0.len() ==> (
            #[trigger] state.chat.items_at("profiles"@)->0[i]).text_at2("signed"@, "signature"@)
                != profile->Ok_0@.text_at("signature"@)) ==> profile is Ok && (next.chat.items_at(
            "profiles"@,
        ) matches Some(profiles) && profiles.len() > 0 && {
            let record = profiles.last();
            &&& record.get("signed"@) == Some(profile->Ok_0@)
            &&& record.get("publicKey"@) == Some(author.public_key@)
            &&& record.get("certificates"@) == Some(author.certificates@)
            &&& record.at2("authority"@, "publicKey"@) == Some(author.owner_public_key@)
            &&& record.at2("authority"@, "certificates"@) == Some(author.owner_certificates@)
            &&& record.at2("authority"@, "grant"@) == Some(author.grant@)
        }),
        next.document == state.document,
        next.authorization == state.authorization,
        next.mesh == state.mesh,
{
    lemma_posted_sections(state, draft, author, message, profile, next);
    let record = chat_record(message@, author);
    law_filed_record_is_the_authors(message@, author, "signed"@);
    lemma_new_record_is_last(
        state.chat.items_at("messages"@)->0,
        draft.scope@,
        record,
        message@.text_at("signature"@)->0,
    );
    let messages = next.chat.items_at("messages"@)->0;
    assert(messages.last() == record);
    if draft.profile is Some && (profile->Ok_0@.text_at("signature"@) matches Some(mark)
        && mark.len() > 0) && (forall|i: int|
        0 <= i < state.chat.items_at("profiles"@)->0.len() ==> (
        #[trigger] state.chat.items_at("profiles"@)->0[i]).text_at2("signed"@, "signature"@)
            != profile->Ok_0@.text_at("signature"@)) {
        law_filed_record_is_the_authors(profile->Ok_0@, author, "signed"@);
        lemma_new_record_is_last(
            state.chat.items_at("profiles"@)->0,
            draft.scope@,
            chat_record(profile->Ok_0@, author),
            profile->Ok_0@.text_at("signature"@)->0,
        );
    }
}

/// Posting keeps the chat of the workspace and drops what belongs to another: every
/// message but the last was stored before, for the same workspace, and every stored
/// message of the workspace that is signed is still there, by its signature.
pub proof fn law_posting_keeps_the_workspaces_chat(
    state: StateView,
    draft: ChatDraft,
    author: Member,
    message: Json,
    profile: Result<Json, String>,
    next: StateView,
    i: int,
    j: int,
)
    requires
        posted_state(state, draft, author, Ok(message), profile) == Ok::<StateView, Seq<char>>(next),
        message@.text_at("signature"@) matches Some(mark) && mark.len() > 0,
        forall|i: int|
            0 <= i < state.chat.items_at("messages"@)->0.len() ==> (
            #[trigger] state.chat.items_at("messages"@)->0[i]).text_at2("signed"@, "signature"@)
                != message@.text_at("signature"@),
    ensures
        ({
            let before = state.chat.items_at("messages"@)->0;
            let after = next.chat.items_at("messages"@)->0;
            &&& 0 <= i < after.len() - 1 ==> after[i].text_at3(
                "signed"@,
                "payload"@,
                "workspaceId"@,
            ) == Some(draft.scope@) && before.contains(after[i])
            &&& 0 <= j < before.len() && before[j].text_at3("signed"@, "payload"@, "workspaceId"@)
                == Some(draft.scope@) && (before[j].text_at2(
                "signed"@,
                "signature"@,
            ) matches Some(mark) && mark.len() > 0) ==> exists|k: int|
                0 <= k < after.len() - 1 && (#[trigger] after[k]).text_at2(
                    "signed"@,
                    "signature"@,
                ) == before[j].text_at2("signed"@, "signature"@)
        }),
{
    lemma_posted_sections(state, draft, author, message, profile, next);
    let record = chat_record(message@, author);
    law_filed_record_is_the_authors(message@, author, "signed"@);
    let before = state.chat.items_at("messages"@)->0;
    let after = next.chat.items_at("messages"@)->0;
    let kept = before.filter(in_scope(draft.scope@));
    lemma_new_record_is_last(before, draft.scope@, record, message@.text_at("signature"@)->0);
    let firsts = first_of_each(kept, signature());
    if 0 <= i < after.len() - 1 {
        assert(after[i] == firsts[i]);
        lemma_kept_have_key(kept, signature(), i);
        let m = choose|m: int| 0 <= m < kept.len() && kept[m] == firsts[i];
        before.lemma_filter_pred(in_scope(draft.scope@), m);
        before.lemma_filter_contains_rev(in_scope(draft.scope@), kept[m]);
    }
    if 0 <= j < before.len() && before[j].text_at3("signed"@, "payload"@, "workspaceId"@) == Some(
        draft.scope@,
    ) && (before[j].text_at2("signed"@, "signature"@) matches Some(mark) && mark.len() > 0) {
        let mark = before[j].text_at2("signed"@, "signature"@)->0;
        before.lemma_filter_contains(in_scope(draft.scope@), j);
        let m = choose|m: int| 0 <= m < kept.len() && kept[m] == before[j];
        assert(signature()(kept[m]) == Some(mark));
        assert(has_key(kept, signature(), mark));
        lemma_kept_keys(kept, signature(), mark);
        let k = choose|k: int|
            0 <= k < firsts.len() && signature()(#[trigger] firsts[k]) == Some(mark);
        assert(after[k] == firsts[k]);
    }
}

/// A message that could not be signed, or a profile that is due and could not be, is
/// not posted: the failure is told.
pub proof fn law_unsigned_message_is_not_posted(
    state: StateView,
    draft: ChatDraft,
    author: Member,
    message: Result<Json, String>,
    profile: Result<Json, String>,
)
    ensures
        message matches Err(error) ==> posted_state(state, draft, author, message, profile) == Err::<
            StateView,
            Seq<char>,
        >(error@),
        message is Ok && draft.profile is Some ==> (profile matches Err(error) ==> posted_state(
            state,
            draft,
            author,
            message,
            profile,
        ) == Err::<StateView, Seq<char>>(error@)),
{
}

/// What is to be signed of a chat message reads back, member by member: its kind,
/// its version, the workspace's chat, the author and the device, its id, the moment,
/// the text without the white space around it, and its revision; and nothing else.
pub proof fn law_drafted_message_reads_back(
    store: StoreView,
    message_id: Seq<char>,
    body: Seq<char>,
    prepared: Result<Prepared, String>,
    author: Result<Member, String>,
    peers: Result<Vec<Json>, String>,
    created: Result<i128, String>,
    draft: ChatDraft,
    key: Seq<char>,
)
    requires
        is_chat_answer(
            Ok(ChatStep::Draft(draft)),
            store,
            message_id,
            body,
            prepared,
            author,
            peers,
            created,
        ),
    ensures
        author is Ok,
        draft.id@ == author->Ok_0.device_id@ + ":"@ + message_id,
        loaded(store.state.document) is Ok && chat_scope_of(
            loaded(store.state.document)->Ok_0.json,
        ) == Ok::<Seq<char>, Seq<char>>(draft.scope@),
        draft.message@.get("kind"@) == Some(JsonTree::Text("chat-message"@)),
        draft.message@.get("version"@) == Some(JsonTree::Number(seq!['1'])),
        draft.message@.get("workspaceId"@) == Some(JsonTree::Text(draft.scope@)),
        draft.message@.get("personId"@) == Some(JsonTree::Text(author->Ok_0.person_id@)),
        draft.message@.get("deviceId"@) == Some(JsonTree::Text(author->Ok_0.device_id@)),
        draft.message@.get("id"@) == Some(
            JsonTree::Text(author->Ok_0.device_id@ + ":"@ + message_id),
        ),
        created is Ok && (formatted_utc(
            created->Ok_0 * 1_000_000,
            "[year]-[month]-[day]T[hour]:[minute]:[second].[subsecond digits:3]Z"@,
        ) matches Ok(moment) && draft.message@.get("createdAt"@) == Some(JsonTree::Text(moment))),
        draft.message@.get("text"@) == Some(JsonTree::Text(trimmed(body))),
        draft.message@.get("revision"@) == Some(JsonTree::Number(seq!['0'])),
        draft.message@.get(key) is Some <==> key == "kind"@ || key == "version"@ || key
            == "workspaceId"@ || key == "personId"@ || key == "deviceId"@ || key == "id"@ || key
            == "createdAt"@ || key == "text"@ || key == "revision"@,
{
    broadcast use written_member;

    lemma_message_names();
    lemma_small_numbers();
}

proof fn lemma_small_numbers()
    ensures
        decimal(0) == seq!['0'],
        decimal(1) == seq!['1'],
{
    assert(crate::text::digit(0) == '0');
    assert(crate::text::digit(1) == '1');
}

/// A profile is due exactly where the chat has none of the author for the workspace,
/// and then presents the author as "Lighthouse", by the same device at the same
/// moment as the message.
pub proof fn law_profile_is_due_once(
    store: StoreView,
    message_id: Seq<char>,
    body: Seq<char>,
    prepared: Result<Prepared, String>,
    author: Result<Member, String>,
    peers: Result<Vec<Json>, String>,
    created: Result<i128, String>,
    draft: ChatDraft,
)
    requires
        is_chat_answer(
            Ok(ChatStep::Draft(draft)),
            store,
            message_id,
            body,
            prepared,
            author,
            peers,
            created,
        ),
    ensures
        draft.profile is None <==> (store.state.chat.items_at("profiles"@) matches Some(profiles)
            && exists|i: int|
            0 <= i < profiles.len() && (#[trigger] profiles[i]).text_at3(
                "signed"@,
                "payload"@,
                "personId"@,
            ) == Some(author->Ok_0.person_id@) && profiles[i].text_at3(
                "signed"@,
                "payload"@,
                "workspaceId"@,
            ) == Some(draft.scope@)),
        draft.profile matches Some(profile) ==> {
            &&& profile@.get("kind"@) == Some(JsonTree::Text("chat-profile"@))
            &&& profile@.get("version"@) == Some(JsonTree::Number(seq!['1']))
            &&& profile@.get("workspaceId"@) == Some(JsonTree::Text(draft.scope@))
            &&& profile@.get("personId"@) == Some(JsonTree::Text(author->Ok_0.person_id@))
            &&& profile@.get("deviceId"@) == Some(JsonTree::Text(author->Ok_0.device_id@))
            &&& profile@.get("id"@) == Some(
                JsonTree::Text(author->Ok_0.device_id@ + ":lighthouse-profile"@),
            )
            &&& profile@.get("createdAt"@) == draft.message@.get("createdAt"@)
            &&& profile@.get("text"@) == Some(JsonTree::Text("Lighthouse"@))
            &&& profile@.get("revision"@) == Some(JsonTree::Number(seq!['1']))
        },
{
    broadcast use written_member;

    lemma_message_names();
    lemma_small_numbers();
    let person = author->Ok_0.person_id@;
    if store.state.chat.items_at("profiles"@) is Some {
        let profiles = store.state.chat.items_at("profiles"@)->0;
        if one_says(profiles, draft.scope@, "personId"@, person) {
            let i = choose|i: int|
                0 <= i < profiles.len() && says(draft.scope@, "personId"@, person)(
                    #[trigger] profiles[i],
                );
            assert(profiles[i].text_at3("signed"@, "payload"@, "personId"@) == Some(person));
        }
        if exists|i: int|
            0 <= i < profiles.len() && (#[trigger] profiles[i]).text_at3(
                "signed"@,
                "payload"@,
                "personId"@,
            ) == Some(person) && profiles[i].text_at3("signed"@, "payload"@, "workspaceId"@)
                == Some(draft.scope@) {
            let i = choose|i: int|
                0 <= i < profiles.len() && (#[trigger] profiles[i]).text_at3(
                    "signed"@,
                    "payload"@,
                    "personId"@,
                ) == Some(person) && profiles[i].text_at3("signed"@, "payload"@, "workspaceId"@)
                    == Some(draft.scope@);
            assert(says(draft.scope@, "personId"@, person)(profiles[i]));
        }
    }
}

/// A message is answered to be there exactly where the chat has one of the workspace
/// with its id, which is the device's id, a colon and the message's id.
pub proof fn law_present_message_is_in_the_chat(
    store: StoreView,
    message_id: Seq<char>,
    body: Seq<char>,
    prepared: Result<Prepared, String>,
    author: Result<Member, String>,
    peers: Result<Vec<Json>, String>,
    created: Result<i128, String>,
    step: ChatStep,
)
    requires
        is_chat_answer(
            Ok(step),
            store,
            message_id,
            body,
            prepared,
            author,
            peers,
            created,
        ),
    ensures
        store.state.chat.items_at("messages"@) is Some,
        step matches ChatStep::Present(id) ==> id@ == author->Ok_0.device_id@ + ":"@ + message_id,
        step is Present <==> exists|i: int|
            0 <= i < store.state.chat.items_at("messages"@)->0.len() && (
            #[trigger] store.state.chat.items_at("messages"@)->0[i]).text_at3(
                "signed"@,
                "payload"@,
                "id"@,
            ) == Some(author->Ok_0.device_id@ + ":"@ + message_id)
                && store.state.chat.items_at("messages"@)->0[i].text_at3(
                "signed"@,
                "payload"@,
                "workspaceId"@,
            ) == Some(chat_scope_of(loaded(store.state.document)->Ok_0.json)->Ok_0),
{
    let messages = store.state.chat.items_at("messages"@)->0;
    let scope = chat_scope_of(loaded(store.state.document)->Ok_0.json)->Ok_0;
    let id = author->Ok_0.device_id@ + ":"@ + message_id;
    if one_says(messages, scope, "id"@, id) {
        let i = choose|i: int|
            0 <= i < messages.len() && says(scope, "id"@, id)(#[trigger] messages[i]);
        assert(messages[i].text_at3("signed"@, "payload"@, "id"@) == Some(id));
    }
    if exists|i: int|
        0 <= i < messages.len() && (#[trigger] messages[i]).text_at3("signed"@, "payload"@, "id"@)
            == Some(id) && messages[i].text_at3("signed"@, "payload"@, "workspaceId"@) == Some(
            scope,
        ) {
        let i = choose|i: int|
            0 <= i < messages.len() && (#[trigger] messages[i]).text_at3(
                "signed"@,
                "payload"@,
                "id"@,
            ) == Some(id) && messages[i].text_at3("signed"@, "payload"@, "workspaceId"@) == Some(
                scope,
            );
        assert(says(scope, "id"@, id)(messages[i]));
    }
}

/// Why a chat message may not be written, in the order in which it is found; and
/// that it may be where nothing of this holds: it has 1 to 8,000 characters apart
/// from white space and an id of at most 80 bytes, the authority over the workspace
/// was prepared, its author is verified and no visitor, and its peers are verified.
pub proof fn law_chat_message_is_written_by_members(
    store: StoreView,
    message_id: Seq<char>,
    body: Seq<char>,
    prepared: Result<Prepared, String>,
    author: Result<Member, String>,
    peers: Result<Vec<Json>, String>,
    created: Result<i128, String>,
    result: Result<ChatStep, String>,
)
    requires
        is_chat_answer(result, store, message_id, body, prepared, author, peers, created),
    ensures
        ({
            let authorization = store.state.authorization;
            if trimmed(body).len() == 0 || trimmed(body).len() > 8_000 || encode_utf8(
                message_id,
            ).len() > 80 {
                result matches Err(error) && error@
                    == "Chat message must contain 1–8,000 characters"@
            } else if authorization.get("authority"@) is None {
                result matches Err(error) && error@ == "Missing lighthouse authority"@
            } else if authorization.items_at("records"@) is None {
                result matches Err(error) && error@ == "Missing lighthouse write authorizations"@
            } else if prepared is Err {
                result matches Err(error) && error@ == prepared->Err_0@
            } else if prepared->Ok_0.snapshot.workspace_id@ != store.workspace_id {
                result matches Err(error) && error@
                    == "Lighthouse workspace does not match document"@
            } else if author is Err {
                result matches Err(error) && error@ == author->Err_0@
            } else if author->Ok_0.role == WorkspaceRole::Visitor {
                result matches Err(error) && error@ == "Lighthouse needs chat.write permission"@
            } else if peers is Err {
                result matches Err(error) && error@ == peers->Err_0@
            } else if loaded(store.state.document) is Err {
                result matches Err(error) && error@ == "Invalid Match document: "@ + loaded(
                    store.state.document,
                )->Err_0
            } else if chat_scope_of(loaded(store.state.document)->Ok_0.json) is Err {
                result matches Err(error) && error@ == chat_scope_of(
                    loaded(store.state.document)->Ok_0.json,
                )->Err_0
            } else if created is Err {
                result matches Err(error) && error@ == created->Err_0@
            } else if formatted_utc(
                created->Ok_0 * 1_000_000,
                "[year]-[month]-[day]T[hour]:[minute]:[second].[subsecond digits:3]Z"@,
            ) is Err {
                result is Err
            } else if store.state.chat.items_at("messages"@) is None {
                result matches Err(error) && error@ == "Invalid stored chat"@
            } else {
                result is Ok
            }
        }),
{
}

/// What becomes of a lead that has a place, in the order in which it is found: the clock
/// has to show the moment of creation, and records have to be able to write it; the
/// document has to have room; its entities have to be a map; and the clock has to show
/// the moment of ranking. Then the lead becomes a change, or there is no room for all of
/// it.
pub proof fn law_filed_lead_becomes_a_change(
    store: StoreView,
    draft: LeadDraft,
    prepared: Result<Prepared, String>,
    member: Result<Member, String>,
    peers: Result<Vec<Json>, String>,
    created: Result<i128, String>,
    ranked: Result<i128, String>,
    result: Result<LeadStep, String>,
    filing: Filing,
)
    requires
        is_lead_answer(result, store, draft, prepared, member, peers, created, ranked),
        permitted_lead(store, draft, prepared, member, peers) is Ok,
        loaded(store.state.document) is Ok,
        filing_of(loaded(store.state.document)->Ok_0.json, draft.id@) == Ok::<
            Option<Filing>,
            Seq<char>,
        >(Some(filing)),
    ensures
        ({
            let held = loaded(store.state.document)->Ok_0;
            if created is Err {
                result matches Err(error) && error@ == created->Err_0@
            } else if formatted_utc(
                created->Ok_0 * 1_000_000,
                "[year]-[month]-[day]T[hour]:[minute]:[second].[subsecond digits:3]Z"@,
            ) is Err {
                result matches Err(error) && error@ == formatted_utc(
                    created->Ok_0 * 1_000_000,
                    "[year]-[month]-[day]T[hour]:[minute]:[second].[subsecond digits:3]Z"@,
                )->Err_0
            } else if held.top >= 0xffff_ffff {
                result matches Err(error) && error@ == "Match document has no room for another lead"@
            } else if root_map(held, "entities"@) is None {
                result matches Err(error) && error@ == (match held.maps["_root"@]["entities"@] {
                    Field::Table(_) => "invalid op for object of type `table`"@,
                    Field::List(_) => "invalid op for object of type `list`"@,
                    Field::Text(_) => "invalid op for object of type `text`"@,
                    _ => "id was not an object id"@,
                })
            } else if ranked is Err {
                result matches Err(error) && error@ == ranked->Err_0@
            } else {
                match result {
                    Ok(step) => step matches LeadStep::Change(change) && change.item.column_id@
                        == filing.column_id && change.item.company_field@ == filing.company_field
                        && change.item.role_field@ == filing.role_field && change.item.url_field@
                        == filing.url_field,
                    Err(error) => {
                        &&& error@ == "Match document has no room for another lead"@
                        &&& held.top + 19 + draft.id@.len() + 2 * trimmed(draft.company@).len() + 2
                            * trimmed(draft.role@).len() + trimmed(draft.job_url@).len()
                            + draft.body@.len() + filing.column_id.len() + decimal(
                            ranked->Ok_0 as nat,
                        ).len() + 2 * formatted_utc(
                            created->Ok_0 * 1_000_000,
                            "[year]-[month]-[day]T[hour]:[minute]:[second].[subsecond digits:3]Z"@,
                        )->Ok_0.len() > 0xffff_ffff
                    },
                }
            }
        }),
{
    law_drafts_are_accepted_by_their_size(draft);
    reveal_strlit(" — ");
    reveal_strlit("/1");
    if result is Err && ranked is Ok && created is Ok {
        let held = loaded(store.state.document)->Ok_0;
        let lead = permitted_lead(store, draft, prepared, member, peers)->Ok_0;
        if lead_plan(store.state.document, draft.id@, created, ranked) is Ok {
            let item = choose|item: LeadItem|
                #[trigger] is_filed(
                    item,
                    lead,
                    filing,
                    created->Ok_0 as int,
                    ranked->Ok_0 as nat,
                ) && !has_room(held, lead_size(item));
            law_lead_takes_an_operation_for_each_character(held, item, lead_size(item));
        }
    }
}

/// A lead that was created is on the board as it was drafted: the document that comes of
/// it, where it loads, shows an entity under the draft's id with the company and the role
/// as its title, the body, not deleted, and the address under the field that the board
/// binds to it. What waited for the lead's change alone is left out: it would come in
/// with it.
pub proof fn law_created_lead_is_on_the_board(
    store: StoreView,
    draft: LeadDraft,
    prepared: Result<Prepared, String>,
    member: Result<Member, String>,
    peers: Result<Vec<Json>, String>,
    created: Result<i128, String>,
    ranked: Result<i128, String>,
    change: LeadChange,
)
    requires
        is_lead_answer(
            Ok(LeadStep::Change(change)),
            store,
            draft,
            prepared,
            member,
            peers,
            created,
            ranked,
        ),
        comes_alone(change, store.state.document),
        loaded(change.document@) is Ok,
    ensures
        loaded(change.document@)->Ok_0.json.at2("entities"@, draft.id@) matches Some(entity) && {
            &&& entity.text_at("id"@) == Some(draft.id@)
            &&& entity.text_at("title"@) == Some(
                trimmed(draft.company@) + " — "@ + trimmed(draft.role@),
            )
            &&& entity.text_at("body"@) == Some(draft.body@)
            &&& entity.get("deleted"@) == Some(JsonTree::Bool(false))
            &&& entity.text_at2("placement"@, "parentId"@) == Some(change.item.column_id@)
            &&& entity.text_at2("placement"@, "rank"@) == Some(
                decimal(ranked->Ok_0 as nat) + "/1"@,
            )
            &&& entity.text_at2("values"@, change.item.url_field@) == Some(trimmed(draft.job_url@))
        },
        loaded(change.document@)->Ok_0.hashes.to_set() == loaded(
            store.state.document,
        )->Ok_0.hashes.to_set().insert(change.hash@),
{
    law_created_lead_says_what_was_drafted(
        store,
        draft,
        prepared,
        member,
        peers,
        created,
        ranked,
        change,
    );
    law_drafts_are_accepted_by_their_size(draft);
    reveal_strlit("item-");
    reveal_strlit("entities");
    assert("item-"@[0] == 'i');
    assert("entities"@[0] == 'e');
    assert(draft.id@[0] == "item-"@[0]);
    let by = member->Ok_0;
    let before = loaded(store.state.document)->Ok_0;
    let note = json_text(commit_note(draft.id@, by.person_id@, by.device_id@));
    law_written_lead_reads_back(
        before,
        by.device_id@,
        change.item,
        note,
        change.document@,
        change.hash@,
        "id"@,
    );
    law_written_lead_leaves_the_rest(
        before,
        by.device_id@,
        change.item,
        note,
        change.document@,
        change.hash@,
        root_map(before, "entities"@)->0,
        draft.id@,
    );
}

/// A signed message is posted: where the chat has its three sections, fewer than 20,000
/// messages and fewer than 2,000 profiles, and the message and the profile that is due
/// have at most 8 MiB of JSON text as a batch, the state with the message comes back. A
/// chat that lacks a section is not valid.
pub proof fn law_signed_message_is_posted(
    state: StateView,
    draft: ChatDraft,
    author: Member,
    message: Json,
    profile: Result<Json, String>,
)
    requires
        draft.profile is Some ==> profile is Ok,
    ensures
        ({
            let result = posted_state(state, draft, author, Ok(message), profile);
            let messages = state.chat.items_at("messages"@);
            let profiles = state.chat.items_at("profiles"@);
            let size = encode_utf8(json_text(posted_batch(draft, author, message, profile))).len();
            &&& messages is None || profiles is None || state.chat.items_at("typing"@) is None
                ==> result == Err::<StateView, Seq<char>>("Invalid stored chat"@)
            &&& messages is Some && profiles is Some && state.chat.items_at("typing"@) is Some
                && size > 8_388_608 ==> result == Err::<StateView, Seq<char>>(
                "Invalid chat batch"@,
            )
            &&& messages is Some && profiles is Some && state.chat.items_at("typing"@) is Some
                && size <= 8_388_608 && messages->0.len() < 20_000 && profiles->0.len() < 2_000
                ==> result is Ok
        }),
{
    let scope = draft.scope@;
    let batch = posted_batch(draft, author, message, profile);
    let due = if draft.profile is Some {
        seq![chat_record(profile->Ok_0@, author)]
    } else {
        Seq::empty()
    };
    law_scoped_chat_is_the_workspaces(state.chat, scope, "messages"@, 0, 0);
    law_fresh_chat_is_read_back(seq![chat_record(message@, author)], due);
    assert(digit(1) == '1');
    assert(decimal(1) =~= seq!['1']);
    if state.chat.items_at("messages"@) is Some && state.chat.items_at("profiles"@) is Some
        && state.chat.items_at("typing"@) is Some {
        law_scoped_chat(state.chat, scope, "messages"@);
        law_scoped_chat(state.chat, scope, "profiles"@);
        let scoped = scoped_chat(state.chat, scope)->Ok_0;
        let messages = state.chat.items_at("messages"@)->0;
        let profiles = state.chat.items_at("profiles"@)->0;
        let kept = messages.filter(in_scope(scope));
        let known = profiles.filter(in_scope(scope));
        messages.lemma_filter_len(in_scope(scope));
        profiles.lemma_filter_len(in_scope(scope));
        law_batches_are_merged_by_their_size(scoped, batch);
        law_no_more_is_kept_than_there_is(kept, chat_record(message@, author), signature());
        law_no_more_is_kept_than_there_is(
            known,
            chat_record(profile->Ok_0@, author),
            signature(),
        );
        assert(known + Seq::<JsonTree>::empty() =~= known);
    }
}

} // verus!
