//! Leads: cards for the job-search board of a workspace.

use vstd::prelude::*;
use vstd::utf8::encode_utf8;

use crate::clock::{max_millis, timestamp, utc_text_of};
use crate::document::{
    begin_lead, contents, has_room, is_settled, law_written_document_is_readable,
    law_written_lead_is_found, lead_committed, lead_size, lemma_root_shows, loaded, no_room, open_document, refusal,
    root, root_map, shows_lead, view_of, write_lead, Document, LeadItem,
};
use crate::json::{
    copy_items, count, empty_object, first_member, json_text, lemma_first_member_at,
    lemma_first_member_skip, lemma_first_member_stands, member, trees, written_member, Json, JsonTree, Members,
};
use crate::state::{ChangeAuthorization, Member};
use crate::text::{
    byte_len, decimal, decimal_text, joined, same, shown, starts_with, texts, trim, trimmed,
};

verus! {

/// A lead as it is proposed.
pub struct LeadDraft<'a> {
    pub id: &'a str,
    pub company: &'a str,
    pub role: &'a str,
    pub job_url: &'a str,
    pub body: &'a str,
}

/// A lead whose parts are there and fit.
pub struct Lead {
    pub id: String,
    pub company: String,
    pub role: String,
    pub job_url: String,
    pub body: String,
}

/// What an accepted lead is.
#[verifier::ext_equal]
pub struct LeadView {
    pub id: Seq<char>,
    pub company: Seq<char>,
    pub role: Seq<char>,
    pub job_url: Seq<char>,
    pub body: Seq<char>,
}

impl View for Lead {
    type V = LeadView;

    open spec fn view(&self) -> LeadView {
        LeadView {
            id: self.id@,
            company: self.company@,
            role: self.role@,
            job_url: self.job_url@,
            body: self.body@,
        }
    }
}

/// Whether a text is there and has at most `limit` bytes.
pub open spec fn fits(text: Seq<char>, limit: nat) -> bool {
    text.len() > 0 && encode_utf8(text).len() <= limit
}

/// Whether a draft names company, role and job URL, apart from white space, each
/// within its limit, with a body and an id that fit.
pub open spec fn is_complete(draft: LeadDraft) -> bool {
    &&& fits(trimmed(draft.company@), 256)
    &&& fits(trimmed(draft.role@), 256)
    &&& fits(trimmed(draft.job_url@), 2_048)
    &&& encode_utf8(draft.body@).len() <= 8_500
    &&& "item-"@.is_prefix_of(draft.id@)
    &&& encode_utf8(draft.id@).len() <= 80
}

/// The lead that comes of a draft: complete, without the white space around its
/// parts.
pub open spec fn accepted(draft: LeadDraft) -> Result<LeadView, Seq<char>> {
    if is_complete(draft) {
        Ok(
            LeadView {
                id: draft.id@,
                company: trimmed(draft.company@),
                role: trimmed(draft.role@),
                job_url: trimmed(draft.job_url@),
                body: draft.body@,
            },
        )
    } else {
        Err("Lead needs company, role, and job URL"@)
    }
}

fn text_fits(text: &str, limit: usize) -> (result: bool)
    ensures
        result == fits(text@, limit as nat),
{
    !text.is_empty() && byte_len(text) <= limit
}

/// Accepts a complete draft, without the white space around its parts.
pub fn accept_lead(draft: &LeadDraft) -> (result: Result<Lead, String>)
    ensures
        shown(result) == accepted(*draft),
{
    let company = trim(draft.company);
    let role = trim(draft.role);
    let job_url = trim(draft.job_url);
    if text_fits(company, 256) && text_fits(role, 256) && text_fits(job_url, 2_048) && byte_len(
        draft.body,
    ) <= 8_500 && starts_with(draft.id, "item-") && byte_len(draft.id) <= 80 {
        Ok(
            Lead {
                id: draft.id.to_owned(),
                company: company.to_owned(),
                role: role.to_owned(),
                job_url: job_url.to_owned(),
                body: draft.body.to_owned(),
            },
        )
    } else {
        Err("Lead needs company, role, and job URL".to_owned())
    }
}

/// Where a lead is filed: its column, and the fields of its values.
pub struct LeadTarget {
    pub column_id: String,
    pub company_field: String,
    pub role_field: String,
    pub url_field: String,
}

/// What a lead's filing is.
#[verifier::ext_equal]
pub struct Filing {
    pub column_id: Seq<char>,
    pub company_field: Seq<char>,
    pub role_field: Seq<char>,
    pub url_field: Seq<char>,
}

impl View for LeadTarget {
    type V = Filing;

    open spec fn view(&self) -> Filing {
        Filing {
            column_id: self.column_id@,
            company_field: self.company_field@,
            role_field: self.role_field@,
            url_field: self.url_field@,
        }
    }
}

/// Whether an entity is a board for the search of a job.
pub open spec fn is_job_board() -> spec_fn(JsonTree) -> bool {
    |entity: JsonTree|
        entity.text_at("kind"@) == Some("board"@) && entity.text_at2("preset"@, "key"@) == Some(
            "job-search"@,
        )
}

/// The string that a board binds to `key`.
pub open spec fn bound(bindings: Seq<(Seq<char>, JsonTree)>, key: Seq<char>) -> Option<Seq<char>> {
    match member(bindings, key) {
        Some(JsonTree::Text(text)) => Some(text),
        _ => None,
    }
}

/// The filing that a board's bindings give.
pub open spec fn bound_filing(bindings: Seq<(Seq<char>, JsonTree)>) -> Option<Filing> {
    match (
        bound(bindings, "status.lead"@),
        bound(bindings, "field.company"@),
        bound(bindings, "field.role"@),
        bound(bindings, "field.url"@),
    ) {
        (Some(column_id), Some(company_field), Some(role_field), Some(url_field)) => Some(
            Filing { column_id, company_field, role_field, url_field },
        ),
        _ => None,
    }
}

/// Where a workspace that shows `view` files the lead `id`: nowhere, where it has
/// an entity with that id already; else by the bindings of its first job-search
/// board, in a column of its own.
pub open spec fn filing_of(view: JsonTree, id: Seq<char>) -> Result<Option<Filing>, Seq<char>> {
    match view.members_at("entities"@) {
        None => Err("Invalid Match entities"@),
        Some(entities) => if member(entities, id) is Some {
            Ok(None)
        } else {
            match first_member(entities, is_job_board()) {
                None => Err("No job-search board in workspace"@),
                Some((_, board)) => match board.at2("preset"@, "bindings"@) {
                    Some(JsonTree::Object(bindings)) => match bound_filing(bindings) {
                        None => Err("Missing job-search binding"@),
                        Some(filing) => match member(entities, filing.column_id) {
                            Some(column) => if column.text_at("kind"@) == Some("column"@) {
                                Ok(Some(filing))
                            } else {
                                Err("Lead column is missing"@)
                            },
                            None => Err("Lead column is missing"@),
                        },
                    },
                    _ => Err("Missing job-search bindings"@),
                },
            }
        },
    }
}

fn job_board<'a>(entities: &'a Members) -> (result: Option<&'a Json>)
    ensures
        match result {
            Some(board) => first_member(entities@, is_job_board()) matches Some(found) && found.1
                == board@,
            None => first_member(entities@, is_job_board()) is None,
        },
{
    let mut index: usize = 0;
    while index < entities.len()
        invariant
            index <= entities@.len(),
            forall|i: int| 0 <= i < index ==> !is_job_board()(#[trigger] entities@[i].1),
        decreases entities@.len() - index,
    {
        let entity = entities.value(index);
        let board = match entity.text_at("kind") {
            Some(kind) => same(kind, "board"),
            None => false,
        };
        let for_jobs = match entity.text_at2("preset", "key") {
            Some(key) => same(key, "job-search"),
            None => false,
        };
        if board && for_jobs {
            proof {
                lemma_first_member_skip(entities@, is_job_board(), index as int);
                assert(entities@.skip(index as int)[0] == entities@[index as int]);
            }
            return Some(entity);
        }
        index = index + 1;
    }
    proof {
        lemma_first_member_skip(entities@, is_job_board(), index as int);
    }
    None
}

fn binding<'a>(bindings: &'a Members, key: &str) -> (result: Option<&'a str>)
    ensures
        match result {
            Some(text) => bound(bindings@, key@) == Some(text@),
            None => bound(bindings@, key@) is None,
        },
{
    match bindings.get(key) {
        Some(value) => value.as_str(),
        None => None,
    }
}

/// Finds where a workspace that shows `view` files the lead `id`; nowhere, where
/// it has an entity with that id already.
pub fn find_filing(view: &Json, id: &str) -> (result: Result<Option<LeadTarget>, String>)
    ensures
        match result {
            Ok(Some(target)) => filing_of(view@, id@) == Ok::<Option<Filing>, Seq<char>>(
                Some(target@),
            ),
            Ok(None) => filing_of(view@, id@) == Ok::<Option<Filing>, Seq<char>>(None),
            Err(error) => filing_of(view@, id@) == Err::<Option<Filing>, Seq<char>>(error@),
        },
{
    let entities = match view.members_at("entities") {
        Some(entities) => entities,
        None => return Err("Invalid Match entities".to_owned()),
    };
    if entities.contains_key(id) {
        return Ok(None);
    }
    let board = match job_board(entities) {
        Some(board) => board,
        None => return Err("No job-search board in workspace".to_owned()),
    };
    let bindings = match board.at2("preset", "bindings") {
        Some(value) => match value.as_object() {
            Some(bindings) => bindings,
            None => return Err("Missing job-search bindings".to_owned()),
        },
        None => return Err("Missing job-search bindings".to_owned()),
    };
    let target = match (
        binding(bindings, "status.lead"),
        binding(bindings, "field.company"),
        binding(bindings, "field.role"),
        binding(bindings, "field.url"),
    ) {
        (Some(column_id), Some(company_field), Some(role_field), Some(url_field)) => LeadTarget {
            column_id: column_id.to_owned(),
            company_field: company_field.to_owned(),
            role_field: role_field.to_owned(),
            url_field: url_field.to_owned(),
        },
        _ => return Err("Missing job-search binding".to_owned()),
    };
    let is_column = match entities.get(target.column_id.as_str()) {
        Some(column) => match column.text_at("kind") {
            Some(kind) => same(kind, "column"),
            None => false,
        },
        None => false,
    };
    if is_column {
        Ok(Some(target))
    } else {
        Err("Lead column is missing".to_owned())
    }
}

/// What the commit of a new lead says.
pub open spec fn commit_note(id: Seq<char>, person_id: Seq<char>, device_id: Seq<char>) -> JsonTree {
    empty_object().with("version"@, count(1)).with("transactionId"@, JsonTree::Text(id)).with(
        "action"@,
        JsonTree::Text("createItem"@),
    ).with("entityIds"@, JsonTree::Array(seq![JsonTree::Text(id)])).with(
        "personId"@,
        JsonTree::Text(person_id),
    ).with("deviceId"@, JsonTree::Text(device_id))
}

fn commit_text(id: &str, person_id: &str, device_id: &str) -> (result: String)
    ensures
        result@ == json_text(commit_note(id@, person_id@, device_id@)),
{
    let mut ids: Vec<Json> = Vec::new();
    ids.push(Json::text(id));
    assert(trees(ids@) =~= seq![JsonTree::Text(id@)]);
    Json::empty().with("version", Json::count(1)).with("transactionId", Json::text(id)).with(
        "action",
        Json::text("createItem"),
    ).with("entityIds", Json::array(ids)).with("personId", Json::text(person_id)).with(
        "deviceId",
        Json::text(device_id),
    ).to_text()
}

/// A change that adds a lead to the document: what was written, the document
/// with it, the hash of the change, and what its authorization has to say.
pub struct LeadChange {
    pub item: LeadItem,
    pub document: Document,
    pub hash: String,
    pub authorization: ChangeAuthorization,
}

/// What becomes of a lead: it is there already, or a change adds it.
pub enum LeadStep {
    Present(String),
    Change(LeadChange),
}

/// Whether `item` is `lead`, filed at `filing`, created at the moment `created`
/// and ranked by the moment `ranked`.
pub open spec fn is_filed(
    item: LeadItem,
    lead: LeadView,
    filing: Filing,
    created: int,
    ranked: nat,
) -> bool {
    utc_text_of(created * 1_000_000) matches Ok(created_at) && is_item(
        item,
        lead,
        filing,
        created_at,
        ranked,
    )
}

/// Whether `item` is `lead`, filed at `filing`, with these marks of when it was
/// created and ranked.
pub open spec fn is_item(
    item: LeadItem,
    lead: LeadView,
    filing: Filing,
    created_at: Seq<char>,
    ranked: nat,
) -> bool {
    &&& item.id@ == lead.id
    &&& item.title@ == lead.company + " — "@ + lead.role
    &&& item.body@ == lead.body
    &&& item.created_at@ == created_at
    &&& item.column_id@ == filing.column_id
    &&& item.rank@ == decimal(ranked) + "/1"@
    &&& item.company_field@ == filing.company_field
    &&& item.company@ == lead.company
    &&& item.role_field@ == filing.role_field
    &&& item.role@ == lead.role
    &&& item.url_field@ == filing.url_field
    &&& item.job_url@ == lead.job_url
}

/// Whether `authorization` is for the change `hash` in `workspace_id` alone, by
/// the person and the device.
pub open spec fn authorizes(
    authorization: ChangeAuthorization,
    workspace_id: Seq<char>,
    hash: Seq<char>,
    person_id: Seq<char>,
    device_id: Seq<char>,
) -> bool {
    &&& authorization.kind@ == "workspace-changes"@
    &&& authorization.version == 1
    &&& authorization.workspace_id@ == workspace_id
    &&& texts(authorization.hashes@) == seq![hash]
    &&& authorization.person_id@ == person_id
    &&& authorization.device_id@ == device_id
}

/// The failure that a lead meets before it is written, or where it is filed: the
/// document has to be readable, with a place for the lead, the clock has to give the
/// moment of creation, Automerge has to take the lead among the entities, and the
/// clock to give the moment of ranking.
pub open spec fn lead_plan(
    document: Seq<u8>,
    id: Seq<char>,
    created: Result<i128, String>,
    ranked: Result<i128, String>,
) -> Result<Option<Filing>, Seq<char>> {
    match view_of(document) {
        Err(error) => Err(error),
        Ok(view) => match filing_of(view, id) {
            Err(error) => Err(error),
            Ok(None) => Ok(None),
            Ok(Some(filing)) => match created {
                Err(error) => Err(error@),
                Ok(moment) => match utc_text_of(moment * 1_000_000) {
                    Err(error) => Err(error),
                    Ok(_) => if !has_room(loaded(document)->Ok_0, 1) {
                        Err(no_room())
                    } else if root_map(loaded(document)->Ok_0, "entities"@) is None {
                        Err(refusal(loaded(document)->Ok_0.maps[root()]["entities"@]))
                    } else {
                        match ranked {
                            Err(error) => Err(error@),
                            Ok(_) => Ok(Some(filing)),
                        }
                    },
                },
            },
        },
    }
}

/// Whether `result` is what becomes of `lead` in the document: the failure that it
/// meets on the way, or that there is no room for it, or else what the document
/// allows for it.
pub open spec fn is_drafted(
    result: Result<LeadStep, String>,
    document: Seq<u8>,
    workspace_id: Seq<char>,
    lead: LeadView,
    member: Member,
    created: Result<i128, String>,
    ranked: Result<i128, String>,
) -> bool {
    match lead_plan(document, lead.id, created, ranked) {
        Err(error) => result matches Err(told) && told@ == error,
        Ok(filing) => match result {
            Ok(step) => is_lead_step(
                step,
                document,
                workspace_id,
                lead,
                member,
                created->Ok_0 as int,
                ranked->Ok_0 as nat,
                filing,
            ),
            Err(error) => {
                &&& filing is Some
                &&& error@ == no_room()
                &&& exists|item: LeadItem|
                    #[trigger] is_filed(
                        item,
                        lead,
                        filing->0,
                        created->Ok_0 as int,
                        ranked->Ok_0 as nat,
                    ) && !has_room(loaded(document)->Ok_0, lead_size(item))
            },
        },
    }
}

/// Whether `step` is what the document allows for `lead`: nothing to do where an
/// entity has its id, else a change that adds it, committed and to be authorized
/// by the member.
pub open spec fn is_lead_step(
    step: LeadStep,
    document: Seq<u8>,
    workspace_id: Seq<char>,
    lead: LeadView,
    member: Member,
    created: int,
    ranked: nat,
    filing: Option<Filing>,
) -> bool {
    match (step, filing) {
        (LeadStep::Present(id), None) => id@ == lead.id,
        (LeadStep::Change(change), Some(filing)) => {
            &&& is_filed(change.item, lead, filing, created, ranked)
            &&& has_room(loaded(document)->Ok_0, lead_size(change.item))
            &&& root_map(loaded(document)->Ok_0, "entities"@) is Some
            &&& lead_committed(
                loaded(document)->Ok_0,
                root_map(loaded(document)->Ok_0, "entities"@)->0,
                member.device_id@,
                change.item,
                json_text(commit_note(lead.id, member.person_id@, member.device_id@)),
                change.document@,
                change.hash@,
            )
            &&& authorizes(
                change.authorization,
                workspace_id,
                change.hash@,
                member.person_id@,
                member.device_id@,
            )
        },
        _ => false,
    }
}

/// The lead as it is written, filed at `target`, with these marks of when it was
/// created and ranked.
pub fn file_lead(lead: &Lead, target: &LeadTarget, created_at: &str, ranked: u128) -> (item: LeadItem)
    ensures
        is_item(item, lead@, target@, created_at@, ranked as nat),
{
    LeadItem {
        id: lead.id.clone(),
        title: joined(joined(lead.company.as_str(), " — ").as_str(), lead.role.as_str()),
        body: lead.body.clone(),
        created_at: created_at.to_owned(),
        column_id: target.column_id.clone(),
        rank: joined(decimal_text(ranked).as_str(), "/1"),
        company_field: target.company_field.clone(),
        company: lead.company.clone(),
        role_field: target.role_field.clone(),
        role: lead.role.clone(),
        url_field: target.url_field.clone(),
        job_url: lead.job_url.clone(),
    }
}

/// What the authorization of the change `hash` by the member has to say.
pub fn authorize_change(workspace_id: &str, hash: &str, member: &Member) -> (result:
    ChangeAuthorization)
    ensures
        authorizes(result, workspace_id@, hash@, member.person_id@, member.device_id@),
{
    let mut hashes: Vec<String> = Vec::new();
    hashes.push(hash.to_owned());
    assert(texts(hashes@) =~= seq![hash@]);
    ChangeAuthorization {
        kind: "workspace-changes".to_owned(),
        version: 1,
        workspace_id: workspace_id.to_owned(),
        hashes,
        person_id: member.person_id.clone(),
        device_id: member.device_id.clone(),
    }
}

/// Adds `lead` to the document, unless an entity has its id already. A document
/// whose entities are no map to Automerge refuses it, with Automerge's message; one
/// that has no room for the lead's operations refuses it too.
pub fn draft_lead(
    document: &Document,
    workspace_id: &str,
    lead: &Lead,
    member: &Member,
    created: Result<i128, String>,
    ranked: Result<i128, String>,
) -> (result: Result<LeadStep, String>)
    requires
        created matches Ok(moment) ==> 0 <= moment <= max_millis(),
        ranked matches Ok(moment) ==> 0 <= moment <= max_millis(),
    ensures
        is_drafted(result, document@, workspace_id@, lead@, *member, created, ranked),
{
    let (opened, view) = match open_document(document) {
        Ok(opened) => opened,
        Err(error) => return Err(error),
    };
    let target = match find_filing(&view, lead.id.as_str()) {
        Ok(Some(target)) => target,
        Ok(None) => return Ok(LeadStep::Present(lead.id.clone())),
        Err(error) => return Err(error),
    };
    let moment = match created {
        Ok(moment) => moment,
        Err(error) => return Err(error),
    };
    let created_at = match timestamp(moment) {
        Ok(text) => text,
        Err(error) => return Err(error),
    };
    let ghost before = contents(opened);
    proof {
        assert(view@.get("entities"@) is Some);
        lemma_root_shows(before, "entities"@, lead.id@);
    }
    let start = match begin_lead(opened, member.device_id.as_str(), lead.id.as_str()) {
        Ok(start) => start,
        Err(error) => return Err(error),
    };
    let ranked_by = match ranked {
        Ok(moment) => moment,
        Err(error) => return Err(error),
    };
    let item = file_lead(lead, &target, created_at.as_str(), ranked_by as u128);
    let message = commit_text(
        lead.id.as_str(),
        member.person_id.as_str(),
        member.device_id.as_str(),
    );
    assert(is_filed(item, lead@, target@, moment as int, ranked_by as nat));
    let (bytes, hash) = match write_lead(
        start,
        &item,
        message.as_str(),
        Ghost(before),
        Ghost(member.device_id@),
    ) {
        Ok(written) => written,
        Err(error) => return Err(error),
    };
    proof {
        law_written_document_is_readable(
            before,
            root_map(before, "entities"@)->0,
            member.device_id@,
            item,
            message@,
            bytes@,
            hash@,
        );
    }
    let document = Document::new(bytes.as_slice());
    let authorization = authorize_change(workspace_id, hash.as_str(), member);
    Ok(LeadStep::Change(LeadChange { item, document, hash, authorization }))
}

/// The same lead again is no change: once a lead was written, the document it
/// was written to, where it loads, shows it as an entity under its id, and files no
/// second one, whatever else a second draft says. It has one change more than
/// before, the one that is to be authorized. What waited for that change alone is
/// left out: it would come in with it.
pub proof fn law_lead_is_written_once(
    change: LeadChange,
    document: Seq<u8>,
    workspace_id: Seq<char>,
    lead: LeadView,
    member: Member,
    created: int,
    ranked: nat,
    filing: Filing,
)
    requires
        is_lead_step(
            LeadStep::Change(change),
            document,
            workspace_id,
            lead,
            member,
            created,
            ranked,
            Some(filing),
        ),
        "item-"@.is_prefix_of(lead.id),
        comes_alone(change, document),
        loaded(change.document@) is Ok,
    ensures
        view_of(change.document@) matches Ok(tree) && filing_of(tree, lead.id) == Ok::<
            Option<Filing>,
            Seq<char>,
        >(None) && (tree.at2("entities"@, lead.id) matches Some(entity) && shows_lead(
            entity,
            change.item,
        )),
        loaded(change.document@)->Ok_0.hashes.to_set() == loaded(
            document,
        )->Ok_0.hashes.to_set().insert(change.hash@),
        texts(change.authorization.hashes@) == seq![change.hash@],
{
    reveal_strlit("item-");
    reveal_strlit("entities");
    assert("item-"@[0] == 'i');
    assert("entities"@[0] == 'e');
    assert(lead.id[0] == "item-"@[0]);
    law_written_lead_is_found(
        loaded(document)->Ok_0,
        member.device_id@,
        change.item,
        json_text(commit_note(lead.id, member.person_id@, member.device_id@)),
        change.document@,
        change.hash@,
        lead.id,
        "id"@,
    );
}

/// Whether no change that waits in `document` comes in with `change`.
pub open spec fn comes_alone(change: LeadChange, document: Seq<u8>) -> bool {
    is_settled(
        loaded(document)->Ok_0.waiting,
        loaded(document)->Ok_0.hashes.to_set().insert(change.hash@),
    )
}

/// The write authorization of a change, as it is filed with its signature.
pub open spec fn authorization_record(signed: JsonTree, member: Member) -> JsonTree {
    empty_object().with("signed"@, signed).with("publicKey"@, member.public_key@).with(
        "certificates"@,
        member.certificates@,
    ).with("grant"@, member.grant@).with("ownerPublicKey"@, member.owner_public_key@).with(
        "ownerCertificates"@,
        member.owner_certificates@,
    )
}

/// The workspace's authorization with one more record.
pub open spec fn with_record(authorization: JsonTree, record: JsonTree) -> Result<
    JsonTree,
    Seq<char>,
> {
    match authorization.items_at("records"@) {
        None => Err("Missing Match write authorizations"@),
        Some(records) => Ok(
            authorization.with("records"@, JsonTree::Array(records.push(record))),
        ),
    }
}

/// Files a signed authorization by the member with the workspace's authorization.
pub fn add_authorization(authorization: Json, signed: Json, member: &Member) -> (result: Result<
    Json,
    String,
>)
    ensures
        shown(result) == with_record(authorization@, authorization_record(signed@, *member)),
{
    let mut records = match authorization.items_at("records") {
        Some(records) => copy_items(records),
        None => return Err("Missing Match write authorizations".to_owned()),
    };
    let record = Json::empty().with("signed", signed).with("publicKey", member.public_key.clone()).with(
        "certificates",
        member.certificates.clone(),
    ).with("grant", member.grant.clone()).with("ownerPublicKey", member.owner_public_key.clone()).with(
        "ownerCertificates",
        member.owner_certificates.clone(),
    );
    let ghost before = trees(records@);
    records.push(record);
    assert(trees(records@) =~= before.push(record@));
    Ok(authorization.with("records", Json::array(records)))
}

/// A lead is filed on a job-search board and nowhere else: the first entity whose
/// kind is "board" and whose preset key is "job-search" binds the column and the
/// fields that the lead has, and that column is an entity of the kind "column".
pub proof fn law_lead_is_filed_by_the_job_board(view: JsonTree, id: Seq<char>, filing: Filing)
    requires
        filing_of(view, id) == Ok::<Option<Filing>, Seq<char>>(Some(filing)),
    ensures
        view.members_at("entities"@) matches Some(entities) && member(entities, id) is None && (
        member(entities, filing.column_id) matches Some(column) && column.text_at("kind"@) == Some(
            "column"@,
        )) && exists|i: int|
            {
                &&& 0 <= i < entities.len()
                &&& (#[trigger] entities[i]).1.text_at("kind"@) == Some("board"@)
                &&& entities[i].1.text_at2("preset"@, "key"@) == Some("job-search"@)
                &&& entities[i].1.text_at3("preset"@, "bindings"@, "status.lead"@) == Some(
                    filing.column_id,
                )
                &&& entities[i].1.text_at3("preset"@, "bindings"@, "field.company"@) == Some(
                    filing.company_field,
                )
                &&& entities[i].1.text_at3("preset"@, "bindings"@, "field.role"@) == Some(
                    filing.role_field,
                )
                &&& entities[i].1.text_at3("preset"@, "bindings"@, "field.url"@) == Some(
                    filing.url_field,
                )
                &&& forall|j: int|
                    0 <= j < i ==> (#[trigger] entities[j]).1.text_at("kind"@) != Some("board"@)
                        || entities[j].1.text_at2("preset"@, "key"@) != Some("job-search"@)
            },
{
    let entities = view.members_at("entities"@)->0;
    lemma_first_member_stands(entities, is_job_board());
    let found = first_member(entities, is_job_board())->0;
    let i = choose|i: int|
        {
            &&& 0 <= i < entities.len()
            &&& #[trigger] entities[i] == found
            &&& is_job_board()(entities[i].1)
            &&& forall|j: int| 0 <= j < i ==> !is_job_board()(#[trigger] entities[j].1)
        };
    assert forall|j: int| 0 <= j < i implies (#[trigger] entities[j]).1.text_at("kind"@) != Some(
        "board"@,
    ) || entities[j].1.text_at2("preset"@, "key"@) != Some("job-search"@) by {
        assert(!is_job_board()(entities[j].1));
    }
}

/// A workspace files a lead wherever it can: where the id is new, and the first
/// job-search board, at `k`, binds a column of the workspace and three fields, the
/// lead goes there. Where there is no such board, or it lacks a binding, or the
/// column is none, the lead is refused, and told why.
pub proof fn law_leads_without_a_place_are_refused(view: JsonTree, id: Seq<char>, k: int)
    ensures
        view.members_at("entities"@) is None ==> filing_of(view, id) == Err::<
            Option<Filing>,
            Seq<char>,
        >("Invalid Match entities"@),
        view.members_at("entities"@) matches Some(entities) ==> {
            &&& member(entities, id) is Some ==> filing_of(view, id) == Ok::<
                Option<Filing>,
                Seq<char>,
            >(None)
            &&& member(entities, id) is None && (forall|i: int|
                0 <= i < entities.len() ==> (#[trigger] entities[i]).1.text_at2(
                    "preset"@,
                    "key"@,
                ) != Some("job-search"@) || entities[i].1.text_at("kind"@) != Some("board"@))
                ==> filing_of(view, id) == Err::<Option<Filing>, Seq<char>>(
                "No job-search board in workspace"@,
            )
            &&& member(entities, id) is None && 0 <= k < entities.len() && entities[k].1.text_at(
                "kind"@,
            ) == Some("board"@) && entities[k].1.text_at2("preset"@, "key"@) == Some(
                "job-search"@,
            ) && (forall|j: int|
                0 <= j < k ==> (#[trigger] entities[j]).1.text_at2("preset"@, "key"@) != Some(
                    "job-search"@,
                ) || entities[j].1.text_at("kind"@) != Some("board"@)) ==> {
                let board = entities[k].1;
                let column = board.text_at3("preset"@, "bindings"@, "status.lead"@);
                let company = board.text_at3("preset"@, "bindings"@, "field.company"@);
                let role = board.text_at3("preset"@, "bindings"@, "field.role"@);
                let url = board.text_at3("preset"@, "bindings"@, "field.url"@);
                &&& !(board.at2("preset"@, "bindings"@) matches Some(bindings) && bindings is Object)
                    ==> filing_of(view, id) == Err::<Option<Filing>, Seq<char>>(
                    "Missing job-search bindings"@,
                )
                &&& (board.at2("preset"@, "bindings"@) matches Some(bindings) && bindings is Object)
                    && (column is None || company is None || role is None || url is None)
                    ==> filing_of(view, id) == Err::<Option<Filing>, Seq<char>>(
                    "Missing job-search binding"@,
                )
                &&& column is Some && company is Some && role is Some && url is Some ==> filing_of(
                    view,
                    id,
                ) == if member(entities, column->0) is Some && member(
                    entities,
                    column->0,
                )->0.text_at("kind"@) == Some("column"@) {
                    Ok::<Option<Filing>, Seq<char>>(
                        Some(
                            Filing {
                                column_id: column->0,
                                company_field: company->0,
                                role_field: role->0,
                                url_field: url->0,
                            },
                        ),
                    )
                } else {
                    Err("Lead column is missing"@)
                }
            }
        },
{
    if view.members_at("entities"@) is Some {
        let entities = view.members_at("entities"@)->0;
        if forall|i: int|
            0 <= i < entities.len() ==> (#[trigger] entities[i]).1.text_at2("preset"@, "key"@)
                != Some("job-search"@) || entities[i].1.text_at("kind"@) != Some("board"@) {
            lemma_first_member_stands(entities, is_job_board());
        }
        if 0 <= k < entities.len() && is_job_board()(entities[k].1) && (forall|j: int|
            0 <= j < k ==> (#[trigger] entities[j]).1.text_at2("preset"@, "key"@) != Some(
                "job-search"@,
            ) || entities[j].1.text_at("kind"@) != Some("board"@)) {
            assert forall|j: int| 0 <= j < k implies !is_job_board()(
                #[trigger] entities[j].1,
            ) by {
                assert(entities[j].1.text_at2("preset"@, "key"@) != Some("job-search"@)
                    || entities[j].1.text_at("kind"@) != Some("board"@));
            }
            lemma_first_member_at(entities, is_job_board(), k);
        }
    }
}

proof fn lemma_note_names()
    ensures
        "version"@.len() == 7,
        "transactionId"@.len() == 13,
        "action"@.len() == 6,
        "entityIds"@.len() == 9,
        "personId"@.len() == 8,
        "deviceId"@.len() == 8,
        "personId"@[0] == 'p',
        "deviceId"@[0] == 'd',
{
    reveal_strlit("version");
    reveal_strlit("transactionId");
    reveal_strlit("action");
    reveal_strlit("entityIds");
    reveal_strlit("personId");
    reveal_strlit("deviceId");
}

proof fn lemma_grounds_names()
    ensures
        "signed"@.len() == 6,
        "publicKey"@.len() == 9,
        "certificates"@.len() == 12,
        "grant"@.len() == 5,
        "ownerPublicKey"@.len() == 14,
        "ownerCertificates"@.len() == 17,
        "records"@.len() == 7,
{
    reveal_strlit("signed");
    reveal_strlit("publicKey");
    reveal_strlit("certificates");
    reveal_strlit("grant");
    reveal_strlit("ownerPublicKey");
    reveal_strlit("ownerCertificates");
    reveal_strlit("records");
}

/// A draft is accepted exactly where its company and its role, apart from white
/// space, have 1 to 256 bytes each, its job URL 1 to 2,048, its body at most 8,500,
/// and its id begins with "item-" and has at most 80. The lead then has the draft's
/// id and body as they are, and the rest without the white space.
pub proof fn law_drafts_are_accepted_by_their_size(draft: LeadDraft)
    ensures
        accepted(draft) is Ok <==> {
            &&& trimmed(draft.company@).len() > 0
            &&& encode_utf8(trimmed(draft.company@)).len() <= 256
            &&& trimmed(draft.role@).len() > 0
            &&& encode_utf8(trimmed(draft.role@)).len() <= 256
            &&& trimmed(draft.job_url@).len() > 0
            &&& encode_utf8(trimmed(draft.job_url@)).len() <= 2_048
            &&& encode_utf8(draft.body@).len() <= 8_500
            &&& "item-"@.is_prefix_of(draft.id@)
            &&& encode_utf8(draft.id@).len() <= 80
        },
        accepted(draft) matches Ok(lead) ==> {
            &&& lead.id == draft.id@
            &&& lead.company == trimmed(draft.company@)
            &&& lead.role == trimmed(draft.role@)
            &&& lead.job_url == trimmed(draft.job_url@)
            &&& lead.body == draft.body@
        },
        accepted(draft) matches Err(error) ==> error == "Lead needs company, role, and job URL"@,
{
}

/// What the change of a new lead says of itself: that the person, on the device,
/// created the item of that id, in version 1 of the notes, and nothing else.
pub proof fn law_commit_note_is_read_back(
    id: Seq<char>,
    person_id: Seq<char>,
    device_id: Seq<char>,
    key: Seq<char>,
)
    ensures
        commit_note(id, person_id, device_id).get(key) == if key == "version"@ {
            Some(JsonTree::Number(seq!['1']))
        } else if key == "transactionId"@ {
            Some(JsonTree::Text(id))
        } else if key == "action"@ {
            Some(JsonTree::Text("createItem"@))
        } else if key == "entityIds"@ {
            Some(JsonTree::Array(seq![JsonTree::Text(id)]))
        } else if key == "personId"@ {
            Some(JsonTree::Text(person_id))
        } else if key == "deviceId"@ {
            Some(JsonTree::Text(device_id))
        } else {
            None
        },
{
    broadcast use written_member;

    lemma_note_names();
    assert(crate::text::decimal(1) =~= seq!['1']) by {
        assert(crate::text::digit(1) == '1');
    }
}

/// A signed authorization is filed behind those that the workspace has, which all
/// stay, with the key, the certificates, the grant and the owner of the member who
/// signed it. The rest of the workspace's authorization is left as it was; one
/// without a list of records takes none.
pub proof fn law_authorization_is_filed_behind_the_others(
    authorization: JsonTree,
    signed: JsonTree,
    member: Member,
    other: Seq<char>,
)
    requires
        authorization.items_at("records"@) is Some,
    ensures
        with_record(authorization, authorization_record(signed, member)) matches Ok(filed) && {
            &&& filed.items_at("records"@) matches Some(records) && records.len()
                == authorization.items_at("records"@)->0.len() + 1 && records.drop_last()
                == authorization.items_at("records"@)->0 && {
                &&& records.last().get("signed"@) == Some(signed)
                &&& records.last().get("publicKey"@) == Some(member.public_key@)
                &&& records.last().get("certificates"@) == Some(member.certificates@)
                &&& records.last().get("grant"@) == Some(member.grant@)
                &&& records.last().get("ownerPublicKey"@) == Some(member.owner_public_key@)
                &&& records.last().get("ownerCertificates"@) == Some(member.owner_certificates@)
            }
            &&& other != "records"@ ==> filed.get(other) == authorization.get(other)
        },
{
    broadcast use written_member;

    lemma_grounds_names();
    let record = authorization_record(signed, member);
    let records = authorization.items_at("records"@)->0;
    assert(records.push(record).drop_last() =~= records);
    assert(records.push(record).last() == record);
}

/// A workspace whose authorization has no list of records files none.
pub proof fn law_authorization_needs_records(authorization: JsonTree, record: JsonTree)
    requires
        authorization.items_at("records"@) is None,
    ensures
        with_record(authorization, record) == Err::<JsonTree, Seq<char>>(
            "Missing Match write authorizations"@,
        ),
{
}

/// A lead and the place where it is filed are known by their parts.
pub proof fn law_leads_are_known_by_their_parts(lead: Lead, target: LeadTarget)
    ensures
        lead@.id == lead.id@,
        lead@.company == lead.company@,
        lead@.role == lead.role@,
        lead@.job_url == lead.job_url@,
        lead@.body == lead.body@,
        target@.column_id == target.column_id@,
        target@.company_field == target.company_field@,
        target@.role_field == target.role_field@,
        target@.url_field == target.url_field@,
{
}

} // verus!
