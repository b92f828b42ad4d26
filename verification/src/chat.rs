//! The chat of a workspace: signed messages and profiles, merged batch by batch.

use vstd::prelude::*;
use vstd::utf8::encode_utf8;

use crate::json::{
    count, empty_object, json_text, trees, written_member, Json, JsonTree,
};
use crate::records::{
    first_of_each, has_key, law_each_key_once, law_kept_records_stay,
    law_merging_again_changes_nothing, lemma_kept_have_key, lemma_kept_keys, Gathering,
};
use crate::text::{byte_len, same, shown};

verus! {

/// The largest batch that is taken in, in bytes of JSON text.
pub const MAX_BATCH_BYTES: usize = 8_388_608;

/// The most messages that a batch can bring.
pub const MAX_BATCH_MESSAGES: usize = 2_000;

/// The most profiles, or typing notices, that a batch can bring.
pub const MAX_BATCH_PROFILES: usize = 512;

/// The most messages that are stored.
pub const MAX_MESSAGES: usize = 20_000;

/// The most profiles that are stored.
pub const MAX_PROFILES: usize = 2_000;

/// The chat with these messages and profiles, in the order in which a new chat
/// lists its sections.
pub open spec fn fresh_chat(messages: Seq<JsonTree>, profiles: Seq<JsonTree>) -> JsonTree {
    empty_object().with("version"@, count(1)).with("messages"@, JsonTree::Array(messages)).with(
        "profiles"@,
        JsonTree::Array(profiles),
    ).with("typing"@, JsonTree::Array(Seq::empty()))
}

/// The chat with these messages and profiles, in the order in which a merge
/// lists its sections.
pub open spec fn merged_chat(messages: Seq<JsonTree>, profiles: Seq<JsonTree>) -> JsonTree {
    empty_object().with("messages"@, JsonTree::Array(messages)).with(
        "profiles"@,
        JsonTree::Array(profiles),
    ).with("version"@, count(1)).with("typing"@, JsonTree::Array(Seq::empty()))
}

/// The key of a chat record: its signature, where it has one that is not empty.
pub open spec fn signature() -> spec_fn(JsonTree) -> Option<Seq<char>> {
    |record: JsonTree|
        match record.text_at2("signed"@, "signature"@) {
            Some(text) => if text.len() > 0 {
                Some(text)
            } else {
                None
            },
            None => None,
        }
}

/// The records of the section `field` after `incoming` is merged into `current`:
/// the stored ones, then the new ones, of each signature the first, unsigned
/// ones dropped.
pub open spec fn merged_section(
    current: JsonTree,
    incoming: JsonTree,
    field: Seq<char>,
    batch_limit: nat,
    limit: nat,
) -> Result<Seq<JsonTree>, Seq<char>> {
    match (current.items_at(field), incoming.items_at(field)) {
        (None, _) => Err("Invalid stored chat"@),
        (Some(_), None) => Err("Invalid chat batch"@),
        (Some(old_records), Some(new_records)) => {
            let kept = first_of_each(old_records + new_records, signature());
            if new_records.len() > batch_limit {
                Err("Invalid chat batch"@)
            } else if kept.len() > limit {
                Err("Lighthouse chat storage limit exceeded"@)
            } else {
                Ok(kept)
            }
        },
    }
}

/// Whether a batch of `size` bytes is one that can be looked into: of version 1,
/// not too large, and with no typing notices or with a short list of them.
pub open spec fn batch_is_readable(incoming: JsonTree, size: nat) -> bool {
    &&& incoming.get("version"@) == Some(count(1))
    &&& size <= MAX_BATCH_BYTES
    &&& match incoming.get("typing"@) {
        None => true,
        Some(JsonTree::Array(notices)) => notices.len() <= MAX_BATCH_PROFILES,
        Some(_) => false,
    }
}

/// The bytes that a batch has as JSON text.
pub open spec fn batch_size(incoming: JsonTree) -> nat {
    encode_utf8(json_text(incoming)).len()
}

/// The chat after the batch `incoming` is merged into `current`.
pub open spec fn chat_after(current: JsonTree, incoming: JsonTree) -> Result<JsonTree, Seq<char>> {
    chat_after_sized(current, incoming, batch_size(incoming))
}

/// The chat after the batch `incoming`, of `size` bytes, is merged into `current`.
pub open spec fn chat_after_sized(current: JsonTree, incoming: JsonTree, size: nat) -> Result<
    JsonTree,
    Seq<char>,
> {
    if !batch_is_readable(incoming, size) {
        Err("Invalid chat batch"@)
    } else {
        match merged_section(
            current,
            incoming,
            "messages"@,
            MAX_BATCH_MESSAGES as nat,
            MAX_MESSAGES as nat,
        ) {
            Err(error) => Err(error),
            Ok(messages) => match merged_section(
                current,
                incoming,
                "profiles"@,
                MAX_BATCH_PROFILES as nat,
                MAX_PROFILES as nat,
            ) {
                Err(error) => Err(error),
                Ok(profiles) => Ok(merged_chat(messages, profiles)),
            },
        }
    }
}

/// Whether a chat record belongs to the chat `scope`.
pub open spec fn in_scope(scope: Seq<char>) -> spec_fn(JsonTree) -> bool {
    |record: JsonTree| record.text_at3("signed"@, "payload"@, "workspaceId"@) == Some(scope)
}

/// `chat` with only those records of the section `field` that belong to `scope`.
pub open spec fn scoped_section(
    chat: Result<JsonTree, Seq<char>>,
    field: Seq<char>,
    scope: Seq<char>,
) -> Result<JsonTree, Seq<char>> {
    match chat {
        Err(error) => Err(error),
        Ok(chat) => match chat.items_at(field) {
            None => Err("Invalid stored chat"@),
            Some(records) => Ok(
                chat.with(field, JsonTree::Array(records.filter(in_scope(scope)))),
            ),
        },
    }
}

/// `chat` with only the records that belong to `scope`.
pub open spec fn scoped_chat(chat: JsonTree, scope: Seq<char>) -> Result<JsonTree, Seq<char>> {
    scoped_section(
        scoped_section(scoped_section(Ok(chat), "messages"@, scope), "profiles"@, scope),
        "typing"@,
        scope,
    )
}

/// The chat with these messages and profiles.
pub fn new_chat(messages: Vec<Json>, profiles: Vec<Json>) -> (result: Json)
    ensures
        result@ == fresh_chat(trees(messages@), trees(profiles@)),
{
    let nobody: Vec<Json> = Vec::new();
    assert(trees(nobody@) =~= Seq::empty());
    Json::empty().with("version", Json::count(1)).with("messages", Json::array(messages)).with(
        "profiles",
        Json::array(profiles),
    ).with("typing", Json::array(nobody))
}

/// The chat in which nobody has written.
pub fn empty_chat() -> (result: Json)
    ensures
        result@ == fresh_chat(Seq::empty(), Seq::empty()),
{
    let messages: Vec<Json> = Vec::new();
    let profiles: Vec<Json> = Vec::new();
    assert(trees(messages@) =~= Seq::empty());
    assert(trees(profiles@) =~= Seq::empty());
    new_chat(messages, profiles)
}

/// The signature of a chat record, where it has one that is not empty.
fn signature_of(record: &Json) -> (result: Option<String>)
    ensures
        match result {
            Some(text) => signature()(record@) == Some(text@),
            None => signature()(record@) is None,
        },
{
    match record.text_at2("signed", "signature") {
        Some(text) => if !text.is_empty() {
            Some(text.to_owned())
        } else {
            None
        },
        None => None,
    }
}

fn merge_section(
    current: &Json,
    incoming: &Json,
    field: &str,
    batch_limit: usize,
    limit: usize,
) -> (result: Result<Vec<Json>, String>)
    ensures
        match result {
            Ok(records) => merged_section(
                current@,
                incoming@,
                field@,
                batch_limit as nat,
                limit as nat,
            ) == Ok::<Seq<JsonTree>, Seq<char>>(trees(records@)),
            Err(error) => merged_section(
                current@,
                incoming@,
                field@,
                batch_limit as nat,
                limit as nat,
            ) == Err::<Seq<JsonTree>, Seq<char>>(error@),
        },
{
    let old_records = match current.items_at(field) {
        Some(records) => records,
        None => return Err("Invalid stored chat".to_owned()),
    };
    let new_records = match incoming.items_at(field) {
        Some(records) => records,
        None => return Err("Invalid chat batch".to_owned()),
    };
    if new_records.len() > batch_limit {
        return Err("Invalid chat batch".to_owned());
    }
    let ghost all = trees(old_records@) + trees(new_records@);
    let mut gathering = Gathering::new(Ghost(signature()));
    assert(all.take(0) =~= Seq::empty());
    let mut index: usize = 0;
    while index < old_records.len()
        invariant
            index <= old_records@.len(),
            all == trees(old_records@) + trees(new_records@),
            gathering.holds(all.take(index as int), signature()),
        decreases old_records@.len() - index,
    {
        assert(all[index as int] == old_records@[index as int]@);
        let name = signature_of(&old_records[index]);
        gathering.take(
            &old_records[index],
            name,
            Ghost(all),
            Ghost(signature()),
            Ghost(index as int),
        );
        index = index + 1;
    }
    let mut index: usize = 0;
    while index < new_records.len()
        invariant
            index <= new_records@.len(),
            all == trees(old_records@) + trees(new_records@),
            gathering.holds(all.take(old_records@.len() + index), signature()),
        decreases new_records@.len() - index,
    {
        assert(all[old_records@.len() + index] == new_records@[index as int]@);
        let name = signature_of(&new_records[index]);
        gathering.take(
            &new_records[index],
            name,
            Ghost(all),
            Ghost(signature()),
            Ghost(old_records@.len() + index),
        );
        index = index + 1;
    }
    assert(all.take((old_records@.len() + new_records@.len()) as int) =~= all);
    let kept = gathering.finish(Ghost(all), Ghost(signature()));
    if kept.len() > limit {
        return Err("Lighthouse chat storage limit exceeded".to_owned());
    }
    Ok(kept)
}

/// Merges the batch `incoming` into the chat `current`.
pub fn merge_chat(current: &Json, incoming: &Json) -> (result: Result<Json, String>)
    ensures
        shown(result) == chat_after(current@, incoming@),
{
    merge_sized_chat(current, incoming, byte_len(incoming.to_text().as_str()))
}

/// Merges the batch `incoming`, of `size` bytes, into the chat `current`.
pub fn merge_sized_chat(current: &Json, incoming: &Json, size: usize) -> (result: Result<
    Json,
    String,
>)
    ensures
        shown(result) == chat_after_sized(current@, incoming@, size as nat),
{
    let version_is_known = match incoming.get("version") {
        Some(version) => version.is_count(1),
        None => false,
    };
    if !version_is_known {
        return Err("Invalid chat batch".to_owned());
    }
    if size > MAX_BATCH_BYTES {
        return Err("Invalid chat batch".to_owned());
    }
    if let Some(typing) = incoming.get("typing") {
        let fits = match typing.as_array() {
            Some(notices) => notices.len() <= MAX_BATCH_PROFILES,
            None => false,
        };
        if !fits {
            return Err("Invalid chat batch".to_owned());
        }
    }
    let messages = match merge_section(
        current,
        incoming,
        "messages",
        MAX_BATCH_MESSAGES,
        MAX_MESSAGES,
    ) {
        Ok(records) => records,
        Err(error) => return Err(error),
    };
    let profiles = match merge_section(
        current,
        incoming,
        "profiles",
        MAX_BATCH_PROFILES,
        MAX_PROFILES,
    ) {
        Ok(records) => records,
        Err(error) => return Err(error),
    };
    let nobody: Vec<Json> = Vec::new();
    assert(trees(nobody@) =~= Seq::empty());
    Ok(
        Json::empty().with("messages", Json::array(messages)).with(
            "profiles",
            Json::array(profiles),
        ).with("version", Json::count(1)).with("typing", Json::array(nobody)),
    )
}

fn retain_section(chat: Json, field: &str, scope: &str) -> (result: Result<Json, String>)
    ensures
        shown(result) == scoped_section(Ok(chat@), field@, scope@),
{
    let mut kept: Vec<Json> = Vec::new();
    match chat.items_at(field) {
        Some(records) => {
            let ghost all = trees(records@);
            let mut index: usize = 0;
            assert(trees(kept@) =~= all.take(0).filter(in_scope(scope@))) by {
                reveal(Seq::filter);
                assert(all.take(0) =~= Seq::empty());
            }
            while index < records.len()
                invariant
                    index <= records@.len(),
                    all == trees(records@),
                    trees(kept@) == all.take(index as int).filter(in_scope(scope@)),
                decreases records@.len() - index,
            {
                let record = &records[index];
                let ghost before = trees(kept@);
                let belongs = match record.text_at3("signed", "payload", "workspaceId") {
                    Some(text) => same(text, scope),
                    None => false,
                };
                if belongs {
                    kept.push(record.clone());
                    assert(trees(kept@) =~= before.push(record@));
                }
                proof {
                    reveal(Seq::filter);
                    assert(all.take(index + 1).drop_last() =~= all.take(index as int));
                    assert(all.take(index + 1).last() == record@);
                }
                index = index + 1;
            }
            assert(all.take(index as int) =~= all);
        },
        None => return Err("Invalid stored chat".to_owned()),
    }
    Ok(chat.with(field, Json::array(kept)))
}

/// Drops the chat records that belong to another scope.
pub fn retain_chat_scope(chat: Json, scope: &str) -> (result: Result<Json, String>)
    ensures
        shown(result) == scoped_chat(chat@, scope@),
{
    let chat = match retain_section(chat, "messages", scope) {
        Ok(chat) => chat,
        Err(error) => return Err(error),
    };
    let chat = match retain_section(chat, "profiles", scope) {
        Ok(chat) => chat,
        Err(error) => return Err(error),
    };
    retain_section(chat, "typing", scope)
}

proof fn lemma_section_names()
    ensures
        "version"@ != "messages"@,
        "version"@ != "profiles"@,
        "version"@ != "typing"@,
        "messages"@ != "profiles"@,
        "messages"@ != "typing"@,
        "profiles"@ != "typing"@,
{
    reveal_strlit("version");
    reveal_strlit("messages");
    reveal_strlit("profiles");
    reveal_strlit("typing");
    assert("version"@.len() == 7);
    assert("typing"@.len() == 6);
    assert("messages"@[0] == 'm');
    assert("profiles"@[0] == 'p');
}

/// A merged chat gives back the messages and the profiles that were merged, in
/// version 1, with nobody typing.
pub proof fn law_merged_chat_is_read_back(messages: Seq<JsonTree>, profiles: Seq<JsonTree>)
    ensures
        merged_chat(messages, profiles).items_at("messages"@) == Some(messages),
        merged_chat(messages, profiles).items_at("profiles"@) == Some(profiles),
        merged_chat(messages, profiles).items_at("typing"@) == Some(Seq::<JsonTree>::empty()),
        merged_chat(messages, profiles).get("version"@) == Some(count(1)),
{
    broadcast use written_member;

    lemma_section_names();
}

/// A new chat gives back the messages and the profiles it was made of.
pub proof fn law_fresh_chat_is_read_back(messages: Seq<JsonTree>, profiles: Seq<JsonTree>)
    ensures
        fresh_chat(messages, profiles).items_at("messages"@) == Some(messages),
        fresh_chat(messages, profiles).items_at("profiles"@) == Some(profiles),
        fresh_chat(messages, profiles).items_at("typing"@) == Some(Seq::<JsonTree>::empty()),
        fresh_chat(messages, profiles).get("version"@) == Some(count(1)),
{
    broadcast use written_member;

    lemma_section_names();
}

/// A merge that succeeds leaves sections within their limits in which every
/// record is signed and no signature occurs twice.
pub proof fn law_merged_chat_is_sound(
    current: JsonTree,
    incoming: JsonTree,
    chat: JsonTree,
    i: int,
    j: int,
)
    requires
        chat_after(current, incoming) == Ok::<JsonTree, Seq<char>>(chat),
    ensures
        chat.items_at("messages"@) matches Some(messages) && messages.len() <= MAX_MESSAGES && (0
            <= i < j < messages.len() ==> signature()(messages[i]) is Some && signature()(
            messages[j],
        ) is Some && signature()(messages[i]) != signature()(messages[j])),
        chat.items_at("profiles"@) matches Some(profiles) && profiles.len() <= MAX_PROFILES && (0
            <= i < j < profiles.len() ==> signature()(profiles[i]) is Some && signature()(
            profiles[j],
        ) is Some && signature()(profiles[i]) != signature()(profiles[j])),
{
    let messages = merged_section(
        current,
        incoming,
        "messages"@,
        MAX_BATCH_MESSAGES as nat,
        MAX_MESSAGES as nat,
    )->Ok_0;
    let profiles = merged_section(
        current,
        incoming,
        "profiles"@,
        MAX_BATCH_PROFILES as nat,
        MAX_PROFILES as nat,
    )->Ok_0;
    law_merged_chat_is_read_back(messages, profiles);
    if 0 <= i < j < messages.len() {
        law_each_key_once(
            current.items_at("messages"@)->0 + incoming.items_at("messages"@)->0,
            signature(),
            i,
            j,
        );
    }
    if 0 <= i < j < profiles.len() {
        law_each_key_once(
            current.items_at("profiles"@)->0 + incoming.items_at("profiles"@)->0,
            signature(),
            i,
            j,
        );
    }
}

/// Merging the same batch a second time succeeds and changes nothing.
pub proof fn law_same_batch_again_changes_nothing(
    current: JsonTree,
    incoming: JsonTree,
    chat: JsonTree,
)
    requires
        chat_after(current, incoming) == Ok::<JsonTree, Seq<char>>(chat),
    ensures
        chat_after(chat, incoming) == Ok::<JsonTree, Seq<char>>(chat),
{
    let old_messages = current.items_at("messages"@)->0;
    let new_messages = incoming.items_at("messages"@)->0;
    let old_profiles = current.items_at("profiles"@)->0;
    let new_profiles = incoming.items_at("profiles"@)->0;
    let messages = first_of_each(old_messages + new_messages, signature());
    let profiles = first_of_each(old_profiles + new_profiles, signature());
    law_merged_chat_is_read_back(messages, profiles);
    law_merging_again_changes_nothing(old_messages, new_messages, signature());
    law_merging_again_changes_nothing(old_profiles, new_profiles, signature());
}

/// What a merge stored, every later merge keeps, in the same order.
pub proof fn law_stored_chat_stays(
    before: JsonTree,
    first: JsonTree,
    chat: JsonTree,
    second: JsonTree,
    later: JsonTree,
)
    requires
        chat_after(before, first) == Ok::<JsonTree, Seq<char>>(chat),
        chat_after(chat, second) == Ok::<JsonTree, Seq<char>>(later),
    ensures
        chat.items_at("messages"@)->0.is_prefix_of(later.items_at("messages"@)->0),
        chat.items_at("profiles"@)->0.is_prefix_of(later.items_at("profiles"@)->0),
{
    let all_messages = before.items_at("messages"@)->0 + first.items_at("messages"@)->0;
    let all_profiles = before.items_at("profiles"@)->0 + first.items_at("profiles"@)->0;
    let messages = first_of_each(all_messages, signature());
    let profiles = first_of_each(all_profiles, signature());
    law_merged_chat_is_read_back(messages, profiles);
    law_merged_chat_is_read_back(
        first_of_each(messages + second.items_at("messages"@)->0, signature()),
        first_of_each(profiles + second.items_at("profiles"@)->0, signature()),
    );
    law_kept_records_stay(all_messages, second.items_at("messages"@)->0, signature());
    law_kept_records_stay(all_profiles, second.items_at("profiles"@)->0, signature());
}

proof fn lemma_section_is_scoped(chat: JsonTree, field: Seq<char>, scope: Seq<char>, other: Seq<char>)
    requires
        chat.items_at(field) is Some,
    ensures
        scoped_section(Ok(chat), field, scope) is Ok,
        scoped_section(Ok(chat), field, scope)->Ok_0.get(other) == if other == field {
            Some(JsonTree::Array(chat.items_at(field)->0.filter(in_scope(scope))))
        } else {
            chat.get(other)
        },
{
    broadcast use written_member;

}

/// Scoping succeeds on a chat whose three sections are arrays, and leaves of
/// each section the records of the scope, in their order; every other member of
/// the chat is left as it was.
pub proof fn law_scoped_chat(chat: JsonTree, scope: Seq<char>, other: Seq<char>)
    requires
        chat.items_at("messages"@) is Some,
        chat.items_at("profiles"@) is Some,
        chat.items_at("typing"@) is Some,
    ensures
        scoped_chat(chat, scope) matches Ok(scoped) && scoped.get(other) == if other == "messages"@
            || other == "profiles"@ || other == "typing"@ {
            Some(JsonTree::Array(chat.items_at(other)->0.filter(in_scope(scope))))
        } else {
            chat.get(other)
        },
{
    lemma_section_names();
    lemma_section_is_scoped(chat, "messages"@, scope, "profiles"@);
    lemma_section_is_scoped(chat, "messages"@, scope, "typing"@);
    lemma_section_is_scoped(chat, "messages"@, scope, other);
    let first = scoped_section(Ok(chat), "messages"@, scope)->Ok_0;
    lemma_section_is_scoped(first, "profiles"@, scope, "typing"@);
    lemma_section_is_scoped(first, "profiles"@, scope, other);
    let second = scoped_section(Ok(first), "profiles"@, scope)->Ok_0;
    lemma_section_is_scoped(second, "typing"@, scope, other);
}

proof fn lemma_merged_section(
    current: JsonTree,
    incoming: JsonTree,
    chat: JsonTree,
    field: Seq<char>,
)
    requires
        chat_after(current, incoming) == Ok::<JsonTree, Seq<char>>(chat),
        field == "messages"@ || field == "profiles"@,
    ensures
        current.items_at(field) is Some,
        incoming.items_at(field) is Some,
        chat.items_at(field) == Some(
            first_of_each(current.items_at(field)->0 + incoming.items_at(field)->0, signature()),
        ),
{
    lemma_section_names();
    law_merged_chat_is_read_back(
        first_of_each(
            current.items_at("messages"@)->0 + incoming.items_at("messages"@)->0,
            signature(),
        ),
        first_of_each(
            current.items_at("profiles"@)->0 + incoming.items_at("profiles"@)->0,
            signature(),
        ),
    );
}

/// Whether one of `records` is signed with `mark`.
pub open spec fn is_signed_with(records: Seq<JsonTree>, mark: Seq<char>) -> bool {
    exists|i: int|
        0 <= i < records.len() && (#[trigger] records[i]).text_at2("signed"@, "signature"@) == Some(
            mark,
        )
}

/// A merge keeps every signed record of the chat and of the batch, by the text under
/// "signature" of what is signed, and adds no other: of its messages, as of its
/// profiles, each is one of the chat or of the batch, each is signed, no two with the
/// same signature, and each signature of the chat or the batch that is not empty is
/// there. The first record with a signature counts.
pub proof fn law_merge_keeps_every_signed_record(
    current: JsonTree,
    incoming: JsonTree,
    chat: JsonTree,
    field: Seq<char>,
    mark: Seq<char>,
    i: int,
    j: int,
)
    requires
        chat_after(current, incoming) == Ok::<JsonTree, Seq<char>>(chat),
        field == "messages"@ || field == "profiles"@,
    ensures
        current.items_at(field) is Some && incoming.items_at(field) is Some && chat.items_at(
            field,
        ) is Some,
        mark.len() > 0 ==> (is_signed_with(chat.items_at(field)->0, mark) <==> is_signed_with(
            current.items_at(field)->0,
            mark,
        ) || is_signed_with(incoming.items_at(field)->0, mark)),
        0 <= i < chat.items_at(field)->0.len() ==> {
            let record = chat.items_at(field)->0[i];
            &&& current.items_at(field)->0.contains(record) || incoming.items_at(field)->0.contains(
                record,
            )
            &&& record.text_at2("signed"@, "signature"@) matches Some(text) && text.len() > 0
        },
        0 <= i < j < chat.items_at(field)->0.len() ==> chat.items_at(field)->0[i].text_at2(
            "signed"@,
            "signature"@,
        ) != chat.items_at(field)->0[j].text_at2("signed"@, "signature"@),
        0 <= i < current.items_at(field)->0.len() && (current.items_at(field)->0[i].text_at2(
            "signed"@,
            "signature"@,
        ) matches Some(text) && text.len() > 0 && !is_signed_with(
            current.items_at(field)->0.take(i),
            text,
        )) ==> chat.items_at(field)->0.contains(current.items_at(field)->0[i]),
{
    lemma_merged_section(current, incoming, chat, field);
    let before = current.items_at(field)->0;
    let more = incoming.items_at(field)->0;
    let all = before + more;
    let kept = first_of_each(all, signature());
    if mark.len() > 0 {
        lemma_kept_keys(all, signature(), mark);
        lemma_signed_with(kept, mark);
        lemma_signed_with(all, mark);
        lemma_signed_with(before, mark);
        lemma_signed_with(more, mark);
        if has_key(all, signature(), mark) {
            let n = choose|n: int|
                0 <= n < all.len() && signature()(#[trigger] all[n]) == Some(mark);
            if n < before.len() {
                assert(before[n] == all[n]);
                assert(has_key(before, signature(), mark));
            } else {
                assert(more[n - before.len()] == all[n]);
                assert(has_key(more, signature(), mark));
            }
        }
        if has_key(before, signature(), mark) {
            let n = choose|n: int|
                0 <= n < before.len() && signature()(#[trigger] before[n]) == Some(mark);
            assert(all[n] == before[n]);
        }
        if has_key(more, signature(), mark) {
            let n = choose|n: int|
                0 <= n < more.len() && signature()(#[trigger] more[n]) == Some(mark);
            assert(all[before.len() + n] == more[n]);
        }
    }
    if 0 <= i < kept.len() {
        lemma_kept_have_key(all, signature(), i);
        let n = choose|n: int| 0 <= n < all.len() && all[n] == kept[i];
        if n < before.len() {
            assert(before[n] == kept[i]);
        } else {
            assert(more[n - before.len()] == kept[i]);
        }
    }
    if 0 <= i < j < kept.len() {
        law_each_key_once(all, signature(), i, j);
    }
    if 0 <= i < before.len() && (before[i].text_at2("signed"@, "signature"@) matches Some(text)
        && text.len() > 0 && !is_signed_with(before.take(i), text)) {
        assert(all.take(i) =~= before.take(i));
        assert(all[i] == before[i]);
        lemma_first_is_kept(all, i);
    }
}

proof fn lemma_signed_with(records: Seq<JsonTree>, mark: Seq<char>)
    requires
        mark.len() > 0,
    ensures
        is_signed_with(records, mark) <==> has_key(records, signature(), mark),
{
    if is_signed_with(records, mark) {
        let i = choose|i: int|
            0 <= i < records.len() && (#[trigger] records[i]).text_at2("signed"@, "signature"@)
                == Some(mark);
        assert(signature()(records[i]) == Some(mark));
    }
    if has_key(records, signature(), mark) {
        let i = choose|i: int|
            0 <= i < records.len() && signature()(#[trigger] records[i]) == Some(mark);
        assert(records[i].text_at2("signed"@, "signature"@) == Some(mark));
    }
}

proof fn lemma_first_is_kept(all: Seq<JsonTree>, i: int)
    requires
        0 <= i < all.len(),
        all[i].text_at2("signed"@, "signature"@) matches Some(text) && text.len() > 0
            && !is_signed_with(all.take(i), text),
    ensures
        first_of_each(all, signature()).contains(all[i]),
    decreases all.len(),
{
    let mark = all[i].text_at2("signed"@, "signature"@)->0;
    let earlier = all.drop_last();
    let before = first_of_each(earlier, signature());
    let kept = first_of_each(all, signature());
    if i == all.len() - 1 {
        assert(all.take(i) =~= earlier);
        lemma_signed_with(earlier, mark);
        assert(signature()(all[i]) == Some(mark));
        assert(kept[kept.len() - 1] == all[i]);
    } else {
        assert(earlier.take(i) =~= all.take(i));
        assert(earlier[i] == all[i]);
        lemma_first_is_kept(earlier, i);
        let n = choose|n: int| 0 <= n < before.len() && before[n] == all[i];
        assert(kept[n] == all[i]);
    }
}

/// A batch is merged exactly where it has version 1, at most 8 MiB of JSON text, no
/// typing notices or at most 512, at most 2,000 messages and 512 profiles, and leaves
/// the chat with at most 20,000 messages and 2,000 profiles. Otherwise it is told
/// whether the batch, the stored chat or the storage stands in the way.
pub proof fn law_batches_are_merged_by_their_size(current: JsonTree, incoming: JsonTree)
    ensures
        ({
            let result = chat_after(current, incoming);
            let size = encode_utf8(json_text(incoming)).len();
            let notices = incoming.get("typing"@);
            if incoming.get("version"@) != Some(JsonTree::Number(seq!['1'])) || size > 8_388_608 || (
            notices is Some && !(notices->0 is Array)) || (notices is Some && notices->0 is Array
                && notices->0->Array_0.len() > 512) {
                result == Err::<JsonTree, Seq<char>>("Invalid chat batch"@)
            } else if current.items_at("messages"@) is None {
                result == Err::<JsonTree, Seq<char>>("Invalid stored chat"@)
            } else if incoming.items_at("messages"@) is None || incoming.items_at(
                "messages"@,
            )->0.len() > 2_000 {
                result == Err::<JsonTree, Seq<char>>("Invalid chat batch"@)
            } else if first_of_each(
                current.items_at("messages"@)->0 + incoming.items_at("messages"@)->0,
                signature(),
            ).len() > 20_000 {
                result == Err::<JsonTree, Seq<char>>("Lighthouse chat storage limit exceeded"@)
            } else if current.items_at("profiles"@) is None {
                result == Err::<JsonTree, Seq<char>>("Invalid stored chat"@)
            } else if incoming.items_at("profiles"@) is None || incoming.items_at(
                "profiles"@,
            )->0.len() > 512 {
                result == Err::<JsonTree, Seq<char>>("Invalid chat batch"@)
            } else if first_of_each(
                current.items_at("profiles"@)->0 + incoming.items_at("profiles"@)->0,
                signature(),
            ).len() > 2_000 {
                result == Err::<JsonTree, Seq<char>>("Lighthouse chat storage limit exceeded"@)
            } else {
                result is Ok
            }
        }),
        chat_after(current, incoming) matches Ok(chat) ==> chat.items_at("typing"@) == Some(
            Seq::<JsonTree>::empty(),
        ) && chat.get("version"@) == Some(JsonTree::Number(seq!['1'])),
{
    assert(crate::text::digit(1) == '1');
    assert(crate::text::decimal(1) =~= seq!['1']);
    if chat_after(current, incoming) is Ok {
        law_merged_chat_is_read_back(
            first_of_each(
                current.items_at("messages"@)->0 + incoming.items_at("messages"@)->0,
                signature(),
            ),
            first_of_each(
                current.items_at("profiles"@)->0 + incoming.items_at("profiles"@)->0,
                signature(),
            ),
        );
    }
}

/// Scoping a chat leaves of each section exactly the records whose payload names the
/// workspace, in their order. A chat without one of its three sections is not valid.
pub proof fn law_scoped_chat_is_the_workspaces(
    chat: JsonTree,
    scope: Seq<char>,
    field: Seq<char>,
    i: int,
    j: int,
)
    requires
        field == "messages"@ || field == "profiles"@ || field == "typing"@,
    ensures
        chat.items_at("messages"@) is None || chat.items_at("profiles"@) is None || chat.items_at(
            "typing"@,
        ) is None <==> scoped_chat(chat, scope) is Err,
        scoped_chat(chat, scope) matches Err(error) ==> error == "Invalid stored chat"@,
        scoped_chat(chat, scope) matches Ok(scoped) ==> scoped.items_at(field) is Some && {
            let before = chat.items_at(field)->0;
            let after = scoped.items_at(field)->0;
            &&& 0 <= i < after.len() ==> before.contains(after[i]) && after[i].text_at3(
                "signed"@,
                "payload"@,
                "workspaceId"@,
            ) == Some(scope)
            &&& 0 <= j < before.len() && before[j].text_at3("signed"@, "payload"@, "workspaceId"@)
                == Some(scope) ==> after.contains(before[j])
        },
{
    lemma_section_names();
    if chat.items_at("messages"@) is Some && chat.items_at("profiles"@) is Some && chat.items_at(
        "typing"@,
    ) is Some {
        law_scoped_chat(chat, scope, field);
        let before = chat.items_at(field)->0;
        let after = before.filter(in_scope(scope));
        if 0 <= i < after.len() {
            before.lemma_filter_pred(in_scope(scope), i);
            before.lemma_filter_contains_rev(in_scope(scope), after[i]);
        }
        if 0 <= j < before.len() && before[j].text_at3("signed"@, "payload"@, "workspaceId"@)
            == Some(scope) {
            before.lemma_filter_contains(in_scope(scope), j);
        }
    } else {
        lemma_scoping_needs_sections(chat, scope);
    }
}

proof fn lemma_scoping_needs_sections(chat: JsonTree, scope: Seq<char>)
    requires
        chat.items_at("messages"@) is None || chat.items_at("profiles"@) is None || chat.items_at(
            "typing"@,
        ) is None,
    ensures
        scoped_chat(chat, scope) == Err::<JsonTree, Seq<char>>("Invalid stored chat"@),
{
    lemma_section_names();
    if chat.items_at("messages"@) is Some {
        lemma_section_is_scoped(chat, "messages"@, scope, "profiles"@);
        lemma_section_is_scoped(chat, "messages"@, scope, "typing"@);
        let first = scoped_section(Ok(chat), "messages"@, scope)->Ok_0;
        if chat.items_at("profiles"@) is Some {
            lemma_section_is_scoped(first, "profiles"@, scope, "typing"@);
        }
    }
}

} // verus!
