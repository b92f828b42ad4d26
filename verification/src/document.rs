//! The workspace document: an Automerge document, what it holds, and the edits
//! that the lighthouse makes to it.

use vstd::prelude::*;
use vstd::utf8::encode_utf8;

use automerge::transaction::Transactable;
use automerge::ReadDoc;
use automerge::{AutoCommit, AutomergeError, ObjId};

use crate::json::{
    first_member, from_value, lemma_first_member_at, lemma_first_member_skip,
    lemma_first_member_stands, member, value_tree, Json, JsonTree,
};
use crate::state::copy_bytes;
use crate::text::{joined, same, shown, texts};

verus! {

/// The outside type `automerge::AutoCommit`.
#[verifier::external_type_specification]
#[verifier::external_body]
pub struct ExAutoCommit(AutoCommit);

/// The outside type `automerge::ObjId`.
#[verifier::external_type_specification]
#[verifier::external_body]
pub struct ExObjId(ObjId);

/// The outside type `automerge::AutomergeError`.
#[verifier::external_type_specification]
#[verifier::external_body]
pub struct ExAutomergeError(AutomergeError);

/// The outside type `serde_json::Error`.
#[verifier::external_type_specification]
#[verifier::external_body]
pub struct ExJsonError(serde_json::Error);

/// What a key of a map, or a place of a list, in a document has: another object, by
/// its name, or a value, by the JSON that it shows as.
pub enum Field {
    Branch(Seq<char>),
    Table(Seq<char>),
    List(Seq<char>),
    Text(Seq<char>),
    Value(JsonTree),
}

/// What a document holds: its map objects by name, each with its keys; its text
/// objects by name, each with its characters; its table and list objects by name;
/// the names of what is no object but a value; what it shows as JSON; the hashes of
/// the changes that were committed; of each change that waits for others, the
/// hashes of those that it builds on; whether it has edits that are not committed;
/// and the number of its last operation, as Automerge counts the operations of
/// changes and of edits.
pub struct Contents {
    pub maps: Map<Seq<char>, Map<Seq<char>, Field>>,
    pub texts: Map<Seq<char>, Seq<char>>,
    pub tables: Map<Seq<char>, Map<Seq<char>, Field>>,
    pub lists: Map<Seq<char>, Seq<Field>>,
    pub values: Set<Seq<char>>,
    pub json: JsonTree,
    pub hashes: Seq<Seq<char>>,
    pub waiting: Set<Set<Seq<char>>>,
    pub pending: bool,
    pub top: nat,
}

/// Whether `after` has the tables, lists and committed changes of `before`, and no
/// change waits in it that did not wait before. The first edit drops what waits by
/// the same actor with the number that the edits are to have, or a later one, and
/// what builds on it.
pub open spec fn same_rest(before: Contents, after: Contents) -> bool {
    &&& after.tables == before.tables
    &&& after.lists == before.lists
    &&& after.hashes == before.hashes
    &&& after.waiting.subset_of(before.waiting)
}

/// Whether every change that waits still waits where the changes `had` are there:
/// each builds on one that is not.
pub open spec fn is_settled(waiting: Set<Set<Seq<char>>>, had: Set<Seq<char>>) -> bool {
    forall|needed: Set<Seq<char>>| #[trigger] waiting.contains(needed) ==> !needed.subset_of(had)
}

/// What a document holds.
pub uninterp spec fn contents(document: AutoCommit) -> Contents;

/// Whether a document is one that edits through Automerge lead to, its own and
/// those of others that it took in. Changes that were put together in another way
/// may contradict each other, which Automerge does not look for.
pub uninterp spec fn is_genuine(document: AutoCommit) -> bool;

/// The bytes that `AutoCommit::save` gives of a document with nothing to commit.
pub uninterp spec fn saved_bytes(document: AutoCommit) -> Seq<u8>;

/// Whether `bytes` are what Automerge wrote of a document, in this release or another:
/// the document as a whole, or its parts one after the other.
pub uninterp spec fn is_saved_as(document: AutoCommit, bytes: Seq<u8>) -> bool;

/// The four bytes that everything Automerge writes begins with.
pub open spec fn mark() -> Seq<u8> {
    seq![0x85u8, 0x6fu8, 0x4au8, 0x83u8]
}

/// Whether Automerge reads `bytes` to an end: what does not begin with its mark it
/// turns down at once, and the rest has to be what it wrote of a document.
pub open spec fn is_readable(bytes: Seq<u8>) -> bool {
    mark().is_prefix_of(bytes) ==> exists|document: AutoCommit|
        is_genuine(document) && #[trigger] is_saved_as(document, bytes)
}

/// Whether a document has room for `more` operations: Automerge numbers them with
/// 32 bits.
pub open spec fn has_room(held: Contents, more: nat) -> bool {
    held.top + more <= u32::MAX
}

/// The actor that the next edits of a document are by.
pub uninterp spec fn actor_of(document: AutoCommit) -> Seq<u8>;

/// The name of an object: its `Display` text.
pub uninterp spec fn object_name(object: ObjId) -> Seq<char>;

/// What `AutoCommit::load` finds in `bytes`: what the document holds, or the
/// message of the error.
pub uninterp spec fn loaded(bytes: Seq<u8>) -> Result<Contents, Seq<char>>;

/// The hash of the change that a commit with `message` makes of the edits of
/// `document`.
pub uninterp spec fn committed(document: AutoCommit, message: Seq<char>) -> Seq<char>;

/// The message of an Automerge error.
pub uninterp spec fn automerge_message(error: AutomergeError) -> Seq<char>;

/// The message of a JSON error.
pub uninterp spec fn json_message(error: serde_json::Error) -> Seq<char>;

/// The name of the object that a document starts from.
pub open spec fn root() -> Seq<char> {
    "_root"@
}

/// The object name of the map under the key `key` of the root.
pub open spec fn root_map(held: Contents, key: Seq<char>) -> Option<Seq<char>> {
    if held.maps.contains_key(root()) && held.maps[root()].contains_key(key) {
        match held.maps[root()][key] {
            Field::Branch(name) => if held.maps.contains_key(name) {
                Some(name)
            } else {
                None
            },
            _ => None,
        }
    } else {
        None
    }
}

/// Whether `tree` is what `field` shows as JSON, down to `depth` objects below it: a
/// value as its JSON, a text as its characters, a map or a table as an object with
/// its keys and what each of them has, and a list as an array.
pub open spec fn shows(held: Contents, field: Field, tree: JsonTree, depth: nat) -> bool
    decreases depth,
{
    match field {
        Field::Value(value) => tree == value,
        Field::Text(name) => held.texts.contains_key(name) && tree == JsonTree::Text(
            held.texts[name],
        ),
        Field::List(name) => held.lists.contains_key(name) && tree is Array,
        Field::Branch(name) => {
            &&& held.maps.contains_key(name)
            &&& tree is Object
            &&& forall|key: Seq<char>|
                #[trigger] tree.get(key) is Some <==> held.maps[name].contains_key(key)
            &&& depth > 0 ==> forall|key: Seq<char>|
                held.maps[name].contains_key(key) ==> shows(
                    held,
                    held.maps[name][key],
                    (#[trigger] tree.get(key))->0,
                    (depth - 1) as nat,
                )
        },
        Field::Table(name) => {
            &&& held.tables.contains_key(name)
            &&& tree is Object
            &&& forall|key: Seq<char>|
                #[trigger] tree.get(key) is Some <==> held.tables[name].contains_key(key)
            &&& depth > 0 ==> forall|key: Seq<char>|
                held.tables[name].contains_key(key) ==> shows(
                    held,
                    held.tables[name][key],
                    (#[trigger] tree.get(key))->0,
                    (depth - 1) as nat,
                )
        },
    }
}

/// Whether the JSON that a document shows is what its root has, at any depth.
pub open spec fn shows_itself(held: Contents) -> bool {
    forall|depth: nat| #[trigger] shows(held, Field::Branch(root()), held.json, depth)
}

/// What the root and the maps under its keys show: the root an object with its
/// keys, and each of those maps an object with the map's keys.
pub proof fn lemma_root_shows(held: Contents, key: Seq<char>, k: Seq<char>)
    requires
        shows_itself(held),
    ensures
        held.maps.contains_key(root()),
        held.json.get(key) is Some <==> held.maps[root()].contains_key(key),
        root_map(held, key) is Some ==> held.json.members_at(key) is Some && (member(
            held.json.members_at(key)->0,
            k,
        ) is Some <==> held.maps[root_map(held, key)->0].contains_key(k)),
{
    assert(shows(held, Field::Branch(root()), held.json, 1));
    if root_map(held, key) is Some {
        let tree = held.json.get(key)->0;
        assert(shows(held, held.maps[root()][key], tree, 0));
        assert(tree.get(k) is Some <==> held.maps[root_map(held, key)->0].contains_key(k));
    }
}

/// The text under `key` of the map object `object`.
pub open spec fn text_in(held: Contents, object: Seq<char>, key: Seq<char>) -> Option<Seq<char>> {
    if held.maps.contains_key(object) && held.maps[object].contains_key(key) {
        match held.maps[object][key] {
            Field::Text(name) => if held.texts.contains_key(name) {
                Some(held.texts[name])
            } else {
                None
            },
            _ => None,
        }
    } else {
        None
    }
}

/// Whether no object of the document has the name `name`.
pub open spec fn unused(held: Contents, name: Seq<char>) -> bool {
    &&& !held.maps.contains_key(name)
    &&& !held.texts.contains_key(name)
    &&& !held.tables.contains_key(name)
    &&& !held.lists.contains_key(name)
}

/// `maps` with `field` under `key` of the map `object`.
pub open spec fn with_field(
    maps: Map<Seq<char>, Map<Seq<char>, Field>>,
    object: Seq<char>,
    key: Seq<char>,
    field: Field,
) -> Map<Seq<char>, Map<Seq<char>, Field>> {
    maps.insert(object, maps[object].insert(key, field))
}

/// Whether `found` is what the root has under `key`: an object by its name, which
/// is one of the document's, or what is no object by the name of a value.
pub open spec fn found_at_root(held: Contents, key: Seq<char>, found: Option<ObjId>) -> bool {
    &&& held.maps.contains_key(root())
    &&& found is Some <==> held.maps[root()].contains_key(key)
    &&& found matches Some(object) ==> match held.maps[root()][key] {
        Field::Branch(name) => object_name(object) == name && held.maps.contains_key(name),
        other => !held.maps.contains_key(object_name(object)) && is_kept_as(
            held,
            other,
            object_name(object),
        ),
    }
}

/// Whether the name `name` is that of an object of the kind that `field` has, or of
/// a value where it has none.
pub open spec fn is_kept_as(held: Contents, field: Field, name: Seq<char>) -> bool {
    match field {
        Field::Branch(_) => held.maps.contains_key(name),
        Field::Table(_) => held.tables.contains_key(name),
        Field::List(_) => held.lists.contains_key(name),
        Field::Text(_) => held.texts.contains_key(name),
        Field::Value(_) => held.values.contains(name),
    }
}

/// Whether loading `bytes`, where it succeeds, gives what `held` has, with the
/// changes `changes`, and shows as JSON what it has. What waits for one of these
/// changes alone would come in with it.
pub open spec fn saved_in(bytes: Seq<u8>, held: Contents, changes: Set<Seq<char>>) -> bool {
    is_settled(held.waiting, changes) ==> (loaded(bytes) matches Ok(again) ==> {
        &&& again.maps == held.maps
        &&& again.texts == held.texts
        &&& again.tables == held.tables
        &&& again.lists == held.lists
        &&& again.hashes.to_set() == changes
        &&& shows_itself(again)
    })
}

/// Whether `message` is that of the error with which Automerge refuses to put
/// anything under a key of `object`, which is none of the maps.
pub open spec fn refuses(held: Contents, object: Seq<char>, message: Seq<char>) -> bool {
    &&& held.tables.contains_key(object) ==> message == refusal(Field::Table(object))
    &&& held.lists.contains_key(object) ==> message == refusal(Field::List(object))
    &&& held.texts.contains_key(object) ==> message == refusal(Field::Text(object))
    &&& held.values.contains(object) ==> message == refusal(Field::Value(JsonTree::Null))
}

/// What Automerge says where something is to be put under a key of a field that is
/// no map.
pub open spec fn refusal(field: Field) -> Seq<char> {
    match field {
        Field::Table(_) => "invalid op for object of type `table`"@,
        Field::List(_) => "invalid op for object of type `list`"@,
        Field::Text(_) => "invalid op for object of type `text`"@,
        _ => "id was not an object id"@,
    }
}

/// `AutoCommit::load`: the document that was saved as `bytes`, with nothing to
/// commit.
///
/// The bytes have to be such as Automerge reads to an end. On changes that were put
/// together in another way it may panic: on one that names an actor which the
/// document does not know, or an object that it does not have, on one whose
/// operations have numbers beyond 32 bits or the numbers of another's, and on a
/// saved document whose changes build on some that it does not have.
#[verifier::external_body]
fn load(bytes: &[u8]) -> (result: Result<AutoCommit, AutomergeError>)
    requires
        is_readable(bytes@),
    ensures
        match result {
            Ok(document) => loaded(bytes@) == Ok::<Contents, Seq<char>>(contents(document)),
            Err(error) => loaded(bytes@) == Err::<Contents, Seq<char>>(automerge_message(error)),
        },
        result matches Ok(document) ==> !contents(document).pending && is_genuine(document),
{
    AutoCommit::load(bytes)
}

/// The `Display` text of an `AutomergeError`.
#[verifier::external_body]
fn automerge_error_text(error: &AutomergeError) -> (text: String)
    ensures
        text@ == automerge_message(*error),
{
    error.to_string()
}

/// The `Display` text of a `serde_json::Error`.
#[verifier::external_body]
fn json_error_text(error: &serde_json::Error) -> (text: String)
    ensures
        text@ == json_message(*error),
{
    error.to_string()
}

/// `serde_json::to_value` of `AutoSerde`: what the document shows as JSON, which is
/// what its objects hold. Every key is a string and every value has its JSON, so it
/// always succeeds; it calls itself for what is nested, and returns where the stack
/// has room for that.
#[verifier::external_body]
fn to_json_value(document: &AutoCommit) -> (result: Result<serde_json::Value, serde_json::Error>)
    requires
        is_genuine(*document),
    ensures
        result is Ok,
        value_tree(result->Ok_0) == contents(*document).json,
        result is Ok ==> shows_itself(contents(*document)),
{
    serde_json::to_value(automerge::AutoSerde::from(document))
}

/// `AutoCommit::get_changes` of everything, each change by the text of its hash,
/// where there is nothing to commit.
#[verifier::external_body]
fn change_hashes(document: &mut AutoCommit) -> (result: Vec<String>)
    requires
        is_genuine(*old(document)),
        !contents(*old(document)).pending,
    ensures
        texts(result@) == contents(*old(document)).hashes,
{
    document.get_changes(&[]).iter().map(|change| change.hash().to_string()).collect()
}

/// The highest of `numbers`, or zero where there is none.
pub open spec fn highest(numbers: Seq<u64>) -> nat
    decreases numbers.len(),
{
    if numbers.len() == 0 {
        0
    } else if highest(numbers.drop_last()) < numbers.last() {
        numbers.last() as nat
    } else {
        highest(numbers.drop_last())
    }
}

/// `AutoCommit::get_changes` of everything, each change by the number of its last
/// operation, which `Change::max_op` gives, where there is nothing to commit. The
/// document's last operation is the highest of them.
#[verifier::external_body]
fn operation_numbers(document: &mut AutoCommit) -> (result: Vec<u64>)
    requires
        is_genuine(*old(document)),
        !contents(*old(document)).pending,
    ensures
        highest(result@) == contents(*old(document)).top,
        contents(*final(document)) == contents(*old(document)),
        actor_of(*final(document)) == actor_of(*old(document)),
        is_genuine(*final(document)),
{
    document.get_changes(&[]).iter().map(|change| change.max_op()).collect()
}

/// `AutoCommit::set_actor`: the next edits are by that actor. What was edited before
/// is committed first; where there is nothing to commit, all stays.
#[verifier::external_body]
fn set_actor(document: &mut AutoCommit, actor: &[u8])
    requires
        is_genuine(*old(document)),
        !contents(*old(document)).pending,
    ensures
        is_genuine(*final(document)),
        actor_of(*final(document)) == actor@,
        contents(*final(document)).maps == contents(*old(document)).maps,
        contents(*final(document)).texts == contents(*old(document)).texts,
        contents(*final(document)).values == contents(*old(document)).values,
        same_rest(contents(*old(document)), contents(*final(document))),
        contents(*final(document)).top == contents(*old(document)).top,
        !contents(*final(document)).pending,
{
    document.set_actor(automerge::ActorId::from(actor));
}

/// `ReadDoc::get` at the root: what is under `key`. An object is found by its name,
/// and is one of the document's; what is no object has the name of a value.
#[verifier::external_body]
fn root_entry(document: &AutoCommit, key: &str) -> (result: Result<Option<ObjId>, AutomergeError>)
    requires
        is_genuine(*document),
    ensures
        result is Ok,
        found_at_root(contents(*document), key@, result->Ok_0),
{
    document.get(automerge::ROOT, key).map(|found| found.map(|entry| entry.1))
}

/// `Transactable::put_object` of a map: succeeds on a map object, and leaves a
/// new empty map under `key`, an edit to commit, by one operation. On any other
/// object, and on a value, it is refused with `AutomergeError::InvalidOp` or
/// `NotAnObject`. It panics where the operation's number is beyond 32 bits.
#[verifier::external_body]
fn put_map(document: &mut AutoCommit, object: &ObjId, key: &str) -> (result: Result<
    ObjId,
    AutomergeError,
>)
    requires
        is_genuine(*old(document)),
        has_room(contents(*old(document)), 1),
    ensures
        is_genuine(*final(document)),
        contents(*final(document)).top <= contents(*old(document)).top + 1,
        actor_of(*final(document)) == actor_of(*old(document)),
        result is Ok <==> contents(*old(document)).maps.contains_key(object_name(*object)),
        result matches Err(error) ==> refuses(
            contents(*old(document)),
            object_name(*object),
            automerge_message(error),
        ),
        same_rest(contents(*old(document)), contents(*final(document))),
        result is Err ==> contents(*final(document)).maps == contents(*old(document)).maps
            && contents(*final(document)).texts == contents(*old(document)).texts,
        result matches Ok(child) ==> contents(*final(document)).pending && unused(
            contents(*old(document)),
            object_name(child),
        ) && contents(*final(document)).maps == with_field(
            contents(*old(document)).maps,
            object_name(*object),
            key@,
            Field::Branch(object_name(child)),
        ).insert(object_name(child), Map::empty()) && contents(*final(document)).texts == contents(
            *old(document),
        ).texts,
{
    document.put_object(object, key, automerge::ObjType::Map)
}

/// `Transactable::put_object` of a text: succeeds on a map object, and leaves a
/// new empty text under `key`, an edit to commit, by one operation. It panics where
/// the operation's number is beyond 32 bits.
#[verifier::external_body]
fn put_empty_text(document: &mut AutoCommit, object: &ObjId, key: &str) -> (result: Result<
    ObjId,
    AutomergeError,
>)
    requires
        is_genuine(*old(document)),
        has_room(contents(*old(document)), 1),
    ensures
        is_genuine(*final(document)),
        contents(*final(document)).top <= contents(*old(document)).top + 1,
        actor_of(*final(document)) == actor_of(*old(document)),
        result is Ok <==> contents(*old(document)).maps.contains_key(object_name(*object)),
        same_rest(contents(*old(document)), contents(*final(document))),
        result is Err ==> contents(*final(document)).maps == contents(*old(document)).maps
            && contents(*final(document)).texts == contents(*old(document)).texts,
        result matches Ok(child) ==> contents(*final(document)).pending && unused(
            contents(*old(document)),
            object_name(child),
        ) && contents(*final(document)).maps == with_field(
            contents(*old(document)).maps,
            object_name(*object),
            key@,
            Field::Text(object_name(child)),
        ) && contents(*final(document)).texts == contents(*old(document)).texts.insert(
            object_name(child),
            Seq::empty(),
        ),
{
    document.put_object(object, key, automerge::ObjType::Text)
}

/// `Transactable::splice_text` at the start, deleting nothing: an empty text
/// object then holds the text, by one operation for each character, and edits to
/// commit stay so. It panics where an operation's number is beyond 32 bits.
#[verifier::external_body]
fn fill_text(document: &mut AutoCommit, object: &ObjId, text: &str) -> (result: Result<
    (),
    AutomergeError,
>)
    requires
        is_genuine(*old(document)),
        has_room(contents(*old(document)), text@.len()),
        contents(*old(document)).texts.contains_key(object_name(*object)),
        contents(*old(document)).texts[object_name(*object)].len() == 0,
    ensures
        is_genuine(*final(document)),
        contents(*final(document)).top <= contents(*old(document)).top + text@.len(),
        actor_of(*final(document)) == actor_of(*old(document)),
        result is Ok,
        same_rest(contents(*old(document)), contents(*final(document))),
        contents(*final(document)).maps == contents(*old(document)).maps,
        contents(*final(document)).texts == contents(*old(document)).texts.insert(
            object_name(*object),
            text@,
        ),
        contents(*old(document)).pending ==> contents(*final(document)).pending,
{
    document.splice_text(object, 0, 0, text)
}

/// `Transactable::put` of a truth value: succeeds on a map object, by one operation,
/// and edits to commit stay so. It panics where the operation's number is beyond 32
/// bits.
#[verifier::external_body]
fn put_flag(document: &mut AutoCommit, object: &ObjId, key: &str, flag: bool) -> (result: Result<
    (),
    AutomergeError,
>)
    requires
        is_genuine(*old(document)),
        has_room(contents(*old(document)), 1),
    ensures
        is_genuine(*final(document)),
        contents(*final(document)).top <= contents(*old(document)).top + 1,
        actor_of(*final(document)) == actor_of(*old(document)),
        result is Ok <==> contents(*old(document)).maps.contains_key(object_name(*object)),
        same_rest(contents(*old(document)), contents(*final(document))),
        result is Err ==> contents(*final(document)).maps == contents(*old(document)).maps,
        result is Ok ==> contents(*final(document)).maps == with_field(
            contents(*old(document)).maps,
            object_name(*object),
            key@,
            Field::Value(JsonTree::Bool(flag)),
        ),
        contents(*final(document)).texts == contents(*old(document)).texts,
        contents(*old(document)).pending ==> contents(*final(document)).pending,
{
    document.put(object, key, flag)
}

/// `AutoCommit::commit_with` a message: the hash of the change, as text, where
/// there are edits to commit. That change, and no other, joins the committed ones;
/// what the document's objects hold stays, and no further change waits.
#[verifier::external_body]
fn commit(document: &mut AutoCommit, message: &str) -> (result: Option<String>)
    requires
        is_genuine(*old(document)),
    ensures
        is_genuine(*final(document)),
        result matches Some(hash) ==> committed(*old(document), message@) == hash@,
        result is Some <==> contents(*old(document)).pending,
        result matches Some(hash) ==> contents(*final(document)).hashes.to_set() == contents(
            *old(document),
        ).hashes.to_set().insert(hash@),
        result is None ==> contents(*final(document)).hashes == contents(*old(document)).hashes,
        contents(*final(document)).maps == contents(*old(document)).maps,
        contents(*final(document)).texts == contents(*old(document)).texts,
        contents(*final(document)).tables == contents(*old(document)).tables,
        contents(*final(document)).lists == contents(*old(document)).lists,
        contents(*final(document)).waiting.subset_of(contents(*old(document)).waiting),
        !contents(*final(document)).pending,
{
    let options = automerge::transaction::CommitOptions::default().with_message(message);
    document.commit_with(options).map(|hash| hash.to_string())
}

/// `AutoCommit::save`, where there is nothing to commit: the bytes are those of the
/// document, and loading them again gives the same objects and the same changes,
/// which the loaded document shows as JSON.
///
/// That the bytes always load is not said. The order of a text's marks is looked at
/// where a saved document is read, but not where a single change is; and a change
/// that waits may be by the actor, and have the number, of one that was committed.
#[verifier::external_body]
fn save(document: &mut AutoCommit) -> (bytes: Vec<u8>)
    requires
        is_genuine(*old(document)),
        !contents(*old(document)).pending,
    ensures
        bytes@ == saved_bytes(*old(document)),
        is_saved_as(*old(document), bytes@),
        saved_in(bytes@, contents(*old(document)), contents(*old(document)).hashes.to_set()),
{
    document.save()
}

/// Whether an entity of the workspace is a board.
pub open spec fn is_board() -> spec_fn(JsonTree) -> bool {
    |entity: JsonTree| entity.text_at("kind"@) == Some("board"@)
}

/// The chat scope of a workspace that shows `tree`: its owner and its first board.
pub open spec fn chat_scope_of(tree: JsonTree) -> Result<Seq<char>, Seq<char>> {
    match tree.text_at("ownerPersonId"@) {
        None => Err("Match workspace has no owner"@),
        Some(owner) => match tree.members_at("entities"@) {
            None => Err("Match workspace has no board"@),
            Some(entities) => match first_member(entities, is_board()) {
                None => Err("Match workspace has no board"@),
                Some((id, _)) => Ok(owner + ":"@ + id),
            },
        },
    }
}

/// What the document in `bytes` shows as JSON.
pub open spec fn view_of(bytes: Seq<u8>) -> Result<JsonTree, Seq<char>> {
    match loaded(bytes) {
        Err(message) => Err("Invalid Match document: "@ + message),
        Ok(held) => Ok(held.json),
    }
}

/// The bytes of a document that Automerge reads to an end.
pub struct Document {
    bytes: Vec<u8>,
}

impl View for Document {
    type V = Seq<u8>;

    closed spec fn view(&self) -> Seq<u8> {
        self.bytes@
    }
}

impl Document {
    #[verifier::type_invariant]
    spec fn reads(self) -> bool {
        is_readable(self.bytes@)
    }

    /// The document in `bytes`, which Automerge wrote and has read before; or bytes
    /// that do not begin as a document does.
    pub fn new(bytes: &[u8]) -> (result: Document)
        requires
            is_readable(bytes@),
        ensures
            result@ == bytes@,
    {
        Document { bytes: copy_bytes(bytes) }
    }

    /// The document's bytes, which Automerge reads to an end.
    pub fn bytes(&self) -> (result: &[u8])
        ensures
            result@ == self@,
            is_readable(result@),
    {
        proof {
            use_type_invariant(self);
        }
        self.bytes.as_slice()
    }
}

/// The document in `source`, ready for edits, and what it shows as JSON.
pub(crate) fn open_document(source: &Document) -> (result: Result<(AutoCommit, Json), String>)
    ensures
        match result {
            Ok((document, json)) => {
                &&& loaded(source@) == Ok::<Contents, Seq<char>>(contents(document))
                &&& view_of(source@) == Ok::<JsonTree, Seq<char>>(json@)
                &&& shows_itself(contents(document))
                &&& !contents(document).pending
                &&& is_genuine(document)
            },
            Err(error) => view_of(source@) == Err::<JsonTree, Seq<char>>(error@),
        },
{
    let document = match load(source.bytes()) {
        Ok(document) => document,
        Err(error) => return Err(
            joined("Invalid Match document: ", automerge_error_text(&error).as_str()),
        ),
    };
    match to_json_value(&document) {
        Ok(value) => {
            let json = from_value(&value);
            Ok((document, json))
        },
        Err(error) => Err(json_error_text(&error)),
    }
}

/// The hashes of all changes of a document.
pub fn document_hashes(source: &Document) -> (result: Result<Vec<String>, String>)
    ensures
        match result {
            Ok(hashes) => loaded(source@) is Ok && texts(hashes@) == loaded(source@)->Ok_0.hashes,
            Err(error) => loaded(source@) matches Err(message) && error@
                == "Invalid lighthouse document: "@ + message,
        },
{
    match load(source.bytes()) {
        Ok(document) => {
            let mut document = document;
            Ok(change_hashes(&mut document))
        },
        Err(error) => Err(
            joined("Invalid lighthouse document: ", automerge_error_text(&error).as_str()),
        ),
    }
}

/// The id of the first board among the entities that `view` shows.
fn first_board<'a>(view: &'a Json) -> (result: Option<&'a str>)
    ensures
        match result {
            Some(id) => view@.members_at("entities"@) matches Some(entities) && (first_member(
                entities,
                is_board(),
            ) matches Some(found) && found.0 == id@),
            None => match view@.members_at("entities"@) {
                Some(entities) => first_member(entities, is_board()) is None,
                None => true,
            },
        },
{
    let entities = match view.members_at("entities") {
        Some(entities) => entities,
        None => return None,
    };
    let mut index: usize = 0;
    while index < entities.len()
        invariant
            index <= entities@.len(),
            view@.members_at("entities"@) == Some(entities@),
            forall|i: int| 0 <= i < index ==> !is_board()(#[trigger] entities@[i].1),
        decreases entities@.len() - index,
    {
        let found = match entities.value(index).text_at("kind") {
            Some(kind) => same(kind, "board"),
            None => false,
        };
        if found {
            proof {
                lemma_first_member_skip(entities@, is_board(), index as int);
                assert(entities@.skip(index as int)[0] == entities@[index as int]);
            }
            return Some(entities.key(index));
        }
        index = index + 1;
    }
    proof {
        lemma_first_member_skip(entities@, is_board(), index as int);
    }
    None
}

/// The chat scope of a workspace that shows `view`.
pub fn chat_scope(view: &Json) -> (result: Result<String, String>)
    ensures
        shown(result) == chat_scope_of(view@),
{
    let owner = match view.text_at("ownerPersonId") {
        Some(owner) => owner,
        None => return Err("Match workspace has no owner".to_owned()),
    };
    match first_board(view) {
        Some(id) => Ok(joined(joined(owner, ":").as_str(), id)),
        None => Err("Match workspace has no board".to_owned()),
    }
}

/// The chat scope of the workspace whose document is in `source`.
pub fn match_chat_scope(source: &Document) -> (result: Result<String, String>)
    ensures
        shown(result) == match view_of(source@) {
            Ok(tree) => chat_scope_of(tree),
            Err(error) => Err(error),
        },
{
    match open_document(source) {
        Ok((_, view)) => chat_scope(&view),
        Err(error) => Err(error),
    }
}

/// Whether `after` is `before` with a new text object that holds `text` under
/// `key` of `object`.
pub open spec fn text_put(
    before: Contents,
    after: Contents,
    object: Seq<char>,
    key: Seq<char>,
    text: Seq<char>,
) -> bool {
    exists|name: Seq<char>|
        {
            &&& #[trigger] unused(before, name)
            &&& after.maps == with_field(before.maps, object, key, Field::Text(name))
            &&& after.texts == before.texts.insert(name, text)
        }
}

/// Puts `text` as a text object under `key` of `object`.
fn put_text(document: &mut AutoCommit, object: &ObjId, key: &str, text: &str) -> (result: Result<
    (),
    String,
>)
    requires
        is_genuine(*old(document)),
        has_room(contents(*old(document)), 1 + text@.len()),
    ensures
        is_genuine(*final(document)),
        contents(*final(document)).top <= contents(*old(document)).top + 1 + text@.len(),
        actor_of(*final(document)) == actor_of(*old(document)),
        result is Ok <==> contents(*old(document)).maps.contains_key(object_name(*object)),
        result is Err ==> contents(*final(document)).maps == contents(*old(document)).maps
            && contents(*final(document)).texts == contents(*old(document)).texts,
        same_rest(contents(*old(document)), contents(*final(document))),
        result is Ok ==> contents(*final(document)).pending,
        result is Ok ==> text_put(
            contents(*old(document)),
            contents(*final(document)),
            object_name(*object),
            key@,
            text@,
        ),
{
    match put_empty_text(document, object, key) {
        Ok(child) => {
            match fill_text(document, &child, text) {
                Ok(_) => {
                    assert(contents(*document).texts =~= contents(*old(document)).texts.insert(
                        object_name(child),
                        text@,
                    ));
                    assert(unused(contents(*old(document)), object_name(child)));
                    Ok(())
                },
                Err(error) => Err(automerge_error_text(&error)),
            }
        },
        Err(error) => Err(automerge_error_text(&error)),
    }
}

proof fn lemma_text_put(
    before: Contents,
    after: Contents,
    object: Seq<char>,
    key: Seq<char>,
    text: Seq<char>,
)
    requires
        before.maps.contains_key(object),
        text_put(before, after, object, key, text),
    ensures
        text_in(after, object, key) == Some(text),
        forall|o: Seq<char>, k: Seq<char>|
            (o != object || k != key) && text_in(before, o, k) is Some ==> #[trigger] text_in(
                after,
                o,
                k,
            ) == text_in(before, o, k),
        after.maps.dom() == before.maps.dom(),
        forall|o: Seq<char>|
            o != object && before.maps.contains_key(o) ==> #[trigger] after.maps[o]
                == before.maps[o],
        after.maps[object].dom() == before.maps[object].dom().insert(key),
        forall|k: Seq<char>|
            k != key && before.maps[object].contains_key(k) ==> #[trigger] after.maps[object][k]
                == before.maps[object][k],
        forall|n: Seq<char>|
            before.texts.contains_key(n) ==> #[trigger] after.texts.contains_key(n)
                && after.texts[n] == before.texts[n],
{
    let name = choose|name: Seq<char>|
        {
            &&& #[trigger] unused(before, name)
            &&& after.maps == with_field(before.maps, object, key, Field::Text(name))
            &&& after.texts == before.texts.insert(name, text)
        };
    assert(after.maps.dom() =~= before.maps.dom());
    assert(after.maps[object].dom() =~= before.maps[object].dom().insert(key));
}

/// A lead as it is written into the document.
pub struct LeadItem {
    pub id: String,
    pub title: String,
    pub body: String,
    pub created_at: String,
    pub column_id: String,
    pub rank: String,
    pub company_field: String,
    pub company: String,
    pub role_field: String,
    pub role: String,
    pub url_field: String,
    pub job_url: String,
}

/// The keys of a lead's map.
pub open spec fn lead_keys() -> Set<Seq<char>> {
    set![
        "id"@,
        "title"@,
        "body"@,
        "deleted"@,
        "createdAt"@,
        "updatedAt"@,
        "placement"@,
        "values"@,
    ]
}

/// The values of a lead, by the field that each is filed under; where two have
/// the same field, the later one counts.
pub open spec fn lead_values(lead: LeadItem) -> Map<Seq<char>, Seq<char>> {
    Map::<Seq<char>, Seq<char>>::empty().insert(lead.company_field@, lead.company@).insert(
        lead.role_field@,
        lead.role@,
    ).insert(lead.url_field@, lead.job_url@)
}

/// Whether the map `item`, with the maps `placement` and `values`, is `lead`.
pub open spec fn is_lead(
    held: Contents,
    lead: LeadItem,
    item: Seq<char>,
    placement: Seq<char>,
    values: Seq<char>,
) -> bool {
    &&& held.maps.contains_key(item)
    &&& held.maps[item].dom() == lead_keys()
    &&& text_in(held, item, "id"@) == Some(lead.id@)
    &&& text_in(held, item, "title"@) == Some(lead.title@)
    &&& text_in(held, item, "body"@) == Some(lead.body@)
    &&& held.maps[item]["deleted"@] == Field::Value(JsonTree::Bool(false))
    &&& text_in(held, item, "createdAt"@) == Some(lead.created_at@)
    &&& text_in(held, item, "updatedAt"@) == Some(lead.created_at@)
    &&& held.maps[item]["placement"@] == Field::Branch(placement)
    &&& held.maps.contains_key(placement)
    &&& held.maps[placement].dom() == set!["parentId"@, "rank"@]
    &&& text_in(held, placement, "parentId"@) == Some(lead.column_id@)
    &&& text_in(held, placement, "rank"@) == Some(lead.rank@)
    &&& held.maps[item]["values"@] == Field::Branch(values)
    &&& held.maps.contains_key(values)
    &&& held.maps[values].dom() == lead_values(lead).dom()
    &&& forall|key: Seq<char>|
        lead_values(lead).contains_key(key) ==> #[trigger] text_in(held, values, key) == Some(
            lead_values(lead)[key],
        )
}

/// Whether `after` is `before` with `lead` under its id in the map `entities`,
/// and everything else as it was.
pub open spec fn lead_added(
    before: Contents,
    after: Contents,
    entities: Seq<char>,
    lead: LeadItem,
) -> bool {
    &&& exists|item: Seq<char>, placement: Seq<char>, values: Seq<char>|
        {
            &&& #[trigger] is_lead(after, lead, item, placement, values)
            &&& after.maps[entities] == before.maps[entities].insert(lead.id@, Field::Branch(item))
            &&& unused(before, item)
            &&& unused(before, placement)
            &&& unused(before, values)
        }
    &&& after.maps.contains_key(entities)
    &&& forall|o: Seq<char>|
        o != entities && before.maps.contains_key(o) ==> #[trigger] after.maps.contains_key(o)
            && after.maps[o] == before.maps[o]
    &&& forall|n: Seq<char>|
        before.texts.contains_key(n) ==> #[trigger] after.texts.contains_key(n) && after.texts[n]
            == before.texts[n]
    &&& after.tables == before.tables
    &&& after.lists == before.lists
}

proof fn lemma_lead_key_names()
    ensures
        "id"@ != "title"@,
        "id"@ != "body"@,
        "id"@ != "deleted"@,
        "id"@ != "createdAt"@,
        "id"@ != "updatedAt"@,
        "id"@ != "placement"@,
        "id"@ != "values"@,
        "title"@ != "body"@,
        "title"@ != "deleted"@,
        "title"@ != "createdAt"@,
        "title"@ != "updatedAt"@,
        "title"@ != "placement"@,
        "title"@ != "values"@,
        "body"@ != "deleted"@,
        "body"@ != "createdAt"@,
        "body"@ != "updatedAt"@,
        "body"@ != "placement"@,
        "body"@ != "values"@,
        "deleted"@ != "createdAt"@,
        "deleted"@ != "updatedAt"@,
        "deleted"@ != "placement"@,
        "deleted"@ != "values"@,
        "createdAt"@ != "updatedAt"@,
        "createdAt"@ != "placement"@,
        "createdAt"@ != "values"@,
        "updatedAt"@ != "placement"@,
        "updatedAt"@ != "values"@,
        "placement"@ != "values"@,
        "parentId"@ != "rank"@,
{
    reveal_strlit("id");
    reveal_strlit("title");
    reveal_strlit("body");
    reveal_strlit("deleted");
    reveal_strlit("createdAt");
    reveal_strlit("updatedAt");
    reveal_strlit("placement");
    reveal_strlit("values");
    reveal_strlit("parentId");
    reveal_strlit("rank");
    assert("id"@.len() == 2);
    assert("title"@.len() == 5);
    assert("body"@.len() == 4);
    assert("deleted"@.len() == 7);
    assert("createdAt"@.len() == 9);
    assert("updatedAt"@.len() == 9);
    assert("placement"@.len() == 9);
    assert("values"@.len() == 6);
    assert("parentId"@.len() == 8);
    assert("rank"@.len() == 4);
    assert("createdAt"@[0] == 'c');
    assert("updatedAt"@[0] == 'u');
    assert("placement"@[0] == 'p');
}

/// Whether `after` is `before` with a new empty map named `child` under `key` of
/// `object`.
spec fn map_put(
    before: Contents,
    after: Contents,
    object: Seq<char>,
    key: Seq<char>,
    child: Seq<char>,
) -> bool {
    &&& unused(before, child)
    &&& after.maps == with_field(before.maps, object, key, Field::Branch(child)).insert(
        child,
        Map::empty(),
    )
    &&& after.texts == before.texts
}

proof fn lemma_map_put(
    before: Contents,
    after: Contents,
    object: Seq<char>,
    key: Seq<char>,
    child: Seq<char>,
)
    requires
        before.maps.contains_key(object),
        map_put(before, after, object, key, child),
    ensures
        child != object,
        after.maps.dom() == before.maps.dom().insert(child),
        after.maps[child] == Map::<Seq<char>, Field>::empty(),
        after.maps[object] == before.maps[object].insert(key, Field::Branch(child)),
        forall|o: Seq<char>|
            o != object && before.maps.contains_key(o) ==> #[trigger] after.maps[o]
                == before.maps[o],
        forall|o: Seq<char>, k: Seq<char>|
            (o != object || k != key) && text_in(before, o, k) is Some ==> #[trigger] text_in(
                after,
                o,
                k,
            ) == text_in(before, o, k),
{
    assert(after.maps.dom() =~= before.maps.dom().insert(child));
}

/// How many operations the lead's own texts take, with its truth value.
pub open spec fn texts_size(lead: LeadItem) -> nat {
    6 + lead.id@.len() + lead.title@.len() + lead.body@.len() + 2 * lead.created_at@.len()
}

/// How many operations a lead takes: one for each of its objects and its truth
/// value, and one for each character of its texts.
pub open spec fn lead_size(lead: LeadItem) -> nat {
    1 + texts_size(lead) + 7 + lead.column_id@.len() + lead.rank@.len() + lead.company@.len()
        + lead.role@.len() + lead.job_url@.len()
}

/// Whether a document whose last operation is `top` has room for a lead.
fn lead_fits(top: u64, lead: &LeadItem) -> (result: bool)
    ensures
        result == (top + lead_size(*lead) <= u32::MAX),
{
    let id: u128 = lead.id.as_str().unicode_len() as u128;
    let title: u128 = lead.title.as_str().unicode_len() as u128;
    let body: u128 = lead.body.as_str().unicode_len() as u128;
    let created: u128 = lead.created_at.as_str().unicode_len() as u128;
    let column: u128 = lead.column_id.as_str().unicode_len() as u128;
    let rank: u128 = lead.rank.as_str().unicode_len() as u128;
    let company: u128 = lead.company.as_str().unicode_len() as u128;
    let role: u128 = lead.role.as_str().unicode_len() as u128;
    let url: u128 = lead.job_url.as_str().unicode_len() as u128;
    let size: u128 = 14 + id + title + body + 2 * created + column + rank + company + role + url;
    top as u128 + size <= u32::MAX as u128
}

/// The number of the last operation of a document.
fn last_operation(document: &mut AutoCommit) -> (result: u64)
    requires
        is_genuine(*old(document)),
        !contents(*old(document)).pending,
    ensures
        result == contents(*old(document)).top,
        contents(*final(document)) == contents(*old(document)),
        actor_of(*final(document)) == actor_of(*old(document)),
        is_genuine(*final(document)),
{
    let numbers = operation_numbers(document);
    let mut top: u64 = 0;
    let mut index: usize = 0;
    while index < numbers.len()
        invariant
            index <= numbers@.len(),
            top == highest(numbers@.take(index as int)),
        decreases numbers@.len() - index,
    {
        proof {
            let seen = numbers@.take(index + 1);
            assert(seen.drop_last() =~= numbers@.take(index as int));
        }
        if top < numbers[index] {
            top = numbers[index];
        }
        index = index + 1;
    }
    assert(numbers@.take(index as int) =~= numbers@);
    top
}

/// Writes the lead's own texts into its new map `item`.
fn put_lead_texts(document: &mut AutoCommit, item: &ObjId, lead: &LeadItem) -> (result: Result<
    (),
    String,
>)
    requires
        is_genuine(*old(document)),
        has_room(contents(*old(document)), texts_size(*lead)),
        contents(*old(document)).maps.contains_key(object_name(*item)),
        contents(*old(document)).maps[object_name(*item)] == Map::<Seq<char>, Field>::empty(),
    ensures
        is_genuine(*final(document)),
        contents(*final(document)).top <= contents(*old(document)).top + texts_size(*lead),
        actor_of(*final(document)) == actor_of(*old(document)),
        result is Ok,
        same_rest(contents(*old(document)), contents(*final(document))),
        lead_texts_put(
            contents(*old(document)),
            contents(*final(document)),
            object_name(*item),
            *lead,
        ),
{
    let ghost name = object_name(*item);
    let ghost s0 = contents(*document);
    let _ = put_text(document, item, "id", lead.id.as_str())?;
    let ghost s1 = contents(*document);
    let _ = put_text(document, item, "title", lead.title.as_str())?;
    let ghost s2 = contents(*document);
    let _ = put_text(document, item, "body", lead.body.as_str())?;
    let ghost s3 = contents(*document);
    match put_flag(document, item, "deleted", false) {
        Ok(_) => {},
        Err(error) => return Err(automerge_error_text(&error)),
    }
    let ghost s4 = contents(*document);
    let _ = put_text(document, item, "createdAt", lead.created_at.as_str())?;
    let ghost s5 = contents(*document);
    let _ = put_text(document, item, "updatedAt", lead.created_at.as_str())?;
    proof {
        let s6 = contents(*document);
        lemma_lead_key_names();
        lemma_text_put(s0, s1, name, "id"@, lead.id@);
        lemma_text_put(s1, s2, name, "title"@, lead.title@);
        lemma_text_put(s2, s3, name, "body"@, lead.body@);
        assert(s4.maps.dom() =~= s3.maps.dom());
        assert(s4.maps[name].dom() =~= s3.maps[name].dom().insert("deleted"@));
        assert(forall|k: Seq<char>|
            k != "deleted"@ && text_in(s3, name, k) is Some ==> #[trigger] text_in(s4, name, k)
                == text_in(s3, name, k));
        lemma_text_put(s4, s5, name, "createdAt"@, lead.created_at@);
        lemma_text_put(s5, s6, name, "updatedAt"@, lead.created_at@);
        assert(s6.maps[name].dom() =~= set![
            "id"@,
            "title"@,
            "body"@,
            "deleted"@,
            "createdAt"@,
            "updatedAt"@,
        ]);
        assert(s6.maps.dom() =~= s0.maps.dom());
    }
    Ok(())
}

/// Whether `after` is `before` with the texts of `lead` in the map `item`.
spec fn lead_texts_put(before: Contents, after: Contents, item: Seq<char>, lead: LeadItem) -> bool {
    &&& after.maps.dom() == before.maps.dom()
    &&& forall|o: Seq<char>|
        o != item && before.maps.contains_key(o) ==> #[trigger] after.maps[o] == before.maps[o]
    &&& forall|n: Seq<char>|
        before.texts.contains_key(n) ==> #[trigger] after.texts.contains_key(n) && after.texts[n]
            == before.texts[n]
    &&& after.maps[item].dom() == set![
        "id"@,
        "title"@,
        "body"@,
        "deleted"@,
        "createdAt"@,
        "updatedAt"@,
    ]
    &&& text_in(after, item, "id"@) == Some(lead.id@)
    &&& text_in(after, item, "title"@) == Some(lead.title@)
    &&& text_in(after, item, "body"@) == Some(lead.body@)
    &&& after.maps[item]["deleted"@] == Field::Value(JsonTree::Bool(false))
    &&& text_in(after, item, "createdAt"@) == Some(lead.created_at@)
    &&& text_in(after, item, "updatedAt"@) == Some(lead.created_at@)
}

/// Whether `after` is `before` with `lead` in the map `item`, which had nothing, and
/// everything else as it was.
spec fn lead_filled(before: Contents, after: Contents, item: Seq<char>, lead: LeadItem) -> bool {
    &&& exists|placement: Seq<char>, values: Seq<char>|
        {
            &&& #[trigger] is_lead(after, lead, item, placement, values)
            &&& unused(before, placement)
            &&& unused(before, values)
        }
    &&& forall|o: Seq<char>|
        o != item && before.maps.contains_key(o) ==> #[trigger] after.maps.contains_key(o)
            && after.maps[o] == before.maps[o]
    &&& forall|n: Seq<char>|
        before.texts.contains_key(n) ==> #[trigger] after.texts.contains_key(n) && after.texts[n]
            == before.texts[n]
}

/// Writes `lead` into its new map `item`.
fn fill_lead(document: &mut AutoCommit, item: &ObjId, lead: &LeadItem) -> (result: Result<
    (),
    String,
>)
    requires
        is_genuine(*old(document)),
        contents(*old(document)).top + lead_size(*lead) <= u32::MAX + 1,
        contents(*old(document)).maps.contains_key(object_name(*item)),
        contents(*old(document)).maps[object_name(*item)] == Map::<Seq<char>, Field>::empty(),
    ensures
        is_genuine(*final(document)),
        actor_of(*final(document)) == actor_of(*old(document)),
        result is Ok,
        same_rest(contents(*old(document)), contents(*final(document))),
        contents(*final(document)).pending,
        lead_filled(
            contents(*old(document)),
            contents(*final(document)),
            object_name(*item),
            *lead,
        ),
{
    let ghost name = object_name(*item);
    let ghost s0 = contents(*document);
    let _ = put_lead_texts(document, item, lead)?;
    let ghost s1 = contents(*document);
    let placement = match put_map(document, item, "placement") {
        Ok(placement) => placement,
        Err(error) => return Err(automerge_error_text(&error)),
    };
    let ghost placed = object_name(placement);
    let ghost s2 = contents(*document);
    proof {
        lemma_map_put(s1, s2, name, "placement"@, placed);
    }
    let _ = put_text(document, &placement, "parentId", lead.column_id.as_str())?;
    let ghost s3 = contents(*document);
    let _ = put_text(document, &placement, "rank", lead.rank.as_str())?;
    let ghost s4 = contents(*document);
    proof {
        lemma_text_put(s2, s3, placed, "parentId"@, lead.column_id@);
        lemma_text_put(s3, s4, placed, "rank"@, lead.rank@);
    }
    let values = match put_map(document, item, "values") {
        Ok(values) => values,
        Err(error) => return Err(automerge_error_text(&error)),
    };
    let ghost filed = object_name(values);
    let ghost s5 = contents(*document);
    proof {
        lemma_map_put(s4, s5, name, "values"@, filed);
    }
    let _ = put_text(document, &values, lead.company_field.as_str(), lead.company.as_str())?;
    let ghost s6 = contents(*document);
    let _ = put_text(document, &values, lead.role_field.as_str(), lead.role.as_str())?;
    let ghost s7 = contents(*document);
    let _ = put_text(document, &values, lead.url_field.as_str(), lead.job_url.as_str())?;
    proof {
        let s8 = contents(*document);
        lemma_lead_key_names();
        lemma_text_put(s5, s6, filed, lead.company_field@, lead.company@);
        lemma_text_put(s6, s7, filed, lead.role_field@, lead.role@);
        lemma_text_put(s7, s8, filed, lead.url_field@, lead.job_url@);
        assert(s8.maps[name].dom() =~= lead_keys());
        assert(s8.maps[placed].dom() =~= set!["parentId"@, "rank"@]);
        assert(s8.maps[filed].dom() =~= lead_values(*lead).dom());
        assert(is_lead(s8, *lead, name, placed, filed));
    }
    Ok(())
}

/// Whether `hash` and `bytes` are what comes of writing `lead` into the map
/// `entities` of a document that holds `before`, by the device `actor`, in one
/// change with `message`: the changes of the document that is saved are those of
/// before, and that one.
pub open spec fn lead_committed(
    before: Contents,
    entities: Seq<char>,
    actor: Seq<char>,
    lead: LeadItem,
    message: Seq<char>,
    bytes: Seq<u8>,
    hash: Seq<char>,
) -> bool {
    exists|edited: AutoCommit, done: AutoCommit|
        {
            &&& lead_added(before, contents(edited), entities, lead)
            &&& same_rest(before, contents(edited))
            &&& actor_of(edited) == encode_utf8(actor)
            &&& #[trigger] committed(edited, message) == hash
            &&& contents(done).maps == contents(edited).maps
            &&& contents(done).texts == contents(edited).texts
            &&& contents(done).hashes.to_set() == before.hashes.to_set().insert(hash)
            &&& is_genuine(done)
            &&& is_saved_as(done, bytes)
            &&& bytes == #[trigger] saved_bytes(done)
            &&& saved_in(bytes, contents(edited), before.hashes.to_set().insert(hash))
        }
}

/// What is said where a document has no room for another lead.
pub open spec fn no_room() -> Seq<char> {
    "Match document has no room for another lead"@
}

/// Begins the lead `id` among the entities of `document`, for edits by `actor`: the
/// document with an empty map under the lead's id, that map, and the number of the
/// document's last operation before.
pub(crate) fn begin_lead(document: AutoCommit, actor: &str, id: &str) -> (result: Result<
    LeadStart,
    String,
>)
    requires
        is_genuine(document),
        !contents(document).pending,
    ensures
        match result {
            Ok(start) => {
                &&& has_room(contents(document), 1)
                &&& root_map(contents(document), "entities"@) is Some
                &&& is_begun(start, contents(document), actor@, id@)
            },
            Err(error) => match contents(document).maps[root()].contains_key("entities"@) {
                false => error@ == "Missing Match entities"@,
                true => if !has_room(contents(document), 1) {
                    error@ == no_room()
                } else {
                    root_map(contents(document), "entities"@) is None && error@ == refusal(
                        contents(document).maps[root()]["entities"@],
                    )
                },
            },
        },
{
    let mut document = document;
    set_actor(&mut document, actor.as_bytes());
    let entities = match root_entry(&document, "entities") {
        Ok(Some(entities)) => entities,
        Ok(None) => return Err("Missing Match entities".to_owned()),
        Err(error) => return Err(automerge_error_text(&error)),
    };
    let top = last_operation(&mut document);
    if top >= u32::MAX as u64 {
        return Err("Match document has no room for another lead".to_owned());
    }
    match put_map(&mut document, &entities, id) {
        Ok(item) => Ok(LeadStart { document, item, top }),
        Err(error) => Err(automerge_error_text(&error)),
    }
}

/// A lead that was begun: the document with an empty map for it, that map, and the
/// number of the document's last operation before.
pub(crate) struct LeadStart {
    pub document: AutoCommit,
    pub item: ObjId,
    pub top: u64,
}

/// Whether `start` is what comes of beginning the lead `id`, for edits by `actor`, in
/// a document that holds `before`.
pub(crate) closed spec fn is_begun(
    start: LeadStart,
    before: Contents,
    actor: Seq<char>,
    id: Seq<char>,
) -> bool {
    &&& is_genuine(start.document)
    &&& start.top == before.top
    &&& contents(start.document).top <= before.top + 1
    &&& actor_of(start.document) == encode_utf8(actor)
    &&& same_rest(before, contents(start.document))
    &&& map_put(
        before,
        contents(start.document),
        root_map(before, "entities"@)->0,
        id,
        object_name(start.item),
    )
}

/// Writes `lead`, which was begun, commits it and saves the document: its bytes, and
/// the hash of the change; or that there is no room for the lead.
pub(crate) fn write_lead(
    start: LeadStart,
    lead: &LeadItem,
    message: &str,
    Ghost(before): Ghost<Contents>,
    Ghost(actor): Ghost<Seq<char>>,
) -> (result: Result<(Vec<u8>, String), String>)
    requires
        root_map(before, "entities"@) is Some,
        is_begun(start, before, actor, lead.id@),
    ensures
        match result {
            Ok((bytes, hash)) => has_room(before, lead_size(*lead)) && lead_committed(
                before,
                root_map(before, "entities"@)->0,
                actor,
                *lead,
                message@,
                bytes@,
                hash@,
            ),
            Err(error) => !has_room(before, lead_size(*lead)) && error@ == no_room(),
        },
{
    if !lead_fits(start.top, lead) {
        return Err("Match document has no room for another lead".to_owned());
    }
    let LeadStart { document, item, top: _ } = start;
    let mut document = document;
    let ghost entities = root_map(before, "entities"@)->0;
    let ghost begun = contents(document);
    proof {
        lemma_map_put(before, begun, entities, lead.id@, object_name(item));
    }
    let _ = fill_lead(&mut document, &item, lead)?;
    let ghost edited = document;
    proof {
        lemma_lead_added(before, begun, contents(edited), entities, *lead, object_name(item));
    }
    match commit(&mut document, message) {
        Some(hash) => {
            let ghost done = document;
            let bytes = save(&mut document);
            assert(committed(edited, message@) == hash@);
            assert(bytes@ == saved_bytes(done));
            Ok((bytes, hash))
        },
        None => Err("Automerge produced no lead change".to_owned()),
    }
}

proof fn lemma_lead_added(
    before: Contents,
    begun: Contents,
    after: Contents,
    entities: Seq<char>,
    lead: LeadItem,
    item: Seq<char>,
)
    requires
        before.maps.contains_key(entities),
        map_put(before, begun, entities, lead.id@, item),
        same_rest(before, begun),
        lead_filled(begun, after, item, lead),
        same_rest(begun, after),
    ensures
        lead_added(before, after, entities, lead),
{
    lemma_map_put(before, begun, entities, lead.id@, item);
    let (placement, values) = choose|placement: Seq<char>, values: Seq<char>|
        {
            &&& #[trigger] is_lead(after, lead, item, placement, values)
            &&& unused(begun, placement)
            &&& unused(begun, values)
        };
    assert(is_lead(after, lead, item, placement, values));
    assert(begun.maps.contains_key(entities));
    assert(after.maps.contains_key(entities));
    assert(unused(before, placement));
    assert(unused(before, values));
    assert forall|o: Seq<char>| o != entities && before.maps.contains_key(o) implies
        #[trigger] after.maps.contains_key(o) && after.maps[o] == before.maps[o] by {
        assert(begun.maps.contains_key(o));
    }
}

/// The text under `key` of the entity `id`, where that is a map of its own.
pub open spec fn entity_text(held: Contents, id: Seq<char>, key: Seq<char>) -> Option<Seq<char>> {
    match root_map(held, "entities"@) {
        None => None,
        Some(entities) => if held.maps[entities].contains_key(id) {
            match held.maps[entities][id] {
                Field::Branch(child) => if child != entities {
                    text_in(held, child, key)
                } else {
                    None
                },
                _ => None,
            }
        } else {
            None
        },
    }
}

/// Whether an entity that shows `tree` is `lead`.
pub open spec fn shows_lead(tree: JsonTree, lead: LeadItem) -> bool {
    &&& tree.text_at("id"@) == Some(lead.id@)
    &&& tree.text_at("title"@) == Some(lead.title@)
    &&& tree.text_at("body"@) == Some(lead.body@)
    &&& tree.get("deleted"@) == Some(JsonTree::Bool(false))
    &&& tree.text_at("createdAt"@) == Some(lead.created_at@)
    &&& tree.text_at("updatedAt"@) == Some(lead.created_at@)
    &&& tree.text_at2("placement"@, "parentId"@) == Some(lead.column_id@)
    &&& tree.text_at2("placement"@, "rank"@) == Some(lead.rank@)
    &&& forall|key: Seq<char>|
        lead_values(lead).contains_key(key) ==> #[trigger] tree.text_at2("values"@, key) == Some(
            lead_values(lead)[key],
        )
}

proof fn lemma_text_shows(
    held: Contents,
    object: Seq<char>,
    key: Seq<char>,
    tree: JsonTree,
    depth: nat,
)
    requires
        shows(held, Field::Branch(object), tree, depth),
        depth > 0,
        text_in(held, object, key) is Some,
    ensures
        tree.text_at(key) == text_in(held, object, key),
{
    let shown = tree.get(key)->0;
    assert(tree.get(key) is Some);
    assert(shows(held, held.maps[object][key], shown, (depth - 1) as nat));
}

proof fn lemma_branch_shows(
    held: Contents,
    object: Seq<char>,
    key: Seq<char>,
    child: Seq<char>,
    tree: JsonTree,
    depth: nat,
)
    requires
        shows(held, Field::Branch(object), tree, depth),
        depth > 0,
        held.maps[object].contains_key(key),
        held.maps[object][key] == Field::Branch(child),
    ensures
        tree.get(key) is Some,
        shows(held, Field::Branch(child), tree.get(key)->0, (depth - 1) as nat),
{
    assert(tree.get(key) is Some);
}

proof fn lemma_lead_shows(
    held: Contents,
    lead: LeadItem,
    item: Seq<char>,
    placement: Seq<char>,
    values: Seq<char>,
    tree: JsonTree,
)
    requires
        is_lead(held, lead, item, placement, values),
        shows(held, Field::Branch(item), tree, 2),
    ensures
        shows_lead(tree, lead),
{
    lemma_text_shows(held, item, "id"@, tree, 2);
    lemma_text_shows(held, item, "title"@, tree, 2);
    lemma_text_shows(held, item, "body"@, tree, 2);
    lemma_text_shows(held, item, "createdAt"@, tree, 2);
    lemma_text_shows(held, item, "updatedAt"@, tree, 2);
    assert(held.maps[item].contains_key("deleted"@));
    assert(tree.get("deleted"@) is Some);
    assert(shows(held, held.maps[item]["deleted"@], tree.get("deleted"@)->0, 1));
    assert(held.maps[item].contains_key("placement"@));
    lemma_branch_shows(held, item, "placement"@, placement, tree, 2);
    lemma_text_shows(held, placement, "parentId"@, tree.get("placement"@)->0, 1);
    lemma_text_shows(held, placement, "rank"@, tree.get("placement"@)->0, 1);
    assert(held.maps[item].contains_key("values"@));
    lemma_branch_shows(held, item, "values"@, values, tree, 2);
    assert forall|key: Seq<char>| lead_values(lead).contains_key(key) implies #[trigger] tree.text_at2(
        "values"@,
        key,
    ) == Some(lead_values(lead)[key]) by {
        assert(text_in(held, values, key) == Some(lead_values(lead)[key]));
        lemma_text_shows(held, values, key, tree.get("values"@)->0, 1);
    }
}

/// A lead that was written is found again: the saved document, where it loads,
/// shows the lead as an entity under its id, and still shows every entity that it
/// showed before, with the texts that it had. It has one change more than before,
/// the lead's. What waited for that change alone is left out: it would come in with
/// it.
pub proof fn law_written_lead_is_found(
    before: Contents,
    actor: Seq<char>,
    lead: LeadItem,
    message: Seq<char>,
    bytes: Seq<u8>,
    hash: Seq<char>,
    other: Seq<char>,
    key: Seq<char>,
)
    requires
        root_map(before, "entities"@) is Some,
        lead.id@ != "entities"@,
        lead_committed(before, root_map(before, "entities"@)->0, actor, lead, message, bytes, hash),
        is_settled(before.waiting, before.hashes.to_set().insert(hash)),
        loaded(bytes) is Ok,
    ensures
        loaded(bytes)->Ok_0.hashes.to_set() == before.hashes.to_set().insert(hash),
        loaded(bytes)->Ok_0.json.members_at("entities"@) matches Some(entities) && (member(
            entities,
            lead.id@,
        ) matches Some(entity) && shows_lead(entity, lead)) && (before.maps[root_map(
            before,
            "entities"@,
        )->0].contains_key(other) ==> member(entities, other) is Some) && (entity_text(
            before,
            other,
            key,
        ) is Some && other != lead.id@ ==> member(entities, other)->0.text_at(key) == entity_text(
            before,
            other,
            key,
        )),
{
    let entities = root_map(before, "entities"@)->0;
    let (edited, done) = choose|edited: AutoCommit, done: AutoCommit|
        {
            &&& lead_added(before, contents(edited), entities, lead)
            &&& same_rest(before, contents(edited))
            &&& actor_of(edited) == encode_utf8(actor)
            &&& #[trigger] committed(edited, message) == hash
            &&& contents(done).maps == contents(edited).maps
            &&& contents(done).texts == contents(edited).texts
            &&& contents(done).hashes.to_set() == before.hashes.to_set().insert(hash)
            &&& is_genuine(done)
            &&& is_saved_as(done, bytes)
            &&& bytes == #[trigger] saved_bytes(done)
            &&& saved_in(bytes, contents(edited), before.hashes.to_set().insert(hash))
        };
    let held = loaded(bytes)->Ok_0;
    let tree = held.json;
    assert(contents(edited).maps.contains_key(root()));
    assert(held.maps[root()]["entities"@] == before.maps[root()]["entities"@]);
    assert(root_map(held, "entities"@) == Some(entities));
    let (item, placement, values) = choose|item: Seq<char>, placement: Seq<char>, values: Seq<char>|
        {
            &&& #[trigger] is_lead(contents(edited), lead, item, placement, values)
            &&& contents(edited).maps[entities] == before.maps[entities].insert(
                lead.id@,
                Field::Branch(item),
            )
            &&& unused(before, item)
            &&& unused(before, placement)
            &&& unused(before, values)
        };
    assert forall|key: Seq<char>| lead_values(lead).contains_key(key) implies #[trigger] text_in(
        held,
        values,
        key,
    ) == Some(lead_values(lead)[key]) by {
        assert(text_in(contents(edited), values, key) == Some(lead_values(lead)[key]));
    }
    assert(is_lead(held, lead, item, placement, values));
    assert(shows(held, Field::Branch(root()), tree, 4));
    lemma_branch_shows(held, root(), "entities"@, entities, tree, 4);
    lemma_branch_shows(held, entities, lead.id@, item, tree.get("entities"@)->0, 3);
    lemma_lead_shows(
        held,
        lead,
        item,
        placement,
        values,
        tree.get("entities"@)->0.get(lead.id@)->0,
    );
    lemma_root_shows(held, "entities"@, other);
    if entity_text(before, other, key) is Some && other != lead.id@ {
        let child = before.maps[entities][other]->Branch_0;
        lemma_branch_shows(held, entities, other, child, tree.get("entities"@)->0, 3);
        assert(contents(edited).maps.contains_key(child));
        assert(text_in(held, child, key) == text_in(before, child, key));
        lemma_text_shows(held, child, key, tree.get("entities"@)->0.get(other)->0, 2);
    }
}

/// What comes of writing a lead can be read: Automerge wrote it.
pub proof fn law_written_document_is_readable(
    before: Contents,
    entities: Seq<char>,
    actor: Seq<char>,
    lead: LeadItem,
    message: Seq<char>,
    bytes: Seq<u8>,
    hash: Seq<char>,
)
    requires
        lead_committed(before, entities, actor, lead, message, bytes, hash),
    ensures
        is_readable(bytes),
{
}

/// Where a lead was written, the saved document has its map, and shows it under the
/// lead's id.
proof fn lemma_written_lead_shows(
    before: Contents,
    actor: Seq<char>,
    lead: LeadItem,
    message: Seq<char>,
    bytes: Seq<u8>,
    hash: Seq<char>,
) -> (item: Seq<char>)
    requires
        root_map(before, "entities"@) is Some,
        lead.id@ != "entities"@,
        lead_committed(before, root_map(before, "entities"@)->0, actor, lead, message, bytes, hash),
        is_settled(before.waiting, before.hashes.to_set().insert(hash)),
        loaded(bytes) is Ok,
    ensures
        ({
            let held = loaded(bytes)->Ok_0;
            &&& held.json.at2("entities"@, lead.id@) is Some
            &&& shows(held, Field::Branch(item), held.json.at2("entities"@, lead.id@)->0, 2)
            &&& exists|placement: Seq<char>, values: Seq<char>|
                #[trigger] is_lead(held, lead, item, placement, values)
        }),
{
    let entities = root_map(before, "entities"@)->0;
    let (edited, done) = choose|edited: AutoCommit, done: AutoCommit|
        {
            &&& lead_added(before, contents(edited), entities, lead)
            &&& same_rest(before, contents(edited))
            &&& actor_of(edited) == encode_utf8(actor)
            &&& #[trigger] committed(edited, message) == hash
            &&& contents(done).maps == contents(edited).maps
            &&& contents(done).texts == contents(edited).texts
            &&& contents(done).hashes.to_set() == before.hashes.to_set().insert(hash)
            &&& is_genuine(done)
            &&& is_saved_as(done, bytes)
            &&& bytes == #[trigger] saved_bytes(done)
            &&& saved_in(bytes, contents(edited), before.hashes.to_set().insert(hash))
        };
    let held = loaded(bytes)->Ok_0;
    let tree = held.json;
    assert(contents(edited).maps.contains_key(root()));
    assert(held.maps[root()]["entities"@] == before.maps[root()]["entities"@]);
    let (item, placement, values) = choose|item: Seq<char>, placement: Seq<char>, values: Seq<char>|
        {
            &&& #[trigger] is_lead(contents(edited), lead, item, placement, values)
            &&& contents(edited).maps[entities] == before.maps[entities].insert(
                lead.id@,
                Field::Branch(item),
            )
            &&& unused(before, item)
            &&& unused(before, placement)
            &&& unused(before, values)
        };
    assert forall|key: Seq<char>| lead_values(lead).contains_key(key) implies #[trigger] text_in(
        held,
        values,
        key,
    ) == Some(lead_values(lead)[key]) by {
        assert(text_in(contents(edited), values, key) == Some(lead_values(lead)[key]));
    }
    assert(is_lead(held, lead, item, placement, values));
    assert(shows(held, Field::Branch(root()), tree, 4));
    lemma_branch_shows(held, root(), "entities"@, entities, tree, 4);
    lemma_branch_shows(held, entities, lead.id@, item, tree.get("entities"@)->0, 3);
    item
}

/// A lead that was written reads back as it was written, member by member: what the
/// saved document shows under its id has the lead's texts under their own keys, is
/// not deleted, stands in its column at its rank, and has the company, the role and
/// the address under the fields they are filed under, of which the later one counts
/// where two are the same. It has these eight members and no other.
pub proof fn law_written_lead_reads_back(
    before: Contents,
    actor: Seq<char>,
    lead: LeadItem,
    message: Seq<char>,
    bytes: Seq<u8>,
    hash: Seq<char>,
    key: Seq<char>,
)
    requires
        root_map(before, "entities"@) is Some,
        lead.id@ != "entities"@,
        lead_committed(before, root_map(before, "entities"@)->0, actor, lead, message, bytes, hash),
        is_settled(before.waiting, before.hashes.to_set().insert(hash)),
        loaded(bytes) is Ok,
    ensures
        loaded(bytes)->Ok_0.json.at2("entities"@, lead.id@) matches Some(entity) && {
            &&& entity.get("id"@) == Some(JsonTree::Text(lead.id@))
            &&& entity.get("title"@) == Some(JsonTree::Text(lead.title@))
            &&& entity.get("body"@) == Some(JsonTree::Text(lead.body@))
            &&& entity.get("deleted"@) == Some(JsonTree::Bool(false))
            &&& entity.get("createdAt"@) == Some(JsonTree::Text(lead.created_at@))
            &&& entity.get("updatedAt"@) == Some(JsonTree::Text(lead.created_at@))
            &&& entity.at2("placement"@, "parentId"@) == Some(JsonTree::Text(lead.column_id@))
            &&& entity.at2("placement"@, "rank"@) == Some(JsonTree::Text(lead.rank@))
            &&& entity.at2("values"@, lead.url_field@) == Some(JsonTree::Text(lead.job_url@))
            &&& lead.role_field@ != lead.url_field@ ==> entity.at2("values"@, lead.role_field@)
                == Some(JsonTree::Text(lead.role@))
            &&& lead.company_field@ != lead.url_field@ && lead.company_field@ != lead.role_field@
                ==> entity.at2("values"@, lead.company_field@) == Some(
                JsonTree::Text(lead.company@),
            )
            &&& entity.get(key) is Some <==> key == "id"@ || key == "title"@ || key == "body"@
                || key == "deleted"@ || key == "createdAt"@ || key == "updatedAt"@ || key
                == "placement"@ || key == "values"@
            &&& entity.at2("values"@, key) is Some <==> key == lead.company_field@ || key
                == lead.role_field@ || key == lead.url_field@
            &&& entity.at2("placement"@, key) is Some <==> key == "parentId"@ || key == "rank"@
        },
{
    let held = loaded(bytes)->Ok_0;
    let item = lemma_written_lead_shows(before, actor, lead, message, bytes, hash);
    let entity = held.json.at2("entities"@, lead.id@)->0;
    let (placement, values) = choose|placement: Seq<char>, values: Seq<char>|
        #[trigger] is_lead(held, lead, item, placement, values);
    lemma_lead_shows(held, lead, item, placement, values, entity);
    assert(entity.get(key) is Some <==> held.maps[item].contains_key(key));
    assert(held.maps[item].dom().contains(key) <==> lead_keys().contains(key));
    assert(held.maps[item].contains_key("placement"@));
    assert(held.maps[item].contains_key("values"@));
    lemma_branch_shows(held, item, "placement"@, placement, entity, 2);
    lemma_branch_shows(held, item, "values"@, values, entity, 2);
    let placed = entity.get("placement"@)->0;
    let filed = entity.get("values"@)->0;
    assert(placed.get(key) is Some <==> held.maps[placement].contains_key(key));
    assert(held.maps[placement].dom().contains(key) <==> set!["parentId"@, "rank"@].contains(key));
    assert(filed.get(key) is Some <==> held.maps[values].contains_key(key));
    assert(held.maps[values].dom().contains(key) <==> lead_values(lead).dom().contains(key));
    assert(lead_values(lead).contains_key(lead.url_field@));
    assert(lead_values(lead).contains_key(lead.role_field@));
    assert(lead_values(lead).contains_key(lead.company_field@));
    assert(entity.text_at2("values"@, lead.url_field@) == Some(lead.job_url@));
    assert(entity.text_at2("values"@, lead.role_field@) == Some(
        lead_values(lead)[lead.role_field@],
    ));
    assert(entity.text_at2("values"@, lead.company_field@) == Some(
        lead_values(lead)[lead.company_field@],
    ));
}

/// The chat of a workspace goes by its owner and by its first board: the text under
/// "ownerPersonId", a colon, and the key of the first entity whose kind is "board".
/// Without an owner, or without a board, there is no chat.
pub proof fn law_chat_goes_by_the_owner_and_the_first_board(tree: JsonTree, k: int)
    ensures
        tree.text_at("ownerPersonId"@) is None ==> chat_scope_of(tree) == Err::<
            Seq<char>,
            Seq<char>,
        >("Match workspace has no owner"@),
        tree.text_at("ownerPersonId"@) is Some && (tree.members_at("entities"@) matches Some(
            entities,
        ) ==> forall|i: int|
            0 <= i < entities.len() ==> (#[trigger] entities[i]).1.text_at("kind"@) != Some(
                "board"@,
            )) ==> chat_scope_of(tree) == Err::<Seq<char>, Seq<char>>(
            "Match workspace has no board"@,
        ),
        (tree.members_at("entities"@) matches Some(entities) && 0 <= k < entities.len()
            && entities[k].1.text_at("kind"@) == Some("board"@) && forall|j: int|
            0 <= j < k ==> (#[trigger] entities[j]).1.text_at("kind"@) != Some("board"@)) ==> (
        tree.text_at("ownerPersonId"@) matches Some(owner) ==> chat_scope_of(tree) == Ok::<
            Seq<char>,
            Seq<char>,
        >(owner + ":"@ + tree.members_at("entities"@)->0[k].0)),
{
    if tree.members_at("entities"@) is Some {
        let entities = tree.members_at("entities"@)->0;
        lemma_first_member_stands(entities, is_board());
        if 0 <= k < entities.len() && entities[k].1.text_at("kind"@) == Some("board"@) && (
        forall|j: int|
            0 <= j < k ==> (#[trigger] entities[j]).1.text_at("kind"@) != Some("board"@)) {
            assert forall|j: int| 0 <= j < k implies !is_board()(#[trigger] entities[j].1) by {
                assert(entities[j].1.text_at("kind"@) != Some("board"@));
            }
            lemma_first_member_at(entities, is_board(), k);
        }
        if forall|i: int|
            0 <= i < entities.len() ==> (#[trigger] entities[i]).1.text_at("kind"@) != Some(
                "board"@,
            ) {
            if first_member(entities, is_board()) is Some {
                let i = choose|i: int|
                    0 <= i < entities.len() && #[trigger] entities[i] == first_member(
                        entities,
                        is_board(),
                    )->0 && is_board()(entities[i].1);
                assert(entities[i].1.text_at("kind"@) != Some("board"@));
            }
        }
    }
}

/// A lead takes one operation for each of its three maps, its ten texts and its truth
/// value, and one for each character of the texts; a document has room for operations up
/// to the largest number of 32 bits.
pub proof fn law_lead_takes_an_operation_for_each_character(
    held: Contents,
    lead: LeadItem,
    more: nat,
)
    ensures
        lead_size(lead) == 14 + lead.id@.len() + lead.title@.len() + lead.body@.len() + 2
            * lead.created_at@.len() + lead.column_id@.len() + lead.rank@.len()
            + lead.company@.len() + lead.role@.len() + lead.job_url@.len(),
        has_room(held, more) <==> held.top + more <= 4_294_967_295,
{
}

/// The number of a document's last operation is the highest of its changes' numbers: none
/// is higher, and one of them is it.
pub proof fn law_last_operation_is_the_highest(numbers: Seq<u64>, i: int)
    ensures
        0 <= i < numbers.len() ==> numbers[i] <= highest(numbers),
        numbers.len() > 0 ==> exists|k: int|
            0 <= k < numbers.len() && #[trigger] numbers[k] == highest(numbers),
        numbers.len() == 0 ==> highest(numbers) == 0,
    decreases numbers.len(),
{
    if numbers.len() > 0 {
        let earlier = numbers.drop_last();
        law_last_operation_is_the_highest(earlier, i);
        if 0 <= i < earlier.len() {
            assert(earlier[i] == numbers[i]);
        }
        assert(numbers[numbers.len() - 1] == numbers.last());
        if highest(earlier) >= numbers.last() && earlier.len() > 0 {
            let k = choose|k: int|
                0 <= k < earlier.len() && #[trigger] earlier[k] == highest(earlier);
            assert(numbers[k] == highest(numbers));
        }
    }
}

/// What a document shows is told of the document that loads, and the error of one that
/// does not.
pub proof fn law_document_shows_what_was_loaded(bytes: Seq<u8>)
    ensures
        loaded(bytes) matches Ok(held) ==> view_of(bytes) == Ok::<JsonTree, Seq<char>>(held.json),
        loaded(bytes) matches Err(message) ==> view_of(bytes) == Err::<JsonTree, Seq<char>>(
            "Invalid Match document: "@ + message,
        ),
{
}

/// Writing a lead leaves everything else of the document as it was: every map but that of
/// the entities, every text, every table and every list; and among the entities there is
/// the lead beside those that were there.
pub proof fn law_written_lead_leaves_the_rest(
    before: Contents,
    actor: Seq<char>,
    lead: LeadItem,
    message: Seq<char>,
    bytes: Seq<u8>,
    hash: Seq<char>,
    object: Seq<char>,
    key: Seq<char>,
)
    requires
        root_map(before, "entities"@) is Some,
        lead_committed(before, root_map(before, "entities"@)->0, actor, lead, message, bytes, hash),
        is_settled(before.waiting, before.hashes.to_set().insert(hash)),
        loaded(bytes) is Ok,
    ensures
        ({
            let entities = root_map(before, "entities"@)->0;
            let after = loaded(bytes)->Ok_0;
            &&& before.maps.contains_key(object) && object != entities ==> after.maps.contains_key(
                object,
            ) && after.maps[object] == before.maps[object]
            &&& before.texts.contains_key(object) ==> after.texts.contains_key(object)
                && after.texts[object] == before.texts[object]
            &&& after.tables == before.tables
            &&& after.lists == before.lists
            &&& after.maps.contains_key(entities)
            &&& after.maps[entities].contains_key(key) <==> before.maps[entities].contains_key(key)
                || key == lead.id@
            &&& before.maps[entities].contains_key(key) && key != lead.id@
                ==> after.maps[entities][key] == before.maps[entities][key]
            &&& after.hashes.to_set() == before.hashes.to_set().insert(hash)
        }),
{
    let entities = root_map(before, "entities"@)->0;
    let (edited, done) = choose|edited: AutoCommit, done: AutoCommit|
        {
            &&& lead_added(before, contents(edited), entities, lead)
            &&& same_rest(before, contents(edited))
            &&& actor_of(edited) == encode_utf8(actor)
            &&& #[trigger] committed(edited, message) == hash
            &&& contents(done).maps == contents(edited).maps
            &&& contents(done).texts == contents(edited).texts
            &&& contents(done).hashes.to_set() == before.hashes.to_set().insert(hash)
            &&& is_genuine(done)
            &&& is_saved_as(done, bytes)
            &&& bytes == #[trigger] saved_bytes(done)
            &&& saved_in(bytes, contents(edited), before.hashes.to_set().insert(hash))
        };
    let (item, placement, values) = choose|item: Seq<char>, placement: Seq<char>, values: Seq<char>|
        {
            &&& #[trigger] is_lead(contents(edited), lead, item, placement, values)
            &&& contents(edited).maps[entities] == before.maps[entities].insert(
                lead.id@,
                Field::Branch(item),
            )
            &&& unused(before, item)
            &&& unused(before, placement)
            &&& unused(before, values)
        };
    assert(contents(edited).maps[entities] == before.maps[entities].insert(
        lead.id@,
        Field::Branch(item),
    ));
    if before.maps.contains_key(object) && object != entities {
        assert(contents(edited).maps.contains_key(object));
    }
    if before.texts.contains_key(object) {
        assert(contents(edited).texts.contains_key(object));
    }
}

/// The map under a key of the root is found by the name that the root has for it, and
/// only a map is found.
pub proof fn law_root_map_is_found_by_its_key(held: Contents, key: Seq<char>, name: Seq<char>)
    ensures
        root_map(held, key) == Some(name) <==> held.maps.contains_key("_root"@)
            && held.maps["_root"@].contains_key(key) && held.maps["_root"@][key] == Field::Branch(
            name,
        ) && held.maps.contains_key(name),
{
}

} // verus!
