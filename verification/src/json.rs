//! JSON values as the crate holds them, their mathematical trees, and the way
//! to and from the values of `serde_json`.

use vstd::prelude::*;

use crate::text::{decimal, same};

verus! {

/// The outside type `serde_json::Value`.
#[verifier::external_type_specification]
#[verifier::external_body]
pub struct ExValue(serde_json::Value);

/// The outside type `serde_json::Number`.
#[verifier::external_type_specification]
#[verifier::external_body]
pub struct ExNumber(serde_json::Number);

/// A JSON value.
#[derive(Debug, PartialEq)]
pub enum Json {
    Null,
    Bool(bool),
    Number(serde_json::Number),
    Text(String),
    Array(Vec<Json>),
    Object(Members),
}

/// The members of a JSON object, in their order, no key twice.
#[derive(Debug, PartialEq)]
pub struct Members {
    entries: Vec<(String, Json)>,
}

/// What a JSON value is: numbers and strings by their characters, an object as
/// the sequence of its members.
pub enum JsonTree {
    Null,
    Bool(bool),
    Number(Seq<char>),
    Text(Seq<char>),
    Array(Seq<JsonTree>),
    Object(Seq<(Seq<char>, JsonTree)>),
}

/// The text of a number: what `Number::to_string` gives.
pub uninterp spec fn number_text(number: serde_json::Number) -> Seq<char>;

/// The tree that a `serde_json::Value` holds.
pub uninterp spec fn value_tree(value: serde_json::Value) -> JsonTree;

/// The compact JSON text of a tree: what `Value::to_string` gives.
pub uninterp spec fn json_text(tree: JsonTree) -> Seq<char>;

/// The value under the first of `members` whose key is `key`.
pub open spec fn member(members: Seq<(Seq<char>, JsonTree)>, key: Seq<char>) -> Option<JsonTree>
    decreases members.len(),
{
    if members.len() == 0 {
        None
    } else if members[0].0 == key {
        Some(members[0].1)
    } else {
        member(members.drop_first(), key)
    }
}

/// `members` with `value` under `key`: in the place of the first member with
/// that key, or at the end where there is none.
pub open spec fn with_member(
    members: Seq<(Seq<char>, JsonTree)>,
    key: Seq<char>,
    value: JsonTree,
) -> Seq<(Seq<char>, JsonTree)>
    decreases members.len(),
{
    if members.len() == 0 {
        seq![(key, value)]
    } else if members[0].0 == key {
        seq![(key, value)] + members.drop_first()
    } else {
        seq![members[0]] + with_member(members.drop_first(), key, value)
    }
}

/// The first of `members` whose value is of the kind `wanted`.
pub open spec fn first_member(
    members: Seq<(Seq<char>, JsonTree)>,
    wanted: spec_fn(JsonTree) -> bool,
) -> Option<(Seq<char>, JsonTree)>
    decreases members.len(),
{
    if members.len() == 0 {
        None
    } else if wanted(members[0].1) {
        Some(members[0])
    } else {
        first_member(members.drop_first(), wanted)
    }
}

/// Whether no two of `members` have the same key.
pub open spec fn keys_distinct(members: Seq<(Seq<char>, JsonTree)>) -> bool {
    forall|i: int, j: int|
        0 <= i < j < members.len() ==> #[trigger] members[i].0 != #[trigger] members[j].0
}

impl JsonTree {
    /// The value under `key` of an object; nothing of any other value.
    pub open spec fn get(self, key: Seq<char>) -> Option<JsonTree> {
        match self {
            JsonTree::Object(members) => member(members, key),
            _ => None,
        }
    }

    /// The value under `b` of the value under `a`.
    pub open spec fn at2(self, a: Seq<char>, b: Seq<char>) -> Option<JsonTree> {
        match self.get(a) {
            Some(inner) => inner.get(b),
            None => None,
        }
    }

    /// The value under `c` of the value under `b` of the value under `a`.
    pub open spec fn at3(self, a: Seq<char>, b: Seq<char>, c: Seq<char>) -> Option<JsonTree> {
        match self.at2(a, b) {
            Some(inner) => inner.get(c),
            None => None,
        }
    }

    /// The string under `key`.
    pub open spec fn text_at(self, key: Seq<char>) -> Option<Seq<char>> {
        text_of(self.get(key))
    }

    /// The string under `b` of the value under `a`.
    pub open spec fn text_at2(self, a: Seq<char>, b: Seq<char>) -> Option<Seq<char>> {
        text_of(self.at2(a, b))
    }

    /// The string under `c` of the value under `b` of the value under `a`.
    pub open spec fn text_at3(self, a: Seq<char>, b: Seq<char>, c: Seq<char>) -> Option<
        Seq<char>,
    > {
        text_of(self.at3(a, b, c))
    }

    /// The array under `key`.
    pub open spec fn items_at(self, key: Seq<char>) -> Option<Seq<JsonTree>> {
        match self.get(key) {
            Some(JsonTree::Array(items)) => Some(items),
            _ => None,
        }
    }

    /// The members of the object under `key`.
    pub open spec fn members_at(self, key: Seq<char>) -> Option<Seq<(Seq<char>, JsonTree)>> {
        match self.get(key) {
            Some(JsonTree::Object(members)) => Some(members),
            _ => None,
        }
    }

    /// The object with `value` under `key`; null counts as the empty object.
    pub open spec fn with(self, key: Seq<char>, value: JsonTree) -> JsonTree {
        match self {
            JsonTree::Object(members) => JsonTree::Object(with_member(members, key, value)),
            _ => JsonTree::Object(seq![(key, value)]),
        }
    }
}

/// The object without members.
pub open spec fn empty_object() -> JsonTree {
    JsonTree::Object(Seq::empty())
}

/// The string that `tree` is.
pub open spec fn text_of(tree: Option<JsonTree>) -> Option<Seq<char>> {
    match tree {
        Some(JsonTree::Text(text)) => Some(text),
        _ => None,
    }
}

/// The tree of the unsigned number `n`.
pub open spec fn count(n: nat) -> JsonTree {
    JsonTree::Number(decimal(n))
}

/// The trees of a list of values.
pub open spec fn trees(items: Seq<Json>) -> Seq<JsonTree> {
    items.map_values(|item: Json| item@)
}

/// The trees of a list of named values.
pub open spec fn named_trees(entries: Seq<(String, Json)>) -> Seq<(Seq<char>, JsonTree)> {
    entries.map_values(|entry: (String, Json)| (entry.0@, entry.1@))
}

/// The tree of an optional value.
pub open spec fn tree_of(item: Option<Json>) -> Option<JsonTree> {
    match item {
        Some(json) => Some(json@),
        None => None,
    }
}

/// The tree of an optional borrowed value.
pub open spec fn tree_at(item: Option<&Json>) -> Option<JsonTree> {
    match item {
        Some(json) => Some(json@),
        None => None,
    }
}

/// The characters of an optional borrowed string.
pub open spec fn chars_at(item: Option<&str>) -> Option<Seq<char>> {
    match item {
        Some(text) => Some(text@),
        None => None,
    }
}

impl View for Json {
    type V = JsonTree;

    closed spec fn view(&self) -> JsonTree
        decreases *self,
    {
        match *self {
            Json::Null => JsonTree::Null,
            Json::Bool(value) => JsonTree::Bool(value),
            Json::Number(number) => JsonTree::Number(number_text(number)),
            Json::Text(text) => JsonTree::Text(text@),
            Json::Array(items) => JsonTree::Array(
                Seq::new(
                    items@.len(),
                    |i: int|
                        if 0 <= i < items@.len() {
                            items@[i]@
                        } else {
                            JsonTree::Null
                        },
                ),
            ),
            Json::Object(Members { entries }) => JsonTree::Object(
                Seq::new(
                    entries@.len(),
                    |i: int|
                        (
                            entries@[i].0@,
                            if 0 <= i < entries@.len() {
                                entries@[i].1@
                            } else {
                                JsonTree::Null
                            },
                        ),
                ),
            ),
        }
    }
}

impl View for Members {
    type V = Seq<(Seq<char>, JsonTree)>;

    closed spec fn view(&self) -> Seq<(Seq<char>, JsonTree)> {
        named_trees(self.entries@)
    }
}

/// What each kind of value is, in terms of the views of its parts.
pub broadcast proof fn json_view(json: Json)
    ensures
        #[trigger] json@ == match json {
            Json::Null => JsonTree::Null,
            Json::Bool(value) => JsonTree::Bool(value),
            Json::Number(number) => JsonTree::Number(number_text(number)),
            Json::Text(text) => JsonTree::Text(text@),
            Json::Array(items) => JsonTree::Array(trees(items@)),
            Json::Object(members) => JsonTree::Object(members@),
        },
{
    match json {
        Json::Array(items) => {
            assert(json@->Array_0 =~= trees(items@));
        },
        Json::Object(members) => {
            assert(json@->Object_0 =~= members@);
        },
        _ => {},
    }
}

impl Members {
    #[verifier::type_invariant]
    spec fn distinct(self) -> bool {
        keys_distinct(named_trees(self.entries@))
    }
}

proof fn lemma_member_skip(members: Seq<(Seq<char>, JsonTree)>, key: Seq<char>, n: int)
    requires
        0 <= n <= members.len(),
        forall|i: int| 0 <= i < n ==> #[trigger] members[i].0 != key,
    ensures
        member(members, key) == member(members.skip(n), key),
    decreases n,
{
    if n > 0 {
        lemma_member_skip(members.drop_first(), key, n - 1);
        assert(members.drop_first().skip(n - 1) =~= members.skip(n));
    } else {
        assert(members.skip(0) =~= members);
    }
}

proof fn lemma_with_member_skip(
    members: Seq<(Seq<char>, JsonTree)>,
    key: Seq<char>,
    value: JsonTree,
    n: int,
)
    requires
        0 <= n <= members.len(),
        forall|i: int| 0 <= i < n ==> #[trigger] members[i].0 != key,
    ensures
        with_member(members, key, value) == members.take(n) + with_member(members.skip(n), key, value),
    decreases n,
{
    if n > 0 {
        lemma_with_member_skip(members.drop_first(), key, value, n - 1);
        assert(members.drop_first().skip(n - 1) =~= members.skip(n));
        assert(seq![members[0]] + members.drop_first().take(n - 1) =~= members.take(n));
        assert(with_member(members, key, value) =~= members.take(n) + with_member(
            members.skip(n),
            key,
            value,
        ));
    } else {
        assert(members.skip(0) =~= members);
        assert(members.take(0) + with_member(members, key, value) =~= with_member(members, key, value));
    }
}

/// Members that are not wanted can be skipped in the search for the first that is.
pub proof fn lemma_first_member_skip(
    members: Seq<(Seq<char>, JsonTree)>,
    wanted: spec_fn(JsonTree) -> bool,
    n: int,
)
    requires
        0 <= n <= members.len(),
        forall|i: int| 0 <= i < n ==> !wanted(#[trigger] members[i].1),
    ensures
        first_member(members, wanted) == first_member(members.skip(n), wanted),
    decreases n,
{
    if n > 0 {
        let rest = members.drop_first();
        assert forall|i: int| 0 <= i < n - 1 implies !wanted(#[trigger] rest[i].1) by {
            assert(rest[i] == members[i + 1]);
        }
        lemma_first_member_skip(rest, wanted, n - 1);
        assert(rest.skip(n - 1) =~= members.skip(n));
        assert(!wanted(members[0].1));
    } else {
        assert(members.skip(0) =~= members);
    }
}

/// The first member that is wanted stands behind none that is; where there is none,
/// no member is wanted.
pub proof fn lemma_first_member_stands(
    members: Seq<(Seq<char>, JsonTree)>,
    wanted: spec_fn(JsonTree) -> bool,
)
    ensures
        match first_member(members, wanted) {
            Some(found) => exists|i: int|
                {
                    &&& 0 <= i < members.len()
                    &&& #[trigger] members[i] == found
                    &&& wanted(members[i].1)
                    &&& forall|j: int| 0 <= j < i ==> !wanted(#[trigger] members[j].1)
                },
            None => forall|j: int| 0 <= j < members.len() ==> !wanted(#[trigger] members[j].1),
        },
    decreases members.len(),
{
    if members.len() > 0 && !wanted(members[0].1) {
        let rest = members.drop_first();
        lemma_first_member_stands(rest, wanted);
        if first_member(rest, wanted) is Some {
            let i = choose|i: int|
                {
                    &&& 0 <= i < rest.len()
                    &&& #[trigger] rest[i] == first_member(rest, wanted)->0
                    &&& wanted(rest[i].1)
                    &&& forall|j: int| 0 <= j < i ==> !wanted(#[trigger] rest[j].1)
                };
            assert(members[i + 1] == rest[i]);
            assert forall|j: int| 0 <= j < i + 1 implies !wanted(#[trigger] members[j].1) by {
                if j > 0 {
                    assert(rest[j - 1] == members[j]);
                }
            }
        } else {
            assert forall|j: int| 0 <= j < members.len() implies !wanted(
                #[trigger] members[j].1,
            ) by {
                if j > 0 {
                    assert(rest[j - 1] == members[j]);
                }
            }
        }
    } else if members.len() > 0 {
        assert(members[0] == first_member(members, wanted)->0);
    }
}

/// Where the member at `k` is wanted, and none before it, it is the first.
pub proof fn lemma_first_member_at(
    members: Seq<(Seq<char>, JsonTree)>,
    wanted: spec_fn(JsonTree) -> bool,
    k: int,
)
    requires
        0 <= k < members.len(),
        wanted(members[k].1),
        forall|j: int| 0 <= j < k ==> !wanted(#[trigger] members[j].1),
    ensures
        first_member(members, wanted) == Some(members[k]),
{
    lemma_first_member_skip(members, wanted, k);
    assert(members.skip(k)[0] == members[k]);
}

/// Writing a member and reading it back: the key that was written gives the
/// value that was written, and every other key gives what it gave before.
pub proof fn law_written_member_is_read(
    members: Seq<(Seq<char>, JsonTree)>,
    key: Seq<char>,
    value: JsonTree,
    other: Seq<char>,
)
    ensures
        member(with_member(members, key, value), other) == if other == key {
            Some(value)
        } else {
            member(members, other)
        },
    decreases members.len(),
{
    if members.len() == 0 {
        assert(with_member(members, key, value).drop_first() =~= members);
    } else if members[0].0 == key {
        assert(with_member(members, key, value).drop_first() =~= members.drop_first());
    } else {
        law_written_member_is_read(members.drop_first(), key, value, other);
        assert(with_member(members, key, value).drop_first() =~= with_member(
            members.drop_first(),
            key,
            value,
        ));
    }
}

/// Reading a member of an object after a member was written.
pub broadcast proof fn written_member(
    tree: JsonTree,
    key: Seq<char>,
    value: JsonTree,
    other: Seq<char>,
)
    requires
        tree is Object,
    ensures
        #[trigger] tree.with(key, value).get(other) == if other == key {
            Some(value)
        } else {
            tree.get(other)
        },
{
    law_written_member_is_read(tree->Object_0, key, value, other);
}

impl Members {
    /// No members.
    pub fn new() -> (result: Members)
        ensures
            result@ == Seq::<(Seq<char>, JsonTree)>::empty(),
    {
        let result = Members { entries: Vec::new() };
        assert(result@ =~= Seq::<(Seq<char>, JsonTree)>::empty());
        result
    }

    /// How many members there are.
    pub fn len(&self) -> (result: usize)
        ensures
            result == self@.len(),
    {
        self.entries.len()
    }

    /// The key of the member at `index`.
    pub fn key(&self, index: usize) -> (result: &str)
        requires
            index < self@.len(),
        ensures
            result@ == self@[index as int].0,
    {
        self.entries[index].0.as_str()
    }

    /// The value of the member at `index`.
    pub fn value(&self, index: usize) -> (result: &Json)
        requires
            index < self@.len(),
        ensures
            result@ == self@[index as int].1,
    {
        &self.entries[index].1
    }

    fn position(&self, key: &str) -> (result: Option<usize>)
        ensures
            match result {
                Some(n) => n < self@.len() && self@[n as int].0 == key@ && forall|i: int|
                    0 <= i < n ==> #[trigger] self@[i].0 != key@,
                None => forall|i: int| 0 <= i < self@.len() ==> #[trigger] self@[i].0 != key@,
            },
    {
        let mut index: usize = 0;
        while index < self.entries.len()
            invariant
                index <= self.entries@.len(),
                self@ == named_trees(self.entries@),
                forall|i: int| 0 <= i < index ==> #[trigger] self@[i].0 != key@,
            decreases self.entries@.len() - index,
        {
            assert(self@[index as int].0 == self.entries@[index as int].0@);
            if same(self.entries[index].0.as_str(), key) {
                return Some(index);
            }
            index = index + 1;
        }
        None
    }

    /// The value under `key`.
    pub fn get(&self, key: &str) -> (result: Option<&Json>)
        ensures
            tree_at(result) == member(self@, key@),
    {
        match self.position(key) {
            Some(index) => {
                proof {
                    lemma_member_skip(self@, key@, index as int);
                    assert(self@.skip(index as int)[0] == self@[index as int]);
                }
                Some(self.value(index))
            },
            None => {
                proof {
                    lemma_member_skip(self@, key@, self@.len() as int);
                }
                None
            },
        }
    }

    /// Whether there is a member with `key`.
    pub fn contains_key(&self, key: &str) -> (result: bool)
        ensures
            result == (member(self@, key@) is Some),
    {
        self.get(key).is_some()
    }

    /// The members with `value` under `key`: in the place of the member that had
    /// the key, or at the end.
    pub fn with(self, key: &str, value: Json) -> (result: Members)
        ensures
            result@ == with_member(self@, key@, value@),
    {
        proof {
            use_type_invariant(&self);
        }
        let found = self.position(key);
        let ghost before = self@;
        let mut entries = self.entries;
        match found {
            Some(index) => {
                let ghost old_entries = entries@;
                let entry = (key.to_owned(), value);
                entries.set(index, entry);
                proof {
                    lemma_with_member_skip(before, key@, value@, index as int);
                    assert(before.skip(index as int).drop_first() =~= before.skip(index + 1));
                    assert(named_trees(entries@) =~= before.update(index as int, (key@, value@)));
                    assert(named_trees(entries@) =~= before.take(index as int) + (seq![
                        (key@, value@),
                    ] + before.skip(index as int).drop_first()));
                }
            },
            None => {
                let entry = (key.to_owned(), value);
                entries.push(entry);
                proof {
                    lemma_with_member_skip(before, key@, value@, before.len() as int);
                    assert(before.skip(before.len() as int) =~= Seq::empty());
                    assert(named_trees(entries@) =~= before.push((key@, value@)));
                    assert(before.take(before.len() as int) + seq![(key@, value@)] =~= before.push(
                        (key@, value@),
                    ));
                }
            },
        }
        Members { entries }
    }
}

/// The outside enum's variants, each with its content.
pub enum ValueParts {
    Null,
    Bool(bool),
    Number(serde_json::Number),
    Text(String),
    Array(Vec<serde_json::Value>),
    Object(Vec<(String, serde_json::Value)>),
}

/// The trees of a list of outside values.
pub open spec fn value_trees(values: Seq<serde_json::Value>) -> Seq<JsonTree> {
    values.map_values(|value: serde_json::Value| value_tree(value))
}

/// The trees of a list of named outside values.
pub open spec fn named_value_trees(entries: Seq<(String, serde_json::Value)>) -> Seq<
    (Seq<char>, JsonTree),
> {
    entries.map_values(|entry: (String, serde_json::Value)| (entry.0@, value_tree(entry.1)))
}

/// The tree of an outside value's variant and content.
pub open spec fn parts_tree(parts: ValueParts) -> JsonTree {
    match parts {
        ValueParts::Null => JsonTree::Null,
        ValueParts::Bool(value) => JsonTree::Bool(value),
        ValueParts::Number(number) => JsonTree::Number(number_text(number)),
        ValueParts::Text(text) => JsonTree::Text(text@),
        ValueParts::Array(items) => JsonTree::Array(value_trees(items@)),
        ValueParts::Object(entries) => JsonTree::Object(named_value_trees(entries@)),
    }
}

/// An outside value's variant, with its content borrowed.
pub enum ValueRef<'a> {
    Null,
    Bool(bool),
    Number(&'a serde_json::Number),
    Text(&'a str),
    Array(&'a Vec<serde_json::Value>),
    Object(Vec<(&'a str, &'a serde_json::Value)>),
}

/// The trees of a list of borrowed named outside values.
pub open spec fn named_ref_trees(entries: Seq<(&str, &serde_json::Value)>) -> Seq<
    (Seq<char>, JsonTree),
> {
    entries.map_values(|entry: (&str, &serde_json::Value)| (entry.0@, value_tree(*entry.1)))
}

/// The tree of an outside value's variant and borrowed content.
pub open spec fn ref_tree(parts: ValueRef) -> JsonTree {
    match parts {
        ValueRef::Null => JsonTree::Null,
        ValueRef::Bool(value) => JsonTree::Bool(value),
        ValueRef::Number(number) => JsonTree::Number(number_text(*number)),
        ValueRef::Text(text) => JsonTree::Text(text@),
        ValueRef::Array(items) => JsonTree::Array(value_trees(items@)),
        ValueRef::Object(entries) => JsonTree::Object(named_ref_trees(entries@)),
    }
}

/// The variant and the content of a `serde_json::Value`. An object lists its
/// members in the order of `serde_json::Map` and has no key twice.
#[verifier::external_body]
fn value_ref<'a>(value: &'a serde_json::Value) -> (parts: ValueRef<'a>)
    ensures
        ref_tree(parts) == value_tree(*value),
        parts matches ValueRef::Object(entries) ==> keys_distinct(named_ref_trees(entries@)),
{
    match value {
        serde_json::Value::Null => ValueRef::Null,
        serde_json::Value::Bool(value) => ValueRef::Bool(*value),
        serde_json::Value::Number(number) => ValueRef::Number(number),
        serde_json::Value::String(text) => ValueRef::Text(text.as_str()),
        serde_json::Value::Array(items) => ValueRef::Array(items),
        serde_json::Value::Object(map) => {
            ValueRef::Object(map.iter().map(|(key, value)| (key.as_str(), value)).collect())
        },
    }
}

/// The `serde_json::Value` of a variant and its content. An object's members
/// are collected into a `serde_json::Map`, which keeps their order.
#[verifier::external_body]
fn parts_value(parts: ValueParts) -> (value: serde_json::Value)
    requires
        parts matches ValueParts::Object(entries) ==> keys_distinct(named_value_trees(entries@)),
    ensures
        value_tree(value) == parts_tree(parts),
{
    match parts {
        ValueParts::Null => serde_json::Value::Null,
        ValueParts::Bool(value) => serde_json::Value::Bool(value),
        ValueParts::Number(number) => serde_json::Value::Number(number),
        ValueParts::Text(text) => serde_json::Value::String(text),
        ValueParts::Array(items) => serde_json::Value::Array(items),
        ValueParts::Object(entries) => serde_json::Value::Object(entries.into_iter().collect()),
    }
}

/// `Value::to_string`: the compact JSON text of the value.
#[verifier::external_body]
fn value_to_string(value: &serde_json::Value) -> (text: String)
    ensures
        text@ == json_text(value_tree(*value)),
{
    value.to_string()
}

/// `Number::clone`: the same number.
pub assume_specification[ <serde_json::Number as Clone>::clone ](
    number: &serde_json::Number,
) -> (result: serde_json::Number)
    ensures
        number_text(result) == number_text(*number),
;

/// `Number::from` for `u64`: its text is the number in decimal.
#[verifier::external_body]
fn number_from(n: u64) -> (number: serde_json::Number)
    ensures
        number_text(number) == decimal(n as nat),
{
    serde_json::Number::from(n)
}

/// `Number::as_u64`: the number where it is an unsigned integer, that is, where
/// its text is one in decimal.
#[verifier::external_body]
fn number_as_u64(number: &serde_json::Number) -> (result: Option<u64>)
    ensures
        forall|n: u64| (result == Some(n)) <==> number_text(*number) == #[trigger] decimal(n as nat),
{
    number.as_u64()
}

impl Clone for Json {
    fn clone(&self) -> (result: Json)
        ensures
            result@ == self@,
        decreases self,
    {
        broadcast use json_view;

        match self {
            Json::Null => Json::Null,
            Json::Bool(value) => Json::Bool(*value),
            Json::Number(number) => Json::Number(number.clone()),
            Json::Text(text) => Json::Text(text.clone()),
            Json::Array(items) => Json::Array(copy_items(items)),
            Json::Object(members) => Json::Object(members.clone()),
        }
    }
}

/// The same values again.
pub fn copy_items(items: &Vec<Json>) -> (result: Vec<Json>)
    ensures
        trees(result@) == trees(items@),
    decreases items,
{
    let mut result: Vec<Json> = Vec::new();
    let mut index: usize = 0;
    while index < items.len()
        invariant
            index <= items@.len(),
            result@.len() == index,
            forall|i: int| 0 <= i < index ==> #[trigger] result@[i]@ == items@[i]@,
        decreases items@.len() - index,
    {
        let item = items[index].clone();
        result.push(item);
        index = index + 1;
    }
    assert(trees(result@) =~= trees(items@));
    result
}

impl Clone for Members {
    fn clone(&self) -> (result: Members)
        ensures
            result@ == self@,
        decreases self,
    {
        proof {
            use_type_invariant(self);
        }
        let mut entries: Vec<(String, Json)> = Vec::new();
        let mut index: usize = 0;
        while index < self.entries.len()
            invariant
                index <= self.entries@.len(),
                entries@.len() == index,
                forall|i: int|
                    0 <= i < index ==> (#[trigger] entries@[i]).0@ == self.entries@[i].0@
                        && entries@[i].1@ == self.entries@[i].1@,
            decreases self.entries@.len() - index,
        {
            let entry = (self.entries[index].0.clone(), self.entries[index].1.clone());
            entries.push(entry);
            index = index + 1;
        }
        assert(named_trees(entries@) =~= named_trees(self.entries@));
        Members { entries }
    }
}

impl Json {
    /// The JSON string with the characters of `text`.
    pub fn text(text: &str) -> (result: Json)
        ensures
            result@ == JsonTree::Text(text@),
    {
        broadcast use json_view;

        Json::Text(text.to_owned())
    }

    /// The JSON number `n`.
    pub fn count(n: u64) -> (result: Json)
        ensures
            result@ == count(n as nat),
    {
        broadcast use json_view;

        Json::Number(number_from(n))
    }

    /// The JSON array of `items`.
    pub fn array(items: Vec<Json>) -> (result: Json)
        ensures
            result@ == JsonTree::Array(trees(items@)),
    {
        broadcast use json_view;

        Json::Array(items)
    }

    /// The JSON object with `members`.
    pub fn object(members: Members) -> (result: Json)
        ensures
            result@ == JsonTree::Object(members@),
    {
        broadcast use json_view;

        Json::Object(members)
    }

    /// The JSON object without members.
    pub fn empty() -> (result: Json)
        ensures
            result@ == empty_object(),
    {
        Json::object(Members::new())
    }

    /// The characters of a string.
    pub fn as_str(&self) -> (result: Option<&str>)
        ensures
            chars_at(result) == text_of(Some(self@)),
    {
        broadcast use json_view;

        match self {
            Json::Text(text) => Some(text.as_str()),
            _ => None,
        }
    }

    /// The items of an array.
    pub fn as_array(&self) -> (result: Option<&Vec<Json>>)
        ensures
            match result {
                Some(items) => self@ == JsonTree::Array(trees(items@)),
                None => !(self@ is Array),
            },
    {
        broadcast use json_view;

        match self {
            Json::Array(items) => Some(items),
            _ => None,
        }
    }

    /// The members of an object.
    pub fn as_object(&self) -> (result: Option<&Members>)
        ensures
            match result {
                Some(members) => self@ == JsonTree::Object(members@),
                None => !(self@ is Object),
            },
    {
        broadcast use json_view;

        match self {
            Json::Object(members) => Some(members),
            _ => None,
        }
    }

    /// Whether this is the number `n`.
    pub fn is_count(&self, n: u64) -> (result: bool)
        ensures
            result == (self@ == count(n as nat)),
    {
        broadcast use json_view;

        match self {
            Json::Number(number) => match number_as_u64(number) {
                Some(value) => {
                    assert(number_text(*number) == decimal(value as nat));
                    assert(number_text(*number) == decimal(n as nat) <==> value == n);
                    value == n
                },
                None => {
                    assert(number_text(*number) != decimal(n as nat));
                    false
                },
            },
            _ => false,
        }
    }

    /// The value under `key` of an object.
    pub fn get(&self, key: &str) -> (result: Option<&Json>)
        ensures
            tree_at(result) == self@.get(key@),
    {
        match self.as_object() {
            Some(members) => members.get(key),
            None => None,
        }
    }

    /// The value under `b` of the value under `a`.
    pub fn at2(&self, a: &str, b: &str) -> (result: Option<&Json>)
        ensures
            tree_at(result) == self@.at2(a@, b@),
    {
        match self.get(a) {
            Some(inner) => inner.get(b),
            None => None,
        }
    }

    /// The value under `c` of the value under `b` of the value under `a`.
    pub fn at3(&self, a: &str, b: &str, c: &str) -> (result: Option<&Json>)
        ensures
            tree_at(result) == self@.at3(a@, b@, c@),
    {
        match self.at2(a, b) {
            Some(inner) => inner.get(c),
            None => None,
        }
    }

    /// The string under `key`.
    pub fn text_at(&self, key: &str) -> (result: Option<&str>)
        ensures
            chars_at(result) == self@.text_at(key@),
    {
        match self.get(key) {
            Some(inner) => inner.as_str(),
            None => None,
        }
    }

    /// The string under `b` of the value under `a`.
    pub fn text_at2(&self, a: &str, b: &str) -> (result: Option<&str>)
        ensures
            chars_at(result) == self@.text_at2(a@, b@),
    {
        match self.at2(a, b) {
            Some(inner) => inner.as_str(),
            None => None,
        }
    }

    /// The string under `c` of the value under `b` of the value under `a`.
    pub fn text_at3(&self, a: &str, b: &str, c: &str) -> (result: Option<&str>)
        ensures
            chars_at(result) == self@.text_at3(a@, b@, c@),
    {
        match self.at3(a, b, c) {
            Some(inner) => inner.as_str(),
            None => None,
        }
    }

    /// The array under `key`.
    pub fn items_at(&self, key: &str) -> (result: Option<&Vec<Json>>)
        ensures
            match result {
                Some(items) => self@.items_at(key@) == Some(trees(items@)),
                None => self@.items_at(key@) is None,
            },
    {
        match self.get(key) {
            Some(inner) => inner.as_array(),
            None => None,
        }
    }

    /// The members of the object under `key`.
    pub fn members_at(&self, key: &str) -> (result: Option<&Members>)
        ensures
            match result {
                Some(members) => self@.members_at(key@) == Some(members@),
                None => self@.members_at(key@) is None,
            },
    {
        match self.get(key) {
            Some(inner) => inner.as_object(),
            None => None,
        }
    }

    /// The object with `value` under `key`, where null counts as the empty object.
    pub fn with(self, key: &str, value: Json) -> (result: Json)
        requires
            self@ is Object || self@ is Null,
        ensures
            result@ == self@.with(key@, value@),
    {
        broadcast use json_view;

        let members = match self {
            Json::Object(members) => members,
            _ => Members::new(),
        };
        Json::Object(members.with(key, value))
    }

    /// The compact JSON text of this value.
    pub fn to_text(&self) -> (result: String)
        ensures
            result@ == json_text(self@),
    {
        value_to_string(&to_value(self))
    }
}

/// The `serde_json::Value` with the same tree.
pub fn to_value(json: &Json) -> (result: serde_json::Value)
    ensures
        value_tree(result) == json@,
    decreases json,
{
    broadcast use json_view;

    let parts = match json {
        Json::Null => ValueParts::Null,
        Json::Bool(value) => ValueParts::Bool(*value),
        Json::Number(number) => ValueParts::Number(number.clone()),
        Json::Text(text) => ValueParts::Text(text.clone()),
        Json::Array(items) => ValueParts::Array(to_values(items)),
        Json::Object(members) => ValueParts::Object(to_named_values(members)),
    };
    parts_value(parts)
}

fn to_values(items: &Vec<Json>) -> (result: Vec<serde_json::Value>)
    ensures
        value_trees(result@) == trees(items@),
    decreases items,
{
    let mut result: Vec<serde_json::Value> = Vec::new();
    let mut index: usize = 0;
    while index < items.len()
        invariant
            index <= items@.len(),
            result@.len() == index,
            forall|i: int| 0 <= i < index ==> value_tree(#[trigger] result@[i]) == items@[i]@,
        decreases items@.len() - index,
    {
        let value = to_value(&items[index]);
        result.push(value);
        index = index + 1;
    }
    assert(value_trees(result@) =~= trees(items@));
    result
}

fn to_named_values(members: &Members) -> (result: Vec<(String, serde_json::Value)>)
    ensures
        named_value_trees(result@) == members@,
        keys_distinct(members@),
    decreases members,
{
    proof {
        use_type_invariant(members);
    }
    let mut result: Vec<(String, serde_json::Value)> = Vec::new();
    let mut index: usize = 0;
    while index < members.entries.len()
        invariant
            index <= members.entries@.len(),
            result@.len() == index,
            forall|i: int|
                0 <= i < index ==> (#[trigger] result@[i]).0@ == members.entries@[i].0@
                    && value_tree(result@[i].1) == members.entries@[i].1@,
        decreases members.entries@.len() - index,
    {
        let entry = (members.entries[index].0.clone(), to_value(&members.entries[index].1));
        result.push(entry);
        index = index + 1;
    }
    assert(named_value_trees(result@) =~= named_trees(members.entries@));
    result
}

/// The value with the same tree as a `serde_json::Value`.
pub fn from_value(value: &serde_json::Value) -> (result: Json)
    ensures
        result@ == value_tree(*value),
    decreases value_tree(*value),
{
    broadcast use json_view;

    match value_ref(value) {
        ValueRef::Null => Json::Null,
        ValueRef::Bool(value) => Json::Bool(value),
        ValueRef::Number(number) => Json::Number(number.clone()),
        ValueRef::Text(text) => Json::Text(text.to_owned()),
        ValueRef::Array(values) => {
            let mut items: Vec<Json> = Vec::new();
            let mut index: usize = 0;
            while index < values.len()
                invariant
                    index <= values@.len(),
                    items@.len() == index,
                    value_tree(*value) == JsonTree::Array(value_trees(values@)),
                    forall|i: int|
                        0 <= i < index ==> #[trigger] items@[i]@ == value_tree(values@[i]),
                decreases values@.len() - index,
            {
                assert(value_trees(values@)[index as int] == value_tree(values@[index as int]));
                assert(decreases_to!(
                    value_tree(*value) => value_tree(*value)->Array_0[index as int]
                ));
                let item = from_value(&values[index]);
                items.push(item);
                index = index + 1;
            }
            assert(trees(items@) =~= value_trees(values@));
            Json::Array(items)
        },
        ValueRef::Object(named) => {
            let mut entries: Vec<(String, Json)> = Vec::new();
            let mut index: usize = 0;
            while index < named.len()
                invariant
                    index <= named@.len(),
                    entries@.len() == index,
                    value_tree(*value) == JsonTree::Object(named_ref_trees(named@)),
                    forall|i: int|
                        0 <= i < index ==> (#[trigger] entries@[i]).0@ == named@[i].0@
                            && entries@[i].1@ == value_tree(*named@[i].1),
                decreases named@.len() - index,
            {
                assert(named_ref_trees(named@)[index as int].1 == value_tree(
                    *named@[index as int].1,
                ));
                assert(decreases_to!(
                    value_tree(*value) => value_tree(*value)->Object_0[index as int].1
                ));
                let entry = (named[index].0.to_owned(), from_value(named[index].1));
                entries.push(entry);
                index = index + 1;
            }
            assert(named_trees(entries@) =~= named_ref_trees(named@));
            Json::Object(Members { entries })
        },
    }
}

/// A member is read by its key: the value of the first member with that key, and nothing
/// where no member has it.
pub proof fn law_member_is_the_first_of_its_key(
    members: Seq<(Seq<char>, JsonTree)>,
    key: Seq<char>,
    k: int,
)
    ensures
        0 <= k < members.len() && members[k].0 == key && (forall|j: int|
            0 <= j < k ==> (#[trigger] members[j]).0 != key) ==> member(members, key) == Some(
            members[k].1,
        ),
        member(members, key) is None <==> forall|j: int|
            0 <= j < members.len() ==> (#[trigger] members[j]).0 != key,
    decreases members.len(),
{
    if members.len() > 0 {
        let rest = members.drop_first();
        assert forall|j: int| 0 <= j < rest.len() implies #[trigger] rest[j] == members[j + 1] by {}
        law_member_is_the_first_of_its_key(rest, key, k - 1);
        if members[0].0 != key {
            if forall|j: int| 0 <= j < members.len() ==> (#[trigger] members[j]).0 != key {
                assert forall|j: int| 0 <= j < rest.len() implies (#[trigger] rest[j]).0 != key by {
                    assert(members[j + 1].0 != key);
                }
            }
            if member(rest, key) is None {
                assert forall|j: int| 0 <= j < members.len() implies (#[trigger] members[j]).0
                    != key by {
                    if j > 0 {
                        assert(rest[j - 1].0 != key);
                    }
                }
            }
            if 0 < k < members.len() && members[k].0 == key && (forall|j: int|
                0 <= j < k ==> (#[trigger] members[j]).0 != key) {
                assert(rest[k - 1] == members[k]);
                assert forall|j: int| 0 <= j < k - 1 implies (#[trigger] rest[j]).0 != key by {
                    assert(members[j + 1].0 != key);
                }
            }
        } else {
            assert(members[0].0 == key);
        }
    }
}

/// What stands under several keys is read step by step, each of an object; a string, an
/// array or an object is given where it is one, and nothing where it is anything else.
pub proof fn law_values_are_read_step_by_step(
    inner: JsonTree,
    tree: JsonTree,
    a: Seq<char>,
    b: Seq<char>,
    c: Seq<char>,
    text: Seq<char>,
    items: Seq<JsonTree>,
    members: Seq<(Seq<char>, JsonTree)>,
)
    ensures
        tree.get(a) == Some(inner) ==> tree.at2(a, b) == inner.get(b) && tree.at3(a, b, c)
            == inner.at2(b, c) && tree.text_at2(a, b) == inner.text_at(b) && tree.text_at3(a, b, c)
            == inner.text_at2(b, c),
        tree.get(a) is None ==> tree.at2(a, b) is None && tree.at3(a, b, c) is None && tree.text_at2(
            a,
            b,
        ) is None && tree.text_at3(a, b, c) is None,
        tree.text_at(a) == Some(text) <==> tree.get(a) == Some(JsonTree::Text(text)),
        tree.items_at(a) == Some(items) <==> tree.get(a) == Some(JsonTree::Array(items)),
        tree.members_at(a) == Some(members) <==> tree.get(a) == Some(JsonTree::Object(members)),
        JsonTree::Object(members).get(a) == member(members, a),
        !(tree is Object) ==> tree.get(a) is None,
{
}

/// A list of values has a tree for each of them, in their order.
pub proof fn law_each_value_has_its_tree(items: Seq<Json>, i: int)
    ensures
        trees(items).len() == items.len(),
        0 <= i < items.len() ==> trees(items)[i] == items[i]@,
{
}

} // verus!
