//! Lists of records in which each key counts once: the first record that has
//! it stays, later ones are dropped.

use vstd::hash_set::StringHashSet;
use vstd::prelude::*;

use crate::json::{copy_items, json_text, trees, Json, JsonTree};
use crate::text::texts;

verus! {

/// Whether one of `records` has the key `k`.
pub open spec fn has_key<K>(
    records: Seq<JsonTree>,
    key: spec_fn(JsonTree) -> Option<K>,
    k: K,
) -> bool {
    exists|i: int| 0 <= i < records.len() && key(#[trigger] records[i]) == Some(k)
}

/// The records that have a key, of each key the first, in their order.
pub open spec fn first_of_each<K>(
    records: Seq<JsonTree>,
    key: spec_fn(JsonTree) -> Option<K>,
) -> Seq<JsonTree>
    decreases records.len(),
{
    if records.len() == 0 {
        Seq::empty()
    } else {
        let earlier = records.drop_last();
        let record = records.last();
        let kept = first_of_each(earlier, key);
        if key(record) is Some && !has_key(earlier, key, key(record)->0) {
            kept.push(record)
        } else {
            kept
        }
    }
}

/// The key of a write authorization: its JSON text.
pub open spec fn whole_record() -> spec_fn(JsonTree) -> Option<Seq<char>> {
    |record: JsonTree| Some(json_text(record))
}

/// The write authorizations after a merge: those that were there, then the
/// incoming ones, each text once.
pub open spec fn merged_records(existing: Seq<JsonTree>, incoming: Seq<JsonTree>) -> Seq<JsonTree> {
    first_of_each(existing + incoming, whole_record())
}

/// Which keys the kept records have: those of all the records.
pub proof fn lemma_kept_keys<K>(
    records: Seq<JsonTree>,
    key: spec_fn(JsonTree) -> Option<K>,
    k: K,
)
    ensures
        has_key(first_of_each(records, key), key, k) <==> has_key(records, key, k),
    decreases records.len(),
{
    let kept = first_of_each(records, key);
    if records.len() > 0 {
        let earlier = records.drop_last();
        let record = records.last();
        let before = first_of_each(earlier, key);
        lemma_kept_keys(earlier, key, k);
        if has_key(records, key, k) {
            let i = choose|i: int| 0 <= i < records.len() && key(#[trigger] records[i]) == Some(k);
            if i < earlier.len() {
                assert(earlier[i] == records[i]);
                assert(has_key(earlier, key, k));
            }
            if has_key(earlier, key, k) {
                let j = choose|j: int| 0 <= j < before.len() && key(#[trigger] before[j]) == Some(k);
                assert(kept[j] == before[j]);
            } else {
                assert(kept[before.len() as int] == record);
            }
        }
        if has_key(kept, key, k) {
            let i = choose|i: int| 0 <= i < kept.len() && key(#[trigger] kept[i]) == Some(k);
            if i < before.len() {
                assert(before[i] == kept[i]);
                assert(has_key(before, key, k));
                let j = choose|j: int|
                    0 <= j < earlier.len() && key(#[trigger] earlier[j]) == Some(k);
                assert(records[j] == earlier[j]);
            } else {
                assert(records[records.len() - 1] == record);
            }
        }
    }
}

/// A list to which records are added whose keys it has already, or that have no
/// key, keeps the same records.
pub proof fn lemma_known_records_add_nothing<K>(
    records: Seq<JsonTree>,
    more: Seq<JsonTree>,
    key: spec_fn(JsonTree) -> Option<K>,
)
    requires
        forall|i: int|
            0 <= i < more.len() ==> (key(#[trigger] more[i]) is Some ==> has_key(
                records,
                key,
                key(more[i])->0,
            )),
    ensures
        first_of_each(records + more, key) == first_of_each(records, key),
    decreases more.len(),
{
    if more.len() == 0 {
        assert(records + more =~= records);
    } else {
        let shorter = more.drop_last();
        assert forall|i: int|
            0 <= i < shorter.len() && key(#[trigger] shorter[i]) is Some implies has_key(
            records,
            key,
            key(shorter[i])->0,
        ) by {
            assert(shorter[i] == more[i]);
        }
        lemma_known_records_add_nothing(records, shorter, key);
        assert((records + more).drop_last() =~= records + shorter);
        let record = more.last();
        assert((records + more).last() == record);
        assert(more[more.len() - 1] == record);
        if key(record) is Some {
            let i = choose|i: int|
                0 <= i < records.len() && key(#[trigger] records[i]) == Some(key(record)->0);
            assert((records + shorter)[i] == records[i]);
            assert(has_key(records + shorter, key, key(record)->0));
        }
    }
}

/// No two kept records have the same key, and each has one.
pub proof fn law_each_key_once<K>(
    records: Seq<JsonTree>,
    key: spec_fn(JsonTree) -> Option<K>,
    i: int,
    j: int,
)
    requires
        0 <= i < j < first_of_each(records, key).len(),
    ensures
        key(first_of_each(records, key)[i]) is Some,
        key(first_of_each(records, key)[j]) is Some,
        key(first_of_each(records, key)[i]) != key(first_of_each(records, key)[j]),
    decreases records.len(),
{
    let earlier = records.drop_last();
    let before = first_of_each(earlier, key);
    if j < before.len() {
        law_each_key_once(earlier, key, i, j);
    } else {
        lemma_kept_have_key(earlier, key, i);
        lemma_kept_keys(earlier, key, key(before[i])->0);
        assert(has_key(before, key, key(before[i])->0));
    }
}

/// Each kept record has a key, and is one of the records.
pub proof fn lemma_kept_have_key<K>(
    records: Seq<JsonTree>,
    key: spec_fn(JsonTree) -> Option<K>,
    i: int,
)
    requires
        0 <= i < first_of_each(records, key).len(),
    ensures
        key(first_of_each(records, key)[i]) is Some,
        records.contains(first_of_each(records, key)[i]),
    decreases records.len(),
{
    let earlier = records.drop_last();
    let before = first_of_each(earlier, key);
    if i < before.len() {
        lemma_kept_have_key(earlier, key, i);
        let j = choose|j: int| 0 <= j < earlier.len() && earlier[j] == before[i];
        assert(records[j] == before[i]);
    } else {
        assert(records[records.len() - 1] == records.last());
    }
}

/// What was kept once is kept again, whole and in its order.
pub proof fn law_kept_records_stay<K>(
    records: Seq<JsonTree>,
    more: Seq<JsonTree>,
    key: spec_fn(JsonTree) -> Option<K>,
)
    ensures
        first_of_each(records, key).is_prefix_of(
            first_of_each(first_of_each(records, key) + more, key),
        ),
        first_of_each(first_of_each(records, key), key) == first_of_each(records, key),
{
    let kept = first_of_each(records, key);
    lemma_kept_again(records, key, kept.len() as int);
    assert(kept.take(kept.len() as int) =~= kept);
    lemma_prefix_stays(kept, more, key);
}

proof fn lemma_kept_again<K>(
    records: Seq<JsonTree>,
    key: spec_fn(JsonTree) -> Option<K>,
    n: int,
)
    requires
        0 <= n <= first_of_each(records, key).len(),
    ensures
        first_of_each(first_of_each(records, key).take(n), key) == first_of_each(records, key).take(
            n,
        ),
    decreases n,
{
    let kept = first_of_each(records, key);
    if n == 0 {
        assert(kept.take(0) =~= Seq::empty());
    } else {
        lemma_kept_again(records, key, n - 1);
        let part = kept.take(n);
        assert(part.drop_last() =~= kept.take(n - 1));
        assert(part.last() == kept[n - 1]);
        lemma_kept_have_key(records, key, n - 1);
        if has_key(kept.take(n - 1), key, key(kept[n - 1])->0) {
            let i = choose|i: int|
                0 <= i < kept.take(n - 1).len() && key(#[trigger] kept.take(n - 1)[i]) == Some(
                    key(kept[n - 1])->0,
                );
            assert(kept.take(n - 1)[i] == kept[i]);
            law_each_key_once(records, key, i, n - 1);
        }
        assert(kept.take(n - 1).push(kept[n - 1]) =~= part);
    }
}

proof fn lemma_prefix_stays<K>(
    records: Seq<JsonTree>,
    more: Seq<JsonTree>,
    key: spec_fn(JsonTree) -> Option<K>,
)
    ensures
        first_of_each(records, key).is_prefix_of(first_of_each(records + more, key)),
    decreases more.len(),
{
    if more.len() == 0 {
        assert(records + more =~= records);
    } else {
        lemma_prefix_stays(records, more.drop_last(), key);
        assert((records + more).drop_last() =~= records + more.drop_last());
        let a = first_of_each(records, key);
        let b = first_of_each(records + more.drop_last(), key);
        let c = first_of_each(records + more, key);
        assert(b.is_prefix_of(c));
        assert(a =~= c.take(a.len() as int)) by {
            assert(a =~= b.take(a.len() as int));
            assert(b =~= c.take(b.len() as int));
        }
    }
}

/// Merging the same incoming records a second time changes nothing.
pub proof fn law_merging_again_changes_nothing<K>(
    existing: Seq<JsonTree>,
    incoming: Seq<JsonTree>,
    key: spec_fn(JsonTree) -> Option<K>,
)
    ensures
        first_of_each(first_of_each(existing + incoming, key) + incoming, key) == first_of_each(
            existing + incoming,
            key,
        ),
{
    let all = existing + incoming;
    let kept = first_of_each(all, key);
    assert forall|i: int|
        0 <= i < incoming.len() && key(#[trigger] incoming[i]) is Some implies has_key(
        kept,
        key,
        key(incoming[i])->0,
    ) by {
        assert(all[existing.len() + i] == incoming[i]);
        assert(has_key(all, key, key(incoming[i])->0));
        lemma_kept_keys(all, key, key(incoming[i])->0);
    }
    lemma_known_records_add_nothing(kept, incoming, key);
    law_kept_records_stay(all, Seq::empty(), key);
}

/// One step of a merge: what the records up to and with the next one come to.
proof fn lemma_next_record<K>(
    records: Seq<JsonTree>,
    key: spec_fn(JsonTree) -> Option<K>,
    n: int,
)
    requires
        0 <= n < records.len(),
    ensures
        first_of_each(records.take(n + 1), key) == if key(records[n]) is Some && !has_key(
            records.take(n),
            key,
            key(records[n])->0,
        ) {
            first_of_each(records.take(n), key).push(records[n])
        } else {
            first_of_each(records.take(n), key)
        },
        forall|k: K|
            #[trigger] has_key(records.take(n + 1), key, k) <==> has_key(records.take(n), key, k)
                || key(records[n]) == Some(k),
{
    let longer = records.take(n + 1);
    let shorter = records.take(n);
    assert(longer.drop_last() =~= shorter);
    assert(longer.last() == records[n]);
    assert forall|k: K| #[trigger] has_key(longer, key, k) <==> has_key(shorter, key, k) || key(
        records[n],
    ) == Some(k) by {
        if has_key(longer, key, k) {
            let i = choose|i: int| 0 <= i < longer.len() && key(#[trigger] longer[i]) == Some(k);
            if i < n {
                assert(shorter[i] == longer[i]);
            }
        }
        if has_key(shorter, key, k) {
            let i = choose|i: int| 0 <= i < shorter.len() && key(#[trigger] shorter[i]) == Some(k);
            assert(longer[i] == shorter[i]);
        }
        if key(records[n]) == Some(k) {
            assert(longer[n] == records[n]);
        }
    }
}

/// The records being gathered, and the keys that they have.
pub(crate) struct Gathering {
    kept: Vec<Json>,
    seen: StringHashSet,
}

impl Gathering {
    /// Whether what was gathered is what `records` come to under `key`.
    pub(crate) closed spec fn holds(
        &self,
        records: Seq<JsonTree>,
        key: spec_fn(JsonTree) -> Option<Seq<char>>,
    ) -> bool {
        &&& trees(self.kept@) == first_of_each(records, key)
        &&& forall|k: Seq<char>| #[trigger] self.seen@.contains(k) <==> has_key(records, key, k)
    }

    /// Nothing gathered yet.
    pub(crate) fn new(Ghost(key): Ghost<spec_fn(JsonTree) -> Option<Seq<char>>>) -> (result: Self)
        ensures
            result.holds(Seq::empty(), key),
    {
        let result = Gathering { kept: Vec::new(), seen: StringHashSet::new() };
        assert(trees(result.kept@) =~= Seq::empty());
        result
    }

    /// What was gathered from all of `records`.
    pub(crate) fn finish(
        self,
        Ghost(records): Ghost<Seq<JsonTree>>,
        Ghost(key): Ghost<spec_fn(JsonTree) -> Option<Seq<char>>>,
    ) -> (result: Vec<Json>)
        requires
            self.holds(records, key),
        ensures
            trees(result@) == first_of_each(records, key),
    {
        self.kept
    }

    /// Takes in the next of `records`, whose key is `name`.
    pub(crate) fn take(
        &mut self,
        record: &Json,
        name: Option<String>,
        Ghost(records): Ghost<Seq<JsonTree>>,
        Ghost(key): Ghost<spec_fn(JsonTree) -> Option<Seq<char>>>,
        Ghost(n): Ghost<int>,
    )
        requires
            0 <= n < records.len(),
            old(self).holds(records.take(n), key),
            records[n] == record@,
            match name {
                Some(text) => key(record@) == Some(text@),
                None => key(record@) is None,
            },
        ensures
            final(self).holds(records.take(n + 1), key),
    {
        proof {
            lemma_next_record(records, key, n);
        }
        if let Some(name) = name {
            let ghost before = self.seen@;
            let fresh = !self.seen.contains(name.as_str());
            if fresh {
                let ghost kept = trees(self.kept@);
                self.seen.insert(name);
                self.kept.push(record.clone());
                assert(trees(self.kept@) =~= kept.push(record@));
            }
        }
    }
}

/// The records whose key none before them has.
pub open spec fn first_by_keys(records: Seq<JsonTree>, keys: Seq<Seq<char>>) -> Seq<JsonTree>
    decreases records.len(),
{
    if records.len() == 0 {
        Seq::empty()
    } else {
        let kept = first_by_keys(records.drop_last(), keys.drop_last());
        if keys.drop_last().contains(keys.last()) {
            kept
        } else {
            kept.push(records.last())
        }
    }
}

proof fn lemma_first_by_keys(
    records: Seq<JsonTree>,
    keys: Seq<Seq<char>>,
    key: spec_fn(JsonTree) -> Option<Seq<char>>,
)
    requires
        records.len() == keys.len(),
        forall|i: int| 0 <= i < records.len() ==> key(#[trigger] records[i]) == Some(keys[i]),
    ensures
        first_by_keys(records, keys) == first_of_each(records, key),
    decreases records.len(),
{
    if records.len() > 0 {
        let earlier = records.drop_last();
        let names = keys.drop_last();
        assert forall|i: int| 0 <= i < earlier.len() implies key(#[trigger] earlier[i]) == Some(
            names[i],
        ) by {
            assert(earlier[i] == records[i]);
        }
        lemma_first_by_keys(earlier, names, key);
        assert(records[records.len() - 1] == records.last());
        let k = keys.last();
        if has_key(earlier, key, k) {
            let i = choose|i: int| 0 <= i < earlier.len() && key(#[trigger] earlier[i]) == Some(k);
            assert(names[i] == k);
        }
        if names.contains(k) {
            let i = choose|i: int| 0 <= i < names.len() && names[i] == k;
            assert(key(earlier[i]) == Some(k));
        }
    }
}

/// Keeps the records whose key, in the list beside them, none before them has.
pub fn keep_first(records: &Vec<Json>, keys: &Vec<String>) -> (result: Vec<Json>)
    requires
        records@.len() == keys@.len(),
    ensures
        trees(result@) == first_by_keys(trees(records@), texts(keys@)),
{
    let ghost all = trees(records@);
    let ghost names = texts(keys@);
    let mut kept: Vec<Json> = Vec::new();
    let mut seen = StringHashSet::new();
    assert(trees(kept@) =~= first_by_keys(all.take(0), names.take(0)));
    let mut index: usize = 0;
    while index < records.len()
        invariant
            index <= records@.len(),
            records@.len() == keys@.len(),
            all == trees(records@),
            names == texts(keys@),
            trees(kept@) == first_by_keys(all.take(index as int), names.take(index as int)),
            forall|k: Seq<char>|
                #[trigger] seen@.contains(k) <==> names.take(index as int).contains(k),
        decreases records@.len() - index,
    {
        let ghost before = trees(kept@);
        assert(all.take(index + 1).drop_last() =~= all.take(index as int));
        assert(names.take(index + 1).drop_last() =~= names.take(index as int));
        assert(all.take(index + 1).last() == records@[index as int]@);
        assert(names.take(index + 1).last() == keys@[index as int]@);
        if !seen.contains(keys[index].as_str()) {
            seen.insert(keys[index].clone());
            kept.push(records[index].clone());
            assert(trees(kept@) =~= before.push(records@[index as int]@));
        }
        proof {
            let shorter = names.take(index as int);
            let longer = names.take(index + 1);
            assert forall|k: Seq<char>| #[trigger] seen@.contains(k) <==> longer.contains(k) by {
                if longer.contains(k) {
                    let i = choose|i: int| 0 <= i < longer.len() && longer[i] == k;
                    if i < index {
                        assert(shorter[i] == k);
                    }
                }
                if shorter.contains(k) {
                    let i = choose|i: int| 0 <= i < shorter.len() && shorter[i] == k;
                    assert(longer[i] == k);
                }
                assert(longer[index as int] == names[index as int]);
            }
        }
        index = index + 1;
    }
    assert(all.take(index as int) =~= all);
    assert(names.take(index as int) =~= names);
    kept
}

/// Merges the incoming write authorizations into the ones that were there,
/// keeping of each text the first.
pub fn merge_records(existing: Option<&Vec<Json>>, incoming: &Vec<Json>) -> (result: Vec<Json>)
    ensures
        trees(result@) == merged_records(
            match existing {
                Some(records) => trees(records@),
                None => Seq::empty(),
            },
            trees(incoming@),
        ),
{
    let mut records: Vec<Json> = match existing {
        Some(records) => copy_items(records),
        None => Vec::new(),
    };
    let ghost old_records = match existing {
        Some(records) => trees(records@),
        None => Seq::empty(),
    };
    assert(trees(records@) =~= old_records);
    let mut index: usize = 0;
    assert(trees(records@) =~= old_records + trees(incoming@).take(0));
    while index < incoming.len()
        invariant
            index <= incoming@.len(),
            trees(records@) == old_records + trees(incoming@).take(index as int),
        decreases incoming@.len() - index,
    {
        let ghost before = trees(records@);
        records.push(incoming[index].clone());
        assert(trees(records@) =~= before.push(incoming@[index as int]@));
        assert(trees(records@) =~= old_records + trees(incoming@).take(index + 1));
        index = index + 1;
    }
    assert(trees(incoming@).take(index as int) =~= trees(incoming@));
    let mut keys: Vec<String> = Vec::new();
    let mut index: usize = 0;
    while index < records.len()
        invariant
            index <= records@.len(),
            keys@.len() == index,
            forall|i: int| 0 <= i < index ==> (#[trigger] keys@[i])@ == json_text(records@[i]@),
        decreases records@.len() - index,
    {
        keys.push(records[index].to_text());
        index = index + 1;
    }
    proof {
        assert forall|i: int| 0 <= i < trees(records@).len() implies whole_record()(
            #[trigger] trees(records@)[i],
        ) == Some(texts(keys@)[i]) by {
            assert(keys@[i]@ == json_text(records@[i]@));
        }
        lemma_first_by_keys(trees(records@), texts(keys@), whole_record());
    }
    keep_first(&records, &keys)
}

/// One record more: it is kept, behind the others, exactly where it has a key that none
/// before it has; otherwise the kept records are the same.
pub proof fn law_new_keys_are_kept<K>(
    records: Seq<JsonTree>,
    record: JsonTree,
    key: spec_fn(JsonTree) -> Option<K>,
)
    ensures
        first_of_each(Seq::<JsonTree>::empty(), key).len() == 0,
        key(record) is Some && (forall|i: int|
            0 <= i < records.len() ==> key(#[trigger] records[i]) != key(record)) ==> first_of_each(
            records.push(record),
            key,
        ) == first_of_each(records, key).push(record),
        key(record) is None || (exists|i: int|
            0 <= i < records.len() && key(#[trigger] records[i]) == key(record)) ==> first_of_each(
            records.push(record),
            key,
        ) == first_of_each(records, key),
{
    assert(records.push(record).drop_last() =~= records);
    assert(records.push(record).last() == record);
    if key(record) is Some && (exists|i: int|
        0 <= i < records.len() && key(#[trigger] records[i]) == key(record)) {
        let i = choose|i: int| 0 <= i < records.len() && key(#[trigger] records[i]) == key(record);
        assert(key(records[i]) == Some(key(record)->0));
        assert(has_key(records, key, key(record)->0));
    }
}

/// Write authorizations are told apart by their JSON text: one more is kept, behind the
/// others, exactly where none before it has the same text.
pub proof fn law_authorizations_differ_in_text(
    existing: Seq<JsonTree>,
    incoming: Seq<JsonTree>,
    record: JsonTree,
)
    ensures
        merged_records(existing, incoming.push(record)) == if exists|i: int|
            0 <= i < (existing + incoming).len() && json_text(
                #[trigger] (existing + incoming)[i],
            ) == json_text(record) {
            merged_records(existing, incoming)
        } else {
            merged_records(existing, incoming).push(record)
        },
{
    let all = existing + incoming;
    assert(existing + incoming.push(record) =~= all.push(record));
    law_new_keys_are_kept(all, record, whole_record());
    if exists|i: int| 0 <= i < all.len() && json_text(#[trigger] all[i]) == json_text(record) {
        let i = choose|i: int|
            0 <= i < all.len() && json_text(#[trigger] all[i]) == json_text(record);
        assert(whole_record()(all[i]) == whole_record()(record));
    } else {
        assert forall|i: int| 0 <= i < all.len() implies whole_record()(#[trigger] all[i])
            != whole_record()(record) by {
            assert(json_text(all[i]) != json_text(record));
        }
    }
}

/// Of a list with one record of each key no more is kept than the list has, and the
/// record behind it adds at most one.
pub proof fn law_no_more_is_kept_than_there_is<K>(
    records: Seq<JsonTree>,
    record: JsonTree,
    key: spec_fn(JsonTree) -> Option<K>,
)
    ensures
        first_of_each(records, key).len() <= records.len(),
        first_of_each(records + seq![record], key).len() <= first_of_each(records, key).len() + 1,
    decreases records.len(),
{
    assert((records + seq![record]).drop_last() =~= records);
    if records.len() > 0 {
        law_no_more_is_kept_than_there_is(records.drop_last(), records.last(), key);
    }
}

} // verus!
