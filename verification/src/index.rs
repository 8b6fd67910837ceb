use vstd::prelude::*;

use core::marker::PhantomData;

use crate::errors::StoreError;
use crate::json::{json_refs, parsed_refs, refs_from_json, refs_of, refs_to_json};
use crate::namespace_helpers::{composed, key_prefix, prefixed_key, MAX_SEGMENT_LEN};
use crate::storage::{bytes_of, Storage};
use crate::type_helpers::{decodes, encodes, may_deserialize, Model};
use crate::typed::typed;

verus! {

/// A secondary index: it files each record under the key that `action`
/// derives from it, in a namespace of its own.
pub struct Index<T, F: Fn(&T) -> Vec<u8>> {
    pub prefix: Vec<u8>,
    pub action: F,
    pub data: PhantomData<T>,
}

/// An index under `namespace` that derives its keys with `action`.
///
/// The namespace is a single segment, so the prefix is the namespace itself
/// and the key of an entry is the namespace followed by the derived key.
pub fn index<T, F: Fn(&T) -> Vec<u8>>(namespace: &[u8], action: F) -> (r: Index<T, F>)
    requires
        namespace@.len() <= MAX_SEGMENT_LEN,
    ensures
        r.prefix@ == composed(seq![namespace@]),
        forall|derived: Seq<u8>| #[trigger] r.entry_key(derived) == namespace@ + derived,
        r.action == action,
{
    Index { prefix: key_prefix(namespace), action, data: PhantomData }
}

/// The key of an index entry is the prefix composed from the index's one
/// namespace, followed by the derived key: the namespace and then the
/// derived key, with no header.
pub proof fn lemma_entry_key(namespace: Seq<u8>, derived: Seq<u8>)
    ensures
        composed(seq![namespace]) + derived == namespace + derived,
{
}

/// With an index function that is a function, `calc_key` has one answer:
/// where `action` can only return `derived` for `item`, the key of the
/// item's entry is the index's prefix followed by `derived`.
pub proof fn lemma_calc_key_of_function<T, F: Fn(&T) -> Vec<u8>>(
    idx: Index<T, F>,
    item: T,
    derived: Seq<u8>,
    key: Seq<u8>,
)
    requires
        forall|d: Vec<u8>| #[trigger] call_ensures(idx.action, (&item,), d) ==> d@ == derived,
        idx.calc_keys(item, key),
    ensures
        key == idx.prefix@ + derived,
{
}

/// Within an index, entries never share a key: the keys of two entries are
/// the same only for the same derived key.
pub proof fn lemma_entry_keys_apart(prefix: Seq<u8>, derived1: Seq<u8>, derived2: Seq<u8>)
    requires
        prefix + derived1 == prefix + derived2,
    ensures
        derived1 == derived2,
{
    let key1 = prefix + derived1;
    let key2 = prefix + derived2;
    assert(derived1.len() == derived2.len()) by {
        assert(key1.len() == key2.len());
    }
    assert(derived1 =~= derived2) by {
        assert forall|i: int| 0 <= i < derived1.len() implies derived1[i] == derived2[i] by {
            assert(key1[prefix.len() + i] == key2[prefix.len() + i]);
        }
    }
}

impl<T, F: Fn(&T) -> Vec<u8>> Index<T, F> {
    /// The physical key of the entry for a derived key.
    pub open spec fn entry_key(&self, derived: Seq<u8>) -> Seq<u8> {
        self.prefix@ + derived
    }

    /// `calc_key` may return `key` for `item`: the entry key of something
    /// that the index function may derive from the item.
    pub open spec fn calc_keys(&self, item: T, key: Seq<u8>) -> bool {
        exists|derived: Vec<u8>| #[trigger]
            call_ensures(self.action, (&item,), derived) && key == self.entry_key(derived@)
    }

    /// The physical key of the entry for a derived key.
    pub fn derived_key(&self, derived: &[u8]) -> (r: Vec<u8>)
        ensures
            r@ == self.entry_key(derived@),
    {
        prefixed_key(self.prefix.as_slice(), derived)
    }

    /// The physical key of the entry that `item` belongs to.
    pub fn calc_key(&self, item: &T) -> (r: Vec<u8>)
        requires
            call_requires(self.action, (item,)),
        ensures
            self.calc_keys(*item, r@),
    {
        let calc = (self.action)(item);
        self.derived_key(calc.as_slice())
    }
}

/// What the store keeps for an index entry: the primary keys of the records
/// that belong to it, in the order in which they were added.
#[derive(PartialEq, Eq, Debug, Clone, Default)]
pub struct IndexEntry {
    pub refs: Vec<Vec<u8>>,
}

/// The entry that a parsed list stands for, by its references.
pub open spec fn entry_refs(e: Option<IndexEntry>) -> Option<Seq<Seq<u8>>> {
    match e {
        Some(entry) => Some(refs_of(entry.refs)),
        None => None,
    }
}

impl Model for IndexEntry {
    const KIND: &'static str = "IndexEntry";

    fn encode(&self) -> (r: Option<Vec<u8>>)
        ensures
            r matches Some(text) && text@ == json_refs(refs_of(self.refs)) && text@.len() > 0
                && parsed_refs(text@) == Some(refs_of(self.refs)),
    {
        match refs_to_json(&self.refs) {
            Ok(text) => Some(text),
            Err(_) => None,
        }
    }

    fn decode(bytes: &[u8]) -> (r: Option<Self>)
        ensures
            entry_refs(r) == parsed_refs(bytes@),
    {
        match refs_from_json(bytes) {
            Ok(refs) => Some(IndexEntry { refs }),
            Err(_) => None,
        }
    }
}

/// The references without any occurrence of `pk`, the others in order.
pub open spec fn without(refs: Seq<Seq<u8>>, pk: Seq<u8>) -> Seq<Seq<u8>>
    decreases refs.len(),
{
    if refs.len() == 0 {
        Seq::empty()
    } else if refs.last() == pk {
        without(refs.drop_last(), pk)
    } else {
        without(refs.drop_last(), pk).push(refs.last())
    }
}

/// What is read of the entry at `idx`: `None` where the key is absent, the
/// list where its bytes are read as one, else `ParseErr`.
pub open spec fn refs_at(store: Map<Seq<u8>, Seq<u8>>, idx: Seq<u8>) -> Result<
    Option<Seq<Seq<u8>>>,
    StoreError,
> {
    match store.get(idx) {
        Some(text) => match parsed_refs(text) {
            Some(list) => Ok(Some(list)),
            None => Err(StoreError::ParseErr { kind: IndexEntry::KIND }),
        },
        None => Ok(None),
    }
}

/// The references of an entry, where an absent entry has none.
pub open spec fn listed(found: Option<Seq<Seq<u8>>>) -> Seq<Seq<u8>> {
    match found {
        Some(list) => list,
        None => Seq::empty(),
    }
}

/// The store and the answer after `add_ref`: `pk` is appended to the entry
/// at `idx`, which is created if absent; an entry that cannot be read is
/// left as it is.
pub open spec fn add_ref_result(store: Map<Seq<u8>, Seq<u8>>, idx: Seq<u8>, pk: Seq<u8>) -> (
    Map<Seq<u8>, Seq<u8>>,
    Result<(), StoreError>,
) {
    match refs_at(store, idx) {
        Ok(found) => (store.insert(idx, json_refs(listed(found).push(pk))), Ok(())),
        Err(e) => (store, Err(e)),
    }
}

/// The store and the answer after `remove_ref`: every occurrence of `pk`
/// leaves the entry at `idx`, which stays even when it becomes empty; an
/// absent entry is `NotFound`, and one that cannot be read is left as it
/// is.
pub open spec fn remove_ref_result(store: Map<Seq<u8>, Seq<u8>>, idx: Seq<u8>, pk: Seq<u8>) -> (
    Map<Seq<u8>, Seq<u8>>,
    Result<(), StoreError>,
) {
    match refs_at(store, idx) {
        Ok(Some(list)) => (store.insert(idx, json_refs(without(list, pk))), Ok(())),
        Ok(None) => (store, Err(StoreError::NotFound { kind: IndexEntry::KIND })),
        Err(e) => (store, Err(e)),
    }
}

/// The store and the answer after the reference to `pk` moves from the
/// entry at `old_idx`, if the record had one, to the entry at `new_idx`:
/// nothing is read or written where the two are the same; a failed removal
/// ends the move before anything is added.
pub open spec fn move_ref_result(
    store: Map<Seq<u8>, Seq<u8>>,
    pk: Seq<u8>,
    old_idx: Option<Seq<u8>>,
    new_idx: Seq<u8>,
) -> (Map<Seq<u8>, Seq<u8>>, Result<(), StoreError>) {
    match old_idx {
        Some(o) => if o == new_idx {
            (store, Ok(()))
        } else {
            let removed = remove_ref_result(store, o, pk);
            match removed.1 {
                Ok(_) => add_ref_result(removed.0, new_idx, pk),
                Err(e) => (store, Err(e)),
            }
        },
        None => add_ref_result(store, new_idx, pk),
    }
}

/// A move of the reference to `pk` may take the store from `before` to
/// `after` and return `r`: the store and the answer are those of
/// `move_ref_result`; and after a move that went through between two
/// different entries, the new entry is read with `pk` appended to what it
/// listed, and the old entry is read without `pk`.
pub open spec fn moves_ref(
    before: Map<Seq<u8>, Seq<u8>>,
    pk: Seq<u8>,
    old_idx: Option<Seq<u8>>,
    new_idx: Seq<u8>,
    after: Map<Seq<u8>, Seq<u8>>,
    r: Result<(), StoreError>,
) -> bool {
    &&& (after, r) == move_ref_result(before, pk, old_idx, new_idx)
    &&& r is Ok && old_idx != Some(new_idx) ==> refs_listed(after, new_idx) == Ok::<
        Seq<Seq<u8>>,
        StoreError,
    >(listed(refs_at(before, new_idx)->Ok_0).push(pk))
    &&& r is Ok && old_idx is Some && old_idx != Some(new_idx) ==> refs_listed(after, old_idx->0)
        == Ok::<Seq<Seq<u8>>, StoreError>(without(listed(refs_at(before, old_idx->0)->Ok_0), pk))
}

/// The keys that `write_index` may compute for the old and the new record.
pub open spec fn keys_of<T, F: Fn(&T) -> Vec<u8>>(
    idx: Index<T, F>,
    old_val: Option<&T>,
    new_val: T,
    old_idx: Option<Seq<u8>>,
    new_idx: Seq<u8>,
) -> bool {
    &&& idx.calc_keys(new_val, new_idx)
    &&& match old_val {
        Some(o) => old_idx is Some && idx.calc_keys(*o, old_idx->0),
        None => old_idx is None,
    }
}

/// `write_index` may take the store from `before` to `after` and return
/// `r`: it moves the reference between the entries of some keys that the
/// index may compute for the two records.
pub open spec fn writes_index<T, F: Fn(&T) -> Vec<u8>>(
    before: Map<Seq<u8>, Seq<u8>>,
    idx: Index<T, F>,
    pk: Seq<u8>,
    old_val: Option<&T>,
    new_val: T,
    after: Map<Seq<u8>, Seq<u8>>,
    r: Result<(), StoreError>,
) -> bool {
    exists|old_idx: Option<Seq<u8>>, new_idx: Seq<u8>| #[trigger]
        keys_of(idx, old_val, new_val, old_idx, new_idx) && moves_ref(
            before,
            pk,
            old_idx,
            new_idx,
            after,
            r,
        )
}

/// `read_refs` may return `r`: what is listed at some key that the index
/// may compute for the template.
pub open spec fn reads_refs<T, F: Fn(&T) -> Vec<u8>>(
    store: Map<Seq<u8>, Seq<u8>>,
    idx: Index<T, F>,
    template: T,
    r: Result<Seq<Seq<u8>>, StoreError>,
) -> bool {
    exists|key: Seq<u8>| #[trigger] idx.calc_keys(template, key) && r == refs_listed(store, key)
}

/// The references listed at `key`: none for an absent entry.
pub open spec fn refs_listed(store: Map<Seq<u8>, Seq<u8>>, key: Seq<u8>) -> Result<
    Seq<Seq<u8>>,
    StoreError,
> {
    match refs_at(store, key) {
        Ok(found) => Ok(listed(found)),
        Err(e) => Err(e),
    }
}

/// The references that a result holds.
pub open spec fn result_refs(r: Result<Vec<Vec<u8>>, StoreError>) -> Result<Seq<Seq<u8>>, StoreError> {
    match r {
        Ok(refs) => Ok(refs_of(refs)),
        Err(e) => Err(e),
    }
}

/// The references that a loaded entry holds.
pub open spec fn result_entry(r: Result<Option<IndexEntry>, StoreError>) -> Result<
    Option<Seq<Seq<u8>>>,
    StoreError,
> {
    match r {
        Ok(e) => Ok(entry_refs(e)),
        Err(e) => Err(e),
    }
}

/// Whether two byte strings are the same.
pub fn same_bytes(a: &[u8], b: &[u8]) -> (r: bool)
    ensures
        r == (a@ == b@),
{
    if a.len() != b.len() {
        return false;
    }
    let mut i: usize = 0;
    while i < a.len()
        invariant
            a@.len() == b@.len(),
            0 <= i <= a@.len(),
            a@.take(i as int) == b@.take(i as int),
        decreases a@.len() - i,
    {
        if a[i] != b[i] {
            assert(a@[i as int] != b@[i as int]);
            return false;
        }
        assert(a@.take(i + 1) =~= a@.take(i as int).push(a@[i as int]));
        assert(b@.take(i + 1) =~= b@.take(i as int).push(b@[i as int]));
        i += 1;
    }
    assert(a@ =~= a@.take(i as int));
    assert(b@ =~= b@.take(i as int));
    true
}

/// The references without any occurrence of `pk`.
pub fn remove_all(refs: &Vec<Vec<u8>>, pk: &[u8]) -> (r: Vec<Vec<u8>>)
    ensures
        refs_of(r) == without(refs_of(*refs), pk@),
{
    let ghost list = refs_of(*refs);
    let mut out: Vec<Vec<u8>> = Vec::new();
    let mut i: usize = 0;
    assert(refs_of(out) =~= without(list.take(0), pk@));
    while i < refs.len()
        invariant
            list == refs_of(*refs),
            0 <= i <= refs@.len(),
            refs_of(out) == without(list.take(i as int), pk@),
        decreases refs@.len() - i,
    {
        let item: &Vec<u8> = &refs[i];
        let ghost kept = refs_of(out);
        assert(list.take(i + 1).drop_last() =~= list.take(i as int));
        assert(list.take(i + 1).last() == item@);
        if !same_bytes(item.as_slice(), pk) {
            out.push(vstd::slice::slice_to_vec(item.as_slice()));
            assert(refs_of(out) =~= kept.push(item@));
        }
        i += 1;
    }
    assert(list.take(i as int) =~= list);
    out
}

/// Brings the index up to date with a record saved under the primary key
/// `pk`: `old_val` is the record as it was stored before, if it was, and
/// `new_val` the record as it is stored now.
pub fn write_index<S: Storage, T, F: Fn(&T) -> Vec<u8>>(
    storage: &mut S,
    idx: &Index<T, F>,
    pk: &[u8],
    old_val: Option<&T>,
    new_val: &T,
) -> (r: Result<(), StoreError>)
    requires
        call_requires(idx.action, (new_val,)),
        old_val matches Some(o) ==> call_requires(idx.action, (o,)),
    ensures
        writes_index(old(storage).contents(), *idx, pk@, old_val, *new_val, final(storage).contents(), r),
{
    let old_idx: Option<Vec<u8>> = match old_val {
        Some(o) => Some(idx.calc_key(o)),
        None => None,
    };
    let new_idx = idx.calc_key(new_val);
    let ghost old_key = bytes_of(old_idx);
    assert(keys_of(*idx, old_val, *new_val, old_key, new_idx@));
    match &old_idx {
        Some(o) => move_ref(storage, pk, Some(o.as_slice()), new_idx.as_slice()),
        None => move_ref(storage, pk, None, new_idx.as_slice()),
    }
}

/// The key that an optional slice holds.
pub open spec fn key_of(idx: Option<&[u8]>) -> Option<Seq<u8>> {
    match idx {
        Some(k) => Some(k@),
        None => None,
    }
}

/// Moves the reference to `pk` from the entry at `old_idx`, if there is
/// one, to the entry at `new_idx`.
pub fn move_ref<S: Storage>(storage: &mut S, pk: &[u8], old_idx: Option<&[u8]>, new_idx: &[u8]) -> (r:
    Result<(), StoreError>)
    ensures
        moves_ref(old(storage).contents(), pk@, key_of(old_idx), new_idx@, final(storage).contents(), r),
{
    match old_idx {
        Some(o) => {
            if same_bytes(o, new_idx) {
                return Ok(());
            }
            match remove_ref(storage, o, pk) {
                Ok(_) => {},
                Err(e) => {
                    return Err(e);
                },
            }
        },
        None => {},
    }
    add_ref(storage, new_idx, pk)
}

/// The primary keys of the records that the index files where it files
/// `template`: only what the index function reads of the template matters.
pub fn read_refs<S: Storage, T, F: Fn(&T) -> Vec<u8>>(storage: &S, idx: &Index<T, F>, template: &T) -> (r:
    Result<Vec<Vec<u8>>, StoreError>)
    requires
        call_requires(idx.action, (template,)),
    ensures
        reads_refs(storage.contents(), *idx, *template, result_refs(r)),
{
    let idx_key = idx.calc_key(template);
    let r = match load_refs(storage, idx_key.as_slice()) {
        Ok(found) => match found {
            Some(entry) => Ok(entry.refs),
            None => Ok(Vec::new()),
        },
        Err(e) => Err(e),
    };
    proof {
        assert(result_refs(r) == refs_listed(storage.contents(), idx_key@)) by {
            if r is Ok {
                assert(refs_of(r->Ok_0) =~= listed(refs_at(storage.contents(), idx_key@)->Ok_0));
            }
        }
    }
    r
}

/// Takes every occurrence of `pk` out of the entry at `idx`, which must be
/// there: `NotFound` where it is not.
pub fn remove_ref<S: Storage>(storage: &mut S, idx: &[u8], pk: &[u8]) -> (r: Result<(), StoreError>)
    ensures
        (final(storage).contents(), r) == remove_ref_result(old(storage).contents(), idx@, pk@),
        r is Ok ==> refs_listed(final(storage).contents(), idx@) == Ok::<Seq<Seq<u8>>, StoreError>(
            without(listed(refs_at(old(storage).contents(), idx@)->Ok_0), pk@),
        ),
{
    let mut db = typed::<S, IndexEntry>(storage);
    let mut entry: IndexEntry = match db.load(idx) {
        Ok(entry) => entry,
        Err(e) => {
            return Err(e);
        },
    };
    entry.refs = remove_all(&entry.refs, pk);
    db.save(idx, &entry)
}

/// Appends `pk` to the entry at `idx`, which is created if it is not
/// there. A key that the entry holds already is added once more.
pub fn add_ref<S: Storage>(storage: &mut S, idx: &[u8], pk: &[u8]) -> (r: Result<(), StoreError>)
    ensures
        (final(storage).contents(), r) == add_ref_result(old(storage).contents(), idx@, pk@),
        r is Ok ==> refs_listed(final(storage).contents(), idx@) == Ok::<Seq<Seq<u8>>, StoreError>(
            listed(refs_at(old(storage).contents(), idx@)->Ok_0).push(pk@),
        ),
{
    let ghost stored = storage.contents();
    let mut db = typed::<S, IndexEntry>(storage);
    let mut entry: IndexEntry = match db.may_load(idx) {
        Ok(found) => match found {
            Some(entry) => entry,
            None => IndexEntry { refs: Vec::new() },
        },
        Err(e) => {
            return Err(e);
        },
    };
    let ghost before = refs_of(entry.refs);
    assert(before =~= listed(refs_at(stored, idx@)->Ok_0));
    entry.refs.push(vstd::slice::slice_to_vec(pk));
    assert(refs_of(entry.refs) =~= before.push(pk@));
    db.save(idx, &entry)
}

/// The entry at `idx`, if there is one.
pub fn load_refs<S: Storage>(storage: &S, idx: &[u8]) -> (r: Result<Option<IndexEntry>, StoreError>)
    ensures
        result_entry(r) == refs_at(storage.contents(), idx@),
{
    let found = storage.get(idx);
    may_deserialize(&found)
}

/// The codec of `IndexEntry` round-trips: it always encodes, and what it
/// encodes it decodes to an entry with the same references.
pub proof fn lemma_index_entry_round_trips()
    ensures
        forall|v: IndexEntry, e: Option<Vec<u8>>| #[trigger] encodes(v, e) ==> e is Some,
        forall|v: IndexEntry, e: Option<Vec<u8>>, d: Option<IndexEntry>|
            #![trigger encodes(v, e), decodes(e->0@, d)]
            encodes(v, e) && decodes(e->0@, d) ==> entry_refs(d) == Some(refs_of(v.refs)),
{
}

/// Taking out a key that an entry does not hold leaves its references as
/// they are.
pub proof fn lemma_without_absent(refs: Seq<Seq<u8>>, pk: Seq<u8>)
    requires
        !refs.contains(pk),
    ensures
        without(refs, pk) == refs,
    decreases refs.len(),
{
    if refs.len() > 0 {
        assert(refs.drop_last().len() < refs.len());
        assert forall|i: int| 0 <= i < refs.drop_last().len() implies refs.drop_last()[i] != pk by {
            assert(refs[i] == refs.drop_last()[i]);
        }
        assert(refs.last() == refs[refs.len() - 1]);
        lemma_without_absent(refs.drop_last(), pk);
        assert(without(refs, pk) =~= refs);
    } else {
        assert(without(refs, pk) =~= refs);
    }
}

/// Once a key is taken out, the references hold it no more.
pub proof fn lemma_without_removes(refs: Seq<Seq<u8>>, pk: Seq<u8>)
    ensures
        !without(refs, pk).contains(pk),
    decreases refs.len(),
{
    if refs.len() > 0 {
        lemma_without_removes(refs.drop_last(), pk);
        let rest = without(refs.drop_last(), pk);
        if refs.last() != pk {
            assert forall|i: int| 0 <= i < rest.push(refs.last()).len() implies rest.push(
                refs.last(),
            )[i] != pk by {
                if i < rest.len() {
                    assert(rest.contains(rest[i]));
                }
            }
        }
    }
}

/// Removing a primary key from an entry that is there and does not hold it
/// succeeds and leaves the entry's references as they were.
pub proof fn lemma_remove_absent_ref(store: Map<Seq<u8>, Seq<u8>>, idx: Seq<u8>, pk: Seq<u8>)
    requires
        refs_at(store, idx) matches Ok(Some(list)) && !list.contains(pk),
    ensures
        remove_ref_result(store, idx, pk).1 is Ok,
        remove_ref_result(store, idx, pk).0 == store.insert(
            idx,
            json_refs(listed(refs_at(store, idx)->Ok_0)),
        ),
{
    lemma_without_absent(listed(refs_at(store, idx)->Ok_0), pk);
}

/// After a record was indexed for the first time, the entry of its key
/// lists its primary key, behind whatever the entry listed before.
pub proof fn lemma_created_is_listed(
    before: Map<Seq<u8>, Seq<u8>>,
    pk: Seq<u8>,
    new_idx: Seq<u8>,
    after: Map<Seq<u8>, Seq<u8>>,
)
    requires
        moves_ref(before, pk, None, new_idx, after, Ok(())),
    ensures
        refs_listed(after, new_idx) matches Ok(list) && list.contains(pk) && list.last() == pk,
        refs_at(before, new_idx) == Ok::<Option<Seq<Seq<u8>>>, StoreError>(None) ==> refs_listed(
            after,
            new_idx,
        ) == Ok::<Seq<Seq<u8>>, StoreError>(seq![pk]),
        forall|other: Seq<u8>| other != new_idx ==> after.get(other) == before.get(other),
{
    let list = listed(refs_at(before, new_idx)->Ok_0).push(pk);
    assert(list[list.len() - 1] == pk);
    if refs_at(before, new_idx) == Ok::<Option<Seq<Seq<u8>>>, StoreError>(None) {
        assert(list =~= seq![pk]);
    }
}

/// After a record's derived key changed and the index was brought up to
/// date, the entry of the new key lists the primary key and the entry of
/// the old key lists it no more.
pub proof fn lemma_moved_is_listed(
    before: Map<Seq<u8>, Seq<u8>>,
    pk: Seq<u8>,
    old_idx: Seq<u8>,
    new_idx: Seq<u8>,
    after: Map<Seq<u8>, Seq<u8>>,
)
    requires
        old_idx != new_idx,
        moves_ref(before, pk, Some(old_idx), new_idx, after, Ok(())),
    ensures
        refs_listed(after, new_idx) matches Ok(list) && list.contains(pk),
        refs_listed(after, old_idx) matches Ok(list) && !list.contains(pk),
        refs_at(before, old_idx) == Ok::<Option<Seq<Seq<u8>>>, StoreError>(Some(seq![pk]))
            ==> refs_listed(after, old_idx) == Ok::<Seq<Seq<u8>>, StoreError>(Seq::empty()),
{
    let list = listed(refs_at(before, new_idx)->Ok_0).push(pk);
    assert(list[list.len() - 1] == pk);
    let left = listed(refs_at(before, old_idx)->Ok_0);
    lemma_without_removes(left, pk);
    if refs_at(before, old_idx) == Ok::<Option<Seq<Seq<u8>>>, StoreError>(Some(seq![pk])) {
        let one = seq![pk];
        assert(one.last() == pk);
        assert(one.drop_last() =~= Seq::<Seq<u8>>::empty());
        assert(without(one.drop_last(), pk) =~= Seq::<Seq<u8>>::empty());
        assert(without(one, pk) =~= Seq::<Seq<u8>>::empty());
    }
}

/// No entry but the one at `idx` lists `pk`, among the entries that can be
/// read.
pub open spec fn listed_only_at(store: Map<Seq<u8>, Seq<u8>>, pk: Seq<u8>, idx: Option<Seq<u8>>) -> bool {
    forall|other: Seq<u8>|
        Some(other) != idx ==> (#[trigger] refs_listed(store, other) matches Ok(list) ==> !list.contains(
            pk,
        ))
}

/// A record is listed under one derived key at a time: where no entry but
/// that of its old key lists its primary key, and the index is brought up
/// to date, no entry but that of its new key lists it.
pub proof fn lemma_single_reference(
    before: Map<Seq<u8>, Seq<u8>>,
    pk: Seq<u8>,
    old_idx: Option<Seq<u8>>,
    new_idx: Seq<u8>,
    after: Map<Seq<u8>, Seq<u8>>,
)
    requires
        moves_ref(before, pk, old_idx, new_idx, after, Ok(())),
        listed_only_at(before, pk, old_idx),
    ensures
        listed_only_at(after, pk, Some(new_idx)),
{
    assert forall|other: Seq<u8>| Some(other) != Some(new_idx) implies (#[trigger] refs_listed(
        after,
        other,
    ) matches Ok(list) ==> !list.contains(pk)) by {
        if old_idx == Some(other) {
            lemma_without_removes(listed(refs_at(before, other)->Ok_0), pk);
        } else {
            assert(after.get(other) == before.get(other));
            assert(refs_listed(after, other) == refs_listed(before, other));
        }
    }
}

} // verus!
