use vstd::prelude::*;

verus! {

/// What a read returned, as plain bytes.
pub open spec fn bytes_of(found: Option<Vec<u8>>) -> Option<Seq<u8>> {
    match found {
        Some(v) => Some(v@),
        None => None,
    }
}

/// A flat key/value store of byte strings.
///
/// The store is modelled by the map [`Storage::contents`]. A value holds at
/// least one byte: a store need not tell a key with an empty value from a
/// key that was never written.
pub trait Storage {
    /// The map from keys to values that the store holds.
    spec fn contents(&self) -> Map<Seq<u8>, Seq<u8>>;

    /// The value at `key`, if there is one.
    fn get(&self, key: &[u8]) -> (r: Option<Vec<u8>>)
        ensures
            bytes_of(r) == self.contents().get(key@),
    ;

    /// Writes `value` at `key`, over whatever was there, and touches no other key.
    fn set(&mut self, key: &[u8], value: &[u8])
        requires
            value@.len() > 0,
        ensures
            final(self).contents() == old(self).contents().insert(key@, value@),
    ;
}

/// `MemoryStorage` of cosmwasm-std, a map from keys to values held in
/// memory. Nothing inside it is visible here.
#[verifier::external_type_specification]
#[verifier::external_body]
pub struct ExMemoryStorage(cosmwasm_std::MemoryStorage);

/// The entries of an in-memory store, as a map.
pub uninterp spec fn memory_contents(store: cosmwasm_std::MemoryStorage) -> Map<Seq<u8>, Seq<u8>>;

/// `MemoryStorage::get` of cosmwasm-std, through its `Storage` trait: a copy
/// of the value that the store's map holds at `key`, or `None` where the key
/// is not in the map.
#[verifier::external_body]
fn memory_get(store: &cosmwasm_std::MemoryStorage, key: &[u8]) -> (r: Option<Vec<u8>>)
    ensures
        bytes_of(r) == memory_contents(*store).get(key@),
{
    cosmwasm_std::Storage::get(store, key)
}

/// `MemoryStorage::set` of cosmwasm-std, through its `Storage` trait: it
/// inserts copies of `key` and `value` into the store's map. The outside
/// function panics on an empty `value`, which `requires` leaves out.
#[verifier::external_body]
fn memory_set(store: &mut cosmwasm_std::MemoryStorage, key: &[u8], value: &[u8])
    requires
        value@.len() > 0,
    ensures
        memory_contents(*final(store)) == memory_contents(*old(store)).insert(key@, value@),
{
    cosmwasm_std::Storage::set(store, key, value)
}

impl Storage for cosmwasm_std::MemoryStorage {
    open spec fn contents(&self) -> Map<Seq<u8>, Seq<u8>> {
        memory_contents(*self)
    }

    fn get(&self, key: &[u8]) -> (r: Option<Vec<u8>>) {
        memory_get(self, key)
    }

    fn set(&mut self, key: &[u8], value: &[u8]) {
        memory_set(self, key, value)
    }
}

} // verus!
