use vstd::prelude::*;

use core::marker::PhantomData;

use crate::errors::StoreError;
use crate::namespace_helpers::{composed, key_prefix, MAX_SEGMENT_LEN};
use crate::storage::Storage;
use crate::type_helpers::{
    may_deserialize, may_deserializes, must_deserialize, must_deserializes, saves, serialize,
    update_at, updates, Model,
};

verus! {

/// The one value of type `T` that a store holds under the namespace `key`.
pub fn singleton<'a, S: Storage, T: Model>(storage: &'a mut S, key: &[u8]) -> (r: Singleton<'a, S, T>)
    requires
        key@.len() <= MAX_SEGMENT_LEN,
    ensures
        r.key@ == composed(seq![key@]),
        *r.storage == *old(storage),
        *final(r.storage) == *final(storage),
{
    Singleton::new(storage, key)
}

/// A namespace of a store that holds a single value of type `T`, at the
/// physical key `key`.
pub struct Singleton<'a, S: Storage, T: Model> {
    pub storage: &'a mut S,
    pub key: Vec<u8>,
    pub data: PhantomData<&'a T>,
}

impl<'a, S: Storage, T: Model> Singleton<'a, S, T> {
    /// What the underlying store holds.
    pub open spec fn store(&self) -> Map<Seq<u8>, Seq<u8>> {
        self.storage.contents()
    }

    /// The bytes that stand for the value at present, if it was ever saved.
    pub open spec fn found(&self) -> Option<Seq<u8>> {
        self.store().get(self.key@)
    }

    /// The singleton under the namespace `key` of `storage`.
    pub fn new(storage: &'a mut S, key: &[u8]) -> (r: Self)
        requires
            key@.len() <= MAX_SEGMENT_LEN,
        ensures
            r.key@ == composed(seq![key@]),
            *r.storage == *old(storage),
            *final(r.storage) == *final(storage),
    {
        Singleton { storage, key: key_prefix(key), data: PhantomData }
    }

    /// Encodes `data` and writes it. Where encoding fails the store is left
    /// as it was.
    pub fn save(&mut self, data: &T) -> (r: Result<(), StoreError>)
        ensures
            saves(old(self).store(), old(self).key@, *data, final(self).store(), r),
            final(self).key == old(self).key,
            *final(final(self).storage) == *final(old(self).storage),
    {
        let s = serialize(data);
        match s {
            Ok(bytes) => {
                self.storage.set(self.key.as_slice(), bytes.as_slice());
                Ok(())
            },
            Err(e) => Err(e),
        }
    }

    /// The value: `NotFound` where none was saved, `ParseErr` where the
    /// stored bytes do not decode.
    pub fn load(&self) -> (r: Result<T, StoreError>)
        ensures
            must_deserializes(self.found(), r),
    {
        let value = self.storage.get(self.key.as_slice());
        must_deserialize(&value)
    }

    /// The value, or `None` where none was saved; `ParseErr` where the
    /// stored bytes do not decode.
    pub fn may_load(&self) -> (r: Result<Option<T>, StoreError>)
        ensures
            may_deserializes(self.found(), r),
    {
        let value = self.storage.get(self.key.as_slice());
        may_deserialize(&value)
    }

    /// Loads the value, hands it to `action`, and saves and returns what
    /// `action` makes of it. Where the load, `action` or the encoding fails,
    /// the store is left as it was and the error is returned.
    pub fn update<F: Fn(T) -> Result<T, StoreError>>(&mut self, action: F) -> (r: Result<T, StoreError>)
        requires
            forall|input: T|
                must_deserializes(old(self).found(), Ok::<T, StoreError>(input)) ==> call_requires(
                    action,
                    (input,),
                ),
        ensures
            updates(old(self).store(), old(self).key@, action, final(self).store(), r),
            final(self).key == old(self).key,
            *final(final(self).storage) == *final(old(self).storage),
    {
        update_at(self.storage, self.key.as_slice(), action)
    }
}

} // verus!
