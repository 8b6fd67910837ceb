use vstd::prelude::*;

use core::marker::PhantomData;

use crate::errors::StoreError;
use crate::storage::Storage;
use crate::type_helpers::{
    may_deserialize, may_deserializes, must_deserialize, must_deserializes, saves, serialize,
    update_at, updates, Model,
};

verus! {

/// A typed view of a whole store.
pub fn typed<'a, S: Storage, T: Model>(storage: &'a mut S) -> (r: TypedStorage<'a, S, T>)
    ensures
        *r.storage == *old(storage),
        *final(r.storage) == *final(storage),
{
    TypedStorage::new(storage)
}

/// A store whose values are all of type `T`, at keys that the caller gives
/// in full.
pub struct TypedStorage<'a, S: Storage, T: Model> {
    pub storage: &'a mut S,
    pub data: PhantomData<&'a T>,
}

impl<'a, S: Storage, T: Model> TypedStorage<'a, S, T> {
    /// What the underlying store holds.
    pub open spec fn store(&self) -> Map<Seq<u8>, Seq<u8>> {
        self.storage.contents()
    }

    /// A typed view of `storage`, which it borrows for as long as it lives.
    pub fn new(storage: &'a mut S) -> (r: Self)
        ensures
            *r.storage == *old(storage),
            *final(r.storage) == *final(storage),
    {
        TypedStorage { storage, data: PhantomData }
    }

    /// Encodes `data` and writes it at `key`. Where encoding fails the store
    /// is left as it was.
    pub fn save(&mut self, key: &[u8], data: &T) -> (r: Result<(), StoreError>)
        ensures
            saves(old(self).store(), key@, *data, final(self).store(), r),
            *final(final(self).storage) == *final(old(self).storage),
    {
        let s = serialize(data);
        match s {
            Ok(bytes) => {
                self.storage.set(key, bytes.as_slice());
                Ok(())
            },
            Err(e) => Err(e),
        }
    }

    /// The value at `key`: `NotFound` where the key is absent, `ParseErr`
    /// where its bytes do not decode.
    pub fn load(&mut self, key: &[u8]) -> (r: Result<T, StoreError>)
        ensures
            must_deserializes(old(self).store().get(key@), r),
            final(self).store() == old(self).store(),
            *final(final(self).storage) == *final(old(self).storage),
    {
        let bz = self.storage.get(key);
        must_deserialize(&bz)
    }

    /// The value at `key`, or `None` where the key is absent; `ParseErr`
    /// where its bytes do not decode.
    pub fn may_load(&mut self, key: &[u8]) -> (r: Result<Option<T>, StoreError>)
        ensures
            may_deserializes(old(self).store().get(key@), r),
            final(self).store() == old(self).store(),
            *final(final(self).storage) == *final(old(self).storage),
    {
        let bz = self.storage.get(key);
        may_deserialize(&bz)
    }

    /// Loads the value at `key`, hands it to `action`, and saves and returns
    /// what `action` makes of it. Where the load, `action` or the encoding
    /// fails, the store is left as it was and the error is returned.
    pub fn update<F: Fn(T) -> Result<T, StoreError>>(&mut self, key: &[u8], action: F) -> (r: Result<
        T,
        StoreError,
    >)
        requires
            forall|input: T|
                must_deserializes(old(self).store().get(key@), Ok::<T, StoreError>(input))
                    ==> call_requires(action, (input,)),
        ensures
            updates(old(self).store(), key@, action, final(self).store(), r),
            *final(final(self).storage) == *final(old(self).storage),
    {
        update_at(self.storage, key, action)
    }
}

} // verus!
