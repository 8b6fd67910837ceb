use vstd::prelude::*;

use core::marker::PhantomData;

use crate::errors::StoreError;
use crate::namespace_helpers::{
    composed, get_with_prefix, key_prefix, key_prefix_nested, prefixed_key, segments_of,
    set_with_prefix, valid_segments, MAX_SEGMENT_LEN,
};
use crate::storage::Storage;
use crate::type_helpers::{
    may_deserialize, may_deserializes, must_deserialize, must_deserializes, saves, serialize,
    update_at, updates, Model,
};

verus! {

/// A bucket of `T` values under one namespace of a store.
pub fn bucket<'a, S: Storage, T: Model>(namespace: &[u8], storage: &'a mut S) -> (r: Bucket<'a, S, T>)
    requires
        namespace@.len() <= MAX_SEGMENT_LEN,
    ensures
        r.prefix@ == composed(seq![namespace@]),
        *r.storage == *old(storage),
        *final(r.storage) == *final(storage),
{
    Bucket::new(namespace, storage)
}

/// A namespace of a store that holds values of type `T`: a caller key `k`
/// stands for the physical key `prefix ++ k`.
pub struct Bucket<'a, S: Storage, T: Model> {
    pub storage: &'a mut S,
    pub data: PhantomData<&'a T>,
    pub prefix: Vec<u8>,
}

impl<'a, S: Storage, T: Model> Bucket<'a, S, T> {
    /// What the underlying store holds.
    pub open spec fn store(&self) -> Map<Seq<u8>, Seq<u8>> {
        self.storage.contents()
    }

    /// The physical key of a caller key.
    pub open spec fn physical(&self, key: Seq<u8>) -> Seq<u8> {
        self.prefix@ + key
    }

    /// A bucket under a single namespace.
    pub fn new(namespace: &[u8], storage: &'a mut S) -> (r: Self)
        requires
            namespace@.len() <= MAX_SEGMENT_LEN,
        ensures
            r.prefix@ == composed(seq![namespace@]),
            *r.storage == *old(storage),
            *final(r.storage) == *final(storage),
    {
        Bucket { prefix: key_prefix(namespace), storage, data: PhantomData }
    }

    /// A bucket under nested namespaces, outermost first.
    pub fn multilevel(namespaces: &[&[u8]], storage: &'a mut S) -> (r: Self)
        requires
            valid_segments(segments_of(namespaces)),
        ensures
            r.prefix@ == composed(segments_of(namespaces)),
            *r.storage == *old(storage),
            *final(r.storage) == *final(storage),
    {
        Bucket { prefix: key_prefix_nested(namespaces), storage, data: PhantomData }
    }

    /// Encodes `data` and writes it at `key`. Where encoding fails the store
    /// is left as it was.
    pub fn save(&mut self, key: &[u8], data: &T) -> (r: Result<(), StoreError>)
        ensures
            saves(
                old(self).store(),
                old(self).physical(key@),
                *data,
                final(self).store(),
                r,
            ),
            final(self).prefix == old(self).prefix,
            *final(final(self).storage) == *final(old(self).storage),
    {
        let s = serialize(data);
        match s {
            Ok(bytes) => {
                set_with_prefix(self.storage, self.prefix.as_slice(), key, bytes.as_slice());
                Ok(())
            },
            Err(e) => Err(e),
        }
    }

    /// The value at `key`: `NotFound` where the key is absent, `ParseErr`
    /// where its bytes do not decode.
    pub fn load(&self, key: &[u8]) -> (r: Result<T, StoreError>)
        ensures
            must_deserializes(self.store().get(self.physical(key@)), r),
    {
        let value = get_with_prefix(&*self.storage, self.prefix.as_slice(), key);
        must_deserialize(&value)
    }

    /// The value at `key`, or `None` where the key is absent; `ParseErr`
    /// where its bytes do not decode.
    pub fn may_load(&self, key: &[u8]) -> (r: Result<Option<T>, StoreError>)
        ensures
            may_deserializes(self.store().get(self.physical(key@)), r),
    {
        let value = get_with_prefix(&*self.storage, self.prefix.as_slice(), key);
        may_deserialize(&value)
    }

    /// Loads the value at `key`, hands it to `action`, and saves and returns
    /// what `action` makes of it. Where the load, `action` or the encoding
    /// fails, the store is left as it was and the error is returned.
    pub fn update<F: Fn(T) -> Result<T, StoreError>>(&mut self, key: &[u8], action: F) -> (r: Result<
        T,
        StoreError,
    >)
        requires
            forall|input: T|
                must_deserializes(
                    old(self).store().get(old(self).physical(key@)),
                    Ok::<T, StoreError>(input),
                ) ==> call_requires(action, (input,)),
        ensures
            updates(
                old(self).store(),
                old(self).physical(key@),
                action,
                final(self).store(),
                r,
            ),
            final(self).prefix == old(self).prefix,
            *final(final(self).storage) == *final(old(self).storage),
    {
        let k = prefixed_key(self.prefix.as_slice(), key);
        update_at(self.storage, k.as_slice(), action)
    }
}

} // verus!
