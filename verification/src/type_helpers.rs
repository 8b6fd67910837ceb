use vstd::prelude::*;

use crate::errors::StoreError;
use crate::storage::{bytes_of, Storage};

verus! {

/// A type of values that a store can hold: it names itself and knows its
/// codec.
///
/// The methods promise nothing. Whatever a codec answers, the functions of
/// this module say what becomes of the answer; an implementation that states
/// what it returns makes their contracts that much sharper for its type.
pub trait Model: Sized {
    /// The tag under which errors report the type.
    const KIND: &'static str;

    /// The bytes that stand for the value, or `None` where it has no encoding.
    fn encode(&self) -> Option<Vec<u8>>;

    /// The value that `bytes` stand for, or `None` where they stand for none.
    fn decode(bytes: &[u8]) -> Option<Self>;
}

/// `T::encode` may answer `e` for `data`.
pub open spec fn encodes<T: Model>(data: T, e: Option<Vec<u8>>) -> bool {
    call_ensures(T::encode, (&data,), e)
}

/// `T::decode` may answer `d` for `bytes`.
pub open spec fn decodes<T: Model>(bytes: Seq<u8>, d: Option<T>) -> bool {
    exists|b: &[u8]| b@ == bytes && call_ensures(T::decode, (b,), d)
}

/// What an answer of `T::encode` comes to: the bytes, where there are some to
/// store, else an error that names the type.
pub open spec fn encoding_outcome<T: Model>(e: Option<Vec<u8>>) -> Result<Vec<u8>, StoreError> {
    match e {
        Some(b) => if b@.len() > 0 {
            Ok(b)
        } else {
            Err(StoreError::SerializeErr { kind: T::KIND })
        },
        None => Err(StoreError::SerializeErr { kind: T::KIND }),
    }
}

/// What an answer of `T::decode` comes to: the value, or an error that names
/// the type.
pub open spec fn decoding_outcome<T: Model>(d: Option<T>) -> Result<T, StoreError> {
    match d {
        Some(v) => Ok(v),
        None => Err(StoreError::ParseErr { kind: T::KIND }),
    }
}

/// `serialize` may return `r` for `data`.
pub open spec fn serializes<T: Model>(data: T, r: Result<Vec<u8>, StoreError>) -> bool {
    exists|e: Option<Vec<u8>>| #[trigger] encodes(data, e) && r == encoding_outcome::<T>(e)
}

/// `deserialize` may return `r` for `bytes`.
pub open spec fn deserializes<T: Model>(bytes: Seq<u8>, r: Result<T, StoreError>) -> bool {
    exists|d: Option<T>| #[trigger] decodes(bytes, d) && r == decoding_outcome(d)
}

/// What an optional read comes to, for the answer `r` of `deserialize` on
/// the bytes read.
pub open spec fn optional<T: Model>(r: Result<T, StoreError>) -> Result<Option<T>, StoreError> {
    match r {
        Ok(v) => Ok(Some(v)),
        Err(e) => Err(e),
    }
}

/// `may_deserialize` may return `r` for `bytes` that were found at a key.
pub open spec fn may_deserializes_found<T: Model>(
    bytes: Seq<u8>,
    r: Result<Option<T>, StoreError>,
) -> bool {
    exists|d: Option<T>| #[trigger] decodes(bytes, d) && r == optional(decoding_outcome(d))
}

/// `may_deserialize` may return `r` for what was `found` at a key: nothing
/// found is no error.
pub open spec fn may_deserializes<T: Model>(
    found: Option<Seq<u8>>,
    r: Result<Option<T>, StoreError>,
) -> bool {
    match found {
        Some(bytes) => may_deserializes_found(bytes, r),
        None => r == Ok::<Option<T>, StoreError>(None),
    }
}

/// `must_deserialize` may return `r` for what was `found` at a key: nothing
/// found is an error that names the type.
pub open spec fn must_deserializes<T: Model>(found: Option<Seq<u8>>, r: Result<T, StoreError>) -> bool {
    match found {
        Some(bytes) => deserializes(bytes, r),
        None => r == Err::<T, StoreError>(StoreError::NotFound { kind: T::KIND }),
    }
}

/// What becomes of a store when the answer `s` of `serialize` is written at
/// `key`: the bytes are stored there, or nothing changes and the error is
/// handed on.
pub open spec fn save_outcome(
    before: Map<Seq<u8>, Seq<u8>>,
    key: Seq<u8>,
    s: Result<Vec<u8>, StoreError>,
    after: Map<Seq<u8>, Seq<u8>>,
    r: Result<(), StoreError>,
) -> bool {
    match s {
        Ok(bytes) => r == Ok::<(), StoreError>(()) && after == before.insert(key, bytes@),
        Err(e) => r == Err::<(), StoreError>(e) && after == before,
    }
}

/// A save of `data` at `key` may take the store from `before` to `after`
/// and return `r`.
pub open spec fn saves<T: Model>(
    before: Map<Seq<u8>, Seq<u8>>,
    key: Seq<u8>,
    data: T,
    after: Map<Seq<u8>, Seq<u8>>,
    r: Result<(), StoreError>,
) -> bool {
    exists|s: Result<Vec<u8>, StoreError>| #[trigger]
        serializes(data, s) && save_outcome(before, key, s, after, r)
}

/// What an update comes to once the transformation has answered `out`: a
/// failure is handed on and nothing is written; a new value is saved and
/// returned.
pub open spec fn update_outcome<T: Model>(
    before: Map<Seq<u8>, Seq<u8>>,
    key: Seq<u8>,
    out: Result<T, StoreError>,
    after: Map<Seq<u8>, Seq<u8>>,
    r: Result<T, StoreError>,
) -> bool {
    match out {
        Ok(output) => exists|saved: Result<(), StoreError>| #[trigger]
            saves(before, key, output, after, saved) && r == match saved {
                Ok(_) => Ok(output),
                Err(e) => Err(e),
            },
        Err(e) => r == Err::<T, StoreError>(e) && after == before,
    }
}

/// What an update comes to once the present value was loaded with the
/// answer `input`: a failed load is handed on and nothing is written; else
/// the transformation decides.
pub open spec fn update_from<T: Model, F: Fn(T) -> Result<T, StoreError>>(
    before: Map<Seq<u8>, Seq<u8>>,
    key: Seq<u8>,
    input: Result<T, StoreError>,
    action: F,
    after: Map<Seq<u8>, Seq<u8>>,
    r: Result<T, StoreError>,
) -> bool {
    match input {
        Ok(v) => exists|out: Result<T, StoreError>| #[trigger]
            call_ensures(action, (v,), out) && update_outcome(before, key, out, after, r),
        Err(e) => r == Err::<T, StoreError>(e) && after == before,
    }
}

/// An update of the value at `key` with `action` may take the store from
/// `before` to `after` and return `r`.
pub open spec fn updates<T: Model, F: Fn(T) -> Result<T, StoreError>>(
    before: Map<Seq<u8>, Seq<u8>>,
    key: Seq<u8>,
    action: F,
    after: Map<Seq<u8>, Seq<u8>>,
    r: Result<T, StoreError>,
) -> bool {
    exists|input: Result<T, StoreError>| #[trigger]
        must_deserializes(before.get(key), input) && update_from(before, key, input, action, after, r)
}

/// Settles an answer of `T::encode`: bytes to store, or `SerializeErr` where
/// the codec gave none or gave an empty encoding, which no store would keep.
pub fn check_encoded<T: Model>(encoded: Option<Vec<u8>>) -> (r: Result<Vec<u8>, StoreError>)
    ensures
        r == encoding_outcome::<T>(encoded),
{
    match encoded {
        Some(b) => {
            if b.len() > 0 {
                Ok(b)
            } else {
                Err(StoreError::SerializeErr { kind: T::KIND })
            }
        },
        None => Err(StoreError::SerializeErr { kind: T::KIND }),
    }
}

/// Settles an answer of `T::decode`: the value, or `ParseErr`.
pub fn check_decoded<T: Model>(decoded: Option<T>) -> (r: Result<T, StoreError>)
    ensures
        r == decoding_outcome(decoded),
{
    match decoded {
        Some(v) => Ok(v),
        None => Err(StoreError::ParseErr { kind: T::KIND }),
    }
}

/// Encodes `data` for storage. Fails with `SerializeErr` exactly when the
/// codec gives nothing to store.
pub fn serialize<T: Model>(data: &T) -> (r: Result<Vec<u8>, StoreError>)
    ensures
        serializes(*data, r),
        r matches Ok(b) ==> b@.len() > 0,
{
    let encoded = data.encode();
    assert(encodes(*data, encoded));
    check_encoded::<T>(encoded)
}

/// Decodes stored bytes. Fails with `ParseErr` exactly when the codec finds
/// no value in them.
pub fn deserialize<T: Model>(value: &[u8]) -> (r: Result<T, StoreError>)
    ensures
        deserializes(value@, r),
{
    let decoded = T::decode(value);
    assert(decodes(value@, decoded));
    check_decoded(decoded)
}

/// Decodes what a read of a key returned, where absence is acceptable:
/// `Ok(None)` for an absent key, else what `deserialize` makes of the bytes.
pub fn may_deserialize<T: Model>(value: &Option<Vec<u8>>) -> (r: Result<Option<T>, StoreError>)
    ensures
        may_deserializes(bytes_of(*value), r),
{
    match value {
        Some(d) => {
            let decoded = T::decode(d.as_slice());
            assert(decodes(d@, decoded));
            match check_decoded(decoded) {
                Ok(t) => Ok(Some(t)),
                Err(e) => Err(e),
            }
        },
        None => Ok(None),
    }
}

/// Decodes what a read of a key returned, where a value is required:
/// `NotFound` for an absent key, else what `deserialize` makes of the bytes.
pub fn must_deserialize<T: Model>(value: &Option<Vec<u8>>) -> (r: Result<T, StoreError>)
    ensures
        must_deserializes(bytes_of(*value), r),
{
    match value {
        Some(d) => deserialize(d.as_slice()),
        None => Err(StoreError::NotFound { kind: T::KIND }),
    }
}

/// Loads the value at the physical key `key`, hands it to `action`, and
/// saves and returns what `action` makes of it. Where the load, `action` or
/// the encoding fails, the store is left as it was and the error is
/// returned. Every `update` of a typed store is this function on its
/// store and its physical key.
pub(crate) fn update_at<S: Storage, T: Model, F: Fn(T) -> Result<T, StoreError>>(
    storage: &mut S,
    key: &[u8],
    action: F,
) -> (r: Result<T, StoreError>)
    requires
        forall|input: T|
            must_deserializes(old(storage).contents().get(key@), Ok::<T, StoreError>(input))
                ==> call_requires(action, (input,)),
    ensures
        updates(old(storage).contents(), key@, action, final(storage).contents(), r),
{
    let ghost before = storage.contents();
    let found = storage.get(key);
    let loaded = must_deserialize::<T>(&found);
    let ghost input = loaded;
    match loaded {
        Ok(v) => {
            let out = action(v);
            let ghost answer = out;
            match out {
                Ok(output) => {
                    let s = serialize(&output);
                    let ghost encoded = s;
                    let saved = match s {
                        Ok(bytes) => {
                            storage.set(key, bytes.as_slice());
                            Ok(())
                        },
                        Err(e) => Err(e),
                    };
                    let r = match saved {
                        Ok(_) => Ok(output),
                        Err(e) => Err(e),
                    };
                    proof {
                        assert(save_outcome(before, key@, encoded, storage.contents(), saved));
                        assert(saves(before, key@, output, storage.contents(), saved));
                        assert(update_outcome(before, key@, answer, storage.contents(), r));
                        assert(update_from(before, key@, input, action, storage.contents(), r));
                    }
                    r
                },
                Err(e) => {
                    proof {
                        assert(update_outcome(before, key@, answer, before, Err::<T, StoreError>(e)));
                        assert(update_from(before, key@, input, action, before, Err::<T, StoreError>(e)));
                    }
                    Err(e)
                },
            }
        },
        Err(e) => {
            assert(update_from(before, key@, input, action, before, Err::<T, StoreError>(e)));
            Err(e)
        },
    }
}

/// The codec of `T` round-trips: whatever bytes it encodes a value to, it
/// decodes them to that value and to nothing else.
pub open spec fn round_trips<T: Model>() -> bool {
    forall|v: T, e: Option<Vec<u8>>, d: Option<T>|
        #![trigger encodes(v, e), decodes(e->0@, d)]
        encodes(v, e) && e is Some && decodes(e->0@, d) ==> d == Some(v)
}

/// With a codec that round-trips, the bytes that `serialize` returned for
/// a value are bytes that `deserialize` turns back into that value.
pub proof fn lemma_deserialize_after_serialize<T: Model>(
    v: T,
    bz: Vec<u8>,
    r: Result<T, StoreError>,
)
    requires
        round_trips::<T>(),
        serializes(v, Ok(bz)),
        deserializes(bz@, r),
    ensures
        r == Ok::<T, StoreError>(v),
{
    let e = choose|e: Option<Vec<u8>>| #[trigger]
        encodes(v, e) && Ok::<Vec<u8>, StoreError>(bz) == encoding_outcome::<T>(e);
    assert(e == Some(bz));
    let d = choose|d: Option<T>| #[trigger] decodes(bz@, d) && r == decoding_outcome(d);
    assert(d == Some(v));
}

/// With a codec that round-trips, a value that was saved at a key is the
/// value that a load of that key returns.
pub proof fn lemma_load_after_save<T: Model>(
    before: Map<Seq<u8>, Seq<u8>>,
    key: Seq<u8>,
    data: T,
    after: Map<Seq<u8>, Seq<u8>>,
    loaded: Result<T, StoreError>,
    may_loaded: Result<Option<T>, StoreError>,
)
    requires
        round_trips::<T>(),
        saves(before, key, data, after, Ok(())),
        must_deserializes(after.get(key), loaded),
        may_deserializes(after.get(key), may_loaded),
    ensures
        loaded == Ok::<T, StoreError>(data),
        may_loaded == Ok::<Option<T>, StoreError>(Some(data)),
{
    let s = choose|s: Result<Vec<u8>, StoreError>| #[trigger]
        serializes(data, s) && save_outcome(before, key, s, after, Ok(()));
    let e = choose|e: Option<Vec<u8>>| #[trigger] encodes(data, e) && s == encoding_outcome::<T>(e);
    assert(e is Some && after.get(key) == Some(e->0@));
    let d = choose|d: Option<T>| #[trigger] decodes(e->0@, d) && loaded == decoding_outcome(d);
    assert(d == Some(data));
    let m = choose|m: Option<T>| #[trigger]
        decodes(e->0@, m) && may_loaded == optional(decoding_outcome(m));
    assert(m == Some(data));
}

/// A save that fails leaves the store as it was, and a save that goes
/// through changes the one key it was given and no other.
pub proof fn lemma_save_touches_one_key<T: Model>(
    before: Map<Seq<u8>, Seq<u8>>,
    key: Seq<u8>,
    data: T,
    after: Map<Seq<u8>, Seq<u8>>,
    r: Result<(), StoreError>,
)
    requires
        saves(before, key, data, after, r),
    ensures
        r is Err ==> after == before,
        r is Err ==> r == Err::<(), StoreError>(StoreError::SerializeErr { kind: T::KIND }),
        r is Ok ==> after.contains_key(key) && after[key].len() > 0,
        forall|other: Seq<u8>| other != key ==> after.get(other) == before.get(other),
{
}

/// An update that fails, for whatever reason, leaves the store exactly as
/// it was; one that goes through changes the one key it was given.
pub proof fn lemma_update_rollback<T: Model, F: Fn(T) -> Result<T, StoreError>>(
    before: Map<Seq<u8>, Seq<u8>>,
    key: Seq<u8>,
    action: F,
    after: Map<Seq<u8>, Seq<u8>>,
    r: Result<T, StoreError>,
)
    requires
        updates(before, key, action, after, r),
    ensures
        r is Err ==> after == before,
        r is Ok ==> before.contains_key(key) && after.contains_key(key),
        forall|other: Seq<u8>| other != key ==> after.get(other) == before.get(other),
{
    let input = choose|input: Result<T, StoreError>| #[trigger]
        must_deserializes(before.get(key), input) && update_from(before, key, input, action, after, r);
    if input is Ok {
        let v = input->Ok_0;
        let out = choose|out: Result<T, StoreError>| #[trigger]
            call_ensures(action, (v,), out) && update_outcome(before, key, out, after, r);
        if out is Ok {
            let saved = choose|saved: Result<(), StoreError>| #[trigger]
                saves(before, key, out->Ok_0, after, saved) && r == match saved {
                    Ok(_) => Ok(out->Ok_0),
                    Err(e) => Err(e),
                };
            lemma_save_touches_one_key(before, key, out->Ok_0, after, saved);
        }
    }
}

/// An update whose transformation fails on every input leaves the store
/// exactly as it was, and returns an error: that of the load, where the
/// load failed, else that of the transformation.
pub proof fn lemma_update_with_failing_action<T: Model, F: Fn(T) -> Result<T, StoreError>>(
    before: Map<Seq<u8>, Seq<u8>>,
    key: Seq<u8>,
    action: F,
    after: Map<Seq<u8>, Seq<u8>>,
    r: Result<T, StoreError>,
)
    requires
        updates(before, key, action, after, r),
        forall|v: T, out: Result<T, StoreError>| #[trigger] call_ensures(action, (v,), out) ==> out is Err,
    ensures
        after == before,
        r is Err,
        must_deserializes(before.get(key), Err::<T, StoreError>(r->Err_0)) || exists|v: T|
            #[trigger] call_ensures(action, (v,), Err::<T, StoreError>(r->Err_0)),
{
    let input = choose|input: Result<T, StoreError>| #[trigger]
        must_deserializes(before.get(key), input) && update_from(before, key, input, action, after, r);
    if input is Ok {
        let v = input->Ok_0;
        let out = choose|out: Result<T, StoreError>| #[trigger]
            call_ensures(action, (v,), out) && update_outcome(before, key, out, after, r);
        assert(out is Err);
        assert(call_ensures(action, (v,), Err::<T, StoreError>(r->Err_0)));
    }
}

/// An update of an absent key fails with `NotFound` and writes nothing.
pub proof fn lemma_update_of_absent_key<T: Model, F: Fn(T) -> Result<T, StoreError>>(
    before: Map<Seq<u8>, Seq<u8>>,
    key: Seq<u8>,
    action: F,
    after: Map<Seq<u8>, Seq<u8>>,
    r: Result<T, StoreError>,
)
    requires
        updates(before, key, action, after, r),
        !before.contains_key(key),
    ensures
        after == before,
        r == Err::<T, StoreError>(StoreError::NotFound { kind: T::KIND }),
{
}

/// On an absent key a required load fails with `NotFound`, and an optional
/// load returns `None` without an error.
pub proof fn lemma_absent_key<T: Model>(
    store: Map<Seq<u8>, Seq<u8>>,
    key: Seq<u8>,
    loaded: Result<T, StoreError>,
    may_loaded: Result<Option<T>, StoreError>,
)
    requires
        !store.contains_key(key),
        must_deserializes(store.get(key), loaded),
        may_deserializes(store.get(key), may_loaded),
    ensures
        loaded == Err::<T, StoreError>(StoreError::NotFound { kind: T::KIND }),
        may_loaded == Ok::<Option<T>, StoreError>(None),
{
}

} // verus!
