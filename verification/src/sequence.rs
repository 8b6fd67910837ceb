use vstd::prelude::*;

use crate::errors::StoreError;
use crate::json::{decimal, parsed_u64, u64_from_json, u64_to_json};
use crate::namespace_helpers::{composed, MAX_SEGMENT_LEN};
use crate::singleton::Singleton;
use crate::storage::Storage;
use crate::type_helpers::{encodes, round_trips, saves, Model};

verus! {

/// The message of the error that `nextval` returns for a counter that has
/// reached `u64::MAX`.
pub const EXHAUSTED: &'static str = "sequence exhausted";

/// A sequence counter, stored as the decimal digits of its value.
#[derive(Copy, Clone, Default, Debug, PartialEq, Eq)]
pub struct SeqVal(pub u64);

/// The counter that a parsed number stands for.
pub open spec fn seq_val_of(n: Option<u64>) -> Option<SeqVal> {
    match n {
        Some(n) => Some(SeqVal(n)),
        None => None,
    }
}

impl Model for SeqVal {
    const KIND: &'static str = "SeqVal";

    fn encode(&self) -> (r: Option<Vec<u8>>)
        ensures
            r matches Some(text) && text@ == decimal(self.0 as nat) && text@.len() > 0
                && parsed_u64(text@) == Some(self.0),
    {
        proof {
            lemma_decimal_nonempty(self.0 as nat);
        }
        match u64_to_json(self.0) {
            Ok(text) => Some(text),
            Err(_) => None,
        }
    }

    fn decode(bytes: &[u8]) -> (r: Option<Self>)
        ensures
            r == seq_val_of(parsed_u64(bytes@)),
    {
        match u64_from_json(bytes) {
            Ok(n) => Some(SeqVal(n)),
            Err(_) => None,
        }
    }
}

/// The decimal digits of a number are at least one.
pub proof fn lemma_decimal_nonempty(n: nat)
    ensures
        decimal(n).len() > 0,
    decreases n,
{
    if n >= 10 {
        lemma_decimal_nonempty(n / 10);
    }
}

/// The value of the counter whose stored bytes are `found`: 0 where nothing
/// is stored, the stored number where the bytes are read as one, else
/// `ParseErr`.
pub open spec fn counted(found: Option<Seq<u8>>) -> Result<u64, StoreError> {
    match found {
        Some(text) => match parsed_u64(text) {
            Some(n) => Ok(n),
            None => Err(StoreError::ParseErr { kind: SeqVal::KIND }),
        },
        None => Ok(0),
    }
}

/// What `nextval` does to a store and returns, for a counter at `key`: a
/// counter that cannot be read, or that stands at `u64::MAX`, is left as it
/// is; else the next number is stored and returned.
pub open spec fn advanced(
    before: Map<Seq<u8>, Seq<u8>>,
    key: Seq<u8>,
    after: Map<Seq<u8>, Seq<u8>>,
    r: Result<u64, StoreError>,
) -> bool {
    match counted(before.get(key)) {
        Ok(n) => if n < u64::MAX {
            r == Ok::<u64, StoreError>((n + 1) as u64) && after == before.insert(
                key,
                decimal((n + 1) as nat),
            )
        } else {
            r == Err::<u64, StoreError>(StoreError::ContractErr { msg: EXHAUSTED }) && after == before
        },
        Err(e) => r == Err::<u64, StoreError>(e) && after == before,
    }
}

/// The sequence that a store holds under the namespace `key`.
pub fn sequence<'a, S: Storage>(storage: &'a mut S, key: &[u8]) -> (r: Singleton<'a, S, SeqVal>)
    requires
        key@.len() <= MAX_SEGMENT_LEN,
    ensures
        r.key@ == composed(seq![key@]),
        *r.storage == *old(storage),
        *final(r.storage) == *final(storage),
{
    Singleton::new(storage, key)
}

/// The last value that `nextval` returned, or that was saved; 0 for a
/// sequence that was never used.
pub fn currval<S: Storage>(seq: &Singleton<S, SeqVal>) -> (r: Result<u64, StoreError>)
    ensures
        r == counted(seq.found()),
{
    match seq.may_load() {
        Ok(val) => match val {
            Some(v) => Ok(v.0),
            None => Ok(0),
        },
        Err(e) => Err(e),
    }
}

/// Advances the counter by one and returns the new value: 1 on a sequence
/// that was never used. The value returned is the value that `currval`
/// reads afterwards.
pub fn nextval<S: Storage>(seq: &mut Singleton<S, SeqVal>) -> (r: Result<u64, StoreError>)
    ensures
        advanced(old(seq).store(), old(seq).key@, final(seq).store(), r),
        r matches Ok(v) ==> counted(final(seq).found()) == Ok::<u64, StoreError>(v),
        final(seq).key == old(seq).key,
        *final(final(seq).storage) == *final(old(seq).storage),
{
    let cur = match currval(seq) {
        Ok(n) => n,
        Err(e) => {
            return Err(e);
        },
    };
    if cur == u64::MAX {
        return Err(StoreError::ContractErr { msg: EXHAUSTED });
    }
    let val: u64 = cur + 1;
    match seq.save(&SeqVal(val)) {
        Ok(_) => Ok(val),
        Err(e) => Err(e),
    }
}

/// The codec of `SeqVal` round-trips: it always encodes, and what it
/// encodes it decodes to the same value.
pub proof fn lemma_seq_val_round_trips()
    ensures
        round_trips::<SeqVal>(),
        forall|v: SeqVal, e: Option<Vec<u8>>| #[trigger] encodes(v, e) ==> e is Some,
{
}

/// On a sequence that was never used, `currval` is 0 and the first
/// `nextval` returns 1.
pub proof fn lemma_first_nextval(
    before: Map<Seq<u8>, Seq<u8>>,
    key: Seq<u8>,
    after: Map<Seq<u8>, Seq<u8>>,
    r: Result<u64, StoreError>,
)
    requires
        !before.contains_key(key),
        advanced(before, key, after, r),
    ensures
        counted(before.get(key)) == Ok::<u64, StoreError>(0),
        r == Ok::<u64, StoreError>(1),
        after == before.insert(key, decimal(1)),
{
}

/// Each `nextval` returns one more than the one before it: where a call
/// returned `first` and left a counter that reads `first`, the next call
/// returns `first + 1`, unless the counter is exhausted.
pub proof fn lemma_successive_nextval(
    before: Map<Seq<u8>, Seq<u8>>,
    key: Seq<u8>,
    between: Map<Seq<u8>, Seq<u8>>,
    first: u64,
    after: Map<Seq<u8>, Seq<u8>>,
    second: Result<u64, StoreError>,
)
    requires
        advanced(before, key, between, Ok(first)),
        counted(between.get(key)) == Ok::<u64, StoreError>(first),
        advanced(between, key, after, second),
    ensures
        first >= 1,
        first < u64::MAX ==> second == Ok::<u64, StoreError>((first + 1) as u64),
        first == u64::MAX ==> second is Err && after == between,
{
}

/// A counter that was saved is the counter that is read: after a save of
/// `v` at `key` went through, the value there is `v`.
pub proof fn lemma_saved_is_current(
    before: Map<Seq<u8>, Seq<u8>>,
    key: Seq<u8>,
    v: SeqVal,
    after: Map<Seq<u8>, Seq<u8>>,
    r: Result<(), StoreError>,
)
    requires
        saves(before, key, v, after, r),
    ensures
        r is Ok,
        after == before.insert(key, decimal(v.0 as nat)),
        counted(after.get(key)) == Ok::<u64, StoreError>(v.0),
{
}

} // verus!
