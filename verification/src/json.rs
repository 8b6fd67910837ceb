use vstd::prelude::*;

verus! {

/// `StdError` of cosmwasm-std, the error of its JSON functions. It is only
/// handed through: nothing inside it is visible here.
#[verifier::external_type_specification]
#[verifier::external_body]
pub struct ExStdError(cosmwasm_std::StdError);

/// The decimal digits of `n`, in ASCII, most significant first.
pub open spec fn decimal(n: nat) -> Seq<u8>
    decreases n,
{
    if n < 10 {
        seq![(48 + n) as u8]
    } else {
        decimal(n / 10).push((48 + n % 10) as u8)
    }
}

/// The items with a comma between each two.
pub open spec fn joined(items: Seq<Seq<u8>>) -> Seq<u8>
    decreases items.len(),
{
    if items.len() == 0 {
        Seq::empty()
    } else if items.len() == 1 {
        items[0]
    } else {
        joined(items.drop_last()) + seq![44u8] + items.last()
    }
}

/// A JSON array of items that are JSON texts already.
pub open spec fn json_array(items: Seq<Seq<u8>>) -> Seq<u8> {
    seq![91u8] + joined(items) + seq![93u8]
}

/// A byte string as a JSON array of numbers.
pub open spec fn json_bytes(bytes: Seq<u8>) -> Seq<u8> {
    json_array(bytes.map_values(|b: u8| decimal(b as nat)))
}

/// A list of byte strings as a JSON array of arrays of numbers.
pub open spec fn json_refs(refs: Seq<Seq<u8>>) -> Seq<u8> {
    json_array(refs.map_values(|r: Seq<u8>| json_bytes(r)))
}

/// The byte strings that a vector of vectors holds.
pub open spec fn refs_of(refs: Vec<Vec<u8>>) -> Seq<Seq<u8>> {
    refs@.map_values(|r: Vec<u8>| r@)
}

/// The value of a result, with the error forgotten.
pub open spec fn ok_of<T, E>(r: Result<T, E>) -> Option<T> {
    match r {
        Ok(v) => Some(v),
        Err(_) => None,
    }
}

/// The byte strings of a result that holds a vector of vectors.
pub open spec fn ok_refs_of<E>(r: Result<Vec<Vec<u8>>, E>) -> Option<Seq<Seq<u8>>> {
    match r {
        Ok(refs) => Some(refs_of(refs)),
        Err(_) => None,
    }
}

/// The number that a JSON text is read as, if it is read as one.
pub uninterp spec fn parsed_u64(text: Seq<u8>) -> Option<u64>;

/// The list of byte strings that a JSON text is read as, if it is read as
/// one.
pub uninterp spec fn parsed_refs(text: Seq<u8>) -> Option<Seq<Seq<u8>>>;

/// `cosmwasm_std::to_vec` on a `u64`: serde-json-wasm writes an unsigned
/// number as its decimal digits and has no failure on that path. Those
/// digits, with nothing before or behind them, are read back as the number.
#[verifier::external_body]
pub(crate) fn u64_to_json(n: u64) -> (r: Result<Vec<u8>, cosmwasm_std::StdError>)
    ensures
        r is Ok,
        r matches Ok(text) ==> text@ == decimal(n as nat),
        r matches Ok(text) ==> parsed_u64(text@) == Some(n),
{
    cosmwasm_std::to_vec(&n)
}

/// `cosmwasm_std::from_slice` to a `u64`. What it makes of a text depends on
/// the text alone.
#[verifier::external_body]
pub(crate) fn u64_from_json(text: &[u8]) -> (r: Result<u64, cosmwasm_std::StdError>)
    ensures
        ok_of(r) == parsed_u64(text@),
{
    cosmwasm_std::from_slice(text)
}

/// `cosmwasm_std::to_vec` on a vector of byte vectors: serde-json-wasm
/// writes a sequence between brackets with commas between its elements, a
/// byte as its decimal digits, and has no failure on that path. That text
/// is read back as the same list.
#[verifier::external_body]
pub(crate) fn refs_to_json(refs: &Vec<Vec<u8>>) -> (r: Result<Vec<u8>, cosmwasm_std::StdError>)
    ensures
        r is Ok,
        r matches Ok(text) ==> text@ == json_refs(refs_of(*refs)),
        r matches Ok(text) ==> parsed_refs(text@) == Some(refs_of(*refs)),
{
    cosmwasm_std::to_vec(refs)
}

/// `cosmwasm_std::from_slice` to a vector of byte vectors. What it makes of
/// a text depends on the text alone.
#[verifier::external_body]
pub(crate) fn refs_from_json(text: &[u8]) -> (r: Result<Vec<Vec<u8>>, cosmwasm_std::StdError>)
    ensures
        ok_refs_of(r) == parsed_refs(text@),
{
    cosmwasm_std::from_slice(text)
}

} // verus!
