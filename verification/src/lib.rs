//! Typed, namespaced stores over a flat key/value store of byte strings.
//!
//! A namespace is a list of segments that composes to a key prefix
//! ([`namespace_helpers`]). A [`Bucket`] holds values of one type under such
//! a prefix, a [`Singleton`] holds one value, a sequence counts in a
//! singleton ([`sequence`]), and an [`Index`] keeps, for each key derived
//! from a record, the primary keys of the records that derive it.

pub mod bucket;
pub mod errors;
pub mod index;
pub mod json;
pub mod namespace_helpers;
pub mod sequence;
pub mod singleton;
pub mod storage;
pub mod type_helpers;
pub mod typed;

pub use bucket::{bucket, Bucket};
pub use errors::StoreError;
pub use index::{add_ref, index, load_refs, read_refs, remove_ref, write_index, Index, IndexEntry};
pub use sequence::{currval, nextval, sequence, SeqVal};
pub use singleton::{singleton, Singleton};
pub use storage::Storage;
pub use type_helpers::{deserialize, serialize, Model};
pub use typed::{typed, TypedStorage};
