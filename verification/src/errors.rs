use vstd::prelude::*;
use vstd::string::StringExecFns;

verus! {

/// Why an operation on a store failed.
///
/// `kind` is the tag of the value type involved ([`crate::type_helpers::Model::KIND`]).
#[derive(Debug, PartialEq, Eq)]
pub enum StoreError {
    /// A value was required at a key that holds none.
    NotFound { kind: &'static str },
    /// The bytes found at a key are not an encoding of the expected type.
    ParseErr { kind: &'static str },
    /// A value could not be turned into bytes fit to be stored.
    SerializeErr { kind: &'static str },
    /// A failure raised by the caller's own logic, such as the transformation
    /// handed to an `update`.
    ContractErr { msg: &'static str },
}

impl StoreError {
    /// The text of `message`.
    pub open spec fn message_text(&self) -> Seq<char> {
        match self {
            StoreError::NotFound { kind } => kind@ + " not found"@,
            StoreError::ParseErr { kind } => "Error parsing "@ + kind@,
            StoreError::SerializeErr { kind } => "Error serializing "@ + kind@,
            StoreError::ContractErr { msg } => "Contract error: "@ + msg@,
        }
    }

    /// The error in words, for people to read.
    pub fn message(&self) -> (r: String)
        ensures
            r@ == self.message_text(),
    {
        match self {
            StoreError::NotFound { kind } => String::from_str(kind).concat(" not found"),
            StoreError::ParseErr { kind } => String::from_str("Error parsing ").concat(kind),
            StoreError::SerializeErr { kind } => String::from_str("Error serializing ").concat(kind),
            StoreError::ContractErr { msg } => String::from_str("Contract error: ").concat(msg),
        }
    }
}

} // verus!
