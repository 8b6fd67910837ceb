use cw_storage::type_helpers::{check_decoded, check_encoded, may_deserialize, must_deserialize};
use cw_storage::{deserialize, serialize, Model, StoreError};

#[derive(PartialEq, Debug)]
struct Data {
    pub name: String,
    pub age: i32,
}

impl Model for Data {
    const KIND: &'static str = "Data";

    fn encode(&self) -> Option<Vec<u8>> {
        cosmwasm_std::to_vec(&(&self.name, self.age)).ok()
    }

    fn decode(bytes: &[u8]) -> Option<Self> {
        let (name, age): (String, i32) = cosmwasm_std::from_slice(bytes).ok()?;
        Some(Data { name, age })
    }
}

/// A type whose codec never succeeds.
#[derive(PartialEq, Debug)]
struct Mute;

impl Model for Mute {
    const KIND: &'static str = "Mute";

    fn encode(&self) -> Option<Vec<u8>> {
        None
    }

    fn decode(_bytes: &[u8]) -> Option<Self> {
        None
    }
}

/// A type that encodes to no bytes at all.
#[derive(PartialEq, Debug)]
struct Blank;

impl Model for Blank {
    const KIND: &'static str = "Blank";

    fn encode(&self) -> Option<Vec<u8>> {
        Some(Vec::new())
    }

    fn decode(bytes: &[u8]) -> Option<Self> {
        if bytes.is_empty() {
            Some(Blank)
        } else {
            None
        }
    }
}

#[test]
fn serialize_and_deserialize() {
    // save data
    let data = Data {
        name: "Maria".to_string(),
        age: 42,
    };
    let value = serialize(&data).unwrap();
    let loaded = Some(value);

    let parsed: Data = must_deserialize(&loaded).unwrap();
    assert_eq!(parsed, data);

    let may_parse: Option<Data> = may_deserialize(&loaded).unwrap();
    assert_eq!(may_parse, Some(data));
}

#[test]
fn handle_none() {
    let may_parse = may_deserialize::<Data>(&None).unwrap();
    assert_eq!(may_parse, None);

    let parsed = must_deserialize::<Data>(&None);
    match parsed {
        Err(StoreError::NotFound { kind }) => assert_eq!(kind, "Data"),
        Err(e) => panic!("Unexpected error {}", e.message()),
        Ok(_) => panic!("should error"),
    }
}

#[test]
fn serialize_hands_on_the_codec_bytes() {
    let data = Data { name: "Maria".to_string(), age: -42 };
    assert_eq!(serialize(&data), Ok(b"[\"Maria\",-42]".to_vec()));
    assert_eq!(deserialize::<Data>(b"[\"Maria\",-42]"), Ok(data));
}

#[test]
fn codec_failures_become_errors_that_name_the_type() {
    assert_eq!(serialize(&Mute), Err(StoreError::SerializeErr { kind: "Mute" }));
    assert_eq!(serialize(&Blank), Err(StoreError::SerializeErr { kind: "Blank" }));
    assert_eq!(deserialize::<Mute>(b"x"), Err(StoreError::ParseErr { kind: "Mute" }));
    assert_eq!(deserialize::<Data>(b"[1,2]"), Err(StoreError::ParseErr { kind: "Data" }));
    assert_eq!(deserialize::<Blank>(b""), Ok(Blank));
    assert_eq!(
        must_deserialize::<Data>(&Some(b"{".to_vec())),
        Err(StoreError::ParseErr { kind: "Data" })
    );
    assert_eq!(
        may_deserialize::<Data>(&Some(b"{".to_vec())),
        Err(StoreError::ParseErr { kind: "Data" })
    );
    assert_eq!(must_deserialize::<Mute>(&None), Err(StoreError::NotFound { kind: "Mute" }));
    assert_eq!(may_deserialize::<Mute>(&None), Ok(None));
}

#[test]
fn settled_codec_answers() {
    assert_eq!(check_encoded::<Data>(Some(vec![1u8, 2])), Ok(vec![1u8, 2]));
    assert_eq!(check_encoded::<Data>(Some(vec![])), Err(StoreError::SerializeErr { kind: "Data" }));
    assert_eq!(check_encoded::<Data>(None), Err(StoreError::SerializeErr { kind: "Data" }));
    assert_eq!(check_decoded(Some(Blank)), Ok(Blank));
    assert_eq!(check_decoded::<Blank>(None), Err(StoreError::ParseErr { kind: "Blank" }));
}

#[test]
fn errors_in_words() {
    assert_eq!(StoreError::NotFound { kind: "Data" }.message(), "Data not found");
    assert_eq!(StoreError::ParseErr { kind: "Data" }.message(), "Error parsing Data");
    assert_eq!(StoreError::SerializeErr { kind: "Data" }.message(), "Error serializing Data");
    assert_eq!(StoreError::ContractErr { msg: "nope" }.message(), "Contract error: nope");
}
