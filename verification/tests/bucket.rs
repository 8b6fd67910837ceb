use cosmwasm_std::testing::MockStorage;
use cw_storage::{bucket, Bucket, Model, Storage, StoreError};

#[derive(PartialEq, Debug)]
struct Data {
    pub name: String,
    pub age: i32,
}

impl Model for Data {
    const KIND: &'static str = "Data";

    fn encode(&self) -> Option<Vec<u8>> {
        if self.age < 0 {
            return None;
        }
        cosmwasm_std::to_vec(&(&self.name, self.age)).ok()
    }

    fn decode(bytes: &[u8]) -> Option<Self> {
        let (name, age): (String, i32) = cosmwasm_std::from_slice(bytes).ok()?;
        Some(Data { name, age })
    }
}

fn maria() -> Data {
    Data { name: "Maria".to_string(), age: 42 }
}

#[test]
fn bucket_store_and_load() {
    let mut store = MockStorage::new();
    let mut people = bucket::<_, Data>(b"data", &mut store);

    assert_eq!(people.load(b"maria"), Err(StoreError::NotFound { kind: "Data" }));
    assert_eq!(people.may_load(b"maria"), Ok(None));

    people.save(b"maria", &maria()).unwrap();
    assert_eq!(people.load(b"maria"), Ok(maria()));
    assert_eq!(people.may_load(b"maria"), Ok(Some(maria())));
    assert_eq!(people.load(b"mari"), Err(StoreError::NotFound { kind: "Data" }));
}

#[test]
fn bucket_keys_are_prefix_then_key() {
    let mut store = MockStorage::new();
    let mut people = Bucket::<_, Data>::new(b"data", &mut store);
    assert_eq!(people.prefix, b"data".to_vec());
    people.save(b"maria", &maria()).unwrap();
    assert_eq!(store.get(b"datamaria"), Some(b"[\"Maria\",42]".to_vec()));
    assert_eq!(store.get(b"maria"), None);

    let levels: [&[u8]; 3] = [b"a", b"bc", b"def"];
    let mut nested = Bucket::<_, Data>::multilevel(&levels, &mut store);
    assert_eq!(nested.prefix, b"\x00\x01a\x00\x02bcdef".to_vec());
    nested.save(b"k", &maria()).unwrap();
    assert_eq!(store.get(b"\x00\x01a\x00\x02bcdefk"), Some(b"[\"Maria\",42]".to_vec()));
}

#[test]
fn buckets_with_different_namespaces_are_apart() {
    let mut store = MockStorage::new();
    let mut one = bucket::<_, Data>(b"one", &mut store);
    one.save(b"maria", &maria()).unwrap();
    let two = bucket::<_, Data>(b"two", &mut store);
    assert_eq!(two.may_load(b"maria"), Ok(None));
    let one = bucket::<_, Data>(b"one", &mut store);
    assert_eq!(one.load(b"maria"), Ok(maria()));
}

#[test]
fn bucket_update_success() {
    let mut store = MockStorage::new();
    let mut people = bucket::<_, Data>(b"data", &mut store);
    people.save(b"maria", &maria()).unwrap();
    let output = people.update(b"maria", |mut d: Data| {
        d.age += 1;
        Ok(d)
    });
    let expected = Data { name: "Maria".to_string(), age: 43 };
    assert_eq!(output, Ok(Data { name: "Maria".to_string(), age: 43 }));
    assert_eq!(people.load(b"maria"), Ok(expected));
}

#[test]
fn bucket_update_rolls_back_on_error() {
    let mut store = MockStorage::new();
    let mut people = bucket::<_, Data>(b"data", &mut store);
    people.save(b"maria", &maria()).unwrap();
    let output = people.update(b"maria", |_d: Data| Err(StoreError::ContractErr { msg: "no" }));
    assert_eq!(output, Err(StoreError::ContractErr { msg: "no" }));
    assert_eq!(people.load(b"maria"), Ok(maria()));
    assert_eq!(store.get(b"datamaria"), Some(b"[\"Maria\",42]".to_vec()));
}

#[test]
fn bucket_update_fails_on_no_data() {
    let mut store = MockStorage::new();
    let mut people = bucket::<_, Data>(b"data", &mut store);
    let output = people.update(b"maria", |d: Data| Ok(d));
    assert_eq!(output, Err(StoreError::NotFound { kind: "Data" }));
    assert_eq!(people.may_load(b"maria"), Ok(None));
}

#[test]
fn bucket_save_that_cannot_encode_writes_nothing() {
    let mut store = MockStorage::new();
    let mut people = bucket::<_, Data>(b"data", &mut store);
    people.save(b"maria", &maria()).unwrap();
    let bad = Data { name: "Maria".to_string(), age: -1 };
    assert_eq!(people.save(b"maria", &bad), Err(StoreError::SerializeErr { kind: "Data" }));
    assert_eq!(people.load(b"maria"), Ok(maria()));
    // an update whose result cannot be encoded leaves the value too
    let output = people.update(b"maria", |mut d: Data| {
        d.age = -5;
        Ok(d)
    });
    assert_eq!(output, Err(StoreError::SerializeErr { kind: "Data" }));
    assert_eq!(people.load(b"maria"), Ok(maria()));
}

#[test]
fn bucket_load_of_corrupt_value_is_a_parse_error() {
    let mut store = MockStorage::new();
    store.set(b"datamaria", b"[42]");
    let people = bucket::<_, Data>(b"data", &mut store);
    assert_eq!(people.load(b"maria"), Err(StoreError::ParseErr { kind: "Data" }));
    assert_eq!(people.may_load(b"maria"), Err(StoreError::ParseErr { kind: "Data" }));
}
