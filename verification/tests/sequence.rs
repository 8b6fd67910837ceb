use cosmwasm_std::testing::MockStorage;
use cw_storage::sequence::EXHAUSTED;
use cw_storage::{currval, nextval, sequence, singleton, Model, SeqVal, Storage, StoreError};

#[test]
fn walk_through_sequence() {
    let mut store = MockStorage::new();
    let mut seq = sequence(&mut store, b"seq");

    assert_eq!(currval(&seq).unwrap(), 0);
    assert_eq!(nextval(&mut seq).unwrap(), 1);
    assert_eq!(nextval(&mut seq).unwrap(), 2);
    assert_eq!(nextval(&mut seq).unwrap(), 3);
    assert_eq!(currval(&seq).unwrap(), 3);
    assert_eq!(currval(&seq).unwrap(), 3);
}

#[test]
fn sequences_independent() {
    let mut store = MockStorage::new();

    let mut seq = sequence(&mut store, b"seq");
    assert_eq!(nextval(&mut seq).unwrap(), 1);
    assert_eq!(nextval(&mut seq).unwrap(), 2);
    assert_eq!(nextval(&mut seq).unwrap(), 3);

    let mut seq2 = sequence(&mut store, b"seq2");
    assert_eq!(nextval(&mut seq2).unwrap(), 1);
    assert_eq!(nextval(&mut seq2).unwrap(), 2);

    let mut seq3 = sequence(&mut store, b"seq");
    assert_eq!(nextval(&mut seq3).unwrap(), 4);
}

#[test]
fn set_sequence() {
    let mut store = MockStorage::new();
    let mut seq = sequence(&mut store, b"seq");

    assert_eq!(nextval(&mut seq).unwrap(), 1);
    assert_eq!(nextval(&mut seq).unwrap(), 2);

    seq.save(&SeqVal(20)).unwrap();

    assert_eq!(currval(&seq).unwrap(), 20);
    assert_eq!(nextval(&mut seq).unwrap(), 21);
}

#[test]
fn counter_is_stored_as_decimal_digits_at_the_bare_key() {
    let mut store = MockStorage::new();
    let mut seq = sequence(&mut store, b"seq");
    assert_eq!(nextval(&mut seq).unwrap(), 1);
    seq.save(&SeqVal(1234567890)).unwrap();
    assert_eq!(nextval(&mut seq).unwrap(), 1234567891);
    assert_eq!(store.get(b"seq"), Some(b"1234567891".to_vec()));
}

#[test]
fn seq_val_codec_round_trips() {
    assert_eq!(SeqVal(0).encode(), Some(b"0".to_vec()));
    assert_eq!(SeqVal(7).encode(), Some(b"7".to_vec()));
    assert_eq!(SeqVal(10).encode(), Some(b"10".to_vec()));
    assert_eq!(SeqVal(u64::MAX).encode(), Some(b"18446744073709551615".to_vec()));
    assert_eq!(SeqVal::decode(b"18446744073709551615"), Some(SeqVal(u64::MAX)));
    assert_eq!(SeqVal::decode(b"18446744073709551616"), None);
    assert_eq!(SeqVal::decode(b"0"), Some(SeqVal(0)));
    assert_eq!(SeqVal::decode(b" 42\n"), Some(SeqVal(42)));
    assert_eq!(SeqVal::decode(b""), None);
    assert_eq!(SeqVal::decode(b"-1"), None);
    assert_eq!(SeqVal::decode(b"4x"), None);
    assert_eq!(SeqVal::KIND, "SeqVal");
    for n in [0u64, 1, 9, 10, 99, 100, 65535, 4294967296, u64::MAX - 1] {
        let text = SeqVal(n).encode().unwrap();
        assert_eq!(SeqVal::decode(&text), Some(SeqVal(n)));
    }
}

#[test]
fn exhausted_sequence_is_an_error_and_stays() {
    let mut store = MockStorage::new();
    let mut seq = sequence(&mut store, b"seq");
    seq.save(&SeqVal(u64::MAX - 1)).unwrap();
    assert_eq!(nextval(&mut seq), Ok(u64::MAX));
    assert_eq!(nextval(&mut seq), Err(StoreError::ContractErr { msg: EXHAUSTED }));
    assert_eq!(currval(&seq), Ok(u64::MAX));
    assert_eq!(EXHAUSTED, "sequence exhausted");
}

#[test]
fn unreadable_counter_is_a_parse_error_and_stays() {
    let mut store = MockStorage::new();
    store.set(b"seq", b"twelve");
    let mut seq = sequence(&mut store, b"seq");
    assert_eq!(currval(&seq), Err(StoreError::ParseErr { kind: "SeqVal" }));
    assert_eq!(nextval(&mut seq), Err(StoreError::ParseErr { kind: "SeqVal" }));
    assert_eq!(store.get(b"seq"), Some(b"twelve".to_vec()));
}

#[test]
fn singleton_holds_one_value() {
    let mut store = MockStorage::new();
    let mut one = singleton::<_, SeqVal>(&mut store, b"config");
    assert_eq!(one.load(), Err(StoreError::NotFound { kind: "SeqVal" }));
    assert_eq!(one.may_load(), Ok(None));
    assert_eq!(one.update(|v: SeqVal| Ok(SeqVal(v.0 + 1))), Err(StoreError::NotFound { kind: "SeqVal" }));
    one.save(&SeqVal(5)).unwrap();
    assert_eq!(one.load(), Ok(SeqVal(5)));
    assert_eq!(one.may_load(), Ok(Some(SeqVal(5))));
    assert_eq!(one.update(|v: SeqVal| Ok(SeqVal(v.0 * 2))), Ok(SeqVal(10)));
    assert_eq!(one.load(), Ok(SeqVal(10)));
    assert_eq!(
        one.update(|_v: SeqVal| Err(StoreError::ContractErr { msg: "no" })),
        Err(StoreError::ContractErr { msg: "no" })
    );
    assert_eq!(one.load(), Ok(SeqVal(10)));
    assert_eq!(one.key, b"config".to_vec());
    assert_eq!(store.get(b"config"), Some(b"10".to_vec()));
}
