use cosmwasm_std::testing::MockStorage;
use cw_storage::index::{move_ref, remove_all, same_bytes};
use cw_storage::{
    add_ref, index, load_refs, read_refs, remove_ref, write_index, IndexEntry, Model, Storage,
    StoreError,
};

type Ref = Vec<u8>;

#[derive(PartialEq, Debug, Default, Clone)]
struct Person {
    pub name: String,
    pub age: u32,
}

#[test]
fn build_index() {
    let idx = index(b"foo", |p: &Person| p.age.to_be_bytes().to_vec());

    let expected = vec![b'f', b'o', b'o', 0, 0, 0, 127];
    let trial = idx.calc_key(&Person {
        name: "Fred".to_string(),
        age: 127,
    });
    assert_eq!(trial, expected);
}

#[test]
fn add_refs_works() {
    let mut store = MockStorage::new();

    let pk: &[u8] = b"primary";
    let pk2: &[u8] = b"second";
    let idx: &[u8] = b"special key";

    let loaded = load_refs(&store, idx).unwrap();
    assert_eq!(loaded, None);

    add_ref(&mut store, idx, pk).unwrap();
    let loaded = load_refs(&store, idx).unwrap().unwrap();
    assert_eq!(loaded.refs, vec![pk]);

    add_ref(&mut store, idx, pk2).unwrap();
    let loaded = load_refs(&store, idx).unwrap().unwrap();
    assert_eq!(loaded.refs, vec![pk, pk2]);
}

#[test]
fn remove_refs_works() {
    let mut store = MockStorage::new();

    let pk: &[u8] = b"primary";
    let pk2: &[u8] = b"second";
    let idx: &[u8] = b"special key";

    // set up with 2
    add_ref(&mut store, idx, pk).unwrap();
    add_ref(&mut store, idx, pk2).unwrap();

    // remove one and see change
    remove_ref(&mut store, idx, pk).unwrap();
    let loaded = load_refs(&store, idx).unwrap().unwrap();
    assert_eq!(loaded.refs, vec![pk2]);

    // a second removal of the same key changes nothing
    remove_ref(&mut store, idx, pk).unwrap();
    let loaded = load_refs(&store, idx).unwrap().unwrap();
    assert_eq!(loaded.refs, vec![pk2]);

    // goes to empty (not None)
    remove_ref(&mut store, idx, pk2).unwrap();
    let loaded = load_refs(&store, idx).unwrap().unwrap();
    assert_eq!(loaded.refs.len(), 0);

    // can add again later
    add_ref(&mut store, idx, pk2).unwrap();
    let loaded = load_refs(&store, idx).unwrap().unwrap();
    assert_eq!(loaded.refs, vec![pk2]);
}

#[test]
fn create_with_index() {
    let mut store = MockStorage::new();

    let idx = index(b"foo", |p: &Person| p.age.to_be_bytes().to_vec());
    let bob = Person {
        name: "Roberto".to_string(),
        age: 66,
    };

    write_index(&mut store, &idx, b"where", None, &bob).unwrap();

    // make sure it is there
    let mut template = Person::default();
    template.age = 66;
    let refs = read_refs(&store, &idx, &template).unwrap();
    assert_eq!(refs, vec![b"where".to_vec()]);

    // but not for another age
    template.age = 67;
    let refs = read_refs(&store, &idx, &template).unwrap();
    assert_eq!(refs, Vec::<Ref>::new());
}

#[test]
fn update_with_index() {
    let mut store = MockStorage::new();

    let idx = index(b"foo", |p: &Person| p.age.to_be_bytes().to_vec());
    let bob = Person {
        name: "Roberto".to_string(),
        age: 66,
    };

    // set initial age
    write_index(&mut store, &idx, b"where", None, &bob).unwrap();

    // time for a birthday
    let mut bobby = bob.clone();
    bobby.age += 1;
    write_index(&mut store, &idx, b"where", Some(&bob), &bobby).unwrap();

    // make sure it is at the new one
    let mut template = Person::default();
    template.age = 67;
    let refs = read_refs(&store, &idx, &template).unwrap();
    assert_eq!(refs, vec![b"where".to_vec()]);

    // and gone from the old one
    template.age = 66;
    let refs = read_refs(&store, &idx, &template).unwrap();
    assert_eq!(refs, Vec::<Ref>::new());
}

#[test]
fn index_key_is_namespace_then_derived_key() {
    let idx = index(b"ages", |p: &Person| p.name.as_bytes().to_vec());
    assert_eq!(idx.prefix, b"ages".to_vec());
    assert_eq!(idx.derived_key(b"xy"), b"agesxy".to_vec());
    assert_eq!(idx.derived_key(b""), b"ages".to_vec());
    let key = idx.calc_key(&Person { name: "Al".to_string(), age: 1 });
    assert_eq!(key, b"agesAl".to_vec());
    let bare = index(b"", |p: &Person| p.name.as_bytes().to_vec());
    assert_eq!(bare.calc_key(&Person { name: "Al".to_string(), age: 1 }), b"Al".to_vec());
}

#[test]
fn entry_is_stored_as_a_list_of_lists_of_numbers() {
    let mut store = MockStorage::new();
    add_ref(&mut store, b"idx", b"ab").unwrap();
    assert_eq!(store.get(b"idx"), Some(b"[[97,98]]".to_vec()));
    add_ref(&mut store, b"idx", b"").unwrap();
    add_ref(&mut store, b"idx", &[0u8, 255]).unwrap();
    assert_eq!(store.get(b"idx"), Some(b"[[97,98],[],[0,255]]".to_vec()));
    remove_ref(&mut store, b"idx", b"ab").unwrap();
    assert_eq!(store.get(b"idx"), Some(b"[[],[0,255]]".to_vec()));
    remove_ref(&mut store, b"idx", b"").unwrap();
    remove_ref(&mut store, b"idx", &[0u8, 255]).unwrap();
    assert_eq!(store.get(b"idx"), Some(b"[]".to_vec()));
}

#[test]
fn index_entry_codec_round_trips() {
    let entry = IndexEntry { refs: vec![b"one".to_vec(), vec![], vec![7u8, 200]] };
    let text = entry.encode().unwrap();
    assert_eq!(text, b"[[111,110,101],[],[7,200]]".to_vec());
    assert_eq!(IndexEntry::decode(&text), Some(entry));
    assert_eq!(IndexEntry::decode(b" [ [1 , 2] ]"), Some(IndexEntry { refs: vec![vec![1u8, 2]] }));
    assert_eq!(IndexEntry::decode(b"[[256]]"), None);
    assert_eq!(IndexEntry::decode(b"{}"), None);
    assert_eq!(IndexEntry::KIND, "IndexEntry");
}

#[test]
fn add_ref_keeps_duplicates() {
    let mut store = MockStorage::new();
    add_ref(&mut store, b"idx", b"pk").unwrap();
    add_ref(&mut store, b"idx", b"pk").unwrap();
    let loaded = load_refs(&store, b"idx").unwrap().unwrap();
    assert_eq!(loaded.refs, vec![b"pk".to_vec(), b"pk".to_vec()]);
    // and one removal takes out every occurrence
    remove_ref(&mut store, b"idx", b"pk").unwrap();
    let loaded = load_refs(&store, b"idx").unwrap().unwrap();
    assert_eq!(loaded.refs, Vec::<Ref>::new());
}

#[test]
fn remove_ref_of_absent_key_leaves_entry_unchanged() {
    let mut store = MockStorage::new();
    add_ref(&mut store, b"idx", b"a").unwrap();
    add_ref(&mut store, b"idx", b"b").unwrap();
    let before = store.get(b"idx");
    assert_eq!(remove_ref(&mut store, b"idx", b"zzz"), Ok(()));
    assert_eq!(store.get(b"idx"), before);
    let loaded = load_refs(&store, b"idx").unwrap().unwrap();
    assert_eq!(loaded.refs, vec![b"a".to_vec(), b"b".to_vec()]);
}

#[test]
fn remove_ref_from_missing_entry_is_not_found() {
    let mut store = MockStorage::new();
    assert_eq!(
        remove_ref(&mut store, b"idx", b"a"),
        Err(StoreError::NotFound { kind: "IndexEntry" })
    );
    assert_eq!(store.get(b"idx"), None);
}

#[test]
fn unreadable_entry_is_a_parse_error_and_stays() {
    let mut store = MockStorage::new();
    store.set(b"idx", b"not json");
    let err = Err(StoreError::ParseErr { kind: "IndexEntry" });
    assert_eq!(add_ref(&mut store, b"idx", b"a"), err);
    assert_eq!(remove_ref(&mut store, b"idx", b"a"), err);
    assert_eq!(load_refs(&store, b"idx"), Err(StoreError::ParseErr { kind: "IndexEntry" }));
    assert_eq!(store.get(b"idx"), Some(b"not json".to_vec()));
    let idx = index(b"ns", |p: &Person| p.name.as_bytes().to_vec());
    let p = Person { name: "idx".to_string(), age: 0 };
    // the entry key of "idx" under the namespace "ns" is "nsidx"
    store.set(b"nsidx", b"[1]");
    assert_eq!(read_refs(&store, &idx, &p), Err(StoreError::ParseErr { kind: "IndexEntry" }));
}

#[test]
fn write_index_with_same_derived_key_touches_nothing() {
    let mut store = MockStorage::new();
    let idx = index(b"foo", |p: &Person| p.age.to_be_bytes().to_vec());
    let bob = Person { name: "Roberto".to_string(), age: 66 };
    let rob = Person { name: "Rob".to_string(), age: 66 };
    // no entry exists, yet an update that keeps the derived key is a no-op
    assert_eq!(write_index(&mut store, &idx, b"where", Some(&bob), &rob), Ok(()));
    assert_eq!(read_refs(&store, &idx, &rob).unwrap(), Vec::<Ref>::new());
    assert_eq!(store.get(&idx.calc_key(&rob)), None);
}

#[test]
fn write_index_fails_when_old_entry_is_missing() {
    let mut store = MockStorage::new();
    let idx = index(b"foo", |p: &Person| p.age.to_be_bytes().to_vec());
    let bob = Person { name: "Roberto".to_string(), age: 66 };
    let bobby = Person { name: "Roberto".to_string(), age: 67 };
    assert_eq!(
        write_index(&mut store, &idx, b"where", Some(&bob), &bobby),
        Err(StoreError::NotFound { kind: "IndexEntry" })
    );
    // nothing was added for the new key
    assert_eq!(store.get(&idx.calc_key(&bobby)), None);
}

#[test]
fn move_ref_moves_between_entries() {
    let mut store = MockStorage::new();
    assert_eq!(move_ref(&mut store, b"pk", None, b"a"), Ok(()));
    assert_eq!(move_ref(&mut store, b"pk2", None, b"a"), Ok(()));
    assert_eq!(move_ref(&mut store, b"pk", Some(b"a"), b"b"), Ok(()));
    assert_eq!(load_refs(&store, b"a").unwrap().unwrap().refs, vec![b"pk2".to_vec()]);
    assert_eq!(load_refs(&store, b"b").unwrap().unwrap().refs, vec![b"pk".to_vec()]);
    assert_eq!(move_ref(&mut store, b"pk", Some(b"b"), b"b"), Ok(()));
    assert_eq!(load_refs(&store, b"b").unwrap().unwrap().refs, vec![b"pk".to_vec()]);
}

#[test]
fn helpers_on_bytes() {
    assert!(same_bytes(b"", b""));
    assert!(same_bytes(b"abc", b"abc"));
    assert!(!same_bytes(b"abc", b"abd"));
    assert!(!same_bytes(b"abc", b"ab"));
    let refs = vec![b"a".to_vec(), b"b".to_vec(), b"a".to_vec(), b"c".to_vec()];
    assert_eq!(remove_all(&refs, b"a"), vec![b"b".to_vec(), b"c".to_vec()]);
    assert_eq!(remove_all(&refs, b"x"), refs);
    assert_eq!(remove_all(&Vec::new(), b"x"), Vec::<Ref>::new());
}
