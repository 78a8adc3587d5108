use bumahhfiles::{hash_one, DBEntry, DataBase, Timestamp};
use std::hash::{DefaultHasher, Hash, Hasher};

fn entry(key: &str, size: u64) -> DBEntry {
    DBEntry { key: key.to_string(), size, created_at: Timestamp { secs: 1_000, nanos: 0 }, delete_key: "dk".to_string() }
}

fn std_hash<T: Hash + ?Sized>(t: &T) -> u64 {
    let mut s = DefaultHasher::new();
    t.hash(&mut s);
    s.finish()
}

#[test]
fn hash_one_matches_hashing_a_str() {
    for k in ["", "a", "abcde-file.txt", "ünï"] {
        assert_eq!(hash_one(k), std_hash(k));
        assert_eq!(hash_one(k), std_hash(&k.to_string()));
    }
    assert_ne!(hash_one("a"), hash_one("b"));
}

#[test]
fn new_entry_keeps_its_fields() {
    let e = DBEntry::new("name".to_string(), 12, "key".to_string());
    assert_eq!(e.key, "name");
    assert_eq!(e.size, 12);
    assert_eq!(e.delete_key, "key");
    assert!(e.created_at.secs > 0);
    assert!(e.created_at.nanos < 1_000_000_000);
}

#[test]
fn entry_with_time_keeps_all_fields() {
    let t = Timestamp { secs: -5, nanos: 7 };
    let e = DBEntry::with_time("n".to_string(), 3, "k".to_string(), t);
    assert_eq!(e.key, "n");
    assert_eq!(e.size, 3);
    assert_eq!(e.delete_key, "k");
    assert_eq!((e.created_at.secs, e.created_at.nanos), (-5, 7));
}

#[test]
fn storing_a_new_name_grows_the_store_by_one() {
    let mut db = DataBase::new();
    db.insert(entry("a", 1));
    let before = db.get(hash_one("b")).is_none();
    db.insert(entry("b", 2));
    assert!(before);
    assert_eq!(db.len(), 2);
    assert_eq!(db.get_key("a").unwrap().size, 1);
}

#[test]
fn read_after_write() {
    let mut db = DataBase::new();
    db.insert(entry("a.txt", 10));
    assert_eq!(db.len(), 1);
    assert_eq!(db.size(), 10);
    let got = db.get_key("a.txt").unwrap();
    assert_eq!(got.key, "a.txt");
    assert_eq!(got.size, 10);
    assert!(db.get(hash_one("a.txt")).is_some());
    assert!(db.get_key("b.txt").is_none());
}

#[test]
fn replacing_an_entry_counts_both_sizes() {
    let mut db = DataBase::default();
    db.insert(entry("a", 10));
    db.insert(entry("a", 4));
    assert_eq!(db.len(), 1);
    assert_eq!(db.size(), 14);
    assert_eq!(db.get_key("a").unwrap().size, 4);
    let gone = db.delete_key("a").unwrap();
    assert_eq!(gone.size, 4);
    assert_eq!(db.size(), 10);
    assert_eq!(db.len(), 0);
}

#[test]
fn delete_undoes_insert() {
    let mut db = DataBase::new();
    db.insert(entry("x", 3));
    db.insert(entry("y", 5));
    let d = db.delete(hash_one("y")).unwrap();
    assert_eq!(d.key, "y");
    assert_eq!(db.size(), 3);
    assert!(db.get_key("y").is_none());
    assert!(db.delete(hash_one("y")).is_none());
    assert_eq!(db.size(), 3);
}

#[test]
fn insert_mul_stores_each_in_turn() {
    let mut db = DataBase::new();
    db.insert_mul(vec![entry("a", 1), entry("b", 2), entry("a", 3)]);
    assert_eq!(db.len(), 2);
    assert_eq!(db.size(), 6);
    assert_eq!(db.get_key("a").unwrap().size, 3);
}

#[test]
fn delete_mul_answers_per_key() {
    let mut db = DataBase::new();
    db.insert_mul(vec![entry("a", 1), entry("b", 2)]);
    let out = db.delete_mul(vec![hash_one("a"), hash_one("zz"), hash_one("a"), hash_one("b")]);
    assert_eq!(out.len(), 4);
    assert_eq!(out[0].as_ref().unwrap().key, "a");
    assert!(out[1].is_none());
    assert!(out[2].is_none());
    assert_eq!(out[3].as_ref().unwrap().key, "b");
    assert_eq!(db.size(), 0);
    assert_eq!(db.len(), 0);
}

#[test]
fn entries_lists_each_stored_pair_once() {
    let mut db = DataBase::new();
    db.insert_mul(vec![entry("a", 1), entry("b", 2), entry("c", 3)]);
    let mut listed: Vec<(u64, String)> = db.entries().iter().map(|(h, e)| (*h, e.key.clone())).collect();
    listed.sort();
    let mut expected: Vec<(u64, String)> =
        ["a", "b", "c"].iter().map(|k| (hash_one(k), k.to_string())).collect();
    expected.sort();
    assert_eq!(listed, expected);
}
