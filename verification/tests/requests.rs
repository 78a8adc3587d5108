use std::hash::{DefaultHasher, Hash, Hasher};
use bumahhfiles::{
    accepts_field, accepts_html, delete_file, delete_key_for, expired_keys, file_expired,
    hash_one, serve_file, timestamp_of, BumAhhError, ClockReading, DBEntry, DataBase, FileEnd,
    Timestamp, UploadLimits, UploadSession,
};

fn at(secs: i128) -> Timestamp {
    Timestamp { secs, nanos: 0 }
}

fn entry(key: &str, size: u64, created_at: i128) -> DBEntry {
    DBEntry { key: key.to_string(), size, created_at: at(created_at), delete_key: "secret".to_string() }
}

fn session(limits: UploadLimits) -> UploadSession {
    UploadSession::new(limits, "magic-key".to_string())
}

fn limits() -> UploadLimits {
    UploadLimits { max_file_count: 2, max_filename_length: 12, max_on_disk_storage: 100, max_file_size: 10 }
}

#[test]
fn accept_header_negotiation() {
    assert!(accepts_html(Some("text/html,application/xhtml+xml")));
    assert!(accepts_html(Some("html")));
    assert!(!accepts_html(Some("text/plain")));
    assert!(!accepts_html(Some("htm")));
    assert!(!accepts_html(Some("HTML")));
    assert!(!accepts_html(None));
}

#[test]
fn serving_by_name() {
    let mut db = DataBase::new();
    db.insert(entry("f.txt", 3, 0));
    assert_eq!(serve_file(&db, "f.txt").unwrap().size, 3);
    assert!(matches!(serve_file(&db, "g.txt"), Err(BumAhhError::FileNotFound)));
}

#[test]
fn delete_needs_the_right_key() {
    let mut db = DataBase::new();
    db.insert(entry("f.txt", 3, 0));
    assert!(matches!(delete_file(&mut db, "f.txt", "wrong"), Err(BumAhhError::FileNotFound)));
    assert_eq!(db.len(), 1);
    assert_eq!(db.size(), 3);
    assert!(matches!(delete_file(&mut db, "nope", "secret"), Err(BumAhhError::FileNotFound)));
    let gone = delete_file(&mut db, "f.txt", "secret").unwrap();
    assert_eq!(gone.key, "f.txt");
    assert_eq!(db.len(), 0);
    assert_eq!(db.size(), 0);
    assert!(matches!(delete_file(&mut db, "f.txt", "secret"), Err(BumAhhError::FileNotFound)));
}

#[test]
fn expiry_boundaries() {
    let e = entry("a", 1, 100);
    assert!(!file_expired(&e, 50, at(149)));
    assert!(file_expired(&e, 50, at(150)));
    assert!(file_expired(&e, 50, at(10_000)));
    assert!(file_expired(&e, 0, at(100)));
    assert!(file_expired(&e, u64::MAX, at(0)));
    let late = entry("b", 1, i64::MAX as i128 - 10);
    assert!(!file_expired(&late, 10, at(0)));
    assert!(file_expired(&late, 11, at(0)));
}

#[test]
fn expiry_counts_nanoseconds() {
    let e = DBEntry {
        key: "a".to_string(),
        size: 1,
        created_at: Timestamp { secs: 100, nanos: 500 },
        delete_key: String::new(),
    };
    assert!(!file_expired(&e, 50, Timestamp { secs: 150, nanos: 499 }));
    assert!(file_expired(&e, 50, Timestamp { secs: 150, nanos: 500 }));
    assert!(!file_expired(&e, 50, Timestamp { secs: 149, nanos: 999_999_999 }));
}

#[test]
fn expiry_before_the_epoch() {
    let e = entry("a", 1, -100);
    assert!(!file_expired(&e, 50, at(-51)));
    assert!(file_expired(&e, 50, at(-50)));
}

#[test]
fn clock_readings_become_time_points() {
    let t = timestamp_of(ClockReading::SinceEpoch { secs: 10, nanos: 5 });
    assert_eq!((t.secs, t.nanos), (10, 5));
    let t = timestamp_of(ClockReading::BeforeEpoch { secs: 1, nanos: 250 });
    assert_eq!((t.secs, t.nanos), (-2, 999_999_750));
    let t = timestamp_of(ClockReading::BeforeEpoch { secs: 3, nanos: 0 });
    assert_eq!((t.secs, t.nanos), (-3, 0));
}

#[test]
fn only_file_fields_are_read() {
    assert!(accepts_field(Some("file")));
    assert!(!accepts_field(Some("files")));
    assert!(!accepts_field(Some("File")));
    assert!(!accepts_field(Some("")));
    assert!(!accepts_field(None));
}

fn expected_delete_key(magic: &str, key: &str) -> String {
    let mut s = DefaultHasher::new();
    format!("{magic}{key}").as_str().hash(&mut s);
    let mut h = s.finish();
    let alphabet: Vec<char> = ('a'..='z').chain('A'..='Z').chain('0'..='9').chain('_'..='_').collect();
    let mut out = String::new();
    for _ in 0..5 {
        out.push(alphabet[(h % 63) as usize]);
        h /= 63;
    }
    out
}

#[test]
fn delete_keys_come_from_the_magic_key() {
    let k = delete_key_for("magic-key", "abcde-pic.png");
    assert_eq!(k, expected_delete_key("magic-key", "abcde-pic.png"));
    assert_eq!(k.chars().count(), 5);
    assert!(k.chars().all(|c| c.is_ascii_alphanumeric() || c == '_'));
    assert_eq!(k, delete_key_for("magic-key", "abcde-pic.png"));
    assert_ne!(k, delete_key_for("other-key", "abcde-pic.png"));
    assert_eq!(delete_key_for("m", "x"), expected_delete_key("m", "x"));
}

#[test]
fn garbage_collection_picks_expired_entries() {
    let a = entry("a", 1, 100);
    let b = entry("b", 1, 1_000);
    let c = entry("c", 1, 1);
    let listing = vec![(1u64, &a), (2u64, &b), (3u64, &c)];
    let keys = expired_keys(&listing, &vec![10, 10, u64::MAX], at(500));
    assert_eq!(keys, vec![1, 3]);
    assert!(expired_keys(&listing, &vec![1000, 1000, 1000], at(50)).is_empty());
}

#[test]
fn upload_keeps_files_and_totals() {
    let mut s = session(limits());
    let name = s.begin_file_named(0, "abcde", Some("x y.txt")).ok().unwrap();
    assert_eq!(name, "abcde-x_y.tx");
    assert!(s.add_chunk(4).is_ok());
    assert!(s.chunk_written().is_ok());
    assert!(s.add_chunk(5).is_ok());
    assert!(s.chunk_written().is_ok());
    assert!(matches!(s.end_file_with("dk123".to_string()), FileEnd::Stored));
    assert_eq!(s.total, 9);
    let name2 = s.begin_file(9, None).ok().unwrap();
    assert_eq!(name2.len(), 5);
    assert!(matches!(s.end_file(), FileEnd::Empty(n) if n == name2));
    let name3 = s.begin_file_named(9, "zzzzz", None).ok().unwrap();
    s.add_chunk(1).ok().unwrap();
    s.chunk_written().ok().unwrap();
    assert!(matches!(s.end_file(), FileEnd::Stored));
    assert_eq!(name3, "zzzzz");
    let kept = s.finish();
    assert_eq!(kept.len(), 2);
    assert_eq!(kept[0].key, "abcde-x_y.tx");
    assert_eq!(kept[0].size, 9);
    assert_eq!(kept[0].delete_key, "dk123");
    assert_eq!(kept[1].key, "zzzzz");
    assert_eq!(kept[1].delete_key, delete_key_for("magic-key", "zzzzz"));
}

#[test]
fn upload_refuses_too_many_files() {
    let mut s = session(limits());
    for p in ["aaaaa", "bbbbb"] {
        s.begin_file_named(0, p, None).ok().unwrap();
        s.add_chunk(1).ok().unwrap();
        s.chunk_written().ok().unwrap();
        s.end_file_with("k".to_string());
    }
    let r = s.begin_file_named(0, "ccccc", None).err().unwrap();
    assert_eq!(r.status, 429);
    assert!(matches!(r.error, BumAhhError::TooManyFiles(2)));
    assert_eq!(r.remove, vec!["aaaaa".to_string(), "bbbbb".to_string()]);
}

#[test]
fn upload_refuses_when_storage_is_full() {
    let mut s = session(limits());
    s.begin_file_named(0, "aaaaa", None).ok().unwrap();
    s.add_chunk(9).ok().unwrap();
    s.chunk_written().ok().unwrap();
    s.end_file_with("k".to_string());
    let r = s.begin_file_named(91, "bbbbb", None).err().unwrap();
    assert_eq!(r.status, 429);
    assert!(matches!(r.error, BumAhhError::OutOfStorage));
    assert_eq!(r.remove, vec!["aaaaa".to_string()]);
    assert!(s.begin_file_named(90, "bbbbb", None).is_ok());
}

#[test]
fn upload_refuses_a_file_that_reaches_the_size_limit() {
    let mut s = session(limits());
    s.begin_file_named(0, "aaaaa", None).ok().unwrap();
    s.add_chunk(3).ok().unwrap();
    s.chunk_written().ok().unwrap();
    s.end_file_with("k".to_string());
    s.begin_file_named(0, "bbbbb", Some("big")).ok().unwrap();
    s.add_chunk(10).ok().unwrap();
    let r = s.chunk_written().err().unwrap();
    assert_eq!(r.status, 400);
    assert!(matches!(r.error, BumAhhError::FileTooBig(10)));
    assert_eq!(r.remove, vec!["aaaaa".to_string(), "bbbbb-big".to_string()]);
}

#[test]
fn upload_refuses_an_overflowing_chunk_without_cleanup() {
    let mut s = session(UploadLimits {
        max_file_count: 5,
        max_filename_length: 240,
        max_on_disk_storage: u64::MAX,
        max_file_size: usize::MAX,
    });
    s.begin_file_named(0, "aaaaa", None).ok().unwrap();
    s.add_chunk(usize::MAX - 1).ok().unwrap();
    let r = s.add_chunk(2).err().unwrap();
    assert_eq!(r.status, 400);
    assert!(matches!(r.error, BumAhhError::FileTooBig(n) if n == usize::MAX));
    assert!(r.remove.is_empty());
}

#[test]
fn stored_upload_lands_in_the_store() {
    let mut s = session(limits());
    s.begin_file_named(0, "aaaaa", None).ok().unwrap();
    s.add_chunk(4).ok().unwrap();
    s.chunk_written().ok().unwrap();
    s.end_file_with("k".to_string());
    let mut db = DataBase::new();
    db.insert_mul(s.finish());
    assert_eq!(db.size(), 4);
    assert_eq!(db.get(hash_one("aaaaa")).unwrap().delete_key, "k");
}
