use bumahhfiles::{
    decimal, make_del_url, make_url_from_key, make_url_list_raw, site_origin, BumAhhError,
    DBEntry, SiteAddress, Timestamp,
};

fn site() -> SiteAddress {
    SiteAddress { protocol: "http".to_string(), host: "0.0.0.0:3000".to_string() }
}

#[test]
fn origin_and_links() {
    assert_eq!(site_origin(&site()), "http://0.0.0.0:3000");
    assert_eq!(make_url_from_key(&site(), "ab_cd-x.png"), "http://0.0.0.0:3000/ab_cd-x.png");
    assert_eq!(
        make_del_url(&site(), "ab_cd-x.png", "Zq9_a"),
        "http://0.0.0.0:3000/d/ab_cd-x.png?del_key=Zq9_a"
    );
}

#[test]
fn decimal_digits() {
    assert_eq!(decimal(0), "0");
    assert_eq!(decimal(7), "7");
    assert_eq!(decimal(10), "10");
    assert_eq!(decimal(209715200), "209715200");
    assert_eq!(decimal(u64::MAX), u64::MAX.to_string());
}

#[test]
fn raw_list_has_header_lines_and_final_newline() {
    let es = vec![
        DBEntry { key: "aaaaa-a.txt".to_string(), size: 2048, created_at: Timestamp { secs: 0, nanos: 0 }, delete_key: "k1".to_string() },
        DBEntry { key: "bbbbb".to_string(), size: 1, created_at: Timestamp { secs: 0, nanos: 0 }, delete_key: "k2".to_string() },
    ];
    let sizes = vec!["2.00".to_string(), "0.00".to_string()];
    let ret = vec![168 * 3600 + 59, 3599];
    let s = make_url_list_raw(&site(), &es, &sizes, &ret);
    assert_eq!(
        s,
        "url | size | delete key | retention time\n\
         http://0.0.0.0:3000/aaaaa-a.txt | ~2.00KB | k1 | <168H\n\
         http://0.0.0.0:3000/bbbbb | ~0.00KB | k2 | <0H\n"
    );
}

#[test]
fn raw_list_of_nothing() {
    let s = make_url_list_raw(&site(), &[], &vec![], &vec![]);
    assert_eq!(s, "url | size | delete key | retention time\n\n");
}

#[test]
fn error_messages() {
    let io = std::io::Error::new(std::io::ErrorKind::Other, "disk");
    assert_eq!(BumAhhError::IO(io).message(), "I/O Error\n");
    assert_eq!(BumAhhError::Internal("x".to_string()).message(), "Internal Error\n");
    assert_eq!(BumAhhError::InvalidRequest("bad field".to_string()).message(), "Invalid Request: bad field\n");
    assert_eq!(
        BumAhhError::FileTooBig(209715200).message(),
        "File too big, max file size in bytes: 209715200 bytes\n"
    );
    assert_eq!(BumAhhError::TooManyFiles(5).message(), "Too many files, allowed a maximum of: 5\n");
    assert_eq!(BumAhhError::FileNotFound.message(), "File not found\n");
    assert_eq!(BumAhhError::OutOfStorage.message(), "Storage bucket has reached its limit\n");
    assert_eq!(BumAhhError::Unknown.message(), "unknown data store error\n");
}
