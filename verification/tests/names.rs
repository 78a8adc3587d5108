use bumahhfiles::{clean_filename, random, safe_chars, storage_name};

#[test]
fn clean_filename_replaces_disallowed_characters() {
    assert_eq!(clean_filename("my file (1).tar.gz"), "my_file__1_.tar.gz");
    assert_eq!(clean_filename("ok_Name-2.TXT"), "ok_Name_2.TXT");
    assert_eq!(clean_filename(""), "");
}

#[test]
fn clean_filename_maps_each_unicode_scalar_to_one_character() {
    assert_eq!(clean_filename("ünï©ode.png"), "_n__ode.png");
    assert_eq!(clean_filename("../../etc/passwd"), ".._.._etc_passwd");
}

#[test]
fn clean_filename_is_idempotent() {
    let once = clean_filename("a b/c?.d");
    assert_eq!(clean_filename(&once), once);
}

#[test]
fn safe_alphabet_has_letters_digits_and_underscore() {
    let v = safe_chars();
    assert_eq!(v.len(), 63);
    assert_eq!(v[0], 'a');
    assert_eq!(v[25], 'z');
    assert_eq!(v[26], 'A');
    assert_eq!(v[51], 'Z');
    assert_eq!(v[52], '0');
    assert_eq!(v[61], '9');
    assert_eq!(v[62], '_');
    assert!(!v.contains(&'.'));
}

#[test]
fn random_gives_distinct_safe_characters() {
    for _ in 0..50 {
        let r = random(5);
        let cs: Vec<char> = r.chars().collect();
        assert_eq!(cs.len(), 5);
        for (i, c) in cs.iter().enumerate() {
            assert!(c.is_ascii_alphanumeric() || *c == '_');
            assert!(!cs[i + 1..].contains(c));
        }
    }
}

#[test]
fn random_is_capped_by_the_alphabet() {
    assert_eq!(random(0).len(), 0);
    assert_eq!(random(63).len(), 63);
    assert_eq!(random(1000).len(), 63);
}

#[test]
fn storage_name_joins_prefix_and_cleaned_name() {
    assert_eq!(storage_name("AbC_9", Some("my pic.png"), 240), "AbC_9-my_pic.png");
    assert_eq!(storage_name("AbC_9", None, 240), "AbC_9");
}

#[test]
fn storage_name_is_cut_to_the_limit() {
    assert_eq!(storage_name("abcde", Some("long name.txt"), 9), "abcde-lon");
    assert_eq!(storage_name("abcde", None, 3), "abc");
    assert_eq!(storage_name("abcde", Some("x"), 7), "abcde-x");
    assert_eq!(storage_name("abcde", Some("ünï"), 100), "abcde-_n_");
}

#[test]
fn storage_name_never_starts_with_a_dot() {
    let n = storage_name("q1w2e", Some(".hidden"), 240);
    assert_eq!(n, "q1w2e-.hidden");
    assert!(!n.starts_with('.'));
}
