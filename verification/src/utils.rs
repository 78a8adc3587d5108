//! Character classes, file-name cleaning and random names.

use vstd::prelude::*;
use crate::text::{push_char, decimal, spec_decimal};
use crate::state::{hash_one, spec_hash_key, DBEntry};
use rand::seq::IndexedRandom;

verus! {

broadcast use vstd::string::group_string_axioms;

/// Characters a random name may be built from: ASCII letters, digits and `_`.
pub open spec fn is_safe_char(c: char) -> bool {
    ||| ('a' <= c && c <= 'z')
    ||| ('A' <= c && c <= 'Z')
    ||| ('0' <= c && c <= '9')
    ||| c == '_'
}

/// Characters kept by `clean_filename`: the safe ones and `.`.
pub open spec fn is_allowed_char(c: char) -> bool {
    is_safe_char(c) || c == '.'
}

/// What `clean_filename` makes of one character.
pub open spec fn clean_char(c: char) -> char {
    if is_allowed_char(c) { c } else { '_' }
}

/// The cleaned form of a name: every character that is not allowed becomes `_`.
pub open spec fn spec_clean_filename(s: Seq<char>) -> Seq<char> {
    s.map_values(|c: char| clean_char(c))
}

/// A character of a file name that is kept, by its code point: an ASCII
/// letter (0x41-0x5A, 0x61-0x7A), an ASCII digit (0x30-0x39), `_` (0x5F) or
/// `.` (0x2E).
pub open spec fn is_name_code(c: char) -> bool {
    let u = c as int;
    ||| (0x61 <= u && u <= 0x7a)
    ||| (0x41 <= u && u <= 0x5a)
    ||| (0x30 <= u && u <= 0x39)
    ||| u == 0x5f
    ||| u == 0x2e
}

/// The characters cleaning keeps are exactly the ASCII letters and digits,
/// `_` and `.`.
pub proof fn law_allowed_chars_are_name_codes(c: char)
    ensures
        is_allowed_char(c) <==> is_name_code(c),
{
}

/// Decides `is_allowed_char`.
pub fn allowed_char(c: char) -> (b: bool)
    ensures
        b == is_allowed_char(c),
        b <==> is_name_code(c),
{
    ('a' <= c && c <= 'z') || ('A' <= c && c <= 'Z') || ('0' <= c && c <= '9') || c == '_'
        || c == '.'
}

/// Replaces every character outside `[a-zA-Z0-9_.]` by `_`.
pub fn clean_filename(filename: &str) -> (res: String)
    ensures
        res@ == spec_clean_filename(filename@),
        res@.len() == filename@.len(),
        forall|i: int|
            0 <= i < filename@.len() ==> #[trigger] res@[i] == if is_name_code(filename@[i]) {
                filename@[i]
            } else {
                '_'
            },
{
    let mut res = String::new();
    for c in it: filename.chars()
        invariant
            it.seq() == filename@,
            res@ == spec_clean_filename(filename@.take(it.index() as int)),
    {
        let keep = allowed_char(c);
        proof {
            assert(filename@.take(it.index() as int + 1) =~= filename@.take(it.index() as int).push(c));
        }
        if keep {
            push_char(&mut res, c);
        } else {
            push_char(&mut res, '_');
        }
        assert(res@ =~= spec_clean_filename(filename@.take(it.index() as int + 1)));
    }
    assert(filename@.take(filename@.len() as int) =~= filename@);
    res
}


/// The `i`-th character of the safe alphabet: `a`..`z`, then `A`..`Z`, then
/// `0`..`9`, then `_`.
pub open spec fn safe_char_at(i: int) -> char {
    if i < 26 {
        (97 + i) as char
    } else if i < 52 {
        (65 + (i - 26)) as char
    } else if i < 62 {
        (48 + (i - 52)) as char
    } else {
        '_'
    }
}

/// The safe alphabet, in the order random names draw from.
pub open spec fn spec_safe_chars() -> Seq<char> {
    Seq::new(63, |i: int| safe_char_at(i))
}

/// Where a safe character stands in the safe alphabet.
pub open spec fn safe_char_index(c: char) -> int {
    if 'a' <= c && c <= 'z' {
        c as int - 97
    } else if 'A' <= c && c <= 'Z' {
        c as int - 65 + 26
    } else if '0' <= c && c <= '9' {
        c as int - 48 + 52
    } else {
        62
    }
}

/// The safe alphabet holds exactly the safe characters, each once.
pub proof fn lemma_safe_chars()
    ensures
        spec_safe_chars().len() == 63,
        spec_safe_chars().no_duplicates(),
        forall|i: int| 0 <= i < 63 ==> is_safe_char(#[trigger] spec_safe_chars()[i]),
        forall|c: char| is_safe_char(c) ==> #[trigger] spec_safe_chars().contains(c),
        !spec_safe_chars().contains('.'),
{
    let s = spec_safe_chars();
    assert forall|i: int| 0 <= i < 63 implies is_safe_char(#[trigger] s[i])
        && safe_char_index(s[i]) == i by {}
    assert forall|c: char| is_safe_char(c) implies #[trigger] s.contains(c) by {
        let i = safe_char_index(c);
        assert(s[i] == c);
    }
    assert forall|i: int, j: int| 0 <= i < j < 63 implies s[i] != s[j] by {
        assert(safe_char_index(s[i]) == i);
        assert(safe_char_index(s[j]) == j);
    }
}

/// Builds the safe alphabet.
pub fn safe_chars() -> (v: Vec<char>)
    ensures
        v@ == spec_safe_chars(),
{
    let v = vec![
        'a', 'b', 'c', 'd', 'e', 'f', 'g', 'h', 'i', 'j', 'k', 'l', 'm', 'n', 'o', 'p', 'q', 'r',
        's', 't', 'u', 'v', 'w', 'x', 'y', 'z', 'A', 'B', 'C', 'D', 'E', 'F', 'G', 'H', 'I', 'J',
        'K', 'L', 'M', 'N', 'O', 'P', 'Q', 'R', 'S', 'T', 'U', 'V', 'W', 'X', 'Y', 'Z', '0', '1',
        '2', '3', '4', '5', '6', '7', '8', '9', '_',
    ];
    assert(v@ =~= spec_safe_chars());
    v
}


/// Cleaning keeps a character exactly when it is an ASCII letter or digit,
/// `_` or `.`, and turns every other character into `_`.
pub proof fn law_clean_filename_by_code(s: Seq<char>, i: int)
    requires
        0 <= i < s.len(),
    ensures
        spec_clean_filename(s).len() == s.len(),
        is_name_code(s[i]) ==> spec_clean_filename(s)[i] == s[i],
        !is_name_code(s[i]) ==> spec_clean_filename(s)[i] == '_',
        spec_clean_filename(s)[i] == s[i] <==> is_name_code(s[i]),
{
}

/// Cleaning keeps the length, leaves only allowed characters, keeps every
/// allowed character where it was, and changes nothing when applied again.
pub proof fn law_clean_filename(s: Seq<char>)
    ensures
        spec_clean_filename(s).len() == s.len(),
        forall|i: int| 0 <= i < s.len() ==> is_allowed_char(#[trigger] spec_clean_filename(s)[i]),
        forall|i: int| 0 <= i < s.len() && is_allowed_char(s[i]) ==> #[trigger] spec_clean_filename(s)[i] == s[i],
        spec_clean_filename(spec_clean_filename(s)) == spec_clean_filename(s),
{
    assert(spec_clean_filename(spec_clean_filename(s)) =~= spec_clean_filename(s));
}

/// Draws `amount` elements of `chars` at random (`IndexedRandom::sample`
/// with the thread-local generator `rand::rng()`).
///
/// rand documents, and its source shows, that it samples `min(amount, len)`
/// distinct positions of the slice. The contract therefore claims the length,
/// that every drawn character comes from `chars`, and that no position is
/// drawn twice, so a duplicate-free alphabet gives a duplicate-free result.
/// Which characters come out, and in what order, is left open: it rests on
/// chance.
#[verifier::external_body]
fn sample_chars(chars: &[char], amount: usize) -> (res: Vec<char>)
    ensures
        res@.len() == if amount < chars@.len() { amount as int } else { chars@.len() as int },
        forall|i: int| 0 <= i < res@.len() ==> chars@.contains(#[trigger] res@[i]),
        chars@.no_duplicates() ==> res@.no_duplicates(),
{
    chars.sample(&mut rand::rng(), amount).cloned().collect()
}

/// `n` distinct random characters of the safe alphabet (all 63 of them
/// when `n` is larger). A random name never holds `.`.
pub fn random(n: usize) -> (res: String)
    ensures
        res@.len() == if n < 63 { n as int } else { 63 },
        forall|i: int| 0 <= i < res@.len() ==> is_safe_char(#[trigger] res@[i]),
        res@.no_duplicates(),
{
    proof {
        lemma_safe_chars();
    }
    let alphabet = safe_chars();
    let drawn = sample_chars(alphabet.as_slice(), n);
    let mut res = String::new();
    let mut i: usize = 0;
    while i < drawn.len()
        invariant
            i <= drawn@.len(),
            res@ == drawn@.take(i as int),
            forall|j: int| 0 <= j < drawn@.len() ==> spec_safe_chars().contains(#[trigger] drawn@[j]),
        decreases drawn@.len() - i,
    {
        push_char(&mut res, drawn[i]);
        i = i + 1;
        assert(res@ =~= drawn@.take(i as int));
    }
    assert(drawn@.take(i as int) =~= drawn@);
    assert forall|j: int| 0 <= j < res@.len() implies is_safe_char(#[trigger] res@[j]) by {
        let k = choose|k: int| 0 <= k < 63 && spec_safe_chars()[k] == res@[j];
    }
    res
}

/// The name a stored file gets: `prefix`, then, when the client sent a name,
/// `-` and the cleaned name; cut to its first `max_len` characters.
pub open spec fn spec_storage_name(
    prefix: Seq<char>,
    file_name: Option<Seq<char>>,
    max_len: nat,
) -> Seq<char> {
    let full = match file_name {
        None => prefix,
        Some(f) => prefix + seq!['-'] + spec_clean_filename(f),
    };
    if full.len() > max_len {
        full.take(max_len as int)
    } else {
        full
    }
}

/// The characters of an optional string.
pub open spec fn opt_str_view(o: Option<&str>) -> Option<Seq<char>> {
    match o {
        Some(s) => Some(s@),
        None => None,
    }
}

/// A storage name built on a non-empty safe prefix, with room for at least
/// one character, is non-empty, fits `max_len`, never starts with `.` (so it
/// is never a hidden file), and holds only allowed characters and `-`.
pub proof fn law_storage_name_shape(prefix: Seq<char>, file_name: Option<Seq<char>>, max_len: nat)
    requires
        prefix.len() > 0,
        max_len > 0,
        forall|i: int| 0 <= i < prefix.len() ==> is_safe_char(#[trigger] prefix[i]),
    ensures
        0 < spec_storage_name(prefix, file_name, max_len).len() <= max_len,
        spec_storage_name(prefix, file_name, max_len)[0] != '.',
        forall|i: int|
            0 <= i < spec_storage_name(prefix, file_name, max_len).len() ==> is_allowed_char(
                #[trigger] spec_storage_name(prefix, file_name, max_len)[i],
            ) || spec_storage_name(prefix, file_name, max_len)[i] == '-',
{
    let full = match file_name {
        None => prefix,
        Some(f) => prefix + seq!['-'] + spec_clean_filename(f),
    };
    assert(full[0] == prefix[0]);
    assert forall|i: int| 0 <= i < full.len() implies is_allowed_char(#[trigger] full[i]) || full[i] == '-' by {
        if i >= prefix.len() + 1 {
            let f = file_name.unwrap();
            assert(full[i] == clean_char(f[i - prefix.len() - 1]));
        }
    }
}

/// Builds the storage name from a random `prefix` of safe characters.
/// Every character of the result is allowed (or the `-` after the prefix),
/// so the length in bytes is the length in characters.
pub fn storage_name(prefix: &str, file_name: Option<&str>, max_len: usize) -> (res: String)
    requires
        forall|i: int| 0 <= i < prefix@.len() ==> is_safe_char(#[trigger] prefix@[i]),
    ensures
        res@ == spec_storage_name(prefix@, opt_str_view(file_name), max_len as nat),
        vstd::utf8::is_ascii_chars(res@),
{
    let mut full = String::from_str(prefix);
    match file_name {
        Some(f) => {
            push_char(&mut full, '-');
            let cleaned = clean_filename(f);
            full.append(cleaned.as_str());
            assert(full@ =~= prefix@ + seq!['-'] + spec_clean_filename(f@));
        },
        None => {},
    }
    proof {
        let fv = full@;
        assert forall|i: int| 0 <= i < fv.len() implies '\0' <= #[trigger] fv[i] <= '\u{7f}' by {
            if i >= prefix@.len() + 1 {
                let k = i - prefix@.len() - 1;
                assert(fv[i] == clean_char(file_name.unwrap()@[k]));
            }
        }
        assert(vstd::utf8::is_ascii_chars(fv));
    }
    let s = full.as_str();
    // All characters are ASCII, so the count of characters is the count of bytes.
    let byte_len = s.unicode_len();
    if byte_len > max_len {
        let cut = s.substring_ascii(0, max_len);
        let res = String::from_str(cut);
        assert(res@ =~= full@.take(max_len as int));
        res
    } else {
        full
    }
}

/// `n` digits of `h` in base 63, lowest first, written with the safe alphabet.
pub open spec fn spec_safe_digits(h: nat, n: nat) -> Seq<char>
    decreases n,
{
    if n == 0 {
        Seq::empty()
    } else {
        seq![safe_char_at((h % 63) as int)] + spec_safe_digits(h / 63, (n - 1) as nat)
    }
}

/// The delete key of the file stored as `key`, computed with the service's
/// magic key: the hash of the magic key followed by the name, written as
/// five characters of the safe alphabet.
pub open spec fn spec_delete_key(magic: Seq<char>, key: Seq<char>) -> Seq<char> {
    spec_safe_digits(spec_hash_key(magic + key) as nat, 5)
}

/// Computes the delete key of the file stored as `key`.
pub fn delete_key_for(magic: &str, key: &str) -> (d: String)
    ensures
        d@ == spec_delete_key(magic@, key@),
{
    let mut joined = String::from_str(magic);
    joined.append(key);
    let hash = hash_one(joined.as_str());
    let alphabet = safe_chars();
    let mut h = hash;
    let mut d = String::new();
    let mut i: usize = 0;
    while i < 5
        invariant
            i <= 5,
            alphabet@ == spec_safe_chars(),
            d@ + spec_safe_digits(h as nat, (5 - i) as nat) == spec_safe_digits(hash as nat, 5),
        decreases 5 - i,
    {
        let ghost before = d@;
        let c = alphabet[(h % 63) as usize];
        push_char(&mut d, c);
        assert(spec_safe_digits(h as nat, (5 - i) as nat) == seq![c] + spec_safe_digits(
            (h / 63) as nat,
            (5 - i - 1) as nat,
        ));
        assert(d@ + spec_safe_digits((h / 63) as nat, (5 - i - 1) as nat) =~= before + spec_safe_digits(
            h as nat,
            (5 - i) as nat,
        ));
        h = h / 63;
        i = i + 1;
    }
    assert(d@ =~= spec_safe_digits(hash as nat, 5));
    d
}

/// A delete key has five characters, all from the safe alphabet, and the
/// same name under the same magic key always gets the same one.
pub proof fn law_delete_key_shape(magic: Seq<char>, key: Seq<char>)
    ensures
        spec_delete_key(magic, key).len() == 5,
        forall|i: int| 0 <= i < 5 ==> is_safe_char(#[trigger] spec_delete_key(magic, key)[i]),
{
    let h = spec_hash_key(magic + key) as nat;
    lemma_safe_digits(h, 5);
}

/// Base-63 digits have the asked length and are safe characters.
pub proof fn lemma_safe_digits(h: nat, n: nat)
    ensures
        spec_safe_digits(h, n).len() == n,
        forall|i: int| 0 <= i < n ==> is_safe_char(#[trigger] spec_safe_digits(h, n)[i]),
    decreases n,
{
    lemma_safe_chars();
    if n > 0 {
        lemma_safe_digits(h / 63, (n - 1) as nat);
        let s = spec_safe_digits(h, n);
        assert forall|i: int| 0 <= i < n implies is_safe_char(#[trigger] s[i]) by {
            if i == 0 {
                assert(s[0] == spec_safe_chars()[(h % 63) as int]);
            } else {
                assert(s[i] == spec_safe_digits(h / 63, (n - 1) as nat)[i - 1]);
            }
        }
    }
}

/// Where the service is reached from outside: scheme and host (with port).
pub struct SiteAddress {
    pub protocol: String,
    pub host: String,
}

/// `protocol://host`
pub open spec fn spec_origin(site: SiteAddress) -> Seq<char> {
    site.protocol@ + "://"@ + site.host@
}

/// `protocol://host/key`
pub open spec fn spec_url(site: SiteAddress, key: Seq<char>) -> Seq<char> {
    spec_origin(site) + "/"@ + key
}

/// `protocol://host/d/key?del_key=del_key`
pub open spec fn spec_del_url(site: SiteAddress, key: Seq<char>, del_key: Seq<char>) -> Seq<char> {
    spec_origin(site) + "/d/"@ + key + "?del_key="@ + del_key
}

/// The address of the service itself, `protocol://host`.
pub fn site_origin(site: &SiteAddress) -> (s: String)
    ensures
        s@ == spec_origin(*site),
{
    let mut s = String::from_str(site.protocol.as_str());
    s.append("://");
    s.append(site.host.as_str());
    s
}

/// The link that serves a stored file.
pub fn make_url_from_key(site: &SiteAddress, key: &str) -> (s: String)
    ensures
        s@ == spec_url(*site, key@),
{
    let mut s = site_origin(site);
    s.append("/");
    s.append(key);
    s
}

/// The link that deletes a stored file, carrying its delete key.
pub fn make_del_url(site: &SiteAddress, key: &str, del_id: &str) -> (s: String)
    ensures
        s@ == spec_del_url(*site, key@, del_id@),
{
    let mut s = site_origin(site);
    s.append("/d/");
    s.append(key);
    s.append("?del_key=");
    s.append(del_id);
    s
}

/// One line of the plain-text upload answer: link, size in KB as the caller
/// wrote it, delete key, and the retention in whole hours.
pub open spec fn spec_raw_line(site: SiteAddress, e: DBEntry, size_kb: Seq<char>, retention_secs: u64) -> Seq<char> {
    spec_url(site, e.key@) + " | ~"@ + size_kb + "KB | "@ + e.delete_key@ + " | <"@
        + spec_decimal((retention_secs / 60 / 60) as nat) + "H"@
}

/// The lines for the first `n` entries, joined by newlines.
pub open spec fn spec_raw_lines(
    site: SiteAddress,
    es: Seq<DBEntry>,
    sizes_kb: Seq<String>,
    retention_secs: Seq<u64>,
    n: int,
) -> Seq<char>
    decreases n,
{
    if n <= 0 {
        Seq::empty()
    } else if n == 1 {
        spec_raw_line(site, es[0], sizes_kb[0]@, retention_secs[0])
    } else {
        spec_raw_lines(site, es, sizes_kb, retention_secs, n - 1) + "\n"@ + spec_raw_line(
            site,
            es[n - 1],
            sizes_kb[n - 1]@,
            retention_secs[n - 1],
        )
    }
}

/// The plain-text answer to an upload: a header, one line per stored file,
/// and a final newline.
pub open spec fn spec_url_list_raw(
    site: SiteAddress,
    es: Seq<DBEntry>,
    sizes_kb: Seq<String>,
    retention_secs: Seq<u64>,
) -> Seq<char> {
    "url | size | delete key | retention time\n"@ + spec_raw_lines(site, es, sizes_kb, retention_secs, es.len() as int)
        + "\n"@
}

/// The lines of a listing only look at the entries they list.
proof fn lemma_raw_lines_prefix(
    site: SiteAddress,
    es: Seq<DBEntry>,
    sizes_kb: Seq<String>,
    retention_secs: Seq<u64>,
    e: DBEntry,
    size_kb: String,
    retention: u64,
    k: int,
)
    requires
        0 <= k <= es.len(),
        sizes_kb.len() == es.len(),
        retention_secs.len() == es.len(),
    ensures
        spec_raw_lines(site, es.push(e), sizes_kb.push(size_kb), retention_secs.push(retention), k)
            == spec_raw_lines(site, es, sizes_kb, retention_secs, k),
    decreases k,
{
    if k > 1 {
        lemma_raw_lines_prefix(site, es, sizes_kb, retention_secs, e, size_kb, retention, k - 1);
    }
}

/// The plain-text answer for no files is the header and an empty line.
pub proof fn law_raw_list_empty(site: SiteAddress)
    ensures
        spec_url_list_raw(site, Seq::empty(), Seq::empty(), Seq::empty())
            == "url | size | delete key | retention time\n"@ + "\n"@,
{
    assert(Seq::<char>::empty() + "\n"@ =~= "\n"@);
    assert("url | size | delete key | retention time\n"@ + Seq::<char>::empty() =~= "url | size | delete key | retention time\n"@);
}

/// The plain-text answer for one file is the header, the file's line
/// (`protocol://host/key | ~sizeKB | delete key | <hoursH`) and a newline.
pub proof fn law_raw_list_one(site: SiteAddress, e: DBEntry, size_kb: String, retention: u64)
    ensures
        spec_url_list_raw(site, seq![e], seq![size_kb], seq![retention]) == "url | size | delete key | retention time\n"@
            + (site.protocol@ + "://"@ + site.host@ + "/"@ + e.key@ + " | ~"@ + size_kb@ + "KB | "@
            + e.delete_key@ + " | <"@ + spec_decimal((retention / 60 / 60) as nat) + "H"@) + "\n"@,
{
}

/// Listing one more file adds exactly its line: the answer for the longer
/// list is the answer for the shorter one, whose final newline now
/// separates, followed by the new file's line and a newline. So every
/// stored file gets a line of its own, in order.
pub proof fn law_raw_list_push(
    site: SiteAddress,
    es: Seq<DBEntry>,
    sizes_kb: Seq<String>,
    retention_secs: Seq<u64>,
    e: DBEntry,
    size_kb: String,
    retention: u64,
)
    requires
        es.len() > 0,
        sizes_kb.len() == es.len(),
        retention_secs.len() == es.len(),
    ensures
        spec_url_list_raw(site, es.push(e), sizes_kb.push(size_kb), retention_secs.push(retention))
            == spec_url_list_raw(site, es, sizes_kb, retention_secs).drop_last() + "\n"@
            + (site.protocol@ + "://"@ + site.host@ + "/"@ + e.key@ + " | ~"@ + size_kb@ + "KB | "@
            + e.delete_key@ + " | <"@ + spec_decimal((retention / 60 / 60) as nat) + "H"@) + "\n"@,
{
    let header = "url | size | delete key | retention time\n"@;
    let nl = "\n"@;
    lemma_raw_lines_prefix(site, es, sizes_kb, retention_secs, e, size_kb, retention, es.len() as int);
    let old_lines = spec_raw_lines(site, es, sizes_kb, retention_secs, es.len() as int);
    let line = site.protocol@ + "://"@ + site.host@ + "/"@ + e.key@ + " | ~"@ + size_kb@ + "KB | "@
        + e.delete_key@ + " | <"@ + spec_decimal((retention / 60 / 60) as nat) + "H"@;
    let n = es.len() as int + 1;
    assert(es.push(e)[n - 1] == e);
    assert(sizes_kb.push(size_kb)[n - 1] == size_kb);
    assert(retention_secs.push(retention)[n - 1] == retention);
    assert(spec_raw_lines(site, es.push(e), sizes_kb.push(size_kb), retention_secs.push(retention), n)
        == old_lines + nl + line);
    assert((header + old_lines + nl).drop_last() =~= header + old_lines) by {
        reveal_strlit("\n");
    }
    assert(header + (old_lines + nl + line) + nl =~= header + old_lines + nl + line + nl);
}

/// Builds the plain-text answer. `sizes_kb[i]` is the size of `urls[i]` in
/// KB as it is to be shown, `retention_secs[i]` how long it is kept.
pub fn make_url_list_raw(
    site: &SiteAddress,
    urls: &[DBEntry],
    sizes_kb: &Vec<String>,
    retention_secs: &Vec<u64>,
) -> (s: String)
    requires
        sizes_kb@.len() == urls@.len(),
        retention_secs@.len() == urls@.len(),
    ensures
        s@ == spec_url_list_raw(*site, urls@, sizes_kb@, retention_secs@),
{
    let mut lines = String::new();
    let mut i: usize = 0;
    while i < urls.len()
        invariant
            i <= urls@.len(),
            sizes_kb@.len() == urls@.len(),
            retention_secs@.len() == urls@.len(),
            lines@ == spec_raw_lines(*site, urls@, sizes_kb@, retention_secs@, i as int),
        decreases urls@.len() - i,
    {
        if i > 0 {
            lines.append("\n");
        }
        let e = &urls[i];
        let url = make_url_from_key(site, e.key.as_str());
        lines.append(url.as_str());
        lines.append(" | ~");
        lines.append(sizes_kb[i].as_str());
        lines.append("KB | ");
        lines.append(e.delete_key.as_str());
        lines.append(" | <");
        let hours = decimal(retention_secs[i] / 60 / 60);
        lines.append(hours.as_str());
        lines.append("H");
        i = i + 1;
    }
    let mut s = String::from_str("url | size | delete key | retention time\n");
    s.append(lines.as_str());
    s.append("\n");
    s
}

} // verus!
