//! The decisions behind the HTTP handlers: the upload protocol as a state
//! machine, content negotiation, serving and deleting by name.

use vstd::prelude::*;
use crate::error::BumAhhError;
use crate::state::{DBEntry, DataBase, spec_hash_key, total_size};
use crate::utils::{
    delete_key_for, is_safe_char, opt_str_view, random, spec_delete_key, spec_storage_name, storage_name,
};

verus! {

/// The query of a delete request: the key handed out at upload.
pub struct DeleteKey {
    pub del_key: String,
}

/// `needle` occurs in `hay` as a contiguous run.
pub open spec fn spec_contains(hay: Seq<char>, needle: Seq<char>) -> bool {
    exists|i: int| 0 <= i && i + needle.len() <= hay.len() && #[trigger] hay.subrange(i, i + needle.len()) == needle
}

/// Collects the characters of a string.
fn chars_of(s: &str) -> (v: Vec<char>)
    ensures
        v@ == s@,
{
    let mut v: Vec<char> = Vec::new();
    for c in it: s.chars()
        invariant
            it.seq() == s@,
            v@ == s@.take(it.index() as int),
    {
        v.push(c);
        assert(v@ =~= s@.take(it.index() as int + 1));
    }
    assert(s@.take(s@.len() as int) =~= s@);
    v
}

/// Whether the client asked for HTML: its `Accept` header, when it has one
/// that reads as text, contains `html`.
pub fn accepts_html(accept: Option<&str>) -> (b: bool)
    ensures
        b == (accept matches Some(a) && spec_contains(a@, seq!['h', 't', 'm', 'l'])),
{
    let a = match accept {
        Some(a) => a,
        None => return false,
    };
    let hay = chars_of(a);
    if hay.len() < 4 {
        assert forall|i: int| 0 <= i && i + 4 <= hay@.len() implies #[trigger] hay@.subrange(i, i + 4) != seq!['h', 't', 'm', 'l'] by {}
        return false;
    }
    let n = hay.len();
    let last = n - 3;
    let mut i: usize = 0;
    while i < last
        invariant
            accept == Some(a),
            hay@ == a@,
            hay@.len() >= 4,
            n == hay@.len(),
            last == n - 3,
            i <= last,
            forall|j: int| 0 <= j < i ==> #[trigger] hay@.subrange(j, j + 4) != seq!['h', 't', 'm', 'l'],
        decreases hay@.len() - i,
    {
        if hay[i] == 'h' && hay[i + 1] == 't' && hay[i + 2] == 'm' && hay[i + 3] == 'l' {
            assert(a@.subrange(i as int, i + seq!['h', 't', 'm', 'l'].len()) =~= seq!['h', 't', 'm', 'l']);
            return true;
        }
        assert(hay@.subrange(i as int, i + 4)[0] == hay@[i as int]);
        assert(hay@.subrange(i as int, i + 4)[1] == hay@[i + 1]);
        assert(hay@.subrange(i as int, i + 4)[2] == hay@[i + 2]);
        assert(hay@.subrange(i as int, i + 4)[3] == hay@[i + 3]);
        i = i + 1;
    }
    false
}

/// Whether a form field is read as a file: its name is `file`. Reading the
/// form stops at the first field that is not.
pub fn accepts_field(name: Option<&str>) -> (b: bool)
    ensures
        b == (name matches Some(n) && n@ == seq!['f', 'i', 'l', 'e']),
{
    match name {
        Some(n) => {
            let cs = chars_of(n);
            if cs.len() == 4 && cs[0] == 'f' && cs[1] == 'i' && cs[2] == 'l' && cs[3] == 'e' {
                assert(n@ =~= seq!['f', 'i', 'l', 'e']);
                true
            } else {
                false
            }
        },
        None => false,
    }
}

/// Finds the file to serve by its name.
pub fn serve_file<'a>(db: &'a DataBase, filename: &str) -> (res: Result<&'a DBEntry, BumAhhError>)
    ensures
        match db@.lookup_key(filename@) {
            Some(e) => res == Ok::<&DBEntry, BumAhhError>(&e),
            None => res matches Err(BumAhhError::FileNotFound),
        },
{
    match db.get_key(filename) {
        Some(entry) => Ok(entry),
        None => Err(BumAhhError::FileNotFound),
    }
}

/// Deletes the file found by `filename` when `del_key` is its delete key;
/// any other request is answered `FileNotFound` and changes nothing.
pub fn delete_file(db: &mut DataBase, filename: &str, del_key: &str) -> (res: Result<DBEntry, BumAhhError>)
    requires
        old(db).wf(),
    ensures
        final(db).wf(),
        match old(db)@.lookup_key(filename@) {
            Some(e) => if e.delete_key@ == del_key@ {
                &&& res == Ok::<DBEntry, BumAhhError>(e)
                &&& final(db)@ == old(db)@.delete(spec_hash_key(filename@))
            } else {
                &&& res matches Err(BumAhhError::FileNotFound)
                &&& final(db)@ == old(db)@
            },
            None => {
                &&& res matches Err(BumAhhError::FileNotFound)
                &&& final(db)@ == old(db)@
            },
        },
{
    let key = match db.get_key(filename) {
        Some(entry) => {
            let asked = String::from_str(del_key);
            if entry.delete_key != asked {
                return Err(BumAhhError::FileNotFound);
            }
            entry.key.clone()
        },
        None => return Err(BumAhhError::FileNotFound),
    };
    match db.delete_key(key.as_str()) {
        Some(entry) => Ok(entry),
        None => Err(BumAhhError::FileNotFound),
    }
}


/// The limits an upload is held to.
pub struct UploadLimits {
    pub max_file_count: usize,
    pub max_filename_length: usize,
    pub max_on_disk_storage: u64,
    pub max_file_size: usize,
}

/// The file being received: its storage name and the bytes received so far.
pub struct PendingFile {
    pub name: String,
    pub size: usize,
}

/// Why an upload stops: the HTTP status, the error, and the stored names of
/// the files already written that are to be removed.
pub struct Rejection {
    pub status: u16,
    pub error: BumAhhError,
    pub remove: Vec<String>,
}

/// How a file part ended.
pub enum FileEnd {
    /// Nothing was received; the named file is to be removed.
    Empty(String),
    /// The file was kept as the last of the session's entries.
    Stored,
}

/// One multipart upload in progress: the limits, the magic key delete keys
/// are computed with, the files kept so far with their total size, and the
/// file being received.
pub struct UploadSession {
    pub limits: UploadLimits,
    pub magic_key: String,
    pub entries: Vec<DBEntry>,
    pub total: u64,
    pub current: Option<PendingFile>,
}

/// The names of a sequence of entries.
pub open spec fn entry_names(es: Seq<DBEntry>) -> Seq<Seq<char>> {
    es.map_values(|e: DBEntry| e.key@)
}

/// The characters of each string.
pub open spec fn string_views(v: Seq<String>) -> Seq<Seq<char>> {
    v.map_values(|s: String| s@)
}

/// `name` is what `storage_name` makes of some random prefix of five
/// distinct safe characters.
pub open spec fn is_random_storage_name(name: Seq<char>, file_name: Option<Seq<char>>, max_len: nat) -> bool {
    exists|p: Seq<char>|
        p.len() == 5 && p.no_duplicates() && (forall|i: int| 0 <= i < 5 ==> is_safe_char(#[trigger] p[i]))
            && name == #[trigger] spec_storage_name(p, file_name, max_len)
}

impl UploadSession {
    /// The session's own invariant: at most `max_file_count` files, each
    /// non-empty and under `max_file_size`, with `total` their sum; a file in
    /// progress still fits under the count.
    pub open spec fn wf(&self) -> bool {
        &&& self.entries@.len() <= self.limits.max_file_count
        &&& self.total == total_size(self.entries@)
        &&& forall|i: int|
            0 <= i < self.entries@.len() ==> 0 < (#[trigger] self.entries@[i]).size
                && self.entries@[i].size < self.limits.max_file_size
        &&& self.current is Some ==> self.entries@.len() < self.limits.max_file_count
    }

    /// A session that has received nothing.
    pub fn new(limits: UploadLimits, magic_key: String) -> (s: UploadSession)
        ensures
            s.wf(),
            s.limits == limits,
            s.magic_key == magic_key,
            s.entries@.len() == 0,
            s.total == 0,
            s.current is None,
    {
        UploadSession { limits, magic_key, entries: Vec::new(), total: 0, current: None }
    }

    /// The stored names of the files kept so far.
    pub fn entry_names(&self) -> (names: Vec<String>)
        ensures
            string_views(names@) == entry_names(self.entries@),
    {
        let mut names: Vec<String> = Vec::new();
        let mut i: usize = 0;
        while i < self.entries.len()
            invariant
                i <= self.entries@.len(),
                names@.len() == i,
                string_views(names@) == entry_names(self.entries@.take(i as int)),
            decreases self.entries@.len() - i,
        {
            let ghost before = names@;
            let name = self.entries[i].key.clone();
            names.push(name);
            proof {
                let taken = self.entries@.take(i + 1);
                assert forall|j: int| 0 <= j < i + 1 implies #[trigger] string_views(names@)[j] == entry_names(taken)[j] by {
                    if j < i {
                        assert(names@[j] == before[j]);
                        assert(string_views(before)[j] == entry_names(self.entries@.take(i as int))[j]);
                    }
                }
            }
            i = i + 1;
            assert(string_views(names@) =~= entry_names(self.entries@.take(i as int)));
        }
        assert(self.entries@.take(i as int) =~= self.entries@);
        names
    }

    /// A new file part arrives while the store holds `stored_bytes`. It is
    /// refused when the session already has `max_file_count` files (429,
    /// `TooManyFiles`), or when the store and the session together reach
    /// `max_on_disk_storage` (429, `OutOfStorage`); a refusal asks to remove
    /// the files kept so far. Otherwise the file to create is named from
    /// `prefix` and the client's name.
    pub fn begin_file_named(&mut self, stored_bytes: u64, prefix: &str, file_name: Option<&str>) -> (res: Result<String, Rejection>)
        requires
            old(self).wf(),
            old(self).current is None,
            stored_bytes + old(self).total <= u64::MAX,
            forall|i: int| 0 <= i < prefix@.len() ==> is_safe_char(#[trigger] prefix@[i]),
        ensures
            final(self).wf(),
            old(self).entries@.len() >= old(self).limits.max_file_count ==> {
                &&& res matches Err(r)
                &&& r.status == 429
                &&& r.error matches BumAhhError::TooManyFiles(n)
                &&& n == old(self).limits.max_file_count
                &&& string_views(r.remove@) == entry_names(old(self).entries@)
                &&& *final(self) == *old(self)
            },
            old(self).entries@.len() < old(self).limits.max_file_count && stored_bytes + old(self).total
                >= old(self).limits.max_on_disk_storage ==> {
                &&& res matches Err(r)
                &&& r.status == 429
                &&& r.error matches BumAhhError::OutOfStorage
                &&& string_views(r.remove@) == entry_names(old(self).entries@)
                &&& *final(self) == *old(self)
            },
            old(self).entries@.len() < old(self).limits.max_file_count && stored_bytes + old(self).total
                < old(self).limits.max_on_disk_storage ==> {
                &&& res matches Ok(name)
                &&& name@ == spec_storage_name(prefix@, opt_str_view(file_name), old(self).limits.max_filename_length as nat)
                &&& final(self).current matches Some(p)
                &&& p.name@ == name@
                &&& p.size == 0
                &&& final(self).entries == old(self).entries
                &&& final(self).total == old(self).total
                &&& final(self).limits == old(self).limits
                &&& final(self).magic_key == old(self).magic_key
            },
    {
        if self.entries.len() >= self.limits.max_file_count {
            let remove = self.entry_names();
            return Err(Rejection { status: 429, error: BumAhhError::TooManyFiles(self.limits.max_file_count), remove });
        }
        if stored_bytes + self.total >= self.limits.max_on_disk_storage {
            let remove = self.entry_names();
            return Err(Rejection { status: 429, error: BumAhhError::OutOfStorage, remove });
        }
        let name = storage_name(prefix, file_name, self.limits.max_filename_length);
        self.current = Some(PendingFile { name: name.clone(), size: 0 });
        Ok(name)
    }

    /// As `begin_file_named`, with a fresh random prefix of five safe characters.
    pub fn begin_file(&mut self, stored_bytes: u64, file_name: Option<&str>) -> (res: Result<String, Rejection>)
        requires
            old(self).wf(),
            old(self).current is None,
            stored_bytes + old(self).total <= u64::MAX,
        ensures
            final(self).wf(),
            old(self).entries@.len() >= old(self).limits.max_file_count ==> {
                &&& res matches Err(r)
                &&& r.status == 429
                &&& r.error matches BumAhhError::TooManyFiles(n)
                &&& n == old(self).limits.max_file_count
                &&& string_views(r.remove@) == entry_names(old(self).entries@)
                &&& *final(self) == *old(self)
            },
            old(self).entries@.len() < old(self).limits.max_file_count && stored_bytes + old(self).total
                >= old(self).limits.max_on_disk_storage ==> {
                &&& res matches Err(r)
                &&& r.status == 429
                &&& r.error matches BumAhhError::OutOfStorage
                &&& string_views(r.remove@) == entry_names(old(self).entries@)
                &&& *final(self) == *old(self)
            },
            old(self).entries@.len() < old(self).limits.max_file_count && stored_bytes + old(self).total
                < old(self).limits.max_on_disk_storage ==> {
                &&& res matches Ok(name)
                &&& is_random_storage_name(name@, opt_str_view(file_name), old(self).limits.max_filename_length as nat)
                &&& final(self).current matches Some(p)
                &&& p.name@ == name@
                &&& p.size == 0
                &&& final(self).entries == old(self).entries
                &&& final(self).total == old(self).total
                &&& final(self).limits == old(self).limits
                &&& final(self).magic_key == old(self).magic_key
            },
    {
        let prefix = random(5);
        let res = self.begin_file_named(stored_bytes, prefix.as_str(), file_name);
        proof {
            if res is Ok {
                let name = res->Ok_0;
                assert(name@ == spec_storage_name(prefix@, opt_str_view(file_name), self.limits.max_filename_length as nat));
            }
        }
        res
    }

    /// A chunk of `len` bytes arrives for the current file. When the count
    /// of bytes would overflow the request is refused (400, `FileTooBig`)
    /// with nothing to remove; otherwise the chunk is to be written.
    pub fn add_chunk(&mut self, len: usize) -> (res: Result<(), Rejection>)
        requires
            old(self).wf(),
            old(self).current is Some,
        ensures
            final(self).wf(),
            match old(self).current {
                Some(p) => if p.size + len > usize::MAX {
                    &&& res matches Err(r)
                    &&& r.status == 400
                    &&& r.error matches BumAhhError::FileTooBig(n)
                    &&& n == old(self).limits.max_file_size
                    &&& r.remove@.len() == 0
                    &&& *final(self) == *old(self)
                } else {
                    &&& res is Ok
                    &&& final(self).current matches Some(q)
                    &&& q.name == p.name
                    &&& q.size == p.size + len
                    &&& final(self).entries == old(self).entries
                    &&& final(self).total == old(self).total
                    &&& final(self).limits == old(self).limits
                    &&& final(self).magic_key == old(self).magic_key
                },
                None => false,
            },
    {
        let cur = self.current.take();
        let mut p = cur.unwrap();
        match p.size.checked_add(len) {
            Some(n) => {
                p.size = n;
                self.current = Some(p);
                Ok(())
            },
            None => {
                self.current = Some(p);
                Err(Rejection { status: 400, error: BumAhhError::FileTooBig(self.limits.max_file_size), remove: Vec::new() })
            },
        }
    }

    /// The chunk was written. When the file has reached `max_file_size` the
    /// request is refused (400, `FileTooBig`) and the files kept so far and
    /// the current one are to be removed.
    pub fn chunk_written(&self) -> (res: Result<(), Rejection>)
        requires
            self.wf(),
            self.current is Some,
        ensures
            match self.current {
                Some(p) => if p.size >= self.limits.max_file_size {
                    &&& res matches Err(r)
                    &&& r.status == 400
                    &&& r.error matches BumAhhError::FileTooBig(n)
                    &&& n == self.limits.max_file_size
                    &&& string_views(r.remove@) == entry_names(self.entries@).push(p.name@)
                } else {
                    res is Ok
                },
                None => false,
            },
    {
        let (size, name) = match &self.current {
            Some(p) => (p.size, p.name.clone()),
            None => (0, String::new()),
        };
        if size >= self.limits.max_file_size {
            let mut remove = self.entry_names();
            remove.push(name);
            assert(string_views(remove@) =~= entry_names(self.entries@).push(name@));
            Err(Rejection { status: 400, error: BumAhhError::FileTooBig(self.limits.max_file_size), remove })
        } else {
            Ok(())
        }
    }

    /// The current file part is complete. An empty file is dropped (and is
    /// to be removed); any other, which every written chunk has kept under
    /// `max_file_size`, is kept with `delete_key`.
    pub fn end_file_with(&mut self, delete_key: String) -> (res: FileEnd)
        requires
            old(self).wf(),
            old(self).current matches Some(p) && (p.size == 0 || p.size < old(self).limits.max_file_size),
            old(self).current matches Some(p) && old(self).total + p.size <= u64::MAX,
        ensures
            final(self).wf(),
            final(self).current is None,
            final(self).limits == old(self).limits,
            final(self).magic_key == old(self).magic_key,
            match old(self).current {
                Some(p) => if p.size == 0 {
                    &&& res matches FileEnd::Empty(name)
                    &&& name == p.name
                    &&& final(self).entries == old(self).entries
                    &&& final(self).total == old(self).total
                } else {
                    &&& res is Stored
                    &&& final(self).entries@.len() == old(self).entries@.len() + 1
                    &&& final(self).entries@.drop_last() == old(self).entries@
                    &&& final(self).entries@.last().key == p.name
                    &&& final(self).entries@.last().size == p.size
                    &&& final(self).entries@.last().delete_key == delete_key
                    &&& final(self).total == old(self).total + p.size
                },
                None => false,
            },
    {
        let cur = self.current.take();
        let p = cur.unwrap();
        if p.size == 0 {
            FileEnd::Empty(p.name)
        } else {
            let size = p.size as u64;
            let entry = DBEntry::new(p.name, size, delete_key);
            let ghost before = self.entries@;
            self.entries.push(entry);
            self.total = self.total + size;
            assert(self.entries@.drop_last() =~= before);
            FileEnd::Stored
        }
    }

    /// As `end_file_with`, with the delete key computed from the session's
    /// magic key and the file's storage name.
    pub fn end_file(&mut self) -> (res: FileEnd)
        requires
            old(self).wf(),
            old(self).current matches Some(p) && (p.size == 0 || p.size < old(self).limits.max_file_size),
            old(self).current matches Some(p) && old(self).total + p.size <= u64::MAX,
        ensures
            final(self).wf(),
            final(self).current is None,
            final(self).limits == old(self).limits,
            final(self).magic_key == old(self).magic_key,
            match old(self).current {
                Some(p) => if p.size == 0 {
                    &&& res matches FileEnd::Empty(name)
                    &&& name == p.name
                    &&& final(self).entries == old(self).entries
                    &&& final(self).total == old(self).total
                } else {
                    &&& res is Stored
                    &&& final(self).entries@.len() == old(self).entries@.len() + 1
                    &&& final(self).entries@.drop_last() == old(self).entries@
                    &&& final(self).entries@.last().key == p.name
                    &&& final(self).entries@.last().size == p.size
                    &&& final(self).entries@.last().delete_key@ == spec_delete_key(old(self).magic_key@, p.name@)
                    &&& final(self).total == old(self).total + p.size
                },
                None => false,
            },
    {
        let key = match &self.current {
            Some(p) => delete_key_for(self.magic_key.as_str(), p.name.as_str()),
            None => String::new(),
        };
        self.end_file_with(key)
    }

    /// The files kept by the session, in the order they arrived.
    pub fn finish(self) -> (entries: Vec<DBEntry>)
        ensures
            entries == self.entries,
    {
        self.entries
    }
}

} // verus!
