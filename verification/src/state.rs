//! The store's bookkeeping: entries keyed by the hash of their name, and the
//! number of bytes the store accounts for.

use std::collections::HashMap;
use std::hash::DefaultHasher;
use std::hash::Hasher;
use vstd::prelude::*;
use vstd::std_specs::hash::DefaultHasherAdditionalSpecFns;
use crate::clock::{timestamp_now, Timestamp};

verus! {

broadcast use vstd::std_specs::hash::group_hash_axioms;

/// One stored file: its name on disk, its size in bytes, when it was stored
/// and the key that allows deleting it.
#[derive(Debug, Clone)]
pub struct DBEntry {
    pub key: String,
    pub size: u64,
    pub created_at: Timestamp,
    pub delete_key: String,
}

impl DBEntry {
    /// An entry stored at `created_at`.
    pub fn with_time(key: String, size: u64, delete_key: String, created_at: Timestamp) -> (e: DBEntry)
        ensures
            e.key == key,
            e.size == size,
            e.delete_key == delete_key,
            e.created_at == created_at,
    {
        DBEntry { key, size, created_at, delete_key }
    }

    /// An entry stored now: `with_time` at the current time.
    pub fn new(key: String, size: u64, delete_key: String) -> (e: DBEntry)
        ensures
            e.key == key,
            e.size == size,
            e.delete_key == delete_key,
            e.created_at.nanos < crate::clock::NANOS_PER_SEC,
    {
        DBEntry::with_time(key, size, delete_key, timestamp_now())
    }
}

/// The hash under which a name is stored: `DefaultHasher` fed with the
/// UTF-8 bytes of the name and the `0xff` terminator that `str`'s `Hash`
/// writes after them.
pub open spec fn spec_hash_key(name: Seq<char>) -> u64 {
    DefaultHasher::spec_finish(seq![vstd::utf8::encode_utf8(name), seq![0xffu8]])
}

/// Hashes a name the way `Hash for str` does with a fresh `DefaultHasher`.
pub fn hash_one(name: &str) -> (h: u64)
    ensures
        h == spec_hash_key(name@),
{
    let mut hasher = DefaultHasher::new();
    let bytes = name.as_bytes();
    assert(bytes@ == vstd::utf8::encode_utf8(name@));
    hasher.write(bytes);
    let terminator: [u8; 1] = [0xff];
    let tail = terminator.as_slice();
    assert(tail@ =~= seq![0xffu8]) by {
        assert(tail@[0] == terminator[0]);
    }
    hasher.write(tail);
    assert(hasher@ =~= seq![vstd::utf8::encode_utf8(name@), seq![0xffu8]]);
    hasher.finish()
}


/// Sum of the sizes of the entries of `m` under the keys in `keys`.
pub closed spec fn sum_sizes(m: Map<u64, DBEntry>, keys: Set<u64>) -> nat
    decreases keys.len(),
    when keys.finite()
{
    if keys.len() == 0 {
        0
    } else {
        let k = keys.choose();
        m[k].size as nat + sum_sizes(m, keys.remove(k))
    }
}

/// The bytes held by the entries of `m`.
pub open spec fn stored_bytes(m: Map<u64, DBEntry>) -> nat {
    sum_sizes(m, m.dom())
}

/// Any element can be taken out of the sum first.
pub proof fn lemma_sum_sizes_remove(m: Map<u64, DBEntry>, keys: Set<u64>, a: u64)
    requires
        keys.finite(),
        keys.contains(a),
    ensures
        sum_sizes(m, keys) == m[a].size + sum_sizes(m, keys.remove(a)),
    decreases keys.len(),
{
    let c = keys.choose();
    if c != a {
        lemma_sum_sizes_remove(m, keys.remove(c), a);
        lemma_sum_sizes_remove(m, keys.remove(a), c);
        assert(keys.remove(c).remove(a) =~= keys.remove(a).remove(c));
    }
}

/// The sum only looks at the sizes under the keys it sums.
pub proof fn lemma_sum_sizes_agree(m1: Map<u64, DBEntry>, m2: Map<u64, DBEntry>, keys: Set<u64>)
    requires
        keys.finite(),
        forall|k: u64| keys.contains(k) ==> #[trigger] m1[k].size == m2[k].size,
    ensures
        sum_sizes(m1, keys) == sum_sizes(m2, keys),
    decreases keys.len(),
{
    if keys.len() > 0 {
        let c = keys.choose();
        lemma_sum_sizes_agree(m1, m2, keys.remove(c));
    }
}

/// Storing `e` under `h` changes the stored bytes by `e.size`, less the
/// size of the entry it replaces.
pub proof fn lemma_stored_bytes_insert(m: Map<u64, DBEntry>, h: u64, e: DBEntry)
    requires
        m.dom().finite(),
    ensures
        stored_bytes(m.insert(h, e)) == stored_bytes(m) + e.size - (if m.contains_key(h) {
            m[h].size as int
        } else {
            0
        }),
{
    let m2 = m.insert(h, e);
    lemma_sum_sizes_remove(m2, m2.dom(), h);
    if m.contains_key(h) {
        lemma_sum_sizes_remove(m, m.dom(), h);
        assert(m2.dom().remove(h) =~= m.dom().remove(h));
        lemma_sum_sizes_agree(m2, m, m.dom().remove(h));
    } else {
        assert(m2.dom().remove(h) =~= m.dom());
        lemma_sum_sizes_agree(m2, m, m.dom());
    }
}

/// Taking out the entry under `h` lowers the stored bytes by its size.
pub proof fn lemma_stored_bytes_remove(m: Map<u64, DBEntry>, h: u64)
    requires
        m.dom().finite(),
        m.contains_key(h),
    ensures
        stored_bytes(m.remove(h)) == stored_bytes(m) - m[h].size,
{
    lemma_sum_sizes_remove(m, m.dom(), h);
    assert(m.remove(h).dom() =~= m.dom().remove(h));
    lemma_sum_sizes_agree(m.remove(h), m, m.dom().remove(h));
}

/// The abstract store: the entries by hash, and the bytes accounted for.
pub struct DataBaseView {
    pub entries: Map<u64, DBEntry>,
    pub size: nat,
}

impl DataBaseView {
    /// The entry under hash `h`, if any.
    pub open spec fn lookup(self, h: u64) -> Option<DBEntry> {
        if self.entries.contains_key(h) {
            Some(self.entries[h])
        } else {
            None
        }
    }

    /// The entry found by name.
    pub open spec fn lookup_key(self, name: Seq<char>) -> Option<DBEntry> {
        self.lookup(spec_hash_key(name))
    }

    /// Storing `e`: it goes under the hash of its name, replacing what was
    /// there, and its size is added to the count (a replaced entry's size is
    /// not taken back).
    pub open spec fn insert(self, e: DBEntry) -> DataBaseView {
        DataBaseView { entries: self.entries.insert(spec_hash_key(e.key@), e), size: self.size + e.size as nat }
    }

    /// Taking out the entry under `h`; its size leaves the count.
    pub open spec fn delete(self, h: u64) -> DataBaseView {
        DataBaseView {
            entries: self.entries.remove(h),
            size: match self.lookup(h) {
                Some(e) => (self.size - e.size) as nat,
                None => self.size,
            },
        }
    }

    /// Storing each entry of `es` in turn.
    pub open spec fn insert_all(self, es: Seq<DBEntry>) -> DataBaseView
        decreases es.len(),
    {
        if es.len() == 0 {
            self
        } else {
            self.insert_all(es.drop_last()).insert(es.last())
        }
    }

    /// Taking out the entry under each hash of `hs` in turn.
    pub open spec fn delete_all(self, hs: Seq<u64>) -> DataBaseView
        decreases hs.len(),
    {
        if hs.len() == 0 {
            self
        } else {
            self.delete_all(hs.drop_last()).delete(hs.last())
        }
    }

    /// What taking out each hash of `hs` in turn hands back, one answer per hash.
    pub open spec fn deleted_all(self, hs: Seq<u64>) -> Seq<Option<DBEntry>>
        decreases hs.len(),
    {
        if hs.len() == 0 {
            Seq::empty()
        } else {
            self.deleted_all(hs.drop_last()).push(self.delete_all(hs.drop_last()).lookup(hs.last()))
        }
    }

    /// The store is consistent: finitely many entries, each under the hash
    /// of its own name, and the count covers the bytes they hold.
    pub open spec fn consistent(self) -> bool {
        &&& self.entries.dom().finite()
        &&& forall|h: u64| #[trigger] self.entries.contains_key(h) ==> spec_hash_key(self.entries[h].key@) == h
        &&& self.size >= stored_bytes(self.entries)
    }
}

/// Storing an entry keeps the store consistent.
pub proof fn lemma_insert_consistent(v: DataBaseView, e: DBEntry)
    requires
        v.consistent(),
    ensures
        v.insert(e).consistent(),
{
    lemma_stored_bytes_insert(v.entries, spec_hash_key(e.key@), e);
}

/// Taking an entry out keeps the store consistent.
pub proof fn lemma_delete_consistent(v: DataBaseView, h: u64)
    requires
        v.consistent(),
    ensures
        v.delete(h).consistent(),
{
    if v.entries.contains_key(h) {
        lemma_stored_bytes_remove(v.entries, h);
    } else {
        assert(v.entries.remove(h) =~= v.entries);
    }
}

/// A stored entry is found again by its name, and storing it leaves every
/// other hash as it was.
pub proof fn law_lookup_after_insert(v: DataBaseView, e: DBEntry, h: u64)
    ensures
        v.insert(e).lookup_key(e.key@) == Some(e),
        h != spec_hash_key(e.key@) ==> v.insert(e).lookup(h) == v.lookup(h),
        v.insert(e).size == v.size + e.size,
        v.entries.dom().finite() && v.lookup_key(e.key@) is None ==> v.insert(e).entries.len() == v.entries.len() + 1,
        v.entries.dom().finite() && v.lookup_key(e.key@) is Some ==> v.insert(e).entries.len() == v.entries.len(),
{
    if v.entries.dom().finite() {
        let h = spec_hash_key(e.key@);
        if v.entries.contains_key(h) {
            assert(v.insert(e).entries.dom() =~= v.entries.dom());
        } else {
            assert(v.insert(e).entries.dom() =~= v.entries.dom().insert(h));
        }
    }
}

/// After a delete nothing is found under that hash; other hashes keep their
/// entries, and deleting a hash that holds nothing changes nothing.
pub proof fn law_lookup_after_delete(v: DataBaseView, h: u64, other: u64)
    ensures
        v.delete(h).lookup(h) is None,
        other != h ==> v.delete(h).lookup(other) == v.lookup(other),
        v.lookup(h) is None ==> v.delete(h) == v,
{
    if v.lookup(h) is None {
        assert(v.entries.remove(h) =~= v.entries);
    }
}

/// In a consistent store a delete hands back exactly the bytes it uncounts:
/// the count never goes below zero.
pub proof fn law_delete_uncounts_exactly(v: DataBaseView, h: u64)
    requires
        v.consistent(),
    ensures
        v.lookup(h) matches Some(e) ==> v.delete(h).size + e.size == v.size,
        v.size >= stored_bytes(v.entries),
{
    if v.entries.contains_key(h) {
        lemma_sum_sizes_remove(v.entries, v.entries.dom(), h);
    }
}

/// Deleting a name that was just stored under a free hash undoes the store.
pub proof fn law_delete_undoes_insert(v: DataBaseView, e: DBEntry)
    requires
        v.lookup_key(e.key@) is None,
    ensures
        v.insert(e).delete(spec_hash_key(e.key@)) == v,
{
    assert(v.insert(e).delete(spec_hash_key(e.key@)).entries =~= v.entries);
}

/// Stores and deletes in any number keep the store consistent, so the count
/// always covers the bytes held.
pub proof fn law_consistent_forever(v: DataBaseView, es: Seq<DBEntry>, hs: Seq<u64>)
    requires
        v.consistent(),
    ensures
        v.insert_all(es).consistent(),
        v.delete_all(hs).consistent(),
        v.insert_all(es).delete_all(hs).size >= stored_bytes(v.insert_all(es).delete_all(hs).entries),
    decreases es.len() + hs.len(),
{
    if es.len() > 0 {
        law_consistent_forever(v, es.drop_last(), Seq::empty());
        lemma_insert_consistent(v.insert_all(es.drop_last()), es.last());
    }
    if hs.len() > 0 {
        law_consistent_forever(v, Seq::empty(), hs.drop_last());
        lemma_delete_consistent(v.delete_all(hs.drop_last()), hs.last());
        law_consistent_forever(v.insert_all(es), Seq::empty(), hs.drop_last());
        lemma_delete_consistent(v.insert_all(es).delete_all(hs.drop_last()), hs.last());
    }
}

/// Deleting a list of hashes empties exactly those hashes and leaves every
/// other one as it was.
pub proof fn law_delete_all_lookup(v: DataBaseView, hs: Seq<u64>, h: u64)
    ensures
        hs.contains(h) ==> v.delete_all(hs).lookup(h) is None,
        !hs.contains(h) ==> v.delete_all(hs).lookup(h) == v.lookup(h),
    decreases hs.len(),
{
    if hs.len() > 0 {
        law_delete_all_lookup(v, hs.drop_last(), h);
        if hs.contains(h) && h != hs.last() {
            let k = choose|k: int| 0 <= k < hs.len() && hs[k] == h;
            assert(hs.drop_last()[k] == h);
        }
        if !hs.contains(h) {
            assert(!hs.drop_last().contains(h)) by {
                if hs.drop_last().contains(h) {
                    let k = choose|k: int| 0 <= k < hs.drop_last().len() && hs.drop_last()[k] == h;
                    assert(hs[k] == h);
                }
            }
            assert(hs[hs.len() - 1] == hs.last());
        }
    }
}

/// Storing one entry after another is the same as storing the sequence
/// with `insert_mul`.
pub proof fn law_insert_all_is_sequential(v: DataBaseView, es: Seq<DBEntry>, e: DBEntry)
    ensures
        v.insert_all(seq![e]) == v.insert(e),
        v.insert_all(es.push(e)) == v.insert_all(es).insert(e),
{
    assert(seq![e].drop_last() =~= Seq::<DBEntry>::empty());
    assert(v.insert_all(Seq::<DBEntry>::empty()) == v);
    assert(seq![e].last() == e);
    assert(es.push(e).drop_last() =~= es);
}

/// Storing several entries adds exactly their total size to the count, and
/// the last one stored under a name is the one found by it.
pub proof fn law_insert_all(v: DataBaseView, es: Seq<DBEntry>)
    ensures
        v.insert_all(es).size == v.size + total_size(es),
        es.len() > 0 ==> v.insert_all(es).lookup_key(es.last().key@) == Some(es.last()),
    decreases es.len(),
{
    if es.len() > 0 {
        law_insert_all(v, es.drop_last());
    }
}

/// Sum of the sizes of a sequence of entries.
pub open spec fn total_size(es: Seq<DBEntry>) -> nat
    decreases es.len(),
{
    if es.len() == 0 {
        0
    } else {
        total_size(es.drop_last()) + es.last().size as nat
    }
}


/// The store: entries keyed by the hash of their name, and a count of the
/// bytes it accounts for.
pub struct DataBase {
    entries: HashMap<u64, DBEntry>,
    size: u64,
}

impl View for DataBase {
    type V = DataBaseView;

    closed spec fn view(&self) -> DataBaseView {
        DataBaseView { entries: self.entries@, size: self.size as nat }
    }
}

impl DataBase {
    /// The store is consistent (see `DataBaseView::consistent`).
    pub open spec fn wf(&self) -> bool {
        self@.consistent()
    }

    /// An empty store.
    pub fn new() -> (db: DataBase)
        ensures
            db.wf(),
            db@.entries == Map::<u64, DBEntry>::empty(),
            db@.size == 0,
    {
        let db = DataBase { entries: HashMap::new(), size: 0 };
        assert(db@.entries.dom() =~= Set::<u64>::empty());
        assert(stored_bytes(db@.entries) == 0);
        db
    }

    /// How many entries the store holds.
    pub fn len(&self) -> (n: usize)
        ensures
            n == self@.entries.len(),
    {
        self.entries.len()
    }

    /// The bytes the store accounts for.
    pub fn size(&self) -> (n: u64)
        ensures
            n == self@.size,
    {
        self.size
    }

    /// The entry under hash `hash`.
    pub fn get(&self, hash: u64) -> (res: Option<&DBEntry>)
        ensures
            match res {
                Some(e) => self@.lookup(hash) == Some(*e),
                None => self@.lookup(hash) is None,
            },
    {
        self.entries.get(&hash)
    }

    /// The entry found by name.
    pub fn get_key(&self, key: &str) -> (res: Option<&DBEntry>)
        ensures
            match res {
                Some(e) => self@.lookup_key(key@) == Some(*e),
                None => self@.lookup_key(key@) is None,
            },
    {
        let hash = hash_one(key);
        self.get(hash)
    }

    /// Stores `entry` under the hash of its name and counts its bytes.
    pub fn insert(&mut self, entry: DBEntry)
        requires
            old(self).wf(),
            old(self)@.size + entry.size <= u64::MAX,
        ensures
            final(self).wf(),
            final(self)@ == old(self)@.insert(entry),
    {
        let hash = hash_one(entry.key.as_str());
        proof {
            lemma_insert_consistent(self@, entry);
        }
        self.size = self.size + entry.size;
        self.entries.insert(hash, entry);
        assert(self@.entries =~= old(self)@.insert(entry).entries);
    }

    /// Stores each entry in turn.
    pub fn insert_mul(&mut self, entries: Vec<DBEntry>)
        requires
            old(self).wf(),
            old(self)@.size + total_size(entries@) <= u64::MAX,
        ensures
            final(self).wf(),
            final(self)@ == old(self)@.insert_all(entries@),
    {
        let ghost start = self@;
        let ghost all = entries@;
        for entry in it: entries
            invariant
                it.seq() == all,
                self.wf(),
                self@ == start.insert_all(all.take(it.index() as int)),
                self@.size == start.size + total_size(all.take(it.index() as int)),
                start.size + total_size(all) <= u64::MAX,
        {
            proof {
                let i = it.index() as int;
                assert(all.take(i + 1).drop_last() =~= all.take(i));
                assert(all.take(i + 1).last() == entry);
                lemma_total_size_prefix(all, i + 1);
            }
            self.insert(entry);
        }
        assert(all.take(all.len() as int) =~= all);
    }

    /// Every stored entry with its hash, each once, in no promised order.
    pub fn entries(&self) -> (res: Vec<(u64, &DBEntry)>)
        ensures
            res@.len() == self@.entries.len(),
            forall|i: int| 0 <= i < res@.len() ==> #[trigger] self@.lookup(res@[i].0) == Some(*res@[i].1),
            forall|h: u64| #[trigger] self@.entries.contains_key(h) ==> exists|i: int| 0 <= i < res@.len() && #[trigger] res@[i].0 == h,
            forall|i: int, j: int| 0 <= i < j < res@.len() ==> res@[i].0 != res@[j].0,
    {
        let mut res: Vec<(u64, &DBEntry)> = Vec::new();
        for pair in it: self.entries.iter()
            invariant
                it.seq().len() == self@.entries.len(),
                it.seq().no_duplicates(),
                forall|i: int| 0 <= i < it.seq().len() ==> #[trigger] self@.lookup(*it.seq()[i].0) == Some(*it.seq()[i].1),
                res@.len() == it.index(),
                forall|i: int| 0 <= i < res@.len() ==> res@[i].0 == *it.seq()[i].0 && res@[i].1 == *it.seq()[i].1,
                forall|i: int, j: int| 0 <= i < j < res@.len() ==> res@[i].0 != res@[j].0,
        {
            let (k, v) = pair;
            let ghost n = it.index() as int;
            proof {
                assert forall|i: int| 0 <= i < n implies res@[i].0 != *k by {
                    if res@[i].0 == *k {
                        assert(self@.lookup(*it.seq()[i].0) == Some(*it.seq()[i].1));
                        assert(self@.lookup(*it.seq()[n].0) == Some(*it.seq()[n].1));
                        assert(it.seq()[i] == it.seq()[n]);
                    }
                }
            }
            res.push((*k, v));
        }
        res
    }

    /// Takes out the entry under `hash`, uncounting its bytes.
    pub fn delete(&mut self, hash: u64) -> (res: Option<DBEntry>)
        requires
            old(self).wf(),
        ensures
            final(self).wf(),
            res == old(self)@.lookup(hash),
            final(self)@ == old(self)@.delete(hash),
    {
        proof {
            lemma_delete_consistent(self@, hash);
            if self@.entries.contains_key(hash) {
                lemma_stored_bytes_remove(self@.entries, hash);
            }
        }
        let entry = self.entries.remove(&hash);
        match &entry {
            Some(e) => {
                self.size = self.size - e.size;
            },
            None => {},
        }
        assert(self@.entries =~= old(self)@.delete(hash).entries);
        entry
    }

    /// Takes out the entry found by name.
    pub fn delete_key(&mut self, key: &str) -> (res: Option<DBEntry>)
        requires
            old(self).wf(),
        ensures
            final(self).wf(),
            res == old(self)@.lookup_key(key@),
            final(self)@ == old(self)@.delete(spec_hash_key(key@)),
    {
        let hash = hash_one(key);
        self.delete(hash)
    }

    /// Takes out the entry under each hash in turn; one answer per hash.
    pub fn delete_mul(&mut self, keys: Vec<u64>) -> (res: Vec<Option<DBEntry>>)
        requires
            old(self).wf(),
        ensures
            final(self).wf(),
            final(self)@ == old(self)@.delete_all(keys@),
            res@ == old(self)@.deleted_all(keys@),
    {
        let ghost start = self@;
        let mut deleted: Vec<Option<DBEntry>> = Vec::new();
        let mut i: usize = 0;
        while i < keys.len()
            invariant
                i <= keys@.len(),
                self.wf(),
                self@ == start.delete_all(keys@.take(i as int)),
                deleted@ == start.deleted_all(keys@.take(i as int)),
            decreases keys@.len() - i,
        {
            proof {
                assert(keys@.take(i + 1).drop_last() =~= keys@.take(i as int));
                assert(keys@.take(i + 1).last() == keys@[i as int]);
            }
            let entry = self.delete(keys[i]);
            deleted.push(entry);
            i = i + 1;
        }
        assert(keys@.take(keys@.len() as int) =~= keys@);
        deleted
    }
}

impl Default for DataBase {
    /// An empty store.
    fn default() -> (db: DataBase)
        ensures
            db.wf(),
            db@.entries == Map::<u64, DBEntry>::empty(),
            db@.size == 0,
    {
        DataBase::new()
    }
}

/// A prefix's total grows by the next entry's size; the totals of prefixes
/// never exceed the whole.
pub proof fn lemma_total_size_prefix(es: Seq<DBEntry>, n: int)
    requires
        0 <= n <= es.len(),
    ensures
        total_size(es.take(n)) <= total_size(es),
        n > 0 ==> total_size(es.take(n)) == total_size(es.take(n - 1)) + es[n - 1].size,
    decreases es.len(),
{
    if n > 0 {
        assert(es.take(n).drop_last() =~= es.take(n - 1));
    }
    if n < es.len() {
        assert(es.drop_last().take(n) =~= es.take(n));
        lemma_total_size_prefix(es.drop_last(), n);
    } else {
        assert(es.take(n) =~= es);
    }
}

} // verus!
