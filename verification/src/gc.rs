//! Expiry: which stored files have outlived their retention time.

use vstd::prelude::*;
use crate::state::{law_delete_all_lookup, DBEntry, DataBaseView};
use crate::clock::{at_or_after, Timestamp, NANOS_PER_SEC};

verus! {

/// When a file stored at `created_at` and kept `retention_secs` seconds
/// expires: the retention added to the time, a nanosecond overflow carried
/// into the seconds; `None` when the result passes the clock's last second
/// (`i64::MAX` seconds after the epoch), as `SystemTime::checked_add` fails.
pub open spec fn spec_expiration(created_at: Timestamp, retention_secs: u64) -> Option<Timestamp> {
    let secs = created_at.secs + retention_secs;
    let (secs, nanos) = if created_at.nanos >= NANOS_PER_SEC {
        (secs + 1, created_at.nanos - NANOS_PER_SEC)
    } else {
        (secs, created_at.nanos as int)
    };
    if secs > i64::MAX {
        None
    } else {
        Some(Timestamp { secs: secs as i128, nanos: nanos as u32 })
    }
}

/// The file has expired at `now`: `now` is at or after its expiration, and
/// an expiration the clock cannot hold counts as already passed.
pub open spec fn spec_expired(created_at: Timestamp, retention_secs: u64, now: Timestamp) -> bool {
    match spec_expiration(created_at, retention_secs) {
        Some(expiration) => at_or_after(now, expiration),
        None => true,
    }
}

/// Whether `file`, kept `retention_secs` seconds, has expired at `now`.
pub fn file_expired(file: &DBEntry, retention_secs: u64, now: Timestamp) -> (b: bool)
    ensures
        b == spec_expired(file.created_at, retention_secs, now),
        file.created_at.nanos < NANOS_PER_SEC && file.created_at.secs + retention_secs <= i64::MAX ==> (b
            <==> (now.secs > file.created_at.secs + retention_secs || (now.secs == file.created_at.secs
            + retention_secs && now.nanos >= file.created_at.nanos))),
        file.created_at.secs + retention_secs > i64::MAX ==> b,
{
    let start = file.created_at;
    if start.secs > (i64::MAX as i128) - (retention_secs as i128) {
        return true;
    }
    let mut secs = start.secs + retention_secs as i128;
    let mut nanos = start.nanos;
    if nanos >= NANOS_PER_SEC {
        if secs == i64::MAX as i128 {
            return true;
        }
        secs = secs + 1;
        nanos = nanos - NANOS_PER_SEC;
    }
    now.secs > secs || (now.secs == secs && now.nanos >= nanos)
}

/// The hashes of the first `n` listed entries that have expired, in listing order.
pub open spec fn spec_expired_keys(
    listing: Seq<(u64, &DBEntry)>,
    retention_secs: Seq<u64>,
    now: Timestamp,
    n: int,
) -> Seq<u64>
    decreases n,
{
    if n <= 0 {
        Seq::empty()
    } else {
        let prev = spec_expired_keys(listing, retention_secs, now, n - 1);
        if spec_expired(listing[n - 1].1.created_at, retention_secs[n - 1], now) {
            prev.push(listing[n - 1].0)
        } else {
            prev
        }
    }
}

/// Picks, from a listing of the store, the hashes whose files have expired
/// at `now`; `retention_secs[i]` is how long `listing[i]` is kept.
pub fn expired_keys(listing: &Vec<(u64, &DBEntry)>, retention_secs: &Vec<u64>, now: Timestamp) -> (keys: Vec<u64>)
    requires
        retention_secs@.len() == listing@.len(),
    ensures
        keys@ == spec_expired_keys(listing@, retention_secs@, now, listing@.len() as int),
{
    let mut keys: Vec<u64> = Vec::new();
    let mut i: usize = 0;
    while i < listing.len()
        invariant
            i <= listing@.len(),
            retention_secs@.len() == listing@.len(),
            keys@ == spec_expired_keys(listing@, retention_secs@, now, i as int),
        decreases listing@.len() - i,
    {
        let (hash, file) = listing[i];
        if file_expired(file, retention_secs[i], now) {
            keys.push(hash);
        }
        i = i + 1;
    }
    keys
}

/// A file expires exactly `retention_secs` seconds after it was stored: at
/// any time from the same nanosecond that many seconds later on, and at no
/// time before. An expiration past the clock's last second counts as passed.
pub proof fn law_expires_after_exactly_retention(created_at: Timestamp, retention_secs: u64, now: Timestamp)
    requires
        created_at.nanos < NANOS_PER_SEC,
    ensures
        created_at.secs + retention_secs <= i64::MAX ==> (spec_expired(created_at, retention_secs, now) <==> (
        now.secs > created_at.secs + retention_secs || (now.secs == created_at.secs + retention_secs
            && now.nanos >= created_at.nanos))),
        created_at.secs + retention_secs > i64::MAX ==> spec_expired(created_at, retention_secs, now),
{
}

/// Stored at second `t` and kept `r` seconds, a file is expired at second
/// `t + r` and not at second `t + r - 1`.
pub proof fn law_expiry_boundary(created_secs: i128, retention_secs: u64)
    requires
        created_secs + retention_secs <= i64::MAX,
    ensures
        spec_expired(
            Timestamp { secs: created_secs, nanos: 0 },
            retention_secs,
            Timestamp { secs: (created_secs + retention_secs) as i128, nanos: 0 },
        ),
        retention_secs > 0 ==> !spec_expired(
            Timestamp { secs: created_secs, nanos: 0 },
            retention_secs,
            Timestamp { secs: (created_secs + retention_secs - 1) as i128, nanos: 999_999_999 },
        ),
{
}

/// Once a file has expired it stays expired as the clock moves on.
pub proof fn law_expiry_is_permanent(created_at: Timestamp, retention_secs: u64, t1: Timestamp, t2: Timestamp)
    requires
        spec_expired(created_at, retention_secs, t1),
        at_or_after(t2, t1),
    ensures
        spec_expired(created_at, retention_secs, t2),
{
}

/// A file whose expiration the clock can hold is not expired at any time
/// before it.
pub proof fn law_kept_for_retention(created_at: Timestamp, retention_secs: u64, now: Timestamp)
    requires
        spec_expiration(created_at, retention_secs) matches Some(expiration) && !at_or_after(now, expiration),
    ensures
        !spec_expired(created_at, retention_secs, now),
{
}

/// Exactly the expired entries of the listing are picked.
pub proof fn law_expired_keys_exact(listing: Seq<(u64, &DBEntry)>, retention_secs: Seq<u64>, now: Timestamp, n: int)
    requires
        0 <= n <= listing.len(),
        retention_secs.len() == listing.len(),
    ensures
        forall|h: u64| spec_expired_keys(listing, retention_secs, now, n).contains(h) <==> exists|i: int|
            0 <= i < n && #[trigger] listing[i].0 == h && spec_expired(
                listing[i].1.created_at,
                retention_secs[i],
                now,
            ),
    decreases n,
{
    if n > 0 {
        law_expired_keys_exact(listing, retention_secs, now, n - 1);
        let prev = spec_expired_keys(listing, retention_secs, now, n - 1);
        let cur = spec_expired_keys(listing, retention_secs, now, n);
        assert forall|h: u64| cur.contains(h) <==> exists|i: int|
            0 <= i < n && #[trigger] listing[i].0 == h && spec_expired(
                listing[i].1.created_at,
                retention_secs[i],
                now,
            ) by {
            if spec_expired(listing[n - 1].1.created_at, retention_secs[n - 1], now) {
                if cur.contains(h) && h != listing[n - 1].0 {
                    let k = choose|k: int| 0 <= k < cur.len() && cur[k] == h;
                    assert(prev[k] == h);
                }
                if prev.contains(h) {
                    let k = choose|k: int| 0 <= k < prev.len() && prev[k] == h;
                    assert(cur[k] == h);
                }
                if h == listing[n - 1].0 {
                    assert(cur[cur.len() - 1] == h);
                }
            }
        }
    }
}


/// A garbage-collection pass over a listing of the store (each hash listed
/// once) takes out every listed file that has expired at `now` and keeps
/// every listed file that has not, so no file is removed before its
/// retention time has passed.
pub proof fn law_gc_pass(v: DataBaseView, listing: Seq<(u64, &DBEntry)>, retention_secs: Seq<u64>, now: Timestamp, i: int)
    requires
        retention_secs.len() == listing.len(),
        0 <= i < listing.len(),
        forall|j: int, k: int| 0 <= j < k < listing.len() ==> #[trigger] listing[j].0 != #[trigger] listing[k].0,
    ensures
        spec_expired(listing[i].1.created_at, retention_secs[i], now) ==> v.delete_all(
            spec_expired_keys(listing, retention_secs, now, listing.len() as int),
        ).lookup(listing[i].0) is None,
        !spec_expired(listing[i].1.created_at, retention_secs[i], now) ==> v.delete_all(
            spec_expired_keys(listing, retention_secs, now, listing.len() as int),
        ).lookup(listing[i].0) == v.lookup(listing[i].0),
{
    let keys = spec_expired_keys(listing, retention_secs, now, listing.len() as int);
    let h = listing[i].0;
    law_expired_keys_exact(listing, retention_secs, now, listing.len() as int);
    law_delete_all_lookup(v, keys, h);
    if !spec_expired(listing[i].1.created_at, retention_secs[i], now) && keys.contains(h) {
        let j = choose|j: int|
            0 <= j < listing.len() && #[trigger] listing[j].0 == h && spec_expired(
                listing[j].1.created_at,
                retention_secs[j],
                now,
            );
        if j < i {
            assert(listing[j].0 != listing[i].0);
        } else if j > i {
            assert(listing[i].0 != listing[j].0);
        }
    }
}

} // verus!
