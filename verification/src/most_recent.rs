//! Choosing the most recent of several dated prices, refusing the whole set
//! when any source is older than the allowed age.
use vstd::prelude::*;

use crate::price::Price;

verus! {

/// The entry at `i` is too old: more than `max_age` seconds before `now`
/// (a timestamp in the future counts as age zero).
pub open spec fn entry_stale(entries: Seq<(Price, u64)>, i: int, now: u64, max_age: u64) -> bool {
    (if now >= entries[i].1 {
        now - entries[i].1
    } else {
        0int
    }) > max_age
}

/// Some entry is too old.
pub open spec fn any_stale(entries: Seq<(Price, u64)>, now: u64, max_age: u64) -> bool {
    exists|i: int| 0 <= i < entries.len() && #[trigger] entry_stale(entries, i, now, max_age)
}

/// `(price, ts)` is the most recent entry: `ts` is the largest timestamp and
/// `price` belongs to the first entry that has it. When every timestamp is
/// zero (or there is no entry) the result is the zero price at time zero.
pub open spec fn is_most_recent(entries: Seq<(Price, u64)>, price: Price, ts: u64) -> bool {
    if forall|j: int| 0 <= j < entries.len() ==> #[trigger] entries[j].1 == 0 {
        price == (Price { value: 0, exp: 0 }) && ts == 0
    } else {
        exists|i: int|
            0 <= i < entries.len() && #[trigger] entries[i].1 == ts && entries[i].0 == price && (forall|
                j: int,
            |
                0 <= j < entries.len() ==> #[trigger] entries[j].1 <= ts) && (forall|j: int|
                0 <= j < i ==> #[trigger] entries[j].1 < ts)
    }
}

/// The most recent of the entries, or the error `MostRecentOfMaxAgeViolated`
/// as soon as one entry is older than `sources_max_age_s`.
pub fn most_recent_of_dos(now: u64, entries: &[(Price, u64)], sources_max_age_s: u64) -> (result: Result<
    (Price, u64),
    &'static str,
>)
    ensures
        result is Err <==> any_stale(entries@, now, sources_max_age_s),
        result matches Err(message) ==> message@ == "MostRecentOfMaxAgeViolated"@,
        result matches Ok((price, ts)) ==> is_most_recent(entries@, price, ts),
{
    let mut most_recent_ts: u64 = 0;
    let mut most_recent = Price { value: 0, exp: 0 };
    let mut k: usize = 0;
    let ghost mut best: int = -1;
    while k < entries.len()
        invariant
            k <= entries.len(),
            forall|j: int| 0 <= j < k ==> !#[trigger] entry_stale(entries@, j, now, sources_max_age_s),
            -1 <= best < k,
            best == -1 ==> most_recent_ts == 0 && most_recent == (Price { value: 0, exp: 0 }) && (
            forall|j: int| 0 <= j < k ==> #[trigger] entries@[j].1 == 0),
            best >= 0 ==> entries@[best].1 == most_recent_ts && entries@[best].0 == most_recent
                && most_recent_ts > 0 && (forall|j: int| 0 <= j < best ==> #[trigger] entries@[j].1
                < most_recent_ts),
            forall|j: int| 0 <= j < k ==> #[trigger] entries@[j].1 <= most_recent_ts,
        decreases entries.len() - k,
    {
        let (price, ts) = entries[k];
        if now.saturating_sub(ts) > sources_max_age_s {
            assert(entry_stale(entries@, k as int, now, sources_max_age_s));
            return Err("MostRecentOfMaxAgeViolated");
        }
        if ts > most_recent_ts {
            most_recent_ts = ts;
            most_recent = price;
            proof {
                best = k as int;
            }
        }
        k = k + 1;
    }
    proof {
        if best >= 0 {
            assert(entries@[best].1 == most_recent_ts);
            assert(!(forall|j: int| 0 <= j < entries@.len() ==> #[trigger] entries@[j].1 == 0));
        }
    }
    Ok((most_recent, most_recent_ts))
}

} // verus!
