//! What is remembered of access points that failed: three failures set one back for a while, a
//! success clears its record.

use crate::text::{ascii_lower, lower_case, texts, to_lowercase};
use crate::text_map::TextMap;
use vstd::prelude::*;
use vstd::string::*;
use vstd::utf8::is_ascii_chars;

verus! {

/// The record of an access point. Times are seconds of the Unix epoch.
#[derive(Clone, Copy, Debug, PartialEq, Eq, Structural)]
pub struct BssidStat {
    pub fail_count: u32,
    pub last_fail_unix: u64,
    pub cooldown_until_unix: u64,
}

impl View for BssidStat {
    type V = BssidStat;

    open spec fn view(&self) -> BssidStat {
        *self
    }
}

impl Default for BssidStat {
    fn default() -> (r: Self)
        ensures
            r == (BssidStat { fail_count: 0, last_fail_unix: 0, cooldown_until_unix: 0 }),
    {
        BssidStat { fail_count: 0, last_fail_unix: 0, cooldown_until_unix: 0 }
    }
}

/// The record of a key; an empty one where there is none.
pub open spec fn stat_of(m: Map<Seq<char>, BssidStat>, key: Seq<char>) -> BssidStat {
    if m.dom().contains(key) {
        m[key]
    } else {
        BssidStat { fail_count: 0, last_fail_unix: 0, cooldown_until_unix: 0 }
    }
}

/// The record after another failure: from the third on the access point is set back.
pub open spec fn after_fail(s: BssidStat, demote_secs: u64, now: u64) -> BssidStat {
    BssidStat {
        fail_count: (s.fail_count + 1) as u32,
        last_fail_unix: now,
        cooldown_until_unix: if s.fail_count + 1 >= 3 {
            (now + demote_secs) as u64
        } else {
            s.cooldown_until_unix
        },
    }
}

/// Records a failure under a key.
pub fn record_fail_at(map: &mut TextMap<BssidStat>, key: String, demote_secs: u64, now: u64)
    requires
        old(map).well_formed(),
        stat_of(old(map)@, key@).fail_count < u32::MAX,
        now + demote_secs <= u64::MAX,
    ensures
        final(map).well_formed(),
        final(map)@ == old(map)@.insert(
            key@,
            after_fail(stat_of(old(map)@, key@), demote_secs, now),
        ),
{
    let mut s = match map.get(key.as_str()) {
        Some(s) => *s,
        None => BssidStat::default(),
    };
    s.fail_count = s.fail_count + 1;
    s.last_fail_unix = now;
    if s.fail_count >= 3 {
        s.cooldown_until_unix = now + demote_secs;
    }
    map.insert(key, s);
}

/// Records a failure of an access point, whatever the case of its BSSID.
pub fn record_fail(map: &mut TextMap<BssidStat>, bssid: &str, demote_secs: u64, now: u64)
    requires
        old(map).well_formed(),
        stat_of(old(map)@, lower_case(bssid@)).fail_count < u32::MAX,
        now + demote_secs <= u64::MAX,
    ensures
        final(map).well_formed(),
        final(map)@ == old(map)@.insert(
            lower_case(bssid@),
            after_fail(stat_of(old(map)@, lower_case(bssid@)), demote_secs, now),
        ),
{
    record_fail_at(map, to_lowercase(bssid), demote_secs, now);
}

/// Records a failure of an access point where its record can count one more and the time fits;
/// says whether it did.
pub fn try_record_fail(map: &mut TextMap<BssidStat>, bssid: &str, demote_secs: u64, now: u64) -> (r:
    bool)
    requires
        old(map).well_formed(),
    ensures
        final(map).well_formed(),
        r == (stat_of(old(map)@, lower_case(bssid@)).fail_count < u32::MAX && now + demote_secs
            <= u64::MAX),
        final(map)@ == (if r {
            old(map)@.insert(
                lower_case(bssid@),
                after_fail(stat_of(old(map)@, lower_case(bssid@)), demote_secs, now),
            )
        } else {
            old(map)@
        }),
{
    let key = to_lowercase(bssid);
    let full = match map.get(key.as_str()) {
        Some(s) => s.fail_count == u32::MAX,
        None => false,
    };
    if full || now > u64::MAX - demote_secs {
        return false;
    }
    record_fail(map, bssid, demote_secs, now);
    true
}

/// Records a success of an access point: its record is cleared.
pub fn record_success(map: &mut TextMap<BssidStat>, bssid: &str)
    requires
        old(map).well_formed(),
    ensures
        final(map).well_formed(),
        final(map)@ == old(map)@.remove(lower_case(bssid@)),
{
    map.remove(to_lowercase(bssid).as_str());
}

/// Whether an access point is set back: it has failed three times or more, and its time is not
/// over.
pub open spec fn is_set_back(s: BssidStat, now: u64) -> bool {
    s.cooldown_until_unix > now && s.fail_count >= 3
}

/// The access points that are set back, in the order in which they were first recorded.
pub fn get_demoted(map: &TextMap<BssidStat>, now: u64) -> (r: Vec<String>)
    requires
        map.well_formed(),
    ensures
        texts(r@).no_duplicates(),
        forall|k: Seq<char>|
            texts(r@).contains(k) <==> #[trigger] map@.dom().contains(k) && is_set_back(
                map@[k],
                now,
            ),
{
    proof {
        map.lemma_keys();
    }
    let mut out: Vec<String> = Vec::new();
    let mut i: usize = 0;
    while i < map.len()
        invariant
            map.well_formed(),
            map.keys().no_duplicates(),
            i <= map.keys().len(),
            texts(out@).no_duplicates(),
            forall|k: Seq<char>|
                texts(out@).contains(k) <==> exists|x: int|
                    0 <= x < i && #[trigger] map.keys()[x] == k && is_set_back(map@[k], now),
        decreases map.keys().len() - i,
    {
        let ghost before = out@;
        let ghost key = map.keys()[i as int];
        let s = map.value_at(i);
        if s.cooldown_until_unix > now && s.fail_count >= 3 {
            let name = map.key_at(i).clone();
            out.push(name);
            proof {
                assert(texts(out@) == texts(before).push(key));
                assert(!texts(before).contains(key)) by {
                    if texts(before).contains(key) {
                        let x = choose|x: int|
                            0 <= x < i && #[trigger] map.keys()[x] == key && is_set_back(
                                map@[key],
                                now,
                            );
                        assert(false);
                    }
                }
                assert forall|k: Seq<char>| texts(out@).contains(k) <==> exists|x: int|
                    0 <= x < i + 1 && #[trigger] map.keys()[x] == k && is_set_back(
                        map@[k],
                        now,
                    ) by {
                    if texts(out@).contains(k) {
                        let a = choose|a: int| 0 <= a < texts(out@).len() && texts(out@)[a] == k;
                        if a < texts(before).len() {
                            assert(texts(before)[a] == k);
                            assert(texts(before).contains(k));
                            let x = choose|x: int|
                                0 <= x < i && #[trigger] map.keys()[x] == k && is_set_back(
                                    map@[k],
                                    now,
                                );
                            assert(map.keys()[x] == k);
                        } else {
                            assert(map.keys()[i as int] == k);
                        }
                    }
                    if exists|x: int|
                        0 <= x < i + 1 && #[trigger] map.keys()[x] == k && is_set_back(
                            map@[k],
                            now,
                        ) {
                        let x = choose|x: int|
                            0 <= x < i + 1 && #[trigger] map.keys()[x] == k && is_set_back(
                                map@[k],
                                now,
                            );
                        if x < i {
                            assert(texts(before).contains(k));
                            let a = choose|a: int|
                                0 <= a < texts(before).len() && texts(before)[a] == k;
                            assert(texts(out@)[a] == k);
                        } else {
                            assert(texts(out@)[texts(before).len() as int] == k);
                        }
                    }
                }
            }
        } else {
            proof {
                assert forall|k: Seq<char>| texts(out@).contains(k) <==> exists|x: int|
                    0 <= x < i + 1 && #[trigger] map.keys()[x] == k && is_set_back(
                        map@[k],
                        now,
                    ) by {
                    if texts(out@).contains(k) {
                        let x = choose|x: int|
                            0 <= x < i && #[trigger] map.keys()[x] == k && is_set_back(
                                map@[k],
                                now,
                            );
                        assert(map.keys()[x] == k);
                    }
                }
            }
        }
        i = i + 1;
    }
    proof {
        map.lemma_keys();
        assert forall|k: Seq<char>|
            texts(out@).contains(k) <==> #[trigger] map@.dom().contains(k) && is_set_back(
                map@[k],
                now,
            ) by {
            if map@.dom().contains(k) && is_set_back(map@[k], now) {
                assert(map.keys().contains(k));
                let x = choose|x: int| 0 <= x < map.keys().len() && map.keys()[x] == k;
                assert(map.keys()[x] == k);
            }
            if texts(out@).contains(k) {
                let x = choose|x: int|
                    0 <= x < i && #[trigger] map.keys()[x] == k && is_set_back(map@[k], now);
                assert(map.keys().contains(k));
            }
        }
    }
    out
}

/// Forgets every record.
pub fn clear_all(map: &mut TextMap<BssidStat>)
    ensures
        final(map).well_formed(),
        final(map)@ == Map::<Seq<char>, BssidStat>::empty(),
{
    map.clear();
}

/// An access point is set back with its third failure in a row and not before, for as long as is
/// asked for; other records stay as they are, and a success ends it.
pub proof fn law_third_failure_sets_back(
    m: Map<Seq<char>, BssidStat>,
    key: Seq<char>,
    other: Seq<char>,
    demote_secs: u64,
    now: u64,
    later: u64,
)
    requires
        stat_of(m, key).fail_count < u32::MAX,
        now + demote_secs <= u64::MAX,
        now <= later,
        other != key,
    ensures
        ({
            let n = m.insert(key, after_fail(stat_of(m, key), demote_secs, now));
            &&& stat_of(m, key).fail_count < 2 ==> !is_set_back(stat_of(n, key), later)
            &&& stat_of(m, key).fail_count >= 2 ==> (is_set_back(stat_of(n, key), later) <==> later
                < now + demote_secs)
            &&& stat_of(n, other) == stat_of(m, other)
            &&& !is_set_back(stat_of(n.remove(key), key), later)
        }),
{
}

/// After a success the access point is no longer set back, and its next failure counts as its
/// first, in whatever letter case its BSSID is then given.
pub proof fn law_success_starts_anew(
    m: Map<Seq<char>, BssidStat>,
    bssid: Seq<char>,
    again: Seq<char>,
    demote_secs: u64,
    now: u64,
)
    requires
        bssid == again || is_ascii_chars(bssid) && is_ascii_chars(again) && ascii_lower(bssid)
            == ascii_lower(again),
    ensures
        ({
            let n = m.remove(lower_case(bssid));
            &&& !n.dom().contains(lower_case(again))
            &&& stat_of(n, lower_case(again)).fail_count < u32::MAX
            &&& after_fail(stat_of(n, lower_case(again)), demote_secs, now).fail_count == 1
        }),
{
}

/// The record after that many failures in a row, the last of them at `now`.
pub open spec fn after_fails(s: BssidStat, n: nat, demote_secs: u64, now: u64) -> BssidStat
    decreases n,
{
    if n == 0 {
        s
    } else {
        after_fail(after_fails(s, (n - 1) as nat, demote_secs, now), demote_secs, now)
    }
}

/// Failures in a row add up, each is remembered with its time, and an access point that has not
/// failed before is set back exactly from its third on.
pub proof fn law_failures_add_up(s: BssidStat, n: nat, demote_secs: u64, now: u64, later: u64)
    requires
        s.fail_count + n <= u32::MAX,
        now + demote_secs <= u64::MAX,
        n > 0,
    ensures
        after_fails(s, n, demote_secs, now).fail_count == s.fail_count + n,
        after_fails(s, n, demote_secs, now).last_fail_unix == now,
        s.fail_count + n < 3 ==> after_fails(s, n, demote_secs, now).cooldown_until_unix
            == s.cooldown_until_unix,
        s.fail_count + n >= 3 ==> after_fails(s, n, demote_secs, now).cooldown_until_unix == now
            + demote_secs,
        s.fail_count == 0 ==> (is_set_back(after_fails(s, n, demote_secs, now), later) <==> n >= 3
            && later < now + demote_secs),
    decreases n,
{
    if n > 1 {
        law_failures_add_up(s, (n - 1) as nat, demote_secs, now, later);
    } else {
        assert(after_fails(s, 0, demote_secs, now) == s);
    }
}

/// Without a record an access point has never failed; with one, the record is what counts.
pub proof fn law_record_counts(m: Map<Seq<char>, BssidStat>, key: Seq<char>, s: BssidStat, now: u64)
    ensures
        stat_of(m.insert(key, s), key) == s,
        stat_of(m.remove(key), key).fail_count == 0,
        stat_of(m.remove(key), key).last_fail_unix == 0,
        !is_set_back(stat_of(m.remove(key), key), now),
{
}

} // verus!
