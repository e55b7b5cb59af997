//! Access points seen in a scan, the home group, and which of them make up two bands of one
//! network.

use crate::numbers::{
    dec, dec_int, is_digit, law_decimal_read_back, law_signed_decimal_read_back, lemma_dec,
    parse_i32, parse_u32, signed_value, unsigned_value, usize_text,
};
use crate::order::{ints, law_order_is_stable, order_desc, order_of};
use crate::ssid::{is_mark, is_plain, law_mark_behind_a_name_is_dropped, stem_of, wpa_ssid};
use crate::text::{
    ascii_lower, byte_len, cat, contains_char, eq_ignore_case, find_class, from_chars,
    from_utf8_lossy, has_prefix, in_class, is_white, join_from, joined, keep_nonempty, law_cutting,
    law_trimming, law_words, lemma_nonempty, lemma_tidy_is_trimmed, len_bytes, lines, lines_of,
    list_has, lossy_text, lower_case, nonempty, prefix_len, split_at_class, split_class,
    splitn_at_class, splitn_class, starts_with, str_eq, texts, to_chars, to_lowercase, trim,
    trim_back, trim_both, trim_class, trim_end, trimmed, words, words_of, Class,
};
use vstd::prelude::*;
use vstd::string::*;

pub use crate::ssid::{decode_wpa_ssid, ssid_stem};

verus! {

/// An access point seen in a scan.
#[derive(Debug)]
pub struct ScanAp {
    pub bssid: String,
    pub freq: u32,
    pub signal: i32,
    pub ssid: String,
}

/// What a `ScanAp` holds.
#[verifier::ext_equal]
pub struct ScanApModel {
    pub bssid: Seq<char>,
    pub freq: u32,
    pub signal: i32,
    pub ssid: Seq<char>,
}

impl View for ScanAp {
    type V = ScanApModel;

    open spec fn view(&self) -> ScanApModel {
        ScanApModel {
            bssid: self.bssid@,
            freq: self.freq,
            signal: self.signal,
            ssid: self.ssid@,
        }
    }
}

impl Clone for ScanAp {
    fn clone(&self) -> (r: Self)
        ensures
            r@ == self@,
    {
        ScanAp {
            bssid: self.bssid.clone(),
            freq: self.freq,
            signal: self.signal,
            ssid: self.ssid.clone(),
        }
    }
}

impl ScanAp {
    /// Whether the access point is on the 5 GHz band.
    pub fn is_5g(&self) -> (r: bool)
        ensures
            r == (self.freq > 5000),
    {
        self.freq > 5000
    }
}

/// The contents of a list of access points.
pub open spec fn aps(v: Seq<ScanAp>) -> Seq<ScanApModel> {
    v.map_values(|a: ScanAp| a@)
}

/// An access point of the home group, known by its BSSID.
#[derive(Debug)]
pub struct HomeAp {
    pub bssid: String,
    pub ssid: String,
    /// `"5"`, `"2.4"` or `"auto"`.
    pub band: String,
}

/// What a `HomeAp` holds.
#[verifier::ext_equal]
pub struct HomeApModel {
    pub bssid: Seq<char>,
    pub ssid: Seq<char>,
    pub band: Seq<char>,
}

impl View for HomeAp {
    type V = HomeApModel;

    open spec fn view(&self) -> HomeApModel {
        HomeApModel { bssid: self.bssid@, ssid: self.ssid@, band: self.band@ }
    }
}

impl Clone for HomeAp {
    fn clone(&self) -> (r: Self)
        ensures
            r@ == self@,
    {
        HomeAp { bssid: self.bssid.clone(), ssid: self.ssid.clone(), band: self.band.clone() }
    }
}

/// The contents of a home group.
pub open spec fn homes(v: Seq<HomeAp>) -> Seq<HomeApModel> {
    v.map_values(|h: HomeAp| h@)
}

/// The band that is taken where none is given.
pub fn default_home_band() -> (r: String)
    ensures
        r@ == "auto"@,
{
    "auto".to_owned()
}

/// The band that a group member's band text names.
pub open spec fn band_hint(band: Seq<char>) -> Option<bool> {
    if band == "5"@ || band == "5g"@ || band == "5G"@ {
        Some(true)
    } else if band == "2.4"@ || band == "24"@ || band == "2.4g"@ || band == "2G"@ || band == "2g"@ {
        Some(false)
    } else {
        None
    }
}

impl HomeAp {
    /// The BSSID in lower case.
    pub fn bssid_norm(&self) -> (r: String)
        ensures
            r@ == lower_case(self@.bssid),
    {
        to_lowercase(self.bssid.as_str())
    }

    /// Whether the member is on 5 GHz, where its band is given.
    pub fn is_5g_hint(&self) -> (r: Option<bool>)
        ensures
            r == band_hint(self@.band),
    {
        let b = self.band.as_str();
        if str_eq(b, "5") || str_eq(b, "5g") || str_eq(b, "5G") {
            Some(true)
        } else if str_eq(b, "2.4") || str_eq(b, "24") || str_eq(b, "2.4g") || str_eq(b, "2G")
            || str_eq(b, "2g") {
            Some(false)
        } else {
            None
        }
    }
}

/// Whether two BSSIDs are the same up to the case of their letters.
pub open spec fn same_bssid(a: Seq<char>, b: Seq<char>) -> bool {
    ascii_lower(a) == ascii_lower(b)
}

/// Whether two BSSIDs are the same up to the case of their letters.
pub fn bssid_eq(a: &str, b: &str) -> (r: bool)
    ensures
        r == same_bssid(a@, b@),
{
    eq_ignore_case(a, b)
}

/// Whether the group has a member with the BSSID.
pub open spec fn in_group(home: Seq<HomeApModel>, bssid: Seq<char>) -> bool {
    exists|i: int| 0 <= i < home.len() && same_bssid(#[trigger] home[i].bssid, bssid)
}

/// Whether the group has a member with the BSSID.
pub fn home_contains(home: &[HomeAp], bssid: &str) -> (r: bool)
    ensures
        r == in_group(homes(home@), bssid@),
{
    let mut i: usize = 0;
    while i < home.len()
        invariant
            i <= home@.len(),
            forall|x: int| 0 <= x < i ==> !same_bssid(#[trigger] homes(home@)[x].bssid, bssid@),
        decreases home@.len() - i,
    {
        if bssid_eq(home[i].bssid.as_str(), bssid) {
            assert(same_bssid(homes(home@)[i as int].bssid, bssid@));
            return true;
        }
        i = i + 1;
    }
    false
}

/// Whether a link belongs to the home group. Without a group there is no restriction. A known
/// BSSID decides; without one the name does.
pub open spec fn link_at_home(home: Seq<HomeApModel>, bssid: Seq<char>, ssid: Seq<char>) -> bool {
    if home.len() == 0 {
        true
    } else if bssid.len() > 0 {
        in_group(home, bssid)
    } else {
        ssid.len() > 0 && exists|i: int| 0 <= i < home.len() && #[trigger] home[i].ssid == ssid
    }
}

/// Whether a link belongs to the home group.
pub fn link_in_home(home: &[HomeAp], bssid: &str, ssid: &str) -> (r: bool)
    ensures
        r == link_at_home(homes(home@), bssid@, ssid@),
{
    if home.len() == 0 {
        return true;
    }
    if !bssid.is_empty() {
        return home_contains(home, bssid);
    }
    if ssid.is_empty() {
        return false;
    }
    let mut i: usize = 0;
    while i < home.len()
        invariant
            i <= home@.len(),
            home@.len() > 0,
            bssid@.len() == 0,
            ssid@.len() > 0,
            forall|x: int| 0 <= x < i ==> (#[trigger] homes(home@)[x]).ssid != ssid@,
        decreases home@.len() - i,
    {
        if str_eq(home[i].ssid.as_str(), ssid) {
            assert(homes(home@)[i as int].ssid == ssid@);
            return true;
        }
        i = i + 1;
    }
    false
}

/// A link whose BSSID is known and not in the group is not at home, whatever its name.
pub proof fn law_known_bssid_decides(home: Seq<HomeApModel>, bssid: Seq<char>, ssid: Seq<char>)
    requires
        home.len() > 0,
        bssid.len() > 0,
    ensures
        link_at_home(home, bssid, ssid) == in_group(home, bssid),
{
}

/// Whether every character is a digit or a dot.
pub open spec fn digits_or_dots(s: Seq<char>) -> bool {
    forall|i: int| 0 <= i < s.len() ==> is_digit(#[trigger] s[i]) || s[i] == '.'
}

fn is_digits_or_dots(s: &str) -> (r: bool)
    ensures
        r == digits_or_dots(s@),
{
    let v = to_chars(s);
    let mut i: usize = 0;
    while i < v.len()
        invariant
            v@ == s@,
            i <= v@.len(),
            forall|x: int| 0 <= x < i ==> is_digit(#[trigger] s@[x]) || s@[x] == '.',
        decreases v@.len() - i,
    {
        let c = v[i];
        if !(('0' <= c && c <= '9') || c == '.') {
            assert(!(is_digit(s@[i as int]) || s@[i as int] == '.'));
            return false;
        }
        i = i + 1;
    }
    true
}

/// The name in a row of `cmd wifi list-scan-results`, given the row's words before the flags:
/// what follows the age, which is a fourth word of digits and dots and may be missing.
pub open spec fn listed_name(w: Seq<Seq<char>>) -> Seq<char> {
    if w.len() <= 3 {
        seq![]
    } else if digits_or_dots(w[3]) {
        joined(w.skip(4), " "@)
    } else {
        joined(w.skip(3), " "@)
    }
}

/// The access point in a row of `cmd wifi list-scan-results`: BSSID, frequency, signal (with
/// the single antennas in brackets), age, name and, from the first `[` on, flags.
pub open spec fn cmd_row(line: Seq<char>) -> Option<ScanApModel> {
    let t = trimmed(line);
    let n = prefix_len(t, Class::Is('['));
    let w = words_of(trim_back(t.take(n), Class::White));
    if t.len() == 0 || has_prefix(t, "BSSID"@) || has_prefix(t, "Wifi"@) || n >= t.len() {
        None
    } else if w.len() < 3 || byte_len(w[0]) < 11 || !w[0].contains(':') {
        None
    } else {
        let level = w[2].take(prefix_len(w[2], Class::Is('(')));
        match (unsigned_value(w[1], u32::MAX as nat), signed_value(level, i32::MAX as nat)) {
            (Some(freq), Some(signal)) => Some(
                ScanApModel {
                    bssid: w[0],
                    freq: freq as u32,
                    signal: signal as i32,
                    ssid: listed_name(w),
                },
            ),
            _ => None,
        }
    }
}

/// The access points in the rows, in their order.
pub open spec fn cmd_rows(ls: Seq<Seq<char>>) -> Seq<ScanApModel>
    decreases ls.len(),
{
    if ls.len() == 0 {
        seq![]
    } else {
        match cmd_row(ls.last()) {
            Some(ap) => cmd_rows(ls.drop_last()).push(ap),
            None => cmd_rows(ls.drop_last()),
        }
    }
}

/// The contents of an access point that may be there.
pub open spec fn opt_ap(r: Option<ScanAp>) -> Option<ScanApModel> {
    match r {
        Some(ap) => Some(ap@),
        None => None,
    }
}

fn parse_cmd_row(line: &str) -> (r: Option<ScanAp>)
    ensures
        opt_ap(r) == cmd_row(line@),
{
    let t = trim(line);
    if t.as_str().is_empty() || starts_with(t.as_str(), "BSSID") || starts_with(t.as_str(), "Wifi") {
        return None;
    }
    let v = to_chars(t.as_str());
    let n = find_class(&v, Class::Is('['), 0);
    assert(v@.skip(0) == v@);
    if n >= v.len() {
        return None;
    }
    let head = from_chars(&v, 0, n);
    assert(head@ == v@.take(n as int));
    let toks = words(trim_end(head.as_str()).as_str());
    let ghost w = texts(toks@);
    if toks.len() < 3 {
        return None;
    }
    assert(w[0] == toks@[0]@ && w[1] == toks@[1]@ && w[2] == toks@[2]@);
    if len_bytes(toks[0].as_str()) < 11 || !contains_char(toks[0].as_str(), ':') {
        return None;
    }
    let rssi = to_chars(toks[2].as_str());
    let cut = find_class(&rssi, Class::Is('('), 0);
    assert(rssi@.skip(0) == rssi@);
    let level = from_chars(&rssi, 0, cut);
    assert(level@ == rssi@.take(cut as int));
    match (parse_u32(toks[1].as_str()), parse_i32(level.as_str())) {
        (Some(freq), Some(signal)) => {
            let ssid = if toks.len() <= 3 {
                String::new()
            } else {
                assert(w[3] == toks@[3]@);
                if is_digits_or_dots(toks[3].as_str()) {
                    join_from(&toks, 4, " ")
                } else {
                    join_from(&toks, 3, " ")
                }
            };
            assert(ssid@ == listed_name(w));
            Some(ScanAp { bssid: toks[0].clone(), freq, signal, ssid })
        },
        _ => None,
    }
}

/// Reads `cmd wifi list-scan-results`, where names come as plain text.
pub fn parse_cmd_scan_results(raw: &str) -> (r: Vec<ScanAp>)
    ensures
        aps(r@) == cmd_rows(lines_of(raw@)),
{
    let ls = lines(raw);
    let mut out: Vec<ScanAp> = Vec::new();
    let mut i: usize = 0;
    assert(texts(ls@).take(0) == Seq::<Seq<char>>::empty());
    assert(aps(out@) == cmd_rows(texts(ls@).take(0)));
    while i < ls.len()
        invariant
            i <= ls@.len(),
            aps(out@) == cmd_rows(texts(ls@).take(i as int)),
        decreases ls@.len() - i,
    {
        let ghost q = texts(ls@).take(i + 1);
        assert(q.drop_last() == texts(ls@).take(i as int));
        assert(q.last() == ls@[i as int]@);
        let ghost before = out@;
        if let Some(ap) = parse_cmd_row(ls[i].as_str()) {
            out.push(ap);
            assert(aps(out@) == aps(before).push(ap@));
        }
        i = i + 1;
    }
    assert(texts(ls@).take(i as int) == texts(ls@));
    out
}

/// What the output of `cmd wifi list-scan-results` shows. Where `strict` is set, a command that
/// failed has shown nothing.
pub fn scans_from_cmd(success: bool, strict: bool, stdout: &Vec<u8>) -> (r: Vec<ScanAp>)
    ensures
        aps(r@) == (if success || !strict {
            cmd_rows(lines_of(lossy_text(stdout@)))
        } else {
            seq![]
        }),
{
    if success || !strict {
        parse_cmd_scan_results(from_utf8_lossy(stdout).as_str())
    } else {
        Vec::new()
    }
}

/// The access point in a row of `SCAN_RESULTS`: BSSID, frequency, signal, flags and name, cut
/// at the first four characters of white space.
pub open spec fn wpa_row(line: Seq<char>) -> Option<ScanApModel> {
    let t = trimmed(line);
    let p = nonempty(splitn_at_class(t, Class::White, 5));
    if t.len() == 0 || has_prefix(t, "bssid"@) || has_prefix(t, "Using "@) || p.len() < 3
        || byte_len(p[0]) < 11 {
        None
    } else {
        match (unsigned_value(p[1], u32::MAX as nat), signed_value(p[2], i32::MAX as nat)) {
            (Some(freq), Some(signal)) => Some(
                ScanApModel {
                    bssid: p[0],
                    freq: freq as u32,
                    signal: signal as i32,
                    ssid: wpa_ssid(
                        if p.len() > 4 {
                            p[4]
                        } else {
                            ""@
                        },
                    ),
                },
            ),
            _ => None,
        }
    }
}

/// The access points in the rows, in their order.
pub open spec fn wpa_rows(ls: Seq<Seq<char>>) -> Seq<ScanApModel>
    decreases ls.len(),
{
    if ls.len() == 0 {
        seq![]
    } else {
        match wpa_row(ls.last()) {
            Some(ap) => wpa_rows(ls.drop_last()).push(ap),
            None => wpa_rows(ls.drop_last()),
        }
    }
}

fn parse_wpa_row(line: &str) -> (r: Option<ScanAp>)
    ensures
        opt_ap(r) == wpa_row(line@),
{
    let t = trim(line);
    if t.as_str().is_empty() || starts_with(t.as_str(), "bssid") || starts_with(t.as_str(), "Using ") {
        return None;
    }
    let parts = keep_nonempty(splitn_class(t.as_str(), Class::White, 5));
    let ghost p = texts(parts@);
    if parts.len() < 3 {
        return None;
    }
    assert(p[0] == parts@[0]@ && p[1] == parts@[1]@ && p[2] == parts@[2]@);
    if len_bytes(parts[0].as_str()) < 11 {
        return None;
    }
    let raw = if parts.len() > 4 {
        assert(p[4] == parts@[4]@);
        parts[4].clone()
    } else {
        "".to_owned()
    };
    match (parse_u32(parts[1].as_str()), parse_i32(parts[2].as_str())) {
        (Some(freq), Some(signal)) => Some(
            ScanAp {
                bssid: parts[0].clone(),
                freq,
                signal,
                ssid: decode_wpa_ssid(raw.as_str()),
            },
        ),
        _ => None,
    }
}

/// Reads the text of `SCAN_RESULTS`.
pub fn parse_scan_results(raw: &str) -> (r: Vec<ScanAp>)
    ensures
        aps(r@) == wpa_rows(lines_of(raw@)),
{
    let ls = lines(raw);
    let mut out: Vec<ScanAp> = Vec::new();
    let mut i: usize = 0;
    assert(texts(ls@).take(0) == Seq::<Seq<char>>::empty());
    assert(aps(out@) == wpa_rows(texts(ls@).take(0)));
    while i < ls.len()
        invariant
            i <= ls@.len(),
            aps(out@) == wpa_rows(texts(ls@).take(i as int)),
        decreases ls@.len() - i,
    {
        let ghost q = texts(ls@).take(i + 1);
        assert(q.drop_last() == texts(ls@).take(i as int));
        assert(q.last() == ls@[i as int]@);
        let ghost before = out@;
        if let Some(ap) = parse_wpa_row(ls[i].as_str()) {
            out.push(ap);
            assert(aps(out@) == aps(before).push(ap@));
        }
        i = i + 1;
    }
    assert(texts(ls@).take(i as int) == texts(ls@));
    out
}

/// An access point with the key under which sightings of it are merged.
#[derive(Debug)]
pub struct KeyedAp {
    pub key: String,
    pub ap: ScanAp,
}

/// What a `KeyedAp` holds.
#[verifier::ext_equal]
pub struct KeyedApModel {
    pub key: Seq<char>,
    pub ap: ScanApModel,
}

impl View for KeyedAp {
    type V = KeyedApModel;

    open spec fn view(&self) -> KeyedApModel {
        KeyedApModel { key: self.key@, ap: self.ap@ }
    }
}

/// The contents of a list of keyed access points.
pub open spec fn keyed(v: Seq<KeyedAp>) -> Seq<KeyedApModel> {
    v.map_values(|k: KeyedAp| k@)
}

/// Whether a character outside ASCII occurs.
pub open spec fn has_wide(s: Seq<char>) -> bool {
    exists|i: int| 0 <= i < s.len() && #[trigger] s[i] > '\u{7f}'
}

fn has_wide_char(s: &str) -> (r: bool)
    ensures
        r == has_wide(s@),
{
    let v = to_chars(s);
    let mut i: usize = 0;
    while i < v.len()
        invariant
            v@ == s@,
            i <= v@.len(),
            forall|x: int| 0 <= x < i ==> !(#[trigger] s@[x] > '\u{7f}'),
        decreases v@.len() - i,
    {
        if v[i] > '\u{7f}' {
            assert(s@[i as int] > '\u{7f}');
            return true;
        }
        i = i + 1;
    }
    false
}

/// Two sightings of one access point as one: the stronger signal with its frequency, and a name
/// where there is one, preferably one that is not all ASCII.
pub open spec fn merged_ap(first: ScanApModel, next: ScanApModel) -> ScanApModel {
    let name = if first.ssid.len() == 0 && next.ssid.len() > 0 {
        next.ssid
    } else {
        first.ssid
    };
    ScanApModel {
        bssid: first.bssid,
        freq: if next.signal > first.signal {
            next.freq
        } else {
            first.freq
        },
        signal: if next.signal > first.signal {
            next.signal
        } else {
            first.signal
        },
        ssid: if has_wide(next.ssid) && !has_wide(name) {
            next.ssid
        } else {
            name
        },
    }
}

/// Position of the entry with the key; the length where there is none.
pub open spec fn key_position(m: Seq<KeyedApModel>, key: Seq<char>) -> int
    decreases m.len(),
{
    if m.len() == 0 || m[0].key == key {
        0
    } else {
        1 + key_position(m.skip(1), key)
    }
}

/// One entry for each key, in the order in which the keys come first.
pub open spec fn merged(l: Seq<KeyedApModel>) -> Seq<KeyedApModel>
    decreases l.len(),
{
    if l.len() == 0 {
        seq![]
    } else {
        let m = merged(l.drop_last());
        let x = l.last();
        let i = key_position(m, x.key);
        if i < m.len() {
            m.update(i, KeyedApModel { key: x.key, ap: merged_ap(m[i].ap, x.ap) })
        } else {
            m.push(x)
        }
    }
}

proof fn lemma_key_position(m: Seq<KeyedApModel>, key: Seq<char>)
    ensures
        0 <= key_position(m, key) <= m.len(),
        key_position(m, key) < m.len() ==> m[key_position(m, key)].key == key,
        forall|i: int| 0 <= i < key_position(m, key) ==> (#[trigger] m[i]).key != key,
    decreases m.len(),
{
    if m.len() > 0 && m[0].key != key {
        let t = m.skip(1);
        lemma_key_position(t, key);
        assert forall|i: int| 0 <= i < key_position(m, key) implies (#[trigger] m[i]).key != key by {
            if i > 0 {
                assert(t[i - 1] == m[i]);
            }
        }
    }
}

proof fn lemma_key_position_is(m: Seq<KeyedApModel>, key: Seq<char>, n: int)
    requires
        0 <= n <= m.len(),
        n < m.len() ==> m[n].key == key,
        forall|i: int| 0 <= i < n ==> (#[trigger] m[i]).key != key,
    ensures
        key_position(m, key) == n,
{
    lemma_key_position(m, key);
    let k = key_position(m, key);
    if k < n {
        assert(m[k].key != key);
    } else if n < k {
        assert(m[n].key != key);
    }
}

/// After merging, every sighting has exactly one entry under its key, whose signal is at least
/// as strong, and which has a name where the sighting has one.
pub proof fn law_merge_keeps_the_best(l: Seq<KeyedApModel>)
    ensures
        forall|a: int, b: int|
            0 <= a < b < merged(l).len() ==> (#[trigger] merged(l)[a]).key != (
            #[trigger] merged(l)[b]).key,
        forall|x: int|
            0 <= x < l.len() ==> {
                let i = key_position(merged(l), #[trigger] l[x].key);
                &&& 0 <= i < merged(l).len()
                &&& merged(l)[i].key == l[x].key
                &&& merged(l)[i].ap.signal >= l[x].ap.signal
                &&& l[x].ap.ssid.len() > 0 ==> merged(l)[i].ap.ssid.len() > 0
            },
    decreases l.len(),
{
    if l.len() > 0 {
        let t = l.drop_last();
        law_merge_keeps_the_best(t);
        let m = merged(t);
        let q = merged(l);
        let y = l.last();
        let p = key_position(m, y.key);
        lemma_key_position(m, y.key);
        assert forall|a: int, b: int| 0 <= a < b < q.len() implies (#[trigger] q[a]).key != (
        #[trigger] q[b]).key by {
            if p < m.len() {
                assert(q[a].key == m[a].key && q[b].key == m[b].key);
            } else if b < m.len() {
                assert(q[a] == m[a] && q[b] == m[b]);
            } else {
                assert(q[a] == m[a]);
            }
        }
        assert forall|x: int| 0 <= x < l.len() implies {
            let i = key_position(q, #[trigger] l[x].key);
            &&& 0 <= i < q.len()
            &&& q[i].key == l[x].key
            &&& q[i].ap.signal >= l[x].ap.signal
            &&& l[x].ap.ssid.len() > 0 ==> q[i].ap.ssid.len() > 0
        } by {
            let key = l[x].key;
            if x == l.len() - 1 {
                assert forall|i: int| 0 <= i < p implies (#[trigger] q[i]).key != key by {
                    assert(q[i] == m[i]);
                }
                lemma_key_position_is(q, key, p);
            } else {
                assert(t[x] == l[x]);
                let i = key_position(m, key);
                lemma_key_position(m, key);
                assert forall|j: int| 0 <= j < i implies (#[trigger] q[j]).key != key by {
                    assert(q[j].key == m[j].key);
                }
                assert(q[i].key == m[i].key);
                lemma_key_position_is(q, key, i);
            }
        }
    }
}

/// The signals of the access points.
pub open spec fn signals(s: Seq<ScanApModel>) -> Seq<int> {
    s.map_values(|a: ScanApModel| a.signal as int)
}

/// The access points from the strongest down, equally strong ones in the order they come in.
pub open spec fn by_signal(s: Seq<ScanApModel>) -> Seq<ScanApModel> {
    order_of(signals(s), s.len()).map_values(|i: int| s[i])
}

fn sort_by_signal(v: &Vec<ScanAp>) -> (r: Vec<ScanAp>)
    ensures
        aps(r@) == by_signal(aps(v@)),
{
    let mut keys: Vec<i32> = Vec::new();
    let mut i: usize = 0;
    while i < v.len()
        invariant
            i <= v@.len(),
            keys@.len() == i,
            forall|x: int| 0 <= x < i ==> #[trigger] keys@[x] == v@[x].signal,
        decreases v@.len() - i,
    {
        keys.push(v[i].signal);
        i = i + 1;
    }
    assert(ints(keys@) == signals(aps(v@)));
    let o = order_desc(&keys);
    let ghost om = order_of(signals(aps(v@)), v@.len());
    let mut out: Vec<ScanAp> = Vec::new();
    let mut j: usize = 0;
    while j < o.len()
        invariant
            j <= o@.len(),
            o@.len() == v@.len(),
            om.len() == o@.len(),
            om == o@.map_values(|p: usize| p as int),
            forall|a: int| 0 <= a < o@.len() ==> #[trigger] o@[a] < v@.len(),
            out@.len() == j,
            forall|x: int| 0 <= x < j ==> (#[trigger] out@[x])@ == aps(v@)[om[x]],
        decreases o@.len() - j,
    {
        assert(om[j as int] == o@[j as int]);
        out.push(v[o[j]].clone());
        j = j + 1;
    }
    assert(aps(out@) == by_signal(aps(v@)));
    out
}

/// The access points of keyed entries.
pub open spec fn without_keys(m: Seq<KeyedApModel>) -> Seq<ScanApModel> {
    m.map_values(|k: KeyedApModel| k.ap)
}

/// Merges sightings that have the same key, and gives the result from the strongest down.
pub fn merge_keyed(list: Vec<KeyedAp>) -> (r: Vec<ScanAp>)
    ensures
        aps(r@) == by_signal(without_keys(merged(keyed(list@)))),
{
    let mut m: Vec<KeyedAp> = Vec::new();
    let mut i: usize = 0;
    let ghost l = keyed(list@);
    assert(l.take(0) == Seq::<KeyedApModel>::empty());
    assert(keyed(m@) == merged(l.take(0)));
    while i < list.len()
        invariant
            l == keyed(list@),
            i <= list@.len(),
            keyed(m@) == merged(l.take(i as int)),
        decreases list@.len() - i,
    {
        let ghost q = l.take(i + 1);
        assert(q.drop_last() == l.take(i as int));
        assert(q.last() == list@[i as int]@);
        let next = &list[i];
        let mut p: usize = 0;
        while p < m.len() && !str_eq(m[p].key.as_str(), next.key.as_str())
            invariant
                p <= m@.len(),
                forall|x: int| 0 <= x < p ==> (#[trigger] keyed(m@)[x]).key != next.key@,
            decreases m@.len() - p,
        {
            assert(keyed(m@)[p as int].key == m@[p as int].key@);
            p = p + 1;
        }
        proof {
            if p < m@.len() {
                assert(keyed(m@)[p as int].key == next.key@);
            }
            lemma_key_position_is(keyed(m@), next.key@, p as int);
        }
        let ghost before = keyed(m@);
        if p < m.len() {
            let ghost was = m@[p as int];
            let mut name = m[p].ap.ssid.clone();
            if name.as_str().is_empty() && !next.ap.ssid.as_str().is_empty() {
                name = next.ap.ssid.clone();
            }
            if has_wide_char(next.ap.ssid.as_str()) && !has_wide_char(name.as_str()) {
                name = next.ap.ssid.clone();
            }
            let (freq, signal) = if next.ap.signal > m[p].ap.signal {
                (next.ap.freq, next.ap.signal)
            } else {
                (m[p].ap.freq, m[p].ap.signal)
            };
            let entry = KeyedAp {
                key: next.key.clone(),
                ap: ScanAp { bssid: m[p].ap.bssid.clone(), freq, signal, ssid: name },
            };
            assert(before[p as int] == was@);
            assert(entry@.ap == merged_ap(was@.ap, next@.ap));
            m.set(p, entry);
            assert(keyed(m@) == before.update(p as int, entry@));
        } else {
            let entry = KeyedAp { key: next.key.clone(), ap: next.ap.clone() };
            m.push(entry);
            assert(keyed(m@) == before.push(entry@));
        }
        i = i + 1;
    }
    assert(l.take(i as int) == l);
    let mut v: Vec<ScanAp> = Vec::new();
    let mut j: usize = 0;
    while j < m.len()
        invariant
            j <= m@.len(),
            v@.len() == j,
            forall|x: int| 0 <= x < j ==> (#[trigger] v@[x])@ == m@[x]@.ap,
        decreases m@.len() - j,
    {
        v.push(m[j].ap.clone());
        j = j + 1;
    }
    assert(aps(v@) == without_keys(keyed(m@)));
    sort_by_signal(&v)
}

/// The access points with their BSSIDs in lower case as keys.
pub open spec fn with_keys(s: Seq<ScanApModel>) -> Seq<KeyedApModel> {
    s.map_values(|a: ScanApModel| KeyedApModel { key: lower_case(a.bssid), ap: a })
}

fn add_keyed(list: &mut Vec<KeyedAp>, v: &Vec<ScanAp>)
    ensures
        keyed(final(list)@) == keyed(old(list)@) + with_keys(aps(v@)),
{
    let mut i: usize = 0;
    let ghost start = keyed(list@);
    let ghost k = with_keys(aps(v@));
    assert(start + k.take(0) == start);
    while i < v.len()
        invariant
            i <= v@.len(),
            k == with_keys(aps(v@)),
            keyed(list@) == start + k.take(i as int),
        decreases v@.len() - i,
    {
        let ghost before = list@;
        let entry = KeyedAp { key: to_lowercase(v[i].bssid.as_str()), ap: v[i].clone() };
        list.push(entry);
        assert(keyed(list@) == keyed(before).push(entry@));
        assert(entry@ == k[i as int]);
        assert(start + k.take(i + 1) == (start + k.take(i as int)).push(k[i as int]));
        i = i + 1;
    }
    assert(k.take(i as int) == k);
}

/// Merges two scans: of each BSSID, in whatever case, the stronger signal and a name.
pub fn merge_scan_aps(a: Vec<ScanAp>, b: Vec<ScanAp>) -> (r: Vec<ScanAp>)
    ensures
        aps(r@) == by_signal(without_keys(merged(with_keys(aps(a@) + aps(b@))))),
{
    let mut list: Vec<KeyedAp> = Vec::new();
    add_keyed(&mut list, &a);
    add_keyed(&mut list, &b);
    assert(keyed(list@) == with_keys(aps(a@) + aps(b@)));
    merge_keyed(list)
}

/// The names, trimmed, without the empty ones and each once.
pub open spec fn distinct_names(l: Seq<Seq<char>>) -> Seq<Seq<char>>
    decreases l.len(),
{
    if l.len() == 0 {
        seq![]
    } else {
        let u = distinct_names(l.drop_last());
        let t = trimmed(l.last());
        if t.len() == 0 || u.contains(t) {
            u
        } else {
            u.push(t)
        }
    }
}

/// Whether two different names have the same stem.
pub open spec fn is_pair(a: Seq<char>, b: Seq<char>) -> bool {
    a != b && stem_of(a).len() > 0 && stem_of(a) == stem_of(b)
}

/// The first pair at or after `(i, j)`, counted row by row.
pub open spec fn first_pair(u: Seq<Seq<char>>, i: int, j: int) -> Option<(int, int)>
    decreases u.len() - i, u.len() - j,
{
    if i < 0 || j <= i || i >= u.len() {
        None
    } else if j >= u.len() {
        first_pair(u, i + 1, i + 2)
    } else if is_pair(u[i], u[j]) {
        Some((i, j))
    } else {
        first_pair(u, i, j + 1)
    }
}

/// Whether two networks to switch between are saved, and what is said of it.
pub open spec fn pair_report(u: Seq<Seq<char>>) -> (bool, Seq<char>) {
    if u.len() == 0 {
        (false, "未读到已保存网络（请先在系统连过 WiFi）"@)
    } else if u.len() == 1 {
        (false, "仅 1 个："@ + u[0] + "；请再保存对端频段"@)
    } else {
        match first_pair(u, 0, 1) {
            Some((i, j)) => (true, "配对 "@ + u[i] + " ↔ "@ + u[j]),
            None => (
                true,
                "已保存 "@ + dec(u.len()) + " 个网络（未识别同名双频后缀）"@,
            ),
        }
    }
}

fn distinct(ssids: &[String]) -> (r: Vec<String>)
    ensures
        texts(r@) == distinct_names(texts(ssids@)),
{
    let mut uniq: Vec<String> = Vec::new();
    let mut i: usize = 0;
    assert(texts(ssids@).take(0) == Seq::<Seq<char>>::empty());
    assert(texts(uniq@) == distinct_names(texts(ssids@).take(0)));
    while i < ssids.len()
        invariant
            i <= ssids@.len(),
            texts(uniq@) == distinct_names(texts(ssids@).take(i as int)),
        decreases ssids@.len() - i,
    {
        let ghost q = texts(ssids@).take(i + 1);
        assert(q.drop_last() == texts(ssids@).take(i as int));
        assert(q.last() == ssids@[i as int]@);
        let ghost before = uniq@;
        let t = trim(ssids[i].as_str());
        if !t.as_str().is_empty() && !list_has(&uniq, t.as_str()) {
            uniq.push(t);
            assert(texts(uniq@) == texts(before).push(t@));
        }
        i = i + 1;
    }
    assert(texts(ssids@).take(i as int) == texts(ssids@));
    uniq
}

fn find_pair(uniq: &Vec<String>) -> (r: Option<(usize, usize)>)
    requires
        uniq@.len() >= 2,
    ensures
        r is Some <==> first_pair(texts(uniq@), 0, 1) is Some,
        r matches Some(p) ==> p.0 < uniq@.len() && p.1 < uniq@.len() && first_pair(
            texts(uniq@),
            0,
            1,
        ) == Some((p.0 as int, p.1 as int)),
{
    let ghost u = texts(uniq@);
    let mut i: usize = 0;
    while i < uniq.len()
        invariant
            u == texts(uniq@),
            i <= uniq.len(),
            first_pair(u, i as int, i + 1) == first_pair(u, 0, 1),
        decreases uniq@.len() - i,
    {
        let sa = ssid_stem(uniq[i].as_str());
        let mut j: usize = i + 1;
        while j < uniq.len()
            invariant
                u == texts(uniq@),
                i < j <= uniq.len(),
                sa@ == stem_of(u[i as int]),
                first_pair(u, i as int, j as int) == first_pair(u, 0, 1),
            decreases uniq@.len() - j,
        {
            let sb = ssid_stem(uniq[j].as_str());
            assert(u[i as int] == uniq@[i as int]@ && u[j as int] == uniq@[j as int]@);
            if !str_eq(uniq[i].as_str(), uniq[j].as_str()) && !sa.as_str().is_empty() && str_eq(
                sa.as_str(),
                sb.as_str(),
            ) {
                return Some((i, j));
            }
            j = j + 1;
        }
        i = i + 1;
    }
    None
}

/// Whether two networks to switch between are saved: two names with a common stem, or at least
/// two names. The text says which.
pub fn dual_band_pair_saved(ssids: &[String]) -> (r: (bool, String))
    ensures
        r.0 == pair_report(distinct_names(texts(ssids@))).0,
        r.1@ == pair_report(distinct_names(texts(ssids@))).1,
{
    let uniq = distinct(ssids);
    let ghost u = texts(uniq@);
    if uniq.len() == 0 {
        return (false, "未读到已保存网络（请先在系统连过 WiFi）".to_owned());
    }
    assert(u[0] == uniq@[0]@);
    if uniq.len() == 1 {
        let text = cat(
            cat("仅 1 个：".to_owned(), uniq[0].as_str()),
            "；请再保存对端频段",
        );
        return (false, text);
    }
    match find_pair(&uniq) {
        Some((i, j)) => {
            assert(u[i as int] == uniq@[i as int]@ && u[j as int] == uniq@[j as int]@);
            let text = cat(
                cat(cat("配对 ".to_owned(), uniq[i].as_str()), " ↔ "),
                uniq[j].as_str(),
            );
            (true, text)
        },
        None => {
            let text = cat(
                cat("已保存 ".to_owned(), usize_text(uniq.len()).as_str()),
                " 个网络（未识别同名双频后缀）",
            );
            (true, text)
        },
    }
}

/// The strongest of the access points that meet `f`; of equally strong ones the last.
pub open spec fn strongest(s: Seq<ScanApModel>, f: spec_fn(ScanApModel) -> bool) -> Option<
    ScanApModel,
>
    decreases s.len(),
{
    if s.len() == 0 {
        None
    } else {
        let b = strongest(s.drop_last(), f);
        let x = s.last();
        if f(x) && (b matches Some(y) ==> x.signal >= y.signal) {
            Some(x)
        } else {
            b
        }
    }
}

/// Something is found where anything meets `f`; it meets `f`, and nothing that does is stronger.
pub proof fn law_strongest(s: Seq<ScanApModel>, f: spec_fn(ScanApModel) -> bool)
    ensures
        strongest(s, f) is Some <==> exists|i: int| 0 <= i < s.len() && f(#[trigger] s[i]),
        strongest(s, f) matches Some(b) ==> f(b) && s.contains(b) && forall|i: int|
            0 <= i < s.len() && f(#[trigger] s[i]) ==> s[i].signal <= b.signal,
    decreases s.len(),
{
    if s.len() > 0 {
        let t = s.drop_last();
        law_strongest(t, f);
        assert forall|i: int| 0 <= i < t.len() implies t[i] == s[i] by {}
        if exists|i: int| 0 <= i < s.len() && f(#[trigger] s[i]) {
            let i = choose|i: int| 0 <= i < s.len() && f(#[trigger] s[i]);
            if i < t.len() {
                assert(f(t[i]));
            }
        }
        if strongest(t, f) is Some {
            let i = choose|i: int| 0 <= i < t.len() && f(#[trigger] t[i]);
            assert(f(s[i]));
            let b = strongest(t, f)->0;
            let k = choose|k: int| 0 <= k < t.len() && t[k] == b;
            assert(s[k] == b);
        }
        if f(s.last()) {
            assert(f(s[s.len() - 1]));
        }
        if strongest(s, f) is Some {
            let b = strongest(s, f)->0;
            assert forall|i: int| 0 <= i < s.len() && f(#[trigger] s[i]) implies s[i].signal
                <= b.signal by {
                if i < t.len() {
                    assert(f(t[i]));
                }
            }
        }
    }
}

/// Whether an access point is a target on the band: strong enough, and in the home group; where
/// there is no group, one with the name of the link or with its stem.
pub open spec fn is_target(
    ap: ScanApModel,
    current_ssid: Seq<char>,
    want_5g: bool,
    min_rssi: i32,
    home: Seq<HomeApModel>,
) -> bool {
    &&& (ap.freq > 5000) == want_5g
    &&& ap.signal >= min_rssi
    &&& if home.len() > 0 {
        in_group(home, ap.bssid)
    } else {
        ap.ssid == current_ssid || (stem_of(current_ssid).len() > 0 && ascii_lower(
            stem_of(ap.ssid),
        ) == ascii_lower(stem_of(current_ssid)))
    }
}

/// The strongest target on the band.
pub open spec fn best_target(
    scans: Seq<ScanApModel>,
    current_ssid: Seq<char>,
    want_5g: bool,
    min_rssi: i32,
    home: Seq<HomeApModel>,
) -> Option<ScanApModel> {
    strongest(
        scans,
        |ap: ScanApModel| is_target(ap, current_ssid, want_5g, min_rssi, home),
    )
}

/// The strongest access point on the band that goes by the name of the link or by its stem.
pub fn best_bonded_on_band(
    scans: &[ScanAp],
    current_ssid: &str,
    want_5g: bool,
    min_rssi: i32,
) -> (r: Option<ScanAp>)
    ensures
        opt_ap(r) == best_target(aps(scans@), current_ssid@, want_5g, min_rssi, seq![]),
{
    let none: Vec<HomeAp> = Vec::new();
    assert(homes(none@) == Seq::<HomeApModel>::empty());
    best_on_band(scans, current_ssid, want_5g, min_rssi, &none)
}

/// The strongest target on the band. Where a home group is set and none of its members can be
/// seen there, there is none: the link does not leave the group.
pub fn best_on_band(
    scans: &[ScanAp],
    current_ssid: &str,
    want_5g: bool,
    min_rssi: i32,
    home: &[HomeAp],
) -> (r: Option<ScanAp>)
    ensures
        opt_ap(r) == best_target(aps(scans@), current_ssid@, want_5g, min_rssi, homes(home@)),
{
    let stem = ssid_stem(current_ssid);
    let ghost f = |ap: ScanApModel|
        is_target(ap, current_ssid@, want_5g, min_rssi, homes(home@));
    let ghost s = aps(scans@);
    let mut best: Option<usize> = None;
    let mut i: usize = 0;
    assert(s.take(0) == Seq::<ScanApModel>::empty());
    while i < scans.len()
        invariant
            s == aps(scans@),
            f == (|ap: ScanApModel|
                is_target(ap, current_ssid@, want_5g, min_rssi, homes(home@))),
            stem@ == stem_of(current_ssid@),
            i <= scans@.len(),
            best matches Some(b) ==> b < i,
            strongest(s.take(i as int), f) == (match best {
                Some(b) => Some(s[b as int]),
                None => None,
            }),
        decreases scans@.len() - i,
    {
        let ap = &scans[i];
        assert(s[i as int] == ap@);
        assert(s.take(i + 1).drop_last() == s.take(i as int));
        assert(s.take(i + 1).last() == ap@);
        let fits = ap.is_5g() == want_5g && ap.signal >= min_rssi && (if home.len() > 0 {
            home_contains(home, ap.bssid.as_str())
        } else {
            str_eq(ap.ssid.as_str(), current_ssid) || (!stem.as_str().is_empty() && eq_ignore_case(
                ssid_stem(ap.ssid.as_str()).as_str(),
                stem.as_str(),
            ))
        });
        assert(fits == f(ap@));
        if fits {
            match best {
                Some(b) => {
                    if ap.signal >= scans[b].signal {
                        best = Some(i);
                    }
                },
                None => {
                    best = Some(i);
                },
            }
        }
        i = i + 1;
    }
    assert(s.take(i as int) == s);
    match best {
        Some(b) => Some(scans[b].clone()),
        None => None,
    }
}

/// Whether the BSSID is one of those set back.
pub open spec fn is_demoted(demoted: Seq<Seq<char>>, bssid: Seq<char>) -> bool {
    exists|i: int| 0 <= i < demoted.len() && same_bssid(#[trigger] demoted[i], bssid)
}

/// The access points that are not set back.
pub open spec fn not_demoted(s: Seq<ScanApModel>, demoted: Seq<Seq<char>>) -> Seq<ScanApModel> {
    s.filter(|ap: ScanApModel| !is_demoted(demoted, ap.bssid))
}

fn demoted_has(demoted: &[String], bssid: &str) -> (r: bool)
    ensures
        r == is_demoted(texts(demoted@), bssid@),
{
    let mut i: usize = 0;
    while i < demoted.len()
        invariant
            i <= demoted@.len(),
            forall|x: int| 0 <= x < i ==> !same_bssid(#[trigger] texts(demoted@)[x], bssid@),
        decreases demoted@.len() - i,
    {
        if bssid_eq(demoted[i].as_str(), bssid) {
            assert(same_bssid(texts(demoted@)[i as int], bssid@));
            return true;
        }
        i = i + 1;
    }
    false
}

/// The strongest target on the band among those that are not set back.
pub fn best_on_band_with(
    scans: &[ScanAp],
    current_ssid: &str,
    want_5g: bool,
    min_rssi: i32,
    home: &[HomeAp],
    demoted: &[String],
) -> (r: Option<ScanAp>)
    ensures
        opt_ap(r) == best_target(
            not_demoted(aps(scans@), texts(demoted@)),
            current_ssid@,
            want_5g,
            min_rssi,
            homes(home@),
        ),
{
    let ghost s = aps(scans@);
    let ghost d = texts(demoted@);
    let mut eligible: Vec<ScanAp> = Vec::new();
    let mut i: usize = 0;
    proof {
        assert(s.take(0) == Seq::<ScanApModel>::empty());
        reveal(Seq::filter);
        assert(aps(eligible@) == not_demoted(s.take(0), d));
    }
    while i < scans.len()
        invariant
            s == aps(scans@),
            d == texts(demoted@),
            i <= scans@.len(),
            aps(eligible@) == not_demoted(s.take(i as int), d),
        decreases scans@.len() - i,
    {
        let ghost before = eligible@;
        let ap = &scans[i];
        proof {
            reveal(Seq::filter);
            assert(s.take(i + 1).drop_last() == s.take(i as int));
            assert(s.take(i + 1).last() == ap@);
        }
        if !demoted_has(demoted, ap.bssid.as_str()) {
            let copy = ap.clone();
            eligible.push(copy);
            assert(aps(eligible@) == aps(before).push(copy@));
        }
        i = i + 1;
    }
    assert(s.take(i as int) == s);
    best_on_band(&eligible, current_ssid, want_5g, min_rssi, home)
}

/// A target that is chosen is not set back, is on the band that is wanted, is strong enough,
/// and belongs to the home group where there is one.
pub proof fn law_target_is_eligible(
    scans: Seq<ScanApModel>,
    current_ssid: Seq<char>,
    want_5g: bool,
    min_rssi: i32,
    home: Seq<HomeApModel>,
    demoted: Seq<Seq<char>>,
)
    ensures
        best_target(not_demoted(scans, demoted), current_ssid, want_5g, min_rssi, home) matches Some(
            b,
        ) ==> {
            &&& scans.contains(b)
            &&& !is_demoted(demoted, b.bssid)
            &&& (b.freq > 5000) == want_5g
            &&& b.signal >= min_rssi
            &&& home.len() > 0 ==> in_group(home, b.bssid)
        },
{
    let q = not_demoted(scans, demoted);
    let f = |ap: ScanApModel| is_target(ap, current_ssid, want_5g, min_rssi, home);
    let g = |ap: ScanApModel| !is_demoted(demoted, ap.bssid);
    law_strongest(q, f);
    if strongest(q, f) is Some {
        let b = strongest(q, f)->0;
        assert(f(b));
        let k = choose|k: int| 0 <= k < q.len() && q[k] == b;
        assert(g(q[k]));
        scans.lemma_filter_contains_rev(g, b);
    }
}

/// An access point as it is shown.
#[derive(Debug)]
pub struct ScanApView {
    pub bssid: String,
    pub ssid: String,
    pub freq: u32,
    pub signal: i32,
    pub band: String,
    pub in_home: bool,
    /// Whether its stem can be seen on both bands, so that it may go into the home group.
    pub suggested: bool,
}

/// What a `ScanApView` holds.
#[verifier::ext_equal]
pub struct ScanApViewModel {
    pub bssid: Seq<char>,
    pub ssid: Seq<char>,
    pub freq: u32,
    pub signal: i32,
    pub band: Seq<char>,
    pub in_home: bool,
    pub suggested: bool,
}

impl View for ScanApView {
    type V = ScanApViewModel;

    open spec fn view(&self) -> ScanApViewModel {
        ScanApViewModel {
            bssid: self.bssid@,
            ssid: self.ssid@,
            freq: self.freq,
            signal: self.signal,
            band: self.band@,
            in_home: self.in_home,
            suggested: self.suggested,
        }
    }
}

impl Clone for ScanApView {
    fn clone(&self) -> (r: Self)
        ensures
            r@ == self@,
    {
        ScanApView {
            bssid: self.bssid.clone(),
            ssid: self.ssid.clone(),
            freq: self.freq,
            signal: self.signal,
            band: self.band.clone(),
            in_home: self.in_home,
            suggested: self.suggested,
        }
    }
}

/// The contents of a list of shown access points.
pub open spec fn views(v: Seq<ScanApView>) -> Seq<ScanApViewModel> {
    v.map_values(|a: ScanApView| a@)
}

/// Whether a shown access point is on the 5 GHz band.
pub open spec fn shown_on_5g(v: ScanApViewModel) -> bool {
    v.band == "5"@ || v.freq > 5000
}

/// The stem that an access point is grouped by, where it is one of `allow`.
pub open spec fn group_stem(v: ScanApViewModel, allow: Seq<Seq<char>>) -> Option<Seq<char>> {
    if v.ssid.len() > 0 && byte_len(stem_of(v.ssid)) >= 3 && allow.contains(stem_of(v.ssid)) {
        Some(stem_of(v.ssid))
    } else {
        None
    }
}

/// Whether one of the first `n` access points has the group's stem and is on the band.
pub open spec fn stem_on_band(
    s: Seq<ScanApViewModel>,
    allow: Seq<Seq<char>>,
    stem: Seq<char>,
    on_5g: bool,
) -> bool {
    exists|j: int|
        0 <= j < s.len() && group_stem(#[trigger] s[j], allow) == Some(stem) && shown_on_5g(s[j])
            == on_5g
}

/// Whether the stem of an access point is allowed and can be seen on both bands.
pub open spec fn is_suggested(
    s: Seq<ScanApViewModel>,
    allow: Seq<Seq<char>>,
    v: ScanApViewModel,
) -> bool {
    match group_stem(v, allow) {
        Some(stem) => stem_on_band(s, allow, stem, true) && stem_on_band(s, allow, stem, false),
        None => false,
    }
}

/// The list with every access point marked whose stem can be seen on both bands. Without a
/// list of allowed stems nothing is marked.
pub open spec fn marked(
    s: Seq<ScanApViewModel>,
    allow: Option<Seq<Seq<char>>>,
) -> Seq<ScanApViewModel> {
    match allow {
        Some(l) => s.map_values(
            |v: ScanApViewModel|
                ScanApViewModel { suggested: v.suggested || is_suggested(s, l, v), ..v },
        ),
        None => s,
    }
}

/// The contents of a list of stems that may be there.
pub open spec fn opt_texts(o: Option<&Vec<String>>) -> Option<Seq<Seq<char>>> {
    match o {
        Some(v) => Some(texts(v@)),
        None => None,
    }
}

fn group_stem_of(v: &ScanApView, allow: &Vec<String>) -> (r: Option<String>)
    ensures
        r is Some <==> group_stem(v@, texts(allow@)) is Some,
        r matches Some(t) ==> t@ == group_stem(v@, texts(allow@))->0,
{
    if v.ssid.as_str().is_empty() {
        return None;
    }
    let stem = ssid_stem(v.ssid.as_str());
    if len_bytes(stem.as_str()) < 3 || !list_has(allow, stem.as_str()) {
        return None;
    }
    Some(stem)
}

fn seen_on_band(v: &Vec<ScanApView>, allow: &Vec<String>, stem: &str, on_5g: bool) -> (r: bool)
    ensures
        r == stem_on_band(views(v@), texts(allow@), stem@, on_5g),
{
    let ghost s = views(v@);
    let mut j: usize = 0;
    while j < v.len()
        invariant
            s == views(v@),
            j <= v@.len(),
            forall|x: int|
                0 <= x < j ==> !(group_stem(#[trigger] s[x], texts(allow@)) == Some(stem@)
                    && shown_on_5g(s[x]) == on_5g),
        decreases v@.len() - j,
    {
        assert(s[j as int] == v@[j as int]@);
        let on = str_eq(v[j].band.as_str(), "5") || v[j].freq > 5000;
        if on == on_5g {
            if let Some(t) = group_stem_of(&v[j], allow) {
                if str_eq(t.as_str(), stem) {
                    assert(group_stem(s[j as int], texts(allow@)) == Some(stem@));
                    return true;
                }
            }
        }
        j = j + 1;
    }
    false
}

/// Marks every access point whose stem is one of `allowed_stems` and can be seen on both bands:
/// all of a router's and its satellites', and none of a neighbour's.
pub fn mark_suggested_stem_pairs(
    list: &mut Vec<ScanApView>,
    allowed_stems: Option<&Vec<String>>,
)
    ensures
        views(final(list)@) == marked(views(old(list)@), opt_texts(allowed_stems)),
{
    let allow = match allowed_stems {
        Some(l) => l,
        None => {
            return ;
        },
    };
    let ghost s = views(list@);
    let ghost l = texts(allow@);
    let mut hits: Vec<bool> = Vec::new();
    let mut i: usize = 0;
    while i < list.len()
        invariant
            s == views(list@),
            l == texts(allow@),
            i <= list@.len(),
            hits@.len() == i,
            forall|x: int| 0 <= x < i ==> #[trigger] hits@[x] == is_suggested(s, l, s[x]),
        decreases list@.len() - i,
    {
        assert(s[i as int] == list@[i as int]@);
        let hit = match group_stem_of(&list[i], allow) {
            Some(stem) => seen_on_band(list, allow, stem.as_str(), true) && seen_on_band(
                list,
                allow,
                stem.as_str(),
                false,
            ),
            None => false,
        };
        hits.push(hit);
        i = i + 1;
    }
    let mut k: usize = 0;
    while k < list.len()
        invariant
            l == texts(allow@),
            k <= list@.len(),
            list@.len() == s.len(),
            hits@.len() == s.len(),
            forall|x: int| 0 <= x < s.len() ==> #[trigger] hits@[x] == is_suggested(s, l, s[x]),
            forall|x: int| 0 <= x < k ==> #[trigger] views(list@)[x] == marked(s, Some(l))[x],
            forall|x: int| k <= x < s.len() ==> #[trigger] views(list@)[x] == s[x],
        decreases list@.len() - k,
    {
        if hits[k] {
            let ghost before = list@;
            let mut v = list[k].clone();
            v.suggested = true;
            assert(views(before)[k as int] == s[k as int]);
            list.set(k, v);
            assert(views(list@) == views(before).update(k as int, v@));
            assert(v@ == marked(s, Some(l))[k as int]);
        } else {
            assert(views(list@)[k as int] == s[k as int]);
        }
        k = k + 1;
    }
    assert(views(list@) == marked(s, Some(l)));
}

/// Marking changes nothing but the marks, never takes one away, and sets them only on names of
/// the allowed stems.
pub proof fn law_marking_only_adds_allowed(
    s: Seq<ScanApViewModel>,
    allow: Option<Seq<Seq<char>>>,
    i: int,
)
    requires
        0 <= i < s.len(),
    ensures
        marked(s, allow).len() == s.len(),
        (ScanApViewModel { suggested: s[i].suggested, ..marked(s, allow)[i] }) == s[i],
        s[i].suggested ==> marked(s, allow)[i].suggested,
        marked(s, allow)[i].suggested && !s[i].suggested ==> allow is Some && allow->0.contains(
            stem_of(s[i].ssid),
        ),
{
}

/// Access points of one allowed stem are marked alike: all of them or none.
pub proof fn law_marking_is_by_stem(
    s: Seq<ScanApViewModel>,
    allow: Seq<Seq<char>>,
    i: int,
    j: int,
)
    requires
        0 <= i < s.len(),
        0 <= j < s.len(),
        s[i].ssid.len() > 0,
        s[j].ssid.len() > 0,
        stem_of(s[i].ssid) == stem_of(s[j].ssid),
    ensures
        is_suggested(s, allow, s[i]) == is_suggested(s, allow, s[j]),
{
}

/// An access point as it is shown before any mark.
pub open spec fn shown(a: ScanApModel, home: Seq<HomeApModel>) -> ScanApViewModel {
    ScanApViewModel {
        bssid: a.bssid,
        ssid: a.ssid,
        freq: a.freq,
        signal: a.signal,
        band: if a.freq > 5000 {
            "5"@
        } else {
            "2.4"@
        },
        in_home: in_group(home, a.bssid),
        suggested: false,
    }
}

/// The access points as they are shown.
pub open spec fn shown_all(s: Seq<ScanApModel>, home: Seq<HomeApModel>) -> Seq<ScanApViewModel> {
    s.map_values(|a: ScanApModel| shown(a, home))
}

/// The signals of shown access points.
pub open spec fn shown_signals(s: Seq<ScanApViewModel>) -> Seq<int> {
    s.map_values(|v: ScanApViewModel| v.signal as int)
}

/// Shown access points from the strongest down, equally strong ones in the order they come in.
pub open spec fn shown_by_signal(s: Seq<ScanApViewModel>) -> Seq<ScanApViewModel> {
    order_of(shown_signals(s), s.len()).map_values(|i: int| s[i])
}

/// The access points as they are shown, from the strongest down, with no marks.
pub fn scan_views(scans: &[ScanAp], home: &[HomeAp]) -> (r: Vec<ScanApView>)
    ensures
        views(r@) == shown_by_signal(shown_all(aps(scans@), homes(home@))),
{
    scan_views_filtered(scans, home, None)
}

/// The access points as they are shown, from the strongest down, with marks on those whose stem
/// is one of `allowed_stems` and can be seen on both bands.
pub fn scan_views_filtered(
    scans: &[ScanAp],
    home: &[HomeAp],
    allowed_stems: Option<&Vec<String>>,
) -> (r: Vec<ScanApView>)
    ensures
        views(r@) == shown_by_signal(
            marked(shown_all(aps(scans@), homes(home@)), opt_texts(allowed_stems)),
        ),
{
    let mut v: Vec<ScanApView> = Vec::new();
    let mut i: usize = 0;
    while i < scans.len()
        invariant
            i <= scans@.len(),
            v@.len() == i,
            forall|x: int|
                0 <= x < i ==> (#[trigger] v@[x])@ == shown(aps(scans@)[x], homes(home@)),
        decreases scans@.len() - i,
    {
        let a = &scans[i];
        assert(aps(scans@)[i as int] == a@);
        v.push(
            ScanApView {
                bssid: a.bssid.clone(),
                ssid: a.ssid.clone(),
                freq: a.freq,
                signal: a.signal,
                band: if a.is_5g() {
                    "5".to_owned()
                } else {
                    "2.4".to_owned()
                },
                in_home: home_contains(home, a.bssid.as_str()),
                suggested: false,
            },
        );
        i = i + 1;
    }
    assert(views(v@) == shown_all(aps(scans@), homes(home@)));
    mark_suggested_stem_pairs(&mut v, allowed_stems);
    sort_views(&v)
}

fn sort_views(v: &Vec<ScanApView>) -> (r: Vec<ScanApView>)
    ensures
        views(r@) == shown_by_signal(views(v@)),
{
    let mut keys: Vec<i32> = Vec::new();
    let mut i: usize = 0;
    while i < v.len()
        invariant
            i <= v@.len(),
            keys@.len() == i,
            forall|x: int| 0 <= x < i ==> #[trigger] keys@[x] == v@[x].signal,
        decreases v@.len() - i,
    {
        keys.push(v[i].signal);
        i = i + 1;
    }
    assert(ints(keys@) == shown_signals(views(v@)));
    let o = order_desc(&keys);
    let ghost om = order_of(shown_signals(views(v@)), v@.len());
    let mut out: Vec<ScanApView> = Vec::new();
    let mut j: usize = 0;
    while j < o.len()
        invariant
            j <= o@.len(),
            o@.len() == v@.len(),
            om.len() == o@.len(),
            om == o@.map_values(|p: usize| p as int),
            forall|a: int| 0 <= a < o@.len() ==> #[trigger] o@[a] < v@.len(),
            out@.len() == j,
            forall|x: int| 0 <= x < j ==> (#[trigger] out@[x])@ == views(v@)[om[x]],
        decreases o@.len() - j,
    {
        assert(om[j as int] == o@[j as int]);
        out.push(v[o[j]].clone());
        j = j + 1;
    }
    assert(views(out@) == shown_by_signal(views(v@)));
    out
}

/// The stems of the names, each once, without those of names that are empty and without those
/// of less than three bytes.
pub open spec fn stems_of(l: Seq<Seq<char>>) -> Seq<Seq<char>>
    decreases l.len(),
{
    if l.len() == 0 {
        seq![]
    } else {
        let u = stems_of(l.drop_last());
        let t = stem_of(l.last());
        if l.last().len() == 0 || byte_len(t) < 3 || u.contains(t) {
            u
        } else {
            u.push(t)
        }
    }
}

/// The stems of the names, each once.
pub fn stems_from_ssids(ssids: &[String]) -> (r: Vec<String>)
    ensures
        texts(r@) == stems_of(texts(ssids@)),
{
    let mut out: Vec<String> = Vec::new();
    let mut i: usize = 0;
    assert(texts(ssids@).take(0) == Seq::<Seq<char>>::empty());
    assert(texts(out@) == stems_of(texts(ssids@).take(0)));
    while i < ssids.len()
        invariant
            i <= ssids@.len(),
            texts(out@) == stems_of(texts(ssids@).take(i as int)),
        decreases ssids@.len() - i,
    {
        let ghost q = texts(ssids@).take(i + 1);
        assert(q.drop_last() == texts(ssids@).take(i as int));
        assert(q.last() == ssids@[i as int]@);
        let ghost before = out@;
        if !ssids[i].as_str().is_empty() {
            let t = ssid_stem(ssids[i].as_str());
            if len_bytes(t.as_str()) >= 3 && !list_has(&out, t.as_str()) {
                out.push(t);
                assert(texts(out@) == texts(before).push(t@));
            }
        }
        i = i + 1;
    }
    assert(texts(ssids@).take(i as int) == texts(ssids@));
    out
}

/// A row of `LIST_NETWORKS`: the number of a saved network and its name.
pub open spec fn network_row(line: Seq<char>) -> Option<(u32, Seq<char>)> {
    let t = trimmed(line);
    let p = if t.contains('\t') {
        split_at_class(t, Class::Is('\t'))
    } else {
        words_of(t)
    };
    if t.len() == 0 || has_prefix(t, "network"@) || has_prefix(t, "Using "@) || p.len() < 2 {
        None
    } else {
        match unsigned_value(p[0], u32::MAX as nat) {
            Some(id) => Some((id as u32, wpa_ssid(trim_both(p[1], Class::Is('"'))))),
            None => None,
        }
    }
}

/// The saved networks in the rows, in their order.
pub open spec fn network_rows(ls: Seq<Seq<char>>) -> Seq<(u32, Seq<char>)>
    decreases ls.len(),
{
    if ls.len() == 0 {
        seq![]
    } else {
        match network_row(ls.last()) {
            Some(n) => network_rows(ls.drop_last()).push(n),
            None => network_rows(ls.drop_last()),
        }
    }
}

/// The contents of a list of saved networks.
pub open spec fn networks(v: Seq<(u32, String)>) -> Seq<(u32, Seq<char>)> {
    v.map_values(|n: (u32, String)| (n.0, n.1@))
}

fn parse_network_row(line: &str) -> (r: Option<(u32, String)>)
    ensures
        r is Some <==> network_row(line@) is Some,
        r matches Some(n) ==> network_row(line@) == Some((n.0, n.1@)),
{
    let t = trim(line);
    if t.as_str().is_empty() || starts_with(t.as_str(), "network") || starts_with(
        t.as_str(),
        "Using ",
    ) {
        return None;
    }
    let parts = if contains_char(t.as_str(), '\t') {
        split_class(t.as_str(), Class::Is('\t'))
    } else {
        words(t.as_str())
    };
    if parts.len() < 2 {
        return None;
    }
    assert(texts(parts@)[0] == parts@[0]@ && texts(parts@)[1] == parts@[1]@);
    match parse_u32(parts[0].as_str()) {
        Some(id) => {
            let name = trim_class(parts[1].as_str(), Class::Is('"'));
            Some((id, decode_wpa_ssid(name.as_str())))
        },
        None => None,
    }
}

/// Reads `LIST_NETWORKS`: the numbers of the saved networks with their names.
pub fn parse_list_networks(raw: &str) -> (r: Vec<(u32, String)>)
    ensures
        networks(r@) == network_rows(lines_of(raw@)),
{
    let ls = lines(raw);
    let mut out: Vec<(u32, String)> = Vec::new();
    let mut i: usize = 0;
    assert(texts(ls@).take(0) == Seq::<Seq<char>>::empty());
    assert(networks(out@) == network_rows(texts(ls@).take(0)));
    while i < ls.len()
        invariant
            i <= ls@.len(),
            networks(out@) == network_rows(texts(ls@).take(i as int)),
        decreases ls@.len() - i,
    {
        let ghost q = texts(ls@).take(i + 1);
        assert(q.drop_last() == texts(ls@).take(i as int));
        assert(q.last() == ls@[i as int]@);
        let ghost before = out@;
        if let Some(n) = parse_network_row(ls[i].as_str()) {
            out.push(n);
            assert(networks(out@) == networks(before).push((n.0, n.1@)));
        }
        i = i + 1;
    }
    assert(texts(ls@).take(i as int) == texts(ls@));
    out
}

/// The number of the first network of exactly that name.
pub open spec fn network_id(l: Seq<(u32, Seq<char>)>, ssid: Seq<char>) -> Option<u32>
    decreases l.len(),
{
    if l.len() == 0 {
        None
    } else if l[0].1 == ssid {
        Some(l[0].0)
    } else {
        network_id(l.skip(1), ssid)
    }
}

/// The number of the saved network of exactly that name. A name with the same stem does not
/// count: it is the other band's.
pub fn network_id_for_ssid(list_raw: &str, ssid: &str) -> (r: Option<u32>)
    ensures
        r == network_id(network_rows(lines_of(list_raw@)), ssid@),
{
    let list = parse_list_networks(list_raw);
    let ghost l = networks(list@);
    let mut i: usize = 0;
    assert(l.skip(0) == l);
    while i < list.len()
        invariant
            l == networks(list@),
            l == network_rows(lines_of(list_raw@)),
            i <= list@.len(),
            network_id(l.skip(i as int), ssid@) == network_id(l, ssid@),
        decreases list@.len() - i,
    {
        assert(l.skip(i as int)[0] == (list@[i as int].0, list@[i as int].1@));
        assert(l.skip(i as int).skip(1) == l.skip(i + 1));
        if str_eq(list[i].1.as_str(), ssid) {
            return Some(list[i].0);
        }
        i = i + 1;
    }
    None
}

/// Of equally strong access points that meet `f` the last in the list is taken.
proof fn lemma_strongest_is_last(s: Seq<ScanApModel>, f: spec_fn(ScanApModel) -> bool)
    ensures
        strongest(s, f) matches Some(b) ==> exists|k: int|
            0 <= k < s.len() && #[trigger] s[k] == b && forall|i: int|
                k < i < s.len() && f(#[trigger] s[i]) ==> s[i].signal < b.signal,
    decreases s.len(),
{
    if s.len() > 0 && strongest(s, f) is Some {
        let t = s.drop_last();
        lemma_strongest_is_last(t, f);
        law_strongest(t, f);
        let b = strongest(s, f)->0;
        let n = s.len() - 1;
        if f(s[n]) && (strongest(t, f) matches Some(y) ==> s[n].signal >= y.signal) {
            assert(s[n] == b);
        } else {
            let k = choose|k: int|
                0 <= k < t.len() && #[trigger] t[k] == b && forall|i: int|
                    k < i < t.len() && f(#[trigger] t[i]) ==> t[i].signal < b.signal;
            assert(s[k] == b);
            assert forall|i: int| k < i < s.len() && f(#[trigger] s[i]) implies s[i].signal
                < b.signal by {
                if i < n {
                    assert(t[i] == s[i]);
                }
            }
        }
    }
}

/// Where a link may go on a band: an access point on it from the least signal on, that is a member
/// of the home group, or, where there is no group, has the name of the link or a name of the same
/// stem.
pub open spec fn may_go_to(
    a: ScanApModel,
    ssid: Seq<char>,
    want_5g: bool,
    least: int,
    home: Seq<HomeApModel>,
) -> bool {
    &&& want_5g ==> a.freq > 5000
    &&& !want_5g ==> a.freq <= 5000
    &&& a.signal >= least
    &&& home.len() > 0 ==> exists|j: int|
        0 <= j < home.len() && ascii_lower(#[trigger] home[j].bssid) == ascii_lower(a.bssid)
    &&& home.len() == 0 && a.ssid != ssid ==> stem_of(ssid).len() > 0 && ascii_lower(
        stem_of(a.ssid),
    ) == ascii_lower(stem_of(ssid))
}

/// The target on a band is one of the access points seen to which the link may go; where there is
/// any such one there is a target; nothing that the link may go to is stronger, and of equally strong
/// ones it is the last that was seen.
pub proof fn law_target_is_the_strongest(
    scans: Seq<ScanApModel>,
    ssid: Seq<char>,
    want_5g: bool,
    least: i32,
    home: Seq<HomeApModel>,
)
    ensures
        best_target(scans, ssid, want_5g, least, home) is None ==> forall|i: int|
            0 <= i < scans.len() ==> !may_go_to(#[trigger] scans[i], ssid, want_5g, least as int, home),
        best_target(scans, ssid, want_5g, least, home) matches Some(b) ==> {
            &&& may_go_to(b, ssid, want_5g, least as int, home)
            &&& forall|i: int|
                0 <= i < scans.len() && may_go_to(
                    #[trigger] scans[i],
                    ssid,
                    want_5g,
                    least as int,
                    home,
                ) ==> scans[i].signal <= b.signal
            &&& exists|k: int|
                0 <= k < scans.len() && #[trigger] scans[k] == b && forall|i: int|
                    k < i < scans.len() && may_go_to(
                        #[trigger] scans[i],
                        ssid,
                        want_5g,
                        least as int,
                        home,
                    ) ==> scans[i].signal < b.signal
        },
{
    let f = |ap: ScanApModel| is_target(ap, ssid, want_5g, least, home);
    law_strongest(scans, f);
    lemma_strongest_is_last(scans, f);
    assert forall|a: ScanApModel| #[trigger] f(a) == may_go_to(a, ssid, want_5g, least as int, home) by {
        if home.len() > 0 {
            if f(a) {
                let j = choose|j: int|
                    0 <= j < home.len() && same_bssid(#[trigger] home[j].bssid, a.bssid);
                assert(ascii_lower(home[j].bssid) == ascii_lower(a.bssid));
            }
            if may_go_to(a, ssid, want_5g, least as int, home) {
                let j = choose|j: int|
                    0 <= j < home.len() && ascii_lower(#[trigger] home[j].bssid) == ascii_lower(
                        a.bssid,
                    );
                assert(same_bssid(home[j].bssid, a.bssid));
            }
        }
    }
    assert forall|i: int| 0 <= i < scans.len() implies f(#[trigger] scans[i]) == may_go_to(
        scans[i],
        ssid,
        want_5g,
        least as int,
        home,
    ) by {}
}

/// What is set back is passed over and nothing else is: the list without it holds exactly the
/// access points whose BSSID, in whatever case, is none of those set back.
pub proof fn law_set_back_are_passed_over(
    scans: Seq<ScanApModel>,
    demoted: Seq<Seq<char>>,
    a: ScanApModel,
)
    ensures
        not_demoted(scans, demoted).contains(a) <==> scans.contains(a) && forall|i: int|
            0 <= i < demoted.len() ==> ascii_lower(#[trigger] demoted[i]) != ascii_lower(a.bssid),
{
    let g = |ap: ScanApModel| !is_demoted(demoted, ap.bssid);
    let q = not_demoted(scans, demoted);
    if q.contains(a) {
        let k = choose|k: int| 0 <= k < q.len() && q[k] == a;
        assert(g(q[k]));
        scans.lemma_filter_contains_rev(g, a);
        assert forall|i: int| 0 <= i < demoted.len() implies ascii_lower(#[trigger] demoted[i])
            != ascii_lower(a.bssid) by {
            assert(!same_bssid(demoted[i], a.bssid));
        }
    }
    if scans.contains(a) && forall|i: int|
        0 <= i < demoted.len() ==> ascii_lower(#[trigger] demoted[i]) != ascii_lower(a.bssid) {
        let k = choose|k: int| 0 <= k < scans.len() && scans[k] == a;
        assert(g(a));
        scans.lemma_filter_contains(g, k);
    }
}

/// A link is at home exactly where there is no group, or the group has a member with its BSSID in
/// whatever case, or its BSSID is not known and the group has a member of its name.
pub proof fn law_at_home(home: Seq<HomeApModel>, bssid: Seq<char>, ssid: Seq<char>)
    ensures
        link_at_home(home, bssid, ssid) <==> {
            ||| home.len() == 0
            ||| bssid.len() > 0 && exists|i: int|
                0 <= i < home.len() && ascii_lower(#[trigger] home[i].bssid) == ascii_lower(bssid)
            ||| bssid.len() == 0 && ssid.len() > 0 && exists|i: int|
                0 <= i < home.len() && (#[trigger] home[i]).ssid == ssid
        },
{
    if home.len() > 0 && bssid.len() > 0 {
        if in_group(home, bssid) {
            let i = choose|i: int|
                0 <= i < home.len() && same_bssid(#[trigger] home[i].bssid, bssid);
            assert(ascii_lower(home[i].bssid) == ascii_lower(bssid));
        }
        if exists|i: int|
            0 <= i < home.len() && ascii_lower(#[trigger] home[i].bssid) == ascii_lower(bssid) {
            let i = choose|i: int|
                0 <= i < home.len() && ascii_lower(#[trigger] home[i].bssid) == ascii_lower(bssid);
            assert(same_bssid(home[i].bssid, bssid));
        }
    }
}

/// The distinct names are the names without the space around them, none of them empty and each
/// once.
pub proof fn law_distinct_names(l: Seq<Seq<char>>)
    ensures
        forall|t: Seq<char>|
            #[trigger] distinct_names(l).contains(t) <==> t.len() > 0 && exists|i: int|
                0 <= i < l.len() && trimmed(#[trigger] l[i]) == t,
        distinct_names(l).no_duplicates(),
    decreases l.len(),
{
    if l.len() > 0 {
        let r = l.drop_last();
        law_distinct_names(r);
        let u = distinct_names(r);
        let d = distinct_names(l);
        let x = trimmed(l.last());
        assert forall|t: Seq<char>| #[trigger] d.contains(t) <==> t.len() > 0 && exists|i: int|
            0 <= i < l.len() && trimmed(#[trigger] l[i]) == t by {
            if d.contains(t) {
                let k = choose|k: int| 0 <= k < d.len() && d[k] == t;
                if k < u.len() {
                    assert(u[k] == t);
                    assert(u.contains(t));
                    let i = choose|i: int| 0 <= i < r.len() && trimmed(#[trigger] r[i]) == t;
                    assert(trimmed(l[i]) == t);
                } else {
                    assert(trimmed(l[l.len() - 1]) == t);
                }
            }
            if t.len() > 0 && exists|i: int| 0 <= i < l.len() && trimmed(#[trigger] l[i]) == t {
                let i = choose|i: int| 0 <= i < l.len() && trimmed(#[trigger] l[i]) == t;
                if i < r.len() {
                    assert(trimmed(r[i]) == t);
                    assert(u.contains(t));
                    let k = choose|k: int| 0 <= k < u.len() && u[k] == t;
                    assert(d[k] == t);
                } else if !u.contains(x) {
                    assert(d[u.len() as int] == t);
                }
            }
        }
        assert(d.no_duplicates()) by {
            assert forall|a: int, b: int|
                0 <= a < d.len() && 0 <= b < d.len() && a != b implies d[a] != d[b] by {
                if a < u.len() && b < u.len() {
                    assert(d[a] == u[a] && d[b] == u[b]);
                } else if a < u.len() {
                    assert(u.contains(d[a]));
                } else if b < u.len() {
                    assert(u.contains(d[b]));
                }
            }
        }
    } else {
        assert forall|t: Seq<char>| #[trigger] distinct_names(l).contains(t) implies false by {}
    }
}

/// The search for a pair passes over nothing that is one.
proof fn lemma_first_pair(u: Seq<Seq<char>>, i: int, j: int)
    requires
        0 <= i < j,
    ensures
        first_pair(u, i, j) matches Some(p) ==> 0 <= p.0 < p.1 < u.len() && is_pair(u[p.0], u[p.1]),
        first_pair(u, i, j) is None ==> forall|a: int, b: int|
            (a == i && j <= b < u.len() || i < a < b < u.len()) ==> !is_pair(
                #[trigger] u[a],
                #[trigger] u[b],
            ),
    decreases u.len() - i, u.len() - j,
{
    if i < u.len() {
        if j >= u.len() {
            lemma_first_pair(u, i + 1, i + 2);
        } else if !is_pair(u[i], u[j]) {
            lemma_first_pair(u, i, j + 1);
        }
    }
}

/// Two networks to switch between are saved exactly where there are two names or more. Where two of
/// the names have a stem in common, a pair of such names is reported.
pub proof fn law_saved_pair_is_reported(u: Seq<Seq<char>>)
    requires
        u.no_duplicates(),
    ensures
        pair_report(u).0 <==> u.len() >= 2,
        (exists|a: int, b: int|
            0 <= a < b < u.len() && stem_of(#[trigger] u[a]).len() > 0 && stem_of(u[a]) == stem_of(
                #[trigger] u[b],
            )) ==> exists|a: int, b: int|
            0 <= a < b < u.len() && stem_of(#[trigger] u[a]).len() > 0 && stem_of(u[a]) == stem_of(
                #[trigger] u[b],
            ) && pair_report(u).1 == "配对 "@ + u[a] + " ↔ "@ + u[b],
        !(exists|a: int, b: int|
            0 <= a < b < u.len() && stem_of(#[trigger] u[a]).len() > 0 && stem_of(u[a]) == stem_of(
                #[trigger] u[b],
            )) && u.len() >= 2 ==> pair_report(u).1 == "已保存 "@ + dec(u.len())
            + " 个网络（未识别同名双频后缀）"@,
{
    lemma_first_pair(u, 0, 1);
    if exists|a: int, b: int|
        0 <= a < b < u.len() && stem_of(#[trigger] u[a]).len() > 0 && stem_of(u[a]) == stem_of(
            #[trigger] u[b],
        ) {
        let (a, b) = choose|a: int, b: int|
            0 <= a < b < u.len() && stem_of(#[trigger] u[a]).len() > 0 && stem_of(u[a]) == stem_of(
                #[trigger] u[b],
            );
        assert(is_pair(u[a], u[b]));
        let p = first_pair(u, 0, 1)->0;
        assert(stem_of(u[p.0]).len() > 0 && stem_of(u[p.0]) == stem_of(u[p.1]));
    } else if u.len() >= 2 && first_pair(u, 0, 1) is Some {
        let p = first_pair(u, 0, 1)->0;
        assert(is_pair(u[p.0], u[p.1]));
        assert(false);
    }
}

/// An access point is marked exactly where its stem has three bytes or more, is one of those
/// allowed, and is also that of an access point on 5 GHz and of one that is not.
pub proof fn law_marked_where_seen_on_both_bands(
    s: Seq<ScanApViewModel>,
    allow: Seq<Seq<char>>,
    i: int,
)
    requires
        0 <= i < s.len(),
    ensures
        marked(s, Some(allow))[i].suggested <==> {
            ||| s[i].suggested
            ||| {
                &&& s[i].ssid.len() > 0
                &&& byte_len(stem_of(s[i].ssid)) >= 3
                &&& allow.contains(stem_of(s[i].ssid))
                &&& exists|a: int|
                    0 <= a < s.len() && (#[trigger] s[a]).ssid.len() > 0 && stem_of(s[a].ssid)
                        == stem_of(s[i].ssid) && (s[a].freq > 5000 || s[a].band == "5"@)
                &&& exists|b: int|
                    0 <= b < s.len() && (#[trigger] s[b]).ssid.len() > 0 && stem_of(s[b].ssid)
                        == stem_of(s[i].ssid) && s[b].freq <= 5000 && s[b].band != "5"@
            }
        },
        marked(s, None)[i] == s[i],
{
    let stem = stem_of(s[i].ssid);
    let ok = s[i].ssid.len() > 0 && byte_len(stem) >= 3 && allow.contains(stem);
    if ok {
        if stem_on_band(s, allow, stem, true) {
            let a = choose|j: int|
                0 <= j < s.len() && group_stem(#[trigger] s[j], allow) == Some(stem)
                    && shown_on_5g(s[j]) == true;
            assert(s[a].ssid.len() > 0 && stem_of(s[a].ssid) == stem);
        }
        if stem_on_band(s, allow, stem, false) {
            let b = choose|j: int|
                0 <= j < s.len() && group_stem(#[trigger] s[j], allow) == Some(stem)
                    && shown_on_5g(s[j]) == false;
            assert(s[b].ssid.len() > 0 && stem_of(s[b].ssid) == stem);
        }
        if exists|a: int|
            0 <= a < s.len() && (#[trigger] s[a]).ssid.len() > 0 && stem_of(s[a].ssid) == stem && (
            s[a].freq > 5000 || s[a].band == "5"@) {
            let a = choose|a: int|
                0 <= a < s.len() && (#[trigger] s[a]).ssid.len() > 0 && stem_of(s[a].ssid) == stem
                    && (s[a].freq > 5000 || s[a].band == "5"@);
            assert(group_stem(s[a], allow) == Some(stem) && shown_on_5g(s[a]) == true);
        }
        if exists|b: int|
            0 <= b < s.len() && (#[trigger] s[b]).ssid.len() > 0 && stem_of(s[b].ssid) == stem
                && s[b].freq <= 5000 && s[b].band != "5"@ {
            let b = choose|b: int|
                0 <= b < s.len() && (#[trigger] s[b]).ssid.len() > 0 && stem_of(s[b].ssid) == stem
                    && s[b].freq <= 5000 && s[b].band != "5"@;
            assert(group_stem(s[b], allow) == Some(stem) && shown_on_5g(s[b]) == false);
        }
    }
}

/// The stems of names are those of three bytes or more, each once.
pub proof fn law_stems(l: Seq<Seq<char>>)
    ensures
        forall|t: Seq<char>|
            #[trigger] stems_of(l).contains(t) <==> byte_len(t) >= 3 && exists|i: int|
                0 <= i < l.len() && (#[trigger] l[i]).len() > 0 && stem_of(l[i]) == t,
        stems_of(l).no_duplicates(),
    decreases l.len(),
{
    if l.len() > 0 {
        let r = l.drop_last();
        law_stems(r);
        let u = stems_of(r);
        let d = stems_of(l);
        let x = stem_of(l.last());
        assert forall|t: Seq<char>| #[trigger] d.contains(t) <==> byte_len(t) >= 3 && exists|i: int|
            0 <= i < l.len() && (#[trigger] l[i]).len() > 0 && stem_of(l[i]) == t by {
            if d.contains(t) {
                let k = choose|k: int| 0 <= k < d.len() && d[k] == t;
                if k < u.len() {
                    assert(u[k] == t);
                    assert(u.contains(t));
                    let i = choose|i: int|
                        0 <= i < r.len() && (#[trigger] r[i]).len() > 0 && stem_of(r[i]) == t;
                    assert(l[i].len() > 0 && stem_of(l[i]) == t);
                } else {
                    assert(l[l.len() - 1].len() > 0 && stem_of(l[l.len() - 1]) == t);
                }
            }
            if byte_len(t) >= 3 && exists|i: int|
                0 <= i < l.len() && (#[trigger] l[i]).len() > 0 && stem_of(l[i]) == t {
                let i = choose|i: int|
                    0 <= i < l.len() && (#[trigger] l[i]).len() > 0 && stem_of(l[i]) == t;
                if i < r.len() {
                    assert(r[i].len() > 0 && stem_of(r[i]) == t);
                    assert(u.contains(t));
                    let k = choose|k: int| 0 <= k < u.len() && u[k] == t;
                    assert(d[k] == t);
                } else if !u.contains(x) {
                    assert(d[u.len() as int] == t);
                }
            }
        }
        assert(d.no_duplicates()) by {
            assert forall|a: int, b: int|
                0 <= a < d.len() && 0 <= b < d.len() && a != b implies d[a] != d[b] by {
                if a < u.len() && b < u.len() {
                    assert(d[a] == u[a] && d[b] == u[b]);
                } else if a < u.len() {
                    assert(u.contains(d[a]));
                } else if b < u.len() {
                    assert(u.contains(d[b]));
                }
            }
        }
    } else {
        assert forall|t: Seq<char>| #[trigger] stems_of(l).contains(t) implies false by {}
    }
}

/// A number is found exactly where a saved network has that very name, and it is the number of the
/// first such one.
pub proof fn law_network_is_found_by_name(l: Seq<(u32, Seq<char>)>, ssid: Seq<char>)
    ensures
        network_id(l, ssid) is None ==> forall|i: int| 0 <= i < l.len() ==> (#[trigger] l[i]).1 != ssid,
        network_id(l, ssid) matches Some(n) ==> exists|k: int|
            0 <= k < l.len() && (#[trigger] l[k]) == (n, ssid) && forall|i: int|
                0 <= i < k ==> (#[trigger] l[i]).1 != ssid,
    decreases l.len(),
{
    if l.len() > 0 && l[0].1 != ssid {
        let t = l.skip(1);
        law_network_is_found_by_name(t, ssid);
        if network_id(l, ssid) is None {
            assert forall|i: int| 0 <= i < l.len() implies (#[trigger] l[i]).1 != ssid by {
                if i > 0 {
                    assert(t[i - 1] == l[i]);
                }
            }
        } else {
            let n = network_id(l, ssid)->0;
            let k = choose|k: int|
                0 <= k < t.len() && (#[trigger] t[k]) == (n, ssid) && forall|i: int|
                    0 <= i < k ==> (#[trigger] t[i]).1 != ssid;
            assert(l[k + 1] == (n, ssid));
            assert forall|i: int| 0 <= i < k + 1 implies (#[trigger] l[i]).1 != ssid by {
                if i > 0 {
                    assert(t[i - 1] == l[i]);
                }
            }
        }
    } else if l.len() > 0 {
        assert(l[0] == (l[0].0, ssid));
    }
}

/// Two sightings of one access point as one: the signal is that of the stronger one, as is the
/// frequency, the first one's where both are equally strong; a name is kept where either has one,
/// and one that is not all ASCII where either has such a one.
pub proof fn law_merged_sighting(a: ScanApModel, b: ScanApModel)
    ensures
        merged_ap(a, b).bssid == a.bssid,
        a.signal >= b.signal ==> merged_ap(a, b).signal == a.signal && merged_ap(a, b).freq
            == a.freq,
        a.signal < b.signal ==> merged_ap(a, b).signal == b.signal && merged_ap(a, b).freq == b.freq,
        merged_ap(a, b).ssid == a.ssid || merged_ap(a, b).ssid == b.ssid,
        a.ssid.len() > 0 || b.ssid.len() > 0 ==> merged_ap(a, b).ssid.len() > 0,
        (exists|i: int| 0 <= i < a.ssid.len() && #[trigger] a.ssid[i] > '\u{7f}') ==> merged_ap(
            a,
            b,
        ).ssid == a.ssid,
        a.ssid.len() > 0 && (forall|i: int|
            0 <= i < b.ssid.len() ==> #[trigger] b.ssid[i] <= '\u{7f}') ==> merged_ap(a, b).ssid
            == a.ssid,
        (forall|i: int| 0 <= i < a.ssid.len() ==> #[trigger] a.ssid[i] <= '\u{7f}') && (exists|
            i: int,
        |
            0 <= i < b.ssid.len() && #[trigger] b.ssid[i] > '\u{7f}') ==> merged_ap(a, b).ssid
            == b.ssid,
{
    if exists|i: int| 0 <= i < a.ssid.len() && #[trigger] a.ssid[i] > '\u{7f}' {
        assert(has_wide(a.ssid));
    }
    if exists|i: int| 0 <= i < b.ssid.len() && #[trigger] b.ssid[i] > '\u{7f}' {
        assert(has_wide(b.ssid));
        let i = choose|i: int| 0 <= i < b.ssid.len() && #[trigger] b.ssid[i] > '\u{7f}';
        assert(b.ssid.len() > 0);
    }
}

/// Nothing is merged into what was not seen: every entry has the key and the BSSID of a sighting,
/// and the signal and the frequency of one under that key.
pub proof fn law_merge_makes_nothing_up(l: Seq<KeyedApModel>, i: int)
    requires
        0 <= i < merged(l).len(),
    ensures
        exists|x: int|
            0 <= x < l.len() && (#[trigger] l[x]).key == merged(l)[i].key && l[x].ap.bssid
                == merged(l)[i].ap.bssid,
        exists|x: int|
            0 <= x < l.len() && (#[trigger] l[x]).key == merged(l)[i].key && l[x].ap.signal
                == merged(l)[i].ap.signal && l[x].ap.freq == merged(l)[i].ap.freq,
        exists|x: int|
            0 <= x < l.len() && (#[trigger] l[x]).key == merged(l)[i].key && l[x].ap.ssid
                == merged(l)[i].ap.ssid,
    decreases l.len(),
{
    let t = l.drop_last();
    let m = merged(t);
    let y = l.last();
    let n = l.len() - 1;
    let p = key_position(m, y.key);
    lemma_key_position(m, y.key);
    assert(l[n] == y);
    if i < m.len() {
        law_merge_makes_nothing_up(t, i);
        let x1 = choose|x: int|
            0 <= x < t.len() && (#[trigger] t[x]).key == m[i].key && t[x].ap.bssid == m[i].ap.bssid;
        let x2 = choose|x: int|
            0 <= x < t.len() && (#[trigger] t[x]).key == m[i].key && t[x].ap.signal
                == m[i].ap.signal && t[x].ap.freq == m[i].ap.freq;
        let x3 = choose|x: int|
            0 <= x < t.len() && (#[trigger] t[x]).key == m[i].key && t[x].ap.ssid == m[i].ap.ssid;
        assert(l[x1] == t[x1] && l[x2] == t[x2] && l[x3] == t[x3]);
    }
}

/// What is shown is what was seen, from the strongest down: each place of the list shows one access
/// point, and every access point has a place.
pub proof fn law_shown_from_the_strongest_down(s: Seq<ScanApModel>, home: Seq<HomeApModel>)
    ensures
        ({
            let r = shown_by_signal(shown_all(s, home));
            &&& r.len() == s.len()
            &&& forall|a: int, b: int|
                0 <= a < b < r.len() ==> (#[trigger] r[a]).signal >= (#[trigger] r[b]).signal
            &&& forall|i: int|
                0 <= i < s.len() ==> exists|a: int|
                    0 <= a < r.len() && shows(#[trigger] r[a], #[trigger] s[i], home)
            &&& forall|a: int|
                0 <= a < r.len() ==> !(#[trigger] r[a]).suggested && exists|i: int|
                    0 <= i < s.len() && shows(r[a], #[trigger] s[i], home)
        }),
{
    let v = shown_all(s, home);
    let k = shown_signals(v);
    law_order_is_stable(k, v.len());
    let o = order_of(k, v.len());
    let r = shown_by_signal(v);
    assert forall|i: int| 0 <= i < s.len() implies shows(#[trigger] v[i], s[i], home) by {
        assert(v[i] == shown(s[i], home));
        if in_group(home, s[i].bssid) {
            let j = choose|j: int|
                0 <= j < home.len() && same_bssid(#[trigger] home[j].bssid, s[i].bssid);
            assert(ascii_lower(home[j].bssid) == ascii_lower(s[i].bssid));
        }
        if exists|j: int|
            0 <= j < home.len() && ascii_lower(#[trigger] home[j].bssid) == ascii_lower(s[i].bssid) {
            let j = choose|j: int|
                0 <= j < home.len() && ascii_lower(#[trigger] home[j].bssid) == ascii_lower(
                    s[i].bssid,
                );
            assert(same_bssid(home[j].bssid, s[i].bssid));
        }
    }
    assert forall|a: int, b: int| 0 <= a < b < r.len() implies (#[trigger] r[a]).signal >= (
    #[trigger] r[b]).signal by {
        assert(k[o[a]] >= k[o[b]]);
        assert(k[o[a]] == v[o[a]].signal && k[o[b]] == v[o[b]].signal);
    }
    assert forall|i: int| 0 <= i < s.len() implies exists|a: int|
        0 <= a < r.len() && shows(#[trigger] r[a], #[trigger] s[i], home) by {
        assert(o.contains(i));
        let a = choose|a: int| 0 <= a < o.len() && o[a] == i;
        assert(r[a] == v[i]);
        assert(shows(r[a], s[i], home));
    }
    assert forall|a: int| 0 <= a < r.len() implies !(#[trigger] r[a]).suggested && exists|i: int|
        0 <= i < s.len() && shows(r[a], #[trigger] s[i], home) by {
        assert(r[a] == v[o[a]]);
        assert(v[o[a]] == shown(s[o[a]], home));
        assert(shows(r[a], s[o[a]], home));
    }
}

/// Whether a shown access point is that one, on its band, and told to be of the home group exactly
/// where a member has its BSSID in whatever case.
pub open spec fn shows(v: ScanApViewModel, a: ScanApModel, home: Seq<HomeApModel>) -> bool {
    &&& v.bssid == a.bssid && v.ssid == a.ssid && v.freq == a.freq && v.signal == a.signal
    &&& a.freq > 5000 ==> v.band == "5"@
    &&& a.freq <= 5000 ==> v.band == "2.4"@
    &&& v.in_home <==> exists|j: int|
        0 <= j < home.len() && ascii_lower(#[trigger] home[j].bssid) == ascii_lower(a.bssid)
}

/// Merged sightings come from the strongest down, and none is lost.
pub proof fn law_sorted_from_the_strongest_down(s: Seq<ScanApModel>)
    ensures
        by_signal(s).len() == s.len(),
        forall|a: int, b: int|
            0 <= a < b < s.len() ==> (#[trigger] by_signal(s)[a]).signal >= (
            #[trigger] by_signal(s)[b]).signal,
        forall|x: ScanApModel| #[trigger] by_signal(s).contains(x) <==> s.contains(x),
{
    let k = signals(s);
    law_order_is_stable(k, s.len());
    let o = order_of(k, s.len());
    let r = by_signal(s);
    assert forall|a: int, b: int| 0 <= a < b < r.len() implies (#[trigger] r[a]).signal >= (
    #[trigger] r[b]).signal by {
        assert(k[o[a]] >= k[o[b]]);
        assert(k[o[a]] == s[o[a]].signal && k[o[b]] == s[o[b]].signal);
    }
    assert forall|x: ScanApModel| #[trigger] r.contains(x) <==> s.contains(x) by {
        if r.contains(x) {
            let a = choose|a: int| 0 <= a < r.len() && r[a] == x;
            assert(s[o[a]] == x);
        }
        if s.contains(x) {
            let i = choose|i: int| 0 <= i < s.len() && s[i] == x;
            assert(o.contains(i));
            let a = choose|a: int| 0 <= a < o.len() && o[a] == i;
            assert(r[a] == x);
        }
    }
}

/// The names of the two bands of a router are a pair: a name with a mark behind it and the name itself,
/// or with two marks. Without a home group a link goes from the one to the other where the band and the
/// signal are right.
pub proof fn law_two_bands_are_a_pair(
    b: Seq<char>,
    m: Seq<char>,
    n: Seq<char>,
    a: ScanApModel,
    want_5g: bool,
    least: int,
)
    requires
        b.len() > 0,
        is_plain(b),
        is_mark(m),
        is_mark(n),
        m != n,
        (a.freq > 5000) == want_5g,
        a.signal >= least,
    ensures
        is_pair(b, b + m),
        is_pair(b + m, b),
        is_pair(b + m, b + n),
        a.ssid == b + m ==> may_go_to(a, b, want_5g, least, seq![]) && may_go_to(
            a,
            b + n,
            want_5g,
            least,
            seq![],
        ),
        a.ssid == b ==> may_go_to(a, b + m, want_5g, least, seq![]),
{
    law_mark_behind_a_name_is_dropped(b, m);
    law_mark_behind_a_name_is_dropped(b, n);
    assert((b + m).len() > b.len());
    if b + m == b + n {
        assert((b + m).skip(b.len() as int) == m);
        assert((b + n).skip(b.len() as int) == n);
    }
}

proof fn lemma_next_piece(a: Seq<char>, rest: Seq<char>, limit: nat)
    requires
        a.len() > 0,
        forall|i: int| 0 <= i < a.len() ==> !is_white(#[trigger] a[i]),
        limit >= 2,
    ensures
        nonempty(splitn_at_class(a + seq!['\t'] + rest, Class::White, limit)) == seq![a] + nonempty(
            splitn_at_class(rest, Class::White, (limit - 1) as nat),
        ),
{
    assert forall|i: int| 0 <= i < a.len() implies !in_class(Class::White, #[trigger] a[i]) by {}
    law_cutting(a, '\t', rest, Class::White, limit);
    lemma_nonempty(a, splitn_at_class(rest, Class::White, (limit - 1) as nat));
}

proof fn lemma_last_piece(a: Seq<char>)
    requires
        a.len() > 0,
    ensures
        nonempty(splitn_at_class(a, Class::White, 1)) == seq![a],
{
    let e = Seq::<Seq<char>>::empty();
    lemma_nonempty(a, e);
    assert(seq![a] + e == seq![a]);
    assert(nonempty(e).len() == 0) by {
        reveal(Seq::filter);
    }
    assert(seq![a] + nonempty(e) == seq![a]);
}

proof fn lemma_five_in_a_row<T>(a: T, b: T, c: T, d: T, e: T)
    ensures
        seq![a] + (seq![b] + (seq![c] + (seq![d] + seq![e]))) == seq![a, b, c, d, e],
{
    assert(seq![d] + seq![e] == seq![d, e]);
    assert(seq![c] + seq![d, e] == seq![c, d, e]);
    assert(seq![b] + seq![c, d, e] == seq![b, c, d, e]);
    assert(seq![a] + seq![b, c, d, e] == seq![a, b, c, d, e]);
}

/// A row of a scan is read as it was written: the BSSID, the frequency, the signal, the flags and the
/// name, each behind a tab, with the escapes in the name read.
pub proof fn law_scan_row_is_read(
    bssid: Seq<char>,
    freq: u32,
    signal: i32,
    flags: Seq<char>,
    name: Seq<char>,
)
    requires
        bssid.len() >= 6,
        byte_len(bssid) >= 11,
        !has_prefix(bssid, "bssid"@),
        forall|i: int| 0 <= i < bssid.len() ==> !is_white(#[trigger] bssid[i]),
        flags.len() > 0,
        forall|i: int| 0 <= i < flags.len() ==> !is_white(#[trigger] flags[i]),
        name.len() > 0,
        !is_white(name.last()),
    ensures
        wpa_row(
            bssid + seq!['\t'] + (dec(freq as nat) + seq!['\t'] + (dec_int(signal as int) + seq!['\t']
                + (flags + seq!['\t'] + name))),
        ) == Some(ScanApModel { bssid, freq, signal, ssid: wpa_ssid(name) }),
{
    let f = dec(freq as nat);
    let g = dec_int(signal as int);
    lemma_dec(freq as nat);
    lemma_no_white_in_number(signal as int);
    lemma_no_white_in_number(freq as int);
    assert(dec_int(freq as int) == f);
    let t = bssid + seq!['\t'] + (f + seq!['\t'] + (g + seq!['\t'] + (flags + seq!['\t'] + name)));
    let p = seq![bssid, f, g, flags, name];
    let r4 = flags + seq!['\t'] + name;
    let r3 = g + seq!['\t'] + r4;
    lemma_next_piece(bssid, f + seq!['\t'] + r3, 5);
    lemma_next_piece(f, r3, 4);
    lemma_next_piece(g, r4, 3);
    lemma_next_piece(flags, name, 2);
    lemma_last_piece(name);
    lemma_five_in_a_row(bssid, f, g, flags, name);
    assert(nonempty(splitn_at_class(t, Class::White, 5)) == p);
    assert(t[0] == bssid[0]);
    assert(t.last() == name.last());
    lemma_tidy_is_trimmed(t);
    reveal_strlit("bssid");
    reveal_strlit("Using ");
    if has_prefix(t, "bssid"@) {
        assert(t.take(5) == bssid.take(5));
    }
    if has_prefix(t, "Using "@) {
        assert(t.take(6)[5] == bssid[5]);
        assert("Using "@[5] == ' ');
        assert(!is_white(bssid[5]));
    }
    law_decimal_read_back(freq as nat, u32::MAX as nat);
    law_signed_decimal_read_back(signal as int, i32::MAX as nat);
    assert(p[0] == bssid && p[1] == f && p[2] == g && p[3] == flags && p[4] == name);
}

proof fn lemma_no_white_in_number(i: int)
    ensures
        dec_int(i).len() > 0,
        forall|x: int| 0 <= x < dec_int(i).len() ==> !is_white(#[trigger] dec_int(i)[x]),
{
    let n: nat = if i < 0 {
        (-i) as nat
    } else {
        i as nat
    };
    lemma_dec(n);
    assert forall|x: int| 0 <= x < dec_int(i).len() implies !is_white(
        #[trigger] dec_int(i)[x],
    ) by {
        if i < 0 {
            if x > 0 {
                assert(dec_int(i)[x] == dec(n)[x - 1]);
                assert(is_digit(dec(n)[x - 1]));
            }
        } else {
            assert(is_digit(dec(n)[x]));
        }
    }
}

/// Every row that is one gives an access point, in the order of the rows; a row that is none gives none
/// and takes none away.
pub proof fn law_rows_are_read_in_order(ls: Seq<Seq<char>>, line: Seq<char>)
    ensures
        wpa_rows(ls.push(line)) == (match wpa_row(line) {
            Some(a) => wpa_rows(ls).push(a),
            None => wpa_rows(ls),
        }),
        cmd_rows(ls.push(line)) == (match cmd_row(line) {
            Some(a) => cmd_rows(ls).push(a),
            None => cmd_rows(ls),
        }),
        network_rows(ls.push(line)) == (match network_row(line) {
            Some(n) => network_rows(ls).push(n),
            None => network_rows(ls),
        }),
        wpa_rows(seq![]).len() == 0,
        cmd_rows(seq![]).len() == 0,
        network_rows(seq![]).len() == 0,
{
    assert(ls.push(line).drop_last() == ls);
}

/// A saved network is read as it was written: its number, and its name behind a tab, without quotes
/// around it and with its escapes read; what follows behind another tab does not matter.
pub proof fn law_network_row_is_read(id: u32, name: Seq<char>, rest: Seq<char>)
    requires
        !name.contains('\t'),
        rest.len() > 0,
        !is_white(rest.last()),
    ensures
        network_row(dec(id as nat) + seq!['\t'] + (name + seq!['\t'] + rest)) == Some(
            (id, wpa_ssid(trim_both(name, Class::Is('"')))),
        ),
        name.len() > 0 && name[0] != '"' && name.last() != '"' ==> network_row(
            dec(id as nat) + seq!['\t'] + (name + seq!['\t'] + rest),
        ) == Some((id, wpa_ssid(name))),
{
    let k = Class::Is('\t');
    let d = dec(id as nat);
    lemma_dec(id as nat);
    lemma_no_white_in_number(id as int);
    assert(dec_int(id as int) == d);
    let r = name + seq!['\t'] + rest;
    let t = d + seq!['\t'] + r;
    assert forall|i: int| 0 <= i < d.len() implies !in_class(k, #[trigger] d[i]) by {
        assert(is_digit(d[i]));
    }
    assert forall|i: int| 0 <= i < name.len() implies !in_class(k, #[trigger] name[i]) by {
        assert(name.contains(name[i]));
    }
    law_cutting(d, '\t', r, k, 1);
    law_cutting(name, '\t', rest, k, 1);
    assert(t[0] == d[0] && is_digit(d[0]));
    assert(!is_white(t[0]));
    assert(t.last() == rest.last());
    lemma_tidy_is_trimmed(t);
    assert(t[d.len() as int] == '\t');
    assert(t.contains('\t'));
    let p = split_at_class(t, k);
    assert(p[0] == d);
    assert(p[1] == name) by {
        assert(p == seq![d] + (seq![name] + split_at_class(rest, k)));
    }
    reveal_strlit("network");
    reveal_strlit("Using ");
    if has_prefix(t, "network"@) {
        assert(t.take(7)[0] == t[0]);
    }
    if has_prefix(t, "Using "@) {
        assert(t.take(6)[0] == t[0]);
    }
    law_decimal_read_back(id as nat, u32::MAX as nat);
    if name.len() > 0 && name[0] != '"' && name.last() != '"' {
        let e = Seq::<char>::empty();
        law_trimming(e, name, e, Class::Is('"'));
        assert(e + name + e == name);
    }
}

/// The words of words with one space between each two.
pub proof fn lemma_words_of_joined(w: Seq<Seq<char>>)
    requires
        w.len() > 0,
        forall|i: int|
            0 <= i < w.len() ==> (#[trigger] w[i]).len() > 0 && forall|j: int|
                0 <= j < w[i].len() ==> !is_white(#[trigger] w[i][j]),
    ensures
        words_of(spaced(w)) == w,
        spaced(w).len() > 0,
        spaced(w)[0] == w[0][0],
        spaced(w).last() == w.last().last(),
        spaced(w) == joined(w, " "@),
    decreases w.len(),
{
    reveal_strlit(" ");
    let a = w[0];
    if w.len() == 1 {
        law_words(a, ' ', seq![]);
        assert(w == seq![a]);
    } else {
        let r = w.skip(1);
        assert forall|i: int| 0 <= i < r.len() implies (#[trigger] r[i]).len() > 0 && forall|j: int|
            0 <= j < r[i].len() ==> !is_white(#[trigger] r[i][j]) by {
            assert(r[i] == w[i + 1]);
        }
        lemma_words_of_joined(r);
        law_words(a, ' ', spaced(r));
        assert(seq![a] + r == w);
        assert(r.last() == w.last());
        lemma_joined_front(w);
        assert(" "@ == seq![' ']);
    }
}

/// Words with one space between each two, from the first on.
pub open spec fn spaced(w: Seq<Seq<char>>) -> Seq<char>
    decreases w.len(),
{
    if w.len() == 0 {
        seq![]
    } else if w.len() == 1 {
        w[0]
    } else {
        w[0] + seq![' '] + spaced(w.skip(1))
    }
}

proof fn lemma_joined_front(w: Seq<Seq<char>>)
    requires
        w.len() >= 2,
    ensures
        joined(w, " "@) == w[0] + " "@ + joined(w.skip(1), " "@),
    decreases w.len(),
{
    let d = w.drop_last();
    if w.len() == 2 {
        assert(d.len() == 1 && d[0] == w[0]);
        assert(w.skip(1).len() == 1 && w.skip(1)[0] == w[1]);
        assert(joined(d, " "@) == w[0]);
    } else {
        lemma_joined_front(d);
        assert(d.skip(1) == w.skip(1).drop_last());
        assert(w.skip(1).last() == w.last());
        assert(w[0] + " "@ + joined(d.skip(1), " "@) + " "@ + w.last() == w[0] + " "@ + (joined(
            d.skip(1),
            " "@,
        ) + " "@ + w.last()));
    }
}

/// A row of the system's scan is read as it was written: the BSSID, the frequency, the signal, the age
/// and the words of the name, with a space between each two, before the flags in brackets.
pub proof fn law_system_scan_row_is_read(
    bssid: Seq<char>,
    freq: u32,
    signal: i32,
    age: Seq<char>,
    name: Seq<Seq<char>>,
    flags: Seq<char>,
)
    requires
        bssid.len() >= 6,
        byte_len(bssid) >= 11,
        bssid.contains(':'),
        !bssid.contains('['),
        !has_prefix(bssid, "BSSID"@),
        !has_prefix(bssid, "Wifi"@),
        forall|i: int| 0 <= i < bssid.len() ==> !is_white(#[trigger] bssid[i]),
        age.len() > 0,
        digits_or_dots(age),
        forall|i: int|
            0 <= i < name.len() ==> (#[trigger] name[i]).len() > 0 && !name[i].contains('[') && forall|
                j: int,
            |
                0 <= j < name[i].len() ==> !is_white(#[trigger] name[i][j]),
        flags.len() > 0 ==> !is_white(flags.last()),
    ensures
        cmd_row(
            spaced(seq![bssid, dec(freq as nat), dec_int(signal as int), age] + name) + seq![' ', '[']
                + flags,
        ) == Some(ScanApModel { bssid, freq, signal, ssid: joined(name, " "@) }),
{
    let f = dec(freq as nat);
    let g = dec_int(signal as int);
    lemma_dec(freq as nat);
    lemma_no_white_in_number(signal as int);
    lemma_no_white_in_number(freq as int);
    assert(dec_int(freq as int) == f);
    let head = seq![bssid, f, g, age];
    let w = head + name;
    assert forall|j: int| 0 <= j < age.len() implies !is_white(#[trigger] age[j]) by {
        assert(is_digit(age[j]) || age[j] == '.');
    }
    assert forall|i: int| 0 <= i < w.len() implies (#[trigger] w[i]).len() > 0 && forall|j: int|
        0 <= j < w[i].len() ==> !is_white(#[trigger] w[i][j]) by {
        if i >= 4 {
            assert(w[i] == name[i - 4]);
        } else {
            assert(w[i] == head[i]);
        }
    }
    assert forall|i: int| 0 <= i < w.len() implies !(#[trigger] w[i]).contains('[') by {
        if i >= 4 {
            assert(w[i] == name[i - 4]);
        } else if i == 1 {
            assert(w[i] == f);
            assert forall|j: int| 0 <= j < f.len() implies f[j] != '[' by {
                assert(is_digit(f[j]));
            }
        } else if i == 2 {
            assert(w[i] == g);
            lemma_no_bracket_in_number(signal as int);
        } else if i == 3 {
            assert(w[i] == age);
            assert forall|j: int| 0 <= j < age.len() implies age[j] != '[' by {
                assert(is_digit(age[j]) || age[j] == '.');
            }
        }
    }
    lemma_words_of_joined(w);
    let body = spaced(w);
    lemma_no_bracket(w);
    let front = body + seq![' '];
    let t = body + seq![' ', '['] + flags;
    assert(t == front + seq!['['] + flags);
    assert forall|i: int| 0 <= i < front.len() implies !in_class(
        Class::Is('['),
        #[trigger] front[i],
    ) by {
        if i < body.len() {
            assert(front[i] == body[i]);
            assert(body.contains(body[i]));
        }
    }
    law_cutting(front, '[', flags, Class::Is('['), 1);
    let n = prefix_len(t, Class::Is('['));
    assert(t.take(n) == front);
    assert(w[0] == bssid);
    assert(t[0] == body[0] && body[0] == bssid[0]);
    assert(t.last() == (if flags.len() > 0 {
        flags.last()
    } else {
        '['
    }));
    lemma_tidy_is_trimmed(t);
    assert(!is_white(body.last())) by {
        let l = w.last();
        assert(l == w[w.len() - 1]);
        assert(!is_white(l[l.len() - 1]));
    }
    assert(front.drop_last() == body);
    assert(front.last() == ' ');
    assert(trim_back(front, Class::White) == trim_back(body, Class::White));
    assert(trim_back(body, Class::White) == body);
    reveal_strlit("BSSID");
    reveal_strlit("Wifi");
    assert(body.len() >= bssid.len() && body.take(bssid.len() as int) == bssid) by {
        assert(w.len() >= 4);
        assert(body == w[0] + seq![' '] + spaced(w.skip(1)));
    }
    if has_prefix(t, "BSSID"@) {
        assert(t.take(5) == body.take(bssid.len() as int).take(5));
        assert(bssid.take(5) == "BSSID"@);
    }
    if has_prefix(t, "Wifi"@) {
        assert(t.take(4) == body.take(bssid.len() as int).take(4));
        assert(bssid.take(4) == "Wifi"@);
    }
    law_decimal_read_back(freq as nat, u32::MAX as nat);
    law_signed_decimal_read_back(signal as int, i32::MAX as nat);
    assert(w[1] == f && w[2] == g && w[3] == age);
    lemma_no_bracket_in_number(signal as int);
    assert forall|i: int| 0 <= i < g.len() implies !in_class(Class::Is('('), #[trigger] g[i]) by {}
    law_cutting(g, '(', seq![], Class::Is('('), 1);
    assert(g.take(g.len() as int) == g);
    assert(w.skip(4) == name);
    assert(listed_name(w) == joined(name, " "@));
}

proof fn lemma_no_bracket_in_number(i: int)
    ensures
        !dec_int(i).contains('['),
        forall|x: int|
            0 <= x < dec_int(i).len() ==> #[trigger] dec_int(i)[x] != '(' && dec_int(i)[x] != '[',
{
    let n: nat = if i < 0 {
        (-i) as nat
    } else {
        i as nat
    };
    lemma_dec(n);
    assert forall|x: int| 0 <= x < dec_int(i).len() implies #[trigger] dec_int(i)[x] != '('
        && dec_int(i)[x] != '[' by {
        if i < 0 {
            if x > 0 {
                assert(dec_int(i)[x] == dec(n)[x - 1]);
                assert(is_digit(dec(n)[x - 1]));
            }
        } else {
            assert(is_digit(dec(n)[x]));
        }
    }
}

proof fn lemma_no_bracket(w: Seq<Seq<char>>)
    requires
        forall|i: int| 0 <= i < w.len() ==> !(#[trigger] w[i]).contains('['),
    ensures
        !spaced(w).contains('['),
    decreases w.len(),
{
    if w.len() == 1 {
        assert(!w[0].contains('['));
    } else if w.len() > 1 {
        let r = w.skip(1);
        assert forall|i: int| 0 <= i < r.len() implies !(#[trigger] r[i]).contains('[') by {
            assert(r[i] == w[i + 1]);
        }
        lemma_no_bracket(r);
        let s = spaced(w);
        if s.contains('[') {
            let i = choose|i: int| 0 <= i < s.len() && s[i] == '[';
            if i < w[0].len() {
                assert(w[0][i] == '[');
                assert(w[0].contains('['));
            } else if i > w[0].len() {
                assert(spaced(r)[i - w[0].len() - 1] == '[');
            }
        }
    }
}

/// A member's band is known by its common spellings, and by no other.
pub proof fn law_band_hint(band: Seq<char>)
    ensures
        band_hint(band) == Some(true) <==> band == "5"@ || band == "5g"@ || band == "5G"@,
        band_hint(band) == Some(false) <==> band == "2.4"@ || band == "24"@ || band == "2.4g"@ || band
            == "2G"@ || band == "2g"@,
{
    reveal_strlit("5");
    reveal_strlit("5g");
    reveal_strlit("5G");
    reveal_strlit("2.4");
    reveal_strlit("24");
    reveal_strlit("2.4g");
    reveal_strlit("2G");
    reveal_strlit("2g");
    assert("5"@[0] == '5' && "5g"@[0] == '5' && "5G"@[0] == '5');
    assert("2.4"@[0] == '2' && "24"@[0] == '2' && "2.4g"@[0] == '2' && "2G"@[0] == '2' && "2g"@[0]
        == '2');
}

/// With fewer than two networks saved there is no pair, and it is told what is missing: everything,
/// or the other band of the one that there is.
pub proof fn law_missing_pair_is_reported(name: Seq<char>)
    ensures
        pair_report(seq![]) == (false, "未读到已保存网络（请先在系统连过 WiFi）"@),
        pair_report(seq![name]) == (false, "仅 1 个："@ + name + "；请再保存对端频段"@),
{
}

} // verus!
