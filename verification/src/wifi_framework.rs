//! Saved networks and how to connect to them through the system: the listings of `cmd wifi` and
//! the system's own store, the kind of protection, the key, and what a failure says.

use crate::band_bond::{lemma_words_of_joined, spaced};
use crate::config::opt_text;
use crate::text::{
    ascii_lower, byte_len, cat, contains, find_class, from_chars, from_utf8_lossy, has_prefix,
    has_sub, has_suffix, in_class, is_white, join_from, joined, law_cutting, law_replacing,
    law_trimming, lemma_tidy_is_trimmed, len_bytes, lines, lines_of, list_has, lossy_text,
    prefix_len, replace, replaced, starts_with, str_eq, texts, to_ascii_lower, to_chars, trim,
    trim_both, trim_class, trimmed, words, words_of, Class,
};
use crate::wpa_ctrl::with_new;
use vstd::prelude::*;
use vstd::string::*;
use vstd::utf8::*;

verus! {

/// How a network is protected.
#[derive(Clone, Copy, Debug, PartialEq, Eq, Structural)]
pub enum WifiSecurity {
    Open,
    Wpa2,
    Wpa3,
}

impl WifiSecurity {
    /// The word for it on the command line.
    pub open spec fn token(self) -> Seq<char> {
        match self {
            WifiSecurity::Open => "open"@,
            WifiSecurity::Wpa2 => "wpa2"@,
            WifiSecurity::Wpa3 => "wpa3"@,
        }
    }

    /// The word for it on the command line.
    pub fn cmd_token(self) -> (r: &'static str)
        ensures
            r@ == self.token(),
    {
        match self {
            WifiSecurity::Open => "open",
            WifiSecurity::Wpa2 => "wpa2",
            WifiSecurity::Wpa3 => "wpa3",
        }
    }
}

/// The protection that a word of a listing stands for.
pub open spec fn sec_token(t: Seq<char>) -> Option<WifiSecurity> {
    let l = ascii_lower(t);
    if has_sub(l, "sae"@) || has_sub(l, "wpa3"@) {
        Some(WifiSecurity::Wpa3)
    } else if has_sub(l, "wpa"@) || has_sub(l, "psk"@) {
        Some(WifiSecurity::Wpa2)
    } else if l == "open"@ || has_prefix(l, "owe"@) {
        Some(WifiSecurity::Open)
    } else {
        None
    }
}

/// The protection that a word of a listing stands for.
pub fn parse_sec_token(t: &str) -> (r: Option<WifiSecurity>)
    ensures
        r == sec_token(t@),
{
    let l = to_ascii_lower(t);
    if contains(l.as_str(), "sae") || contains(l.as_str(), "wpa3") {
        Some(WifiSecurity::Wpa3)
    } else if contains(l.as_str(), "wpa") || contains(l.as_str(), "psk") {
        Some(WifiSecurity::Wpa2)
    } else if str_eq(l.as_str(), "open") || starts_with(l.as_str(), "owe") {
        Some(WifiSecurity::Open)
    } else {
        None
    }
}

/// A row of `cmd wifi list-networks`: after a number the name, whose words are put together with
/// single blanks, and a last word for the protection where there is one.
pub open spec fn listed_network(line: Seq<char>) -> Option<(Seq<char>, Option<WifiSecurity>)> {
    let t = trimmed(line);
    let w = words_of(t);
    if t.len() == 0 || has_prefix(t, "Network"@) || w.len() < 2 {
        None
    } else {
        let sec = sec_token(w.last());
        let end = if sec is Some {
            w.len() - 1
        } else {
            w.len() as int
        };
        let name = joined(w.take(end).skip(1), " "@);
        if name.len() == 0 {
            None
        } else {
            Some((name, sec))
        }
    }
}

/// The networks in the rows, in their order.
pub open spec fn listed_networks(ls: Seq<Seq<char>>) -> Seq<(Seq<char>, Option<WifiSecurity>)>
    decreases ls.len(),
{
    if ls.len() == 0 {
        seq![]
    } else {
        match listed_network(ls.last()) {
            Some(n) => listed_networks(ls.drop_last()).push(n),
            None => listed_networks(ls.drop_last()),
        }
    }
}

/// The contents of a list of networks.
pub open spec fn network_models(v: Seq<(String, Option<WifiSecurity>)>) -> Seq<
    (Seq<char>, Option<WifiSecurity>),
> {
    v.map_values(|n: (String, Option<WifiSecurity>)| (n.0@, n.1))
}

fn parse_listed_network(line: &str) -> (r: Option<(String, Option<WifiSecurity>)>)
    ensures
        r is Some <==> listed_network(line@) is Some,
        r matches Some(n) ==> listed_network(line@) == Some((n.0@, n.1)),
{
    let t = trim(line);
    if t.as_str().is_empty() || starts_with(t.as_str(), "Network") {
        return None;
    }
    let mut parts = words(t.as_str());
    let ghost w = texts(parts@);
    if parts.len() < 2 {
        return None;
    }
    let last = parts.len() - 1;
    assert(w.last() == parts@[last as int]@);
    let sec = parse_sec_token(parts[last].as_str());
    let ghost end = if sec is Some {
        w.len() - 1
    } else {
        w.len() as int
    };
    if sec.is_some() {
        let ghost before = parts@;
        parts.pop();
        assert(texts(parts@) == w.take(end));
    } else {
        assert(texts(parts@) == w.take(end));
    }
    let name = join_from(&parts, 1, " ");
    if name.as_str().is_empty() {
        return None;
    }
    Some((name, sec))
}

/// Reads `cmd wifi list-networks`: names with their protection, where it is given.
pub fn parse_network_rows(text: &str) -> (r: Vec<(String, Option<WifiSecurity>)>)
    ensures
        network_models(r@) == listed_networks(lines_of(text@)),
{
    let ls = lines(text);
    let mut out: Vec<(String, Option<WifiSecurity>)> = Vec::new();
    let mut i: usize = 0;
    assert(texts(ls@).take(0) == Seq::<Seq<char>>::empty());
    assert(network_models(out@) == listed_networks(texts(ls@).take(0)));
    while i < ls.len()
        invariant
            i <= ls@.len(),
            network_models(out@) == listed_networks(texts(ls@).take(i as int)),
        decreases ls@.len() - i,
    {
        let ghost q = texts(ls@).take(i + 1);
        assert(q.drop_last() == texts(ls@).take(i as int));
        assert(q.last() == ls@[i as int]@);
        let ghost before = out@;
        if let Some(n) = parse_listed_network(ls[i].as_str()) {
            out.push(n);
            assert(network_models(out@) == network_models(before).push((n.0@, n.1)));
        }
        i = i + 1;
    }
    assert(texts(ls@).take(i as int) == texts(ls@));
    out
}

/// Reads the output of `cmd wifi list-networks`; nothing where the command failed.
pub fn network_rows_from_cmd(success: bool, stdout: &Vec<u8>) -> (r: Vec<
    (String, Option<WifiSecurity>),
>)
    ensures
        network_models(r@) == (if success {
            listed_networks(lines_of(lossy_text(stdout@)))
        } else {
            seq![]
        }),
{
    if !success {
        let none: Vec<(String, Option<WifiSecurity>)> = Vec::new();
        assert(network_models(none@) == Seq::<(Seq<char>, Option<WifiSecurity>)>::empty());
        return none;
    }
    let text = from_utf8_lossy(stdout);
    parse_network_rows(text.as_str())
}

/// The names of the networks, each once.
pub open spec fn distinct_ssids(l: Seq<(Seq<char>, Option<WifiSecurity>)>) -> Seq<Seq<char>>
    decreases l.len(),
{
    if l.len() == 0 {
        seq![]
    } else {
        with_new(distinct_ssids(l.drop_last()), l.last().0)
    }
}

/// The names of the networks, each once.
pub fn ssids_from_cmd_list(rows: &Vec<(String, Option<WifiSecurity>)>) -> (r: Vec<String>)
    ensures
        texts(r@) == distinct_ssids(network_models(rows@)),
{
    let ghost l = network_models(rows@);
    let mut out: Vec<String> = Vec::new();
    let mut i: usize = 0;
    assert(l.take(0) == Seq::<(Seq<char>, Option<WifiSecurity>)>::empty());
    assert(texts(out@) == distinct_ssids(l.take(0)));
    while i < rows.len()
        invariant
            l == network_models(rows@),
            i <= rows@.len(),
            texts(out@) == distinct_ssids(l.take(i as int)),
        decreases rows@.len() - i,
    {
        assert(l.take(i + 1).drop_last() == l.take(i as int));
        assert(l.take(i + 1).last().0 == rows@[i as int].0@);
        if !list_has(&out, rows[i].0.as_str()) {
            let ghost before = out@;
            out.push(rows[i].0.clone());
            assert(texts(out@) == texts(before).push(rows@[i as int].0@));
        }
        i = i + 1;
    }
    assert(l.take(i as int) == l);
    out
}

/// Position of the last character of the class; -1 where there is none.
pub open spec fn last_position(s: Seq<char>, k: Class) -> int
    decreases s.len(),
{
    if s.len() == 0 {
        -1
    } else if in_class(k, s.last()) {
        s.len() - 1
    } else {
        last_position(s.drop_last(), k)
    }
}

/// What stands between the first `>` and the last `<` of a line, with two entities resolved and
/// without white space and quotes around it; nothing where that is empty.
pub open spec fn element_text(line: Seq<char>) -> Option<Seq<char>> {
    let start = prefix_len(line, Class::Is('>')) + 1;
    let end = last_position(line, Class::Is('<'));
    if start > line.len() || end <= start {
        None
    } else {
        let a = replaced(line.subrange(start, end), "&quot;"@, "\""@);
        let b = replaced(a, "&amp;"@, "&"@);
        let t = trim_both(trimmed(b), Class::Is('"'));
        if t.len() == 0 {
            None
        } else {
            Some(t)
        }
    }
}

/// What stands between the tags of a line of the store.
pub fn extract_quoted_xml_string(line: &str) -> (r: Option<String>)
    ensures
        opt_text(r) == element_text(line@),
{
    let v = to_chars(line);
    assert(v@.skip(0) == v@);
    let gt = find_class(&v, Class::Is('>'), 0);
    if gt >= v.len() {
        return None;
    }
    let start: usize = gt + 1;
    let mut e: usize = v.len();
    assert(v@.take(e as int) == v@);
    while e > 0 && v[e - 1] != '<'
        invariant
            e <= v@.len(),
            last_position(v@.take(e as int), Class::Is('<')) == last_position(
                v@,
                Class::Is('<'),
            ),
        decreases e,
    {
        assert(v@.take(e as int).last() == v@[e - 1]);
        assert(v@.take(e as int).drop_last() == v@.take(e - 1));
        e = e - 1;
    }
    proof {
        if e > 0 {
            assert(v@.take(e as int).last() == v@[e - 1]);
        }
        assert(last_position(v@, Class::Is('<')) == e - 1);
    }
    if e == 0 || e - 1 <= start {
        return None;
    }
    proof {
        reveal_strlit("&quot;");
        reveal_strlit("&amp;");
    }
    let inner = from_chars(&v, start, e - 1);
    let a = replace(inner.as_str(), "&quot;", "\"");
    let b = replace(a.as_str(), "&amp;", "&");
    let t = trim_class(trim(b.as_str()).as_str(), Class::Is('"'));
    if t.as_str().is_empty() {
        None
    } else {
        Some(t)
    }
}

/// Whether a line of the store gives a name.
pub open spec fn is_ssid_line(line: Seq<char>) -> bool {
    has_sub(line, "name=\"SSID\""@) || has_sub(line, "name='SSID'"@)
}

fn ssid_line(line: &str) -> (r: bool)
    ensures
        r == is_ssid_line(line@),
{
    contains(line, "name=\"SSID\"") || contains(line, "name='SSID'")
}

/// The names in the lines of the store, each once.
pub open spec fn store_ssids(ls: Seq<Seq<char>>) -> Seq<Seq<char>>
    decreases ls.len(),
{
    if ls.len() == 0 {
        seq![]
    } else {
        let u = store_ssids(ls.drop_last());
        if is_ssid_line(ls.last()) && element_text(ls.last()) is Some {
            with_new(u, element_text(ls.last())->0)
        } else {
            u
        }
    }
}

/// The names in the system's store, each once.
pub fn parse_store_ssids(raw: &str) -> (r: Vec<String>)
    ensures
        texts(r@) == store_ssids(lines_of(raw@)),
{
    let ls = lines(raw);
    let mut out: Vec<String> = Vec::new();
    let mut i: usize = 0;
    assert(texts(ls@).take(0) == Seq::<Seq<char>>::empty());
    assert(texts(out@) == store_ssids(texts(ls@).take(0)));
    while i < ls.len()
        invariant
            i <= ls@.len(),
            texts(out@) == store_ssids(texts(ls@).take(i as int)),
        decreases ls@.len() - i,
    {
        let ghost q = texts(ls@).take(i + 1);
        assert(q.drop_last() == texts(ls@).take(i as int));
        assert(q.last() == ls@[i as int]@);
        if ssid_line(ls[i].as_str()) {
            if let Some(s) = extract_quoted_xml_string(ls[i].as_str()) {
                if !list_has(&out, s.as_str()) {
                    let ghost before = out@;
                    out.push(s);
                    assert(texts(out@) == texts(before).push(s@));
                }
            }
        }
        i = i + 1;
    }
    assert(texts(ls@).take(i as int) == texts(ls@));
    out
}

/// The names in the system's store; none where it cannot be read.
pub fn ssids_from_config_store(raw: Option<&str>) -> (r: Vec<String>)
    ensures
        texts(r@) == (match raw {
            Some(t) => store_ssids(lines_of(t@)),
            None => seq![],
        }),
{
    match raw {
        Some(t) => parse_store_ssids(t),
        None => {
            let none: Vec<String> = Vec::new();
            assert(texts(none@) == Seq::<Seq<char>>::empty());
            none
        },
    }
}

/// The list with the trimmed names of another added, without empty ones and each once.
pub open spec fn with_names(u: Seq<Seq<char>>, l: Seq<Seq<char>>) -> Seq<Seq<char>>
    decreases l.len(),
{
    if l.len() == 0 {
        u
    } else {
        let b = with_names(u, l.drop_last());
        let t = trimmed(l.last());
        if t.len() == 0 {
            b
        } else {
            with_new(b, t)
        }
    }
}

fn add_names(out: &mut Vec<String>, list: &[String])
    ensures
        texts(final(out)@) == with_names(texts(old(out)@), texts(list@)),
{
    let ghost u = texts(out@);
    let ghost l = texts(list@);
    let mut i: usize = 0;
    assert(l.take(0) == Seq::<Seq<char>>::empty());
    while i < list.len()
        invariant
            l == texts(list@),
            i <= list@.len(),
            texts(out@) == with_names(u, l.take(i as int)),
        decreases list@.len() - i,
    {
        assert(l.take(i + 1).drop_last() == l.take(i as int));
        assert(l.take(i + 1).last() == list@[i as int]@);
        let t = trim(list[i].as_str());
        if !t.as_str().is_empty() && !list_has(out, t.as_str()) {
            let ghost before = out@;
            out.push(t);
            assert(texts(out@) == texts(before).push(t@));
        }
        i = i + 1;
    }
    assert(l.take(i as int) == l);
}

/// The saved names from all three sources, trimmed, without empty ones and each once, in the
/// order of the sources.
pub fn merge_saved_ssids(wpa: &[String], cmd: &[String], store: &[String]) -> (r: Vec<String>)
    ensures
        texts(r@) == with_names(with_names(with_names(seq![], texts(wpa@)), texts(cmd@)), texts(store@)),
{
    let mut out: Vec<String> = Vec::new();
    assert(texts(out@) == Seq::<Seq<char>>::empty());
    add_names(&mut out, wpa);
    add_names(&mut out, cmd);
    add_names(&mut out, store);
    out
}

/// Merging keeps a list free of repetitions, and every name that is not blank is in the result.
pub proof fn law_merged_names(u: Seq<Seq<char>>, l: Seq<Seq<char>>)
    requires
        u.no_duplicates(),
    ensures
        with_names(u, l).no_duplicates(),
        forall|i: int| 0 <= i < u.len() ==> with_names(u, l).contains(#[trigger] u[i]),
        forall|i: int|
            0 <= i < l.len() && trimmed(#[trigger] l[i]).len() > 0 ==> with_names(u, l).contains(
                trimmed(l[i]),
            ),
    decreases l.len(),
{
    if l.len() == 0 {
    } else {
        let t = l.drop_last();
        law_merged_names(u, t);
        let b = with_names(u, t);
        let q = with_names(u, l);
        assert forall|x: Seq<char>| b.contains(x) implies q.contains(x) by {
            let a = choose|a: int| 0 <= a < b.len() && b[a] == x;
            assert(q[a] == x);
        }
        assert forall|i: int| 0 <= i < l.len() && trimmed(#[trigger] l[i]).len() > 0 implies
            q.contains(trimmed(l[i])) by {
            if i < t.len() {
                assert(t[i] == l[i]);
            } else if !b.contains(trimmed(l[i])) {
                assert(q[b.len() as int] == trimmed(l[i]));
            }
        }
    }
}

/// The protection that a line of the store's keys gives.
pub open spec fn key_security(line: Seq<char>) -> Option<WifiSecurity> {
    let l = ascii_lower(line);
    if has_sub(l, "sae"@) || has_sub(l, "wpa3"@) {
        Some(WifiSecurity::Wpa3)
    } else if has_sub(l, "wpa_psk"@) || has_sub(l, "wpa2"@) || has_sub(l, "psk"@) {
        Some(WifiSecurity::Wpa2)
    } else if has_sub(l, "none"@) || has_sub(l, "open"@) || has_sub(l, "owe"@) {
        Some(WifiSecurity::Open)
    } else {
        None
    }
}

/// The protection that the store's lines give for a name: that of the first line of keys with
/// the name in it that gives one.
pub open spec fn store_security(ls: Seq<Seq<char>>, ssid: Seq<char>) -> Option<WifiSecurity>
    decreases ls.len(),
{
    if ls.len() == 0 {
        None
    } else if has_sub(ls[0], "ConfigKey"@) && (has_sub(ls[0], "&quot;"@ + ssid + "&quot;"@)
        || has_sub(ls[0], ssid)) && key_security(ls[0]) is Some {
        key_security(ls[0])
    } else {
        store_security(ls.skip(1), ssid)
    }
}

fn security_of_key_line(line: &str) -> (r: Option<WifiSecurity>)
    ensures
        r == key_security(line@),
{
    let l = to_ascii_lower(line);
    if contains(l.as_str(), "sae") || contains(l.as_str(), "wpa3") {
        return Some(WifiSecurity::Wpa3);
    }
    if contains(l.as_str(), "wpa_psk") || contains(l.as_str(), "wpa2") || contains(
        l.as_str(),
        "psk",
    ) {
        return Some(WifiSecurity::Wpa2);
    }
    if contains(l.as_str(), "none") || contains(l.as_str(), "open") || contains(
        l.as_str(),
        "owe",
    ) {
        return Some(WifiSecurity::Open);
    }
    None
}

/// The protection that the store gives for a name.
pub fn security_from_store(raw: &str, ssid: &str) -> (r: Option<WifiSecurity>)
    ensures
        r == store_security(lines_of(raw@), ssid@),
{
    let needle = cat(cat("&quot;".to_owned(), ssid), "&quot;");
    let ls = lines(raw);
    let ghost l = texts(ls@);
    let mut i: usize = 0;
    assert(l.skip(0) == l);
    while i < ls.len()
        invariant
            l == texts(ls@),
            l == lines_of(raw@),
            needle@ == "&quot;"@ + ssid@ + "&quot;"@,
            i <= ls@.len(),
            store_security(l.skip(i as int), ssid@) == store_security(l, ssid@),
        decreases ls@.len() - i,
    {
        let line = ls[i].as_str();
        assert(l.skip(i as int)[0] == line@);
        assert(l.skip(i as int).skip(1) == l.skip(i + 1));
        if contains(line, "ConfigKey") && (contains(line, needle.as_str()) || contains(
            line,
            ssid,
        )) {
            let sec = security_of_key_line(line);
            if sec.is_some() {
                return sec;
            }
        }
        i = i + 1;
    }
    None
}

/// The protection that the listing gives for a name: that of the first row of the name that
/// gives one.
pub open spec fn listed_security(
    l: Seq<(Seq<char>, Option<WifiSecurity>)>,
    ssid: Seq<char>,
) -> Option<WifiSecurity>
    decreases l.len(),
{
    if l.len() == 0 {
        None
    } else if l[0].0 == ssid && l[0].1 is Some {
        l[0].1
    } else {
        listed_security(l.skip(1), ssid)
    }
}

/// The protection of a network: what the listing says, else what the store says, else WPA2.
pub fn security_for_ssid(
    ssid: &str,
    rows: &Vec<(String, Option<WifiSecurity>)>,
    store: Option<&str>,
) -> (r: WifiSecurity)
    ensures
        r == (match listed_security(network_models(rows@), ssid@) {
            Some(s) => s,
            None => match store {
                Some(t) => match store_security(lines_of(t@), ssid@) {
                    Some(s) => s,
                    None => WifiSecurity::Wpa2,
                },
                None => WifiSecurity::Wpa2,
            },
        }),
{
    let ghost l = network_models(rows@);
    let mut i: usize = 0;
    assert(l.skip(0) == l);
    while i < rows.len()
        invariant
            l == network_models(rows@),
            i <= rows@.len(),
            listed_security(l.skip(i as int), ssid@) == listed_security(l, ssid@),
        decreases rows@.len() - i,
    {
        assert(l.skip(i as int)[0] == (rows@[i as int].0@, rows@[i as int].1));
        assert(l.skip(i as int).skip(1) == l.skip(i + 1));
        if str_eq(rows[i].0.as_str(), ssid) {
            if let Some(s) = rows[i].1 {
                return s;
            }
        }
        i = i + 1;
    }
    if let Some(t) = store {
        if let Some(s) = security_from_store(t, ssid) {
            return s;
        }
    }
    WifiSecurity::Wpa2
}

/// Whether a line of the store gives exactly that name.
pub open spec fn names_network(line: Seq<char>, ssid: Seq<char>) -> bool {
    is_ssid_line(line) && (has_sub(line, "&quot;"@ + ssid + "&quot;"@) || has_sub(
        line,
        "\""@ + ssid + "\""@,
    ) || element_text(line) == Some(ssid))
}

/// Whether a line of the store gives a key.
pub open spec fn is_key_line(line: Seq<char>) -> bool {
    has_sub(line, "name=\"PreSharedKey\""@) || has_sub(line, "name='PreSharedKey'"@)
}

/// Whether every character is a star.
pub open spec fn all_stars(s: Seq<char>) -> bool {
    forall|i: int| 0 <= i < s.len() ==> #[trigger] s[i] == '*'
}

/// What is found where a key is looked for.
pub enum KeyModel {
    Key(Seq<char>),
    /// The network has none.
    Null,
    /// It is stored in a form that tells nothing.
    Hidden,
    Missing,
}

/// What one line of the store says of the key.
pub open spec fn key_of_line(line: Seq<char>) -> Option<KeyModel> {
    if !is_key_line(line) {
        None
    } else if has_sub(line, "<null"@) {
        Some(KeyModel::Null)
    } else {
        match element_text(line) {
            Some(p) => if all_stars(p) {
                Some(KeyModel::Hidden)
            } else {
                Some(KeyModel::Key(p))
            },
            None => None,
        }
    }
}

/// The key in the lines from `j` up to `end`. After line `i` the search ends where another
/// network begins.
pub open spec fn key_between(ls: Seq<Seq<char>>, i: int, j: int, end: int) -> KeyModel
    decreases end - j,
{
    if j >= end {
        KeyModel::Missing
    } else {
        match key_of_line(ls[j]) {
            Some(k) => k,
            None => if j > i && has_sub(ls[j], "<WifiConfiguration>"@) {
                KeyModel::Missing
            } else {
                key_between(ls, i, j + 1, end)
            },
        }
    }
}

/// The first line from `i` on that gives the name; the number of lines where there is none.
pub open spec fn network_line(ls: Seq<Seq<char>>, ssid: Seq<char>, i: int) -> int
    decreases ls.len() - i,
{
    if i >= ls.len() || names_network(ls[i], ssid) {
        i
    } else {
        network_line(ls, ssid, i + 1)
    }
}

/// The key of a network in the store: it is looked for in the fifty lines from the first one on
/// that gives the name. Else why there is none to be had.
pub open spec fn stored_key(store: Option<Seq<char>>, ssid: Seq<char>) -> Result<
    Seq<char>,
    Seq<char>,
> {
    match store {
        None => Err(
            "读不到 WifiConfigStore（无 root 或路径变化）。请确认已用系统设置连接并保存「"@
                + ssid + "」。"@,
        ),
        Some(raw) => {
            let ls = lines_of(raw);
            let i = network_line(ls, ssid, 0);
            if i >= ls.len() {
                Err(
                    "系统未保存「"@ + ssid
                        + "」。请先在系统设置连接该 WiFi 并保存，再让 AmberGuard 切换。"@,
                )
            } else {
                let end = if ls.len() < i + 50 {
                    ls.len() as int
                } else {
                    i + 50
                };
                match key_between(ls, i, i, end) {
                    KeyModel::Key(p) => Ok(p),
                    KeyModel::Null => Err(
                        "「"@ + ssid
                            + "」在系统里无 PreSharedKey（开放网应走 open；企业/证书网无法代连）"@,
                    ),
                    KeyModel::Hidden => Err(
                        "「"@ + ssid
                            + "」密码已被系统加密存储，模块无法代连。请保持系统已保存该网，或改用可明文保存的 ROM/设置。"@,
                    ),
                    KeyModel::Missing => Err(
                        "ConfigStore 有「"@ + ssid
                            + "」但未找到 PreSharedKey。请用系统 WiFi 重新连接并勾选保存后重试。"@,
                    ),
                }
            }
        },
    }
}

/// The content of a result.
pub open spec fn result_texts(r: Result<String, String>) -> Result<Seq<char>, Seq<char>> {
    match r {
        Ok(s) => Ok(s@),
        Err(e) => Err(e@),
    }
}

fn is_all_stars(s: &str) -> (r: bool)
    ensures
        r == all_stars(s@),
{
    let v = to_chars(s);
    let mut i: usize = 0;
    while i < v.len()
        invariant
            v@ == s@,
            i <= v@.len(),
            forall|x: int| 0 <= x < i ==> #[trigger] s@[x] == '*',
        decreases v@.len() - i,
    {
        if v[i] != '*' {
            assert(s@[i as int] != '*');
            return false;
        }
        i = i + 1;
    }
    true
}

enum KeyFound {
    Key(String),
    Null,
    Hidden,
    Missing,
}

spec fn key_model(k: KeyFound) -> KeyModel {
    match k {
        KeyFound::Key(s) => KeyModel::Key(s@),
        KeyFound::Null => KeyModel::Null,
        KeyFound::Hidden => KeyModel::Hidden,
        KeyFound::Missing => KeyModel::Missing,
    }
}

fn read_key_line(line: &str) -> (r: Option<KeyFound>)
    ensures
        r is Some <==> key_of_line(line@) is Some,
        r matches Some(k) ==> key_of_line(line@) == Some(key_model(k)),
{
    if !(contains(line, "name=\"PreSharedKey\"") || contains(line, "name='PreSharedKey'")) {
        return None;
    }
    if contains(line, "<null") {
        return Some(KeyFound::Null);
    }
    match extract_quoted_xml_string(line) {
        Some(p) => if is_all_stars(p.as_str()) {
            Some(KeyFound::Hidden)
        } else {
            Some(KeyFound::Key(p))
        },
        None => None,
    }
}

fn find_key(ls: &Vec<String>, i: usize, end: usize) -> (r: KeyFound)
    requires
        i <= end <= ls@.len(),
    ensures
        key_model(r) == key_between(texts(ls@), i as int, i as int, end as int),
{
    let ghost l = texts(ls@);
    let mut j: usize = i;
    while j < end
        invariant
            l == texts(ls@),
            i <= j <= end <= ls@.len(),
            key_between(l, i as int, j as int, end as int) == key_between(
                l,
                i as int,
                i as int,
                end as int,
            ),
        decreases end - j,
    {
        assert(l[j as int] == ls@[j as int]@);
        if let Some(k) = read_key_line(ls[j].as_str()) {
            return k;
        }
        if j > i && contains(ls[j].as_str(), "<WifiConfiguration>") {
            return KeyFound::Missing;
        }
        j = j + 1;
    }
    KeyFound::Missing
}

/// The key of a network in the system's store; else what the user is told.
pub fn psk_from_store(ssid: &str, store: Option<&str>) -> (r: Result<String, String>)
    ensures
        result_texts(r) == stored_key(
            match store {
                Some(t) => Some(t@),
                None => None,
            },
            ssid@,
        ),
{
    let raw = match store {
        Some(t) => t,
        None => {
            return Err(
                cat(
                    cat(
                        "读不到 WifiConfigStore（无 root 或路径变化）。请确认已用系统设置连接并保存「".to_owned(),
                        ssid,
                    ),
                    "」。",
                ),
            );
        },
    };
    let needle = cat(cat("&quot;".to_owned(), ssid), "&quot;");
    let quoted = cat(cat("\"".to_owned(), ssid), "\"");
    let ls = lines(raw);
    let ghost l = texts(ls@);
    let mut i: usize = 0;
    while i < ls.len()
        invariant
            store matches Some(t) && t@ == raw@,
            l == texts(ls@),
            l == lines_of(raw@),
            needle@ == "&quot;"@ + ssid@ + "&quot;"@,
            quoted@ == "\""@ + ssid@ + "\""@,
            i <= ls@.len(),
            network_line(l, ssid@, i as int) == network_line(l, ssid@, 0),
        decreases ls@.len() - i,
    {
        let line = ls[i].as_str();
        assert(l[i as int] == line@);
        let same = match extract_quoted_xml_string(line) {
            Some(t) => str_eq(t.as_str(), ssid),
            None => false,
        };
        if ssid_line(line) && (contains(line, needle.as_str()) || contains(line, quoted.as_str())
            || same) {
            let end: usize = if ls.len() - i < 50 {
                ls.len()
            } else {
                i + 50
            };
            return match find_key(&ls, i, end) {
                KeyFound::Key(p) => Ok(p),
                KeyFound::Null => Err(
                    cat(
                        cat("「".to_owned(), ssid),
                        "」在系统里无 PreSharedKey（开放网应走 open；企业/证书网无法代连）",
                    ),
                ),
                KeyFound::Hidden => Err(
                    cat(
                        cat("「".to_owned(), ssid),
                        "」密码已被系统加密存储，模块无法代连。请保持系统已保存该网，或改用可明文保存的 ROM/设置。",
                    ),
                ),
                KeyFound::Missing => Err(
                    cat(
                        cat("ConfigStore 有「".to_owned(), ssid),
                        "」但未找到 PreSharedKey。请用系统 WiFi 重新连接并勾选保存后重试。",
                    ),
                ),
            };
        }
        i = i + 1;
    }
    Err(
        cat(
            cat("系统未保存「".to_owned(), ssid),
            "」。请先在系统设置连接该 WiFi 并保存，再让 AmberGuard 切换。",
        ),
    )
}

/// The arguments that connect to a network.
pub open spec fn connect_arguments(
    ssid: Seq<char>,
    sec: WifiSecurity,
    psk: Option<Seq<char>>,
    bssid: Option<Seq<char>>,
) -> Result<Seq<Seq<char>>, Seq<char>> {
    let head = seq!["wifi"@, "connect-network"@, ssid, sec.token()];
    let tail = match bssid {
        Some(b) => if b.len() > 0 {
            seq!["-b"@, b]
        } else {
            seq![]
        },
        None => seq![],
    };
    if sec == WifiSecurity::Open {
        Ok(head + tail)
    } else {
        match psk {
            Some(p) => Ok(head.push(p) + tail),
            None => Err("「"@ + ssid + "」需要密码但未提供"@),
        }
    }
}

/// The content of a text that may be there.
pub open spec fn opt_str(o: Option<&str>) -> Option<Seq<char>> {
    match o {
        Some(s) => Some(s@),
        None => None,
    }
}

/// The arguments that connect to a network. Only an open one can do without a key.
pub fn connect_args(ssid: &str, sec: WifiSecurity, psk: Option<&str>, bssid: Option<&str>) -> (r:
    Result<Vec<String>, String>)
    ensures
        match r {
            Ok(v) => connect_arguments(ssid@, sec, opt_str(psk), opt_str(bssid)) == Ok::<
                Seq<Seq<char>>,
                Seq<char>,
            >(texts(v@)),
            Err(e) => connect_arguments(ssid@, sec, opt_str(psk), opt_str(bssid)) == Err::<
                Seq<Seq<char>>,
                Seq<char>,
            >(e@),
        },
{
    let mut args: Vec<String> = vec![
        "wifi".to_owned(),
        "connect-network".to_owned(),
        ssid.to_owned(),
        sec.cmd_token().to_owned(),
    ];
    let ghost head = seq!["wifi"@, "connect-network"@, ssid@, sec.token()];
    assert(texts(args@) == head);
    if sec != WifiSecurity::Open {
        match psk {
            Some(p) => {
                let ghost before = args@;
                args.push(p.to_owned());
                assert(texts(args@) == texts(before).push(p@));
            },
            None => {
                return Err(cat(cat("「".to_owned(), ssid), "」需要密码但未提供"));
            },
        }
    }
    let ghost body = texts(args@);
    if let Some(b) = bssid {
        if !b.is_empty() {
            args.push("-b".to_owned());
            args.push(b.to_owned());
            assert(texts(args@) == body + seq!["-b"@, b@]);
        } else {
            assert(body == body + Seq::<Seq<char>>::empty());
        }
    } else {
        assert(body == body + Seq::<Seq<char>>::empty());
    }
    Ok(args)
}

/// What a command that failed has to say: its error output, else its output, trimmed.
pub open spec fn complaint(stderr: Seq<char>, stdout: Seq<char>) -> Seq<char> {
    if trimmed(stderr).len() > 0 {
        trimmed(stderr)
    } else {
        trimmed(stdout)
    }
}

/// Whether a message is short, or can be cut after 160 bytes.
pub open spec fn can_cut(msg: Seq<char>) -> bool {
    byte_len(msg) <= 160 || is_char_boundary(encode_utf8(msg), 160)
}

/// The message, cut after 160 bytes where it is longer: it might hold the key.
pub open spec fn cut_message(msg: Seq<char>) -> Seq<char> {
    if byte_len(msg) > 160 {
        decode_utf8(encode_utf8(msg).subrange(0, 160)) + "…"@
    } else {
        msg
    }
}

/// What the user is told of a connection that failed with a message.
pub open spec fn failure_text(ssid: Seq<char>, sec: WifiSecurity, msg: Seq<char>) -> Seq<char> {
    "框架连接失败（"@ + sec.token() + " / "@ + ssid + "）："@ + cut_message(msg)
}

/// What the user is told of a connection that failed with a message that can be cut.
pub fn connect_failure(ssid: &str, sec: WifiSecurity, msg: &str) -> (r: String)
    requires
        can_cut(msg@),
    ensures
        r@ == failure_text(ssid@, sec, msg@),
{
    let safe = if len_bytes(msg) > 160 {
        let (head, _rest) = msg.split_at(160);
        proof {
            encode_utf8_decode_utf8(head@);
        }
        cat(head.to_owned(), "…")
    } else {
        msg.to_owned()
    };
    cat(
        cat(
            cat(
                cat(cat("框架连接失败（".to_owned(), sec.cmd_token()), " / "),
                ssid,
            ),
            "）：",
        ),
        safe.as_str(),
    )
}

/// What comes of a command that was to connect. None where it failed with a message that cannot
/// be cut after 160 bytes.
pub fn connect_outcome(
    ssid: &str,
    sec: WifiSecurity,
    success: bool,
    stderr: &Vec<u8>,
    stdout: &Vec<u8>,
) -> (r: Option<Result<(), String>>)
    ensures
        success ==> r == Some(Ok::<(), String>(())),
        !success ==> ({
            let msg = complaint(lossy_text(stderr@), lossy_text(stdout@));
            match r {
                Some(Ok(())) => false,
                Some(Err(e)) => can_cut(msg) && e@ == failure_text(ssid@, sec, msg),
                None => !can_cut(msg),
            }
        }),
{
    if success {
        return Some(Ok(()));
    }
    let err = from_utf8_lossy(stderr);
    let out = from_utf8_lossy(stdout);
    let e = trim(err.as_str());
    let msg = if e.as_str().is_empty() {
        trim(out.as_str())
    } else {
        e
    };
    let text = msg.as_str();
    if len_bytes(text) > 160 && !text.is_char_boundary(160) {
        return None;
    }
    Some(Err(connect_failure(ssid, sec, text)))
}

/// What the user is told where the program could not be run.
pub fn run_failure(e: &str) -> (r: String)
    ensures
        r@ == "无法执行 cmd wifi："@ + e@,
{
    cat("无法执行 cmd wifi：".to_owned(), e)
}

/// How a connection is being made.
#[derive(Clone, Copy, Debug, PartialEq, Eq, Structural)]
pub enum ConnectStage {
    /// The only attempt.
    Only,
    /// WPA3, with WPA2 to come.
    Wpa3First,
    /// WPA2, after WPA3 has failed.
    Wpa2After,
}

/// The first attempt at a connection: open without a key, WPA2 with the stored one, WPA3 with
/// the stored one and WPA2 to come. Without a key where one is needed there is no attempt.
pub open spec fn first_attempt(sec: WifiSecurity) -> ConnectStage {
    if sec == WifiSecurity::Wpa3 {
        ConnectStage::Wpa3First
    } else {
        ConnectStage::Only
    }
}

/// A connection that is being made through the system.
#[derive(Debug)]
pub struct Connector {
    ssid: String,
    bssid: Option<String>,
    psk: Option<String>,
    sec: WifiSecurity,
    stage: ConnectStage,
    first_error: String,
}

/// What a `Connector` holds.
#[verifier::ext_equal]
pub struct ConnectorModel {
    pub ssid: Seq<char>,
    pub bssid: Option<Seq<char>>,
    pub psk: Option<Seq<char>>,
    pub sec: WifiSecurity,
    pub stage: ConnectStage,
    pub first_error: Seq<char>,
}

impl View for Connector {
    type V = ConnectorModel;

    closed spec fn view(&self) -> ConnectorModel {
        ConnectorModel {
            ssid: self.ssid@,
            bssid: opt_text(self.bssid),
            psk: opt_text(self.psk),
            sec: self.sec,
            stage: self.stage,
            first_error: self.first_error@,
        }
    }
}

impl Connector {
    /// Begins to connect, given the protection of the network and the system's store.
    pub fn start(ssid: &str, bssid: Option<&str>, sec: WifiSecurity, store: Option<&str>) -> (r:
        Result<Connector, String>)
        ensures
            match (sec, stored_key(opt_str(store), ssid@)) {
                (WifiSecurity::Open, _) => r matches Ok(c) && c@ == (ConnectorModel {
                    ssid: ssid@,
                    bssid: opt_str(bssid),
                    psk: None,
                    sec,
                    stage: ConnectStage::Only,
                    first_error: seq![],
                }),
                (_, Ok(p)) => r matches Ok(c) && c@ == (ConnectorModel {
                    ssid: ssid@,
                    bssid: opt_str(bssid),
                    psk: Some(p),
                    sec,
                    stage: first_attempt(sec),
                    first_error: seq![],
                }),
                (_, Err(e)) => r matches Err(m) && m@ == e,
            },
    {
        let b = match bssid {
            Some(t) => Some(t.to_owned()),
            None => None,
        };
        let psk = if sec == WifiSecurity::Open {
            None
        } else {
            match psk_from_store(ssid, store) {
                Ok(p) => Some(p),
                Err(e) => {
                    return Err(e);
                },
            }
        };
        let stage = if sec == WifiSecurity::Wpa3 {
            ConnectStage::Wpa3First
        } else {
            ConnectStage::Only
        };
        Ok(
            Connector {
                ssid: ssid.to_owned(),
                bssid: b,
                psk,
                sec,
                stage,
                first_error: String::new(),
            },
        )
    }

    /// The protection of the attempt that is to be made.
    pub fn security(&self) -> (r: WifiSecurity)
        ensures
            r == self@.sec,
    {
        self.sec
    }

    /// The arguments of the attempt that is to be made.
    pub fn args(&self) -> (r: Result<Vec<String>, String>)
        ensures
            match r {
                Ok(v) => connect_arguments(self@.ssid, self@.sec, self@.psk, self@.bssid) == Ok::<
                    Seq<Seq<char>>,
                    Seq<char>,
                >(texts(v@)),
                Err(e) => connect_arguments(self@.ssid, self@.sec, self@.psk, self@.bssid) == Err::<
                    Seq<Seq<char>>,
                    Seq<char>,
                >(e@),
            },
    {
        let psk = match &self.psk {
            Some(p) => Some(p.as_str()),
            None => None,
        };
        let bssid = match &self.bssid {
            Some(b) => Some(b.as_str()),
            None => None,
        };
        connect_args(self.ssid.as_str(), self.sec, psk, bssid)
    }

    /// Takes the outcome of the attempt. None where there is another one to be made: with WPA2
    /// after WPA3 has failed. Else what has come of the connection.
    pub fn after(&mut self, outcome: Result<(), String>) -> (r: Option<Result<(), String>>)
        ensures
            match outcome {
                Ok(()) => r == Some(Ok::<(), String>(())) && final(self)@ == old(self)@,
                Err(e) => match old(self)@.stage {
                    ConnectStage::Only => (r matches Some(Err(m)) && m@ == e@) && final(self)@
                        == old(self)@,
                    ConnectStage::Wpa3First => r is None && final(self)@ == (ConnectorModel {
                        sec: WifiSecurity::Wpa2,
                        stage: ConnectStage::Wpa2After,
                        first_error: e@,
                        ..old(self)@
                    }),
                    ConnectStage::Wpa2After => (r matches Some(Err(m)) && m@
                        == "wpa3 与 wpa2 均失败。"@ + old(self)@.first_error + " | "@ + e@)
                        && final(self)@ == old(self)@,
                },
            },
    {
        match outcome {
            Ok(()) => Some(Ok(())),
            Err(e) => match self.stage {
                ConnectStage::Only => Some(Err(e)),
                ConnectStage::Wpa3First => {
                    self.sec = WifiSecurity::Wpa2;
                    self.stage = ConnectStage::Wpa2After;
                    self.first_error = e;
                    None
                },
                ConnectStage::Wpa2After => Some(
                    Err(
                        cat(
                            cat(
                                cat("wpa3 与 wpa2 均失败。".to_owned(), self.first_error.as_str()),
                                " | ",
                            ),
                            e.as_str(),
                        ),
                    ),
                ),
            },
        }
    }
}

/// Begins to connect to a network through the system, by the protection that the listing or the
/// store give for it. Without a key where one is needed there is no attempt: what the user is
/// told.
pub fn framework_connect(
    ssid: &str,
    bssid: Option<&str>,
    rows: &Vec<(String, Option<WifiSecurity>)>,
    store: Option<&str>,
) -> (r: Result<Connector, String>)
    ensures
        ({
            let sec = match listed_security(network_models(rows@), ssid@) {
                Some(s) => s,
                None => match store {
                    Some(t) => match store_security(lines_of(t@), ssid@) {
                        Some(s) => s,
                        None => WifiSecurity::Wpa2,
                    },
                    None => WifiSecurity::Wpa2,
                },
            };
            match r {
                Ok(c) => c@ == (ConnectorModel {
                    ssid: ssid@,
                    bssid: opt_str(bssid),
                    psk: if sec == WifiSecurity::Open {
                        None
                    } else {
                        Some(stored_key(opt_str(store), ssid@)->Ok_0)
                    },
                    sec,
                    stage: first_attempt(sec),
                    first_error: seq![],
                }) && (sec == WifiSecurity::Open || stored_key(opt_str(store), ssid@) is Ok),
                Err(e) => sec != WifiSecurity::Open && stored_key(opt_str(store), ssid@) == Err::<
                    Seq<char>,
                    Seq<char>,
                >(e@),
            }
        }),
{
    let sec = security_for_ssid(ssid, rows, store);
    Connector::start(ssid, bssid, sec, store)
}

/// A key that is handed out is not empty and not a row of stars.
pub proof fn law_stored_key_is_usable(store: Option<Seq<char>>, ssid: Seq<char>)
    ensures
        stored_key(store, ssid) matches Ok(p) ==> p.len() > 0 && !all_stars(p),
{
    if store is Some {
        let ls = lines_of(store->0);
        let i = network_line(ls, ssid, 0);
        let end = if ls.len() < i + 50 {
            ls.len() as int
        } else {
            i + 50
        };
        lemma_key_is_usable(ls, i, i, end);
    }
}

proof fn lemma_key_is_usable(ls: Seq<Seq<char>>, i: int, j: int, end: int)
    ensures
        key_between(ls, i, j, end) matches KeyModel::Key(p) ==> p.len() > 0 && !all_stars(p),
    decreases end - j,
{
    if j < end && key_of_line(ls[j]) is None {
        lemma_key_is_usable(ls, i, j + 1, end);
    }
}

/// A word of a listing stands for WPA3 where it holds `sae` or `wpa3`, in whatever case; else for WPA2 where
/// it holds `wpa` or `psk`; else for no protection where it is `open` or starts with `owe`; else for nothing.
pub proof fn law_words_for_protection(t: Seq<char>)
    ensures
        ({
            let l = ascii_lower(t);
            let strong = has_sub(l, "sae"@) || has_sub(l, "wpa3"@);
            let usual = has_sub(l, "wpa"@) || has_sub(l, "psk"@);
            &&& sec_token(t) == Some(WifiSecurity::Wpa3) <==> strong
            &&& sec_token(t) == Some(WifiSecurity::Wpa2) <==> usual && !strong
            &&& sec_token(t) == Some(WifiSecurity::Open) <==> !strong && !usual && (l == "open"@
                || has_prefix(l, "owe"@))
            &&& first_attempt(WifiSecurity::Wpa3) == ConnectStage::Wpa3First
            &&& first_attempt(WifiSecurity::Wpa2) == ConnectStage::Only
            &&& first_attempt(WifiSecurity::Open) == ConnectStage::Only
        }),
{
}

/// A row of the listing is read as it was written: behind the number the words of the name, and behind them
/// the protection where there is a word for it.
pub proof fn law_listed_network_is_read(
    number: Seq<char>,
    name: Seq<Seq<char>>,
    word: Seq<char>,
    sec: WifiSecurity,
)
    requires
        number.len() > 0,
        number[0] != 'N',
        forall|i: int| 0 <= i < number.len() ==> !is_white(#[trigger] number[i]),
        name.len() > 0,
        forall|i: int|
            0 <= i < name.len() ==> (#[trigger] name[i]).len() > 0 && forall|j: int|
                0 <= j < name[i].len() ==> !is_white(#[trigger] name[i][j]),
        word.len() > 0,
        forall|i: int| 0 <= i < word.len() ==> !is_white(#[trigger] word[i]),
        sec_token(word) == Some(sec),
    ensures
        listed_network(spaced(seq![number] + name.push(word))) == Some(
            (joined(name, " "@), Some(sec)),
        ),
        sec_token(name.last()) is None ==> listed_network(spaced(seq![number] + name)) == Some(
            (joined(name, " "@), None::<WifiSecurity>),
        ),
{
    let w = seq![number] + name.push(word);
    let v = seq![number] + name;
    assert forall|i: int| 0 <= i < w.len() implies (#[trigger] w[i]).len() > 0 && forall|j: int|
        0 <= j < w[i].len() ==> !is_white(#[trigger] w[i][j]) by {
        if i == 0 {
            assert(w[i] == number);
        } else if i <= name.len() {
            assert(w[i] == name[i - 1]);
        } else {
            assert(w[i] == word);
        }
    }
    assert forall|i: int| 0 <= i < v.len() implies (#[trigger] v[i]).len() > 0 && forall|j: int|
        0 <= j < v[i].len() ==> !is_white(#[trigger] v[i][j]) by {
        if i == 0 {
            assert(v[i] == number);
        } else {
            assert(v[i] == name[i - 1]);
        }
    }
    lemma_words_of_joined(w);
    lemma_words_of_joined(v);
    lemma_words_of_joined(name);
    assert(w[0] == number && v[0] == number);
    lemma_row_is_tidy(w);
    lemma_row_is_tidy(v);
    reveal_strlit("Network");
    if has_prefix(spaced(w), "Network"@) {
        assert(spaced(w).take(7)[0] == number[0]);
    }
    if has_prefix(spaced(v), "Network"@) {
        assert(spaced(v).take(7)[0] == number[0]);
    }
    assert(w.last() == word);
    assert(w.take(w.len() - 1).skip(1) == name);
    assert(v.last() == name.last());
    assert(v.take(v.len() as int).skip(1) == name);
}

proof fn lemma_row_is_tidy(w: Seq<Seq<char>>)
    requires
        w.len() > 0,
        forall|i: int|
            0 <= i < w.len() ==> (#[trigger] w[i]).len() > 0 && forall|j: int|
                0 <= j < w[i].len() ==> !is_white(#[trigger] w[i][j]),
    ensures
        trimmed(spaced(w)) == spaced(w),
{
    lemma_words_of_joined(w);
    let a = w[0];
    let z = w[w.len() - 1];
    assert(!is_white(a[0]));
    assert(!is_white(z[z.len() - 1]));
    assert(w.last() == z);
    lemma_tidy_is_trimmed(spaced(w));
}

/// Every row that is one gives a network, in the order of the rows.
pub proof fn law_listing_is_read_in_order(ls: Seq<Seq<char>>, line: Seq<char>)
    ensures
        listed_networks(seq![]).len() == 0,
        listed_networks(ls.push(line)) == (match listed_network(line) {
            Some(n) => listed_networks(ls).push(n),
            None => listed_networks(ls),
        }),
{
    assert(ls.push(line).drop_last() == ls);
}

proof fn lemma_new_is_added(l: Seq<Seq<char>>, t: Seq<char>, p: Seq<char>)
    ensures
        with_new(l, t).contains(p) <==> l.contains(p) || p == t,
        l.no_duplicates() ==> with_new(l, t).no_duplicates(),
{
    let q = with_new(l, t);
    if !l.contains(t) {
        assert(q[l.len() as int] == t);
        if l.contains(p) {
            let i = choose|i: int| 0 <= i < l.len() && l[i] == p;
            assert(q[i] == p);
        }
        if q.contains(p) {
            let i = choose|i: int| 0 <= i < q.len() && q[i] == p;
            if i < l.len() {
                assert(l[i] == p);
            }
        }
    }
}

/// The names of the networks are those of the rows, each once.
pub proof fn law_names_of_networks(l: Seq<(Seq<char>, Option<WifiSecurity>)>, p: Seq<char>)
    ensures
        distinct_ssids(l).contains(p) <==> exists|i: int| 0 <= i < l.len() && (#[trigger] l[i]).0 == p,
        distinct_ssids(l).no_duplicates(),
    decreases l.len(),
{
    if l.len() > 0 {
        let t = l.drop_last();
        let n = l.len() - 1;
        law_names_of_networks(t, p);
        lemma_new_is_added(distinct_ssids(t), l.last().0, p);
        assert(l[n] == l.last());
        if distinct_ssids(t).contains(p) {
            let i = choose|i: int| 0 <= i < t.len() && (#[trigger] t[i]).0 == p;
            assert(l[i].0 == p);
        }
        if exists|i: int| 0 <= i < l.len() && (#[trigger] l[i]).0 == p {
            let i = choose|i: int| 0 <= i < l.len() && (#[trigger] l[i]).0 == p;
            if i < n {
                assert(t[i].0 == p);
            }
        }
    }
}

/// The names in the store are those of the lines that give one, each once.
pub proof fn law_names_in_the_store(ls: Seq<Seq<char>>, p: Seq<char>)
    ensures
        store_ssids(ls).contains(p) <==> exists|i: int|
            0 <= i < ls.len() && (has_sub(#[trigger] ls[i], "name=\"SSID\""@) || has_sub(
                ls[i],
                "name='SSID'"@,
            )) && element_text(ls[i]) == Some(p),
        store_ssids(ls).no_duplicates(),
    decreases ls.len(),
{
    if ls.len() > 0 {
        let t = ls.drop_last();
        let n = ls.len() - 1;
        law_names_in_the_store(t, p);
        assert(ls[n] == ls.last());
        if element_text(ls.last()) is Some {
            lemma_new_is_added(store_ssids(t), element_text(ls.last())->0, p);
        }
        if store_ssids(t).contains(p) {
            let i = choose|i: int|
                0 <= i < t.len() && (has_sub(#[trigger] t[i], "name=\"SSID\""@) || has_sub(
                    t[i],
                    "name='SSID'"@,
                )) && element_text(t[i]) == Some(p);
            assert(ls[i] == t[i]);
        }
        if exists|i: int|
            0 <= i < ls.len() && (has_sub(#[trigger] ls[i], "name=\"SSID\""@) || has_sub(
                ls[i],
                "name='SSID'"@,
            )) && element_text(ls[i]) == Some(p) {
            let i = choose|i: int|
                0 <= i < ls.len() && (has_sub(#[trigger] ls[i], "name=\"SSID\""@) || has_sub(
                    ls[i],
                    "name='SSID'"@,
                )) && element_text(ls[i]) == Some(p);
            if i < n {
                assert(t[i] == ls[i]);
            }
        }
    }
}

/// Merging adds nothing but names that were given, without the space around them.
pub proof fn law_merging_makes_nothing_up(u: Seq<Seq<char>>, l: Seq<Seq<char>>, p: Seq<char>)
    ensures
        with_names(u, l).contains(p) <==> u.contains(p) || (p.len() > 0 && exists|i: int|
            0 <= i < l.len() && trimmed(#[trigger] l[i]) == p),
    decreases l.len(),
{
    if l.len() > 0 {
        let t = l.drop_last();
        let n = l.len() - 1;
        law_merging_makes_nothing_up(u, t, p);
        lemma_new_is_added(with_names(u, t), trimmed(l.last()), p);
        assert(l[n] == l.last());
        if exists|i: int| 0 <= i < t.len() && trimmed(#[trigger] t[i]) == p {
            let i = choose|i: int| 0 <= i < t.len() && trimmed(#[trigger] t[i]) == p;
            assert(l[i] == t[i]);
        }
        if exists|i: int| 0 <= i < l.len() && trimmed(#[trigger] l[i]) == p {
            let i = choose|i: int| 0 <= i < l.len() && trimmed(#[trigger] l[i]) == p;
            if i < n {
                assert(t[i] == l[i]);
            }
        }
    }
}

proof fn lemma_last_position(a: Seq<char>, c: char, b: Seq<char>)
    requires
        !b.contains(c),
    ensures
        last_position(a + seq![c] + b, Class::Is(c)) == a.len(),
    decreases b.len(),
{
    let s = a + seq![c] + b;
    if b.len() > 0 {
        assert(s.last() == b[b.len() - 1]);
        assert(b.contains(b[b.len() - 1]));
        assert(s.drop_last() == a + seq![c] + b.drop_last());
        assert(!b.drop_last().contains(c)) by {
            if b.drop_last().contains(c) {
                let i = choose|i: int| 0 <= i < b.drop_last().len() && b.drop_last()[i] == c;
                assert(b[i] == c);
            }
        }
        lemma_last_position(a, c, b.drop_last());
    } else {
        assert(s.last() == c);
    }
}

proof fn lemma_nothing_of(s: Seq<char>, p: Seq<char>, t: Seq<char>)
    requires
        p.len() > 0,
        p[0] == '&',
        !s.contains('&'),
    ensures
        !has_sub(s, p),
        replaced(s, p, t) == s,
    decreases s.len(),
{
    if has_sub(s, p) {
        let i = choose|i: int| crate::text::sub_at(s, p, i);
        assert(s.subrange(i, i + p.len())[0] == s[i]);
        assert(s.contains(s[i]));
    }
    if s.len() >= p.len() {
        assert(s.contains(s[0]));
        if s.take(p.len() as int) == p {
            assert(s.take(p.len() as int)[0] == s[0]);
        }
        let r = s.skip(1);
        if r.contains('&') {
            let i = choose|i: int| 0 <= i < r.len() && r[i] == '&';
            assert(s[i + 1] == '&');
        }
        lemma_nothing_of(r, p, t);
        assert(seq![s[0]] + r == s);
    }
}

/// A name or a key in the store is read as it was written: what stands between the tags, in quotes that are
/// written as entities or in none.
pub proof fn law_element_is_read(a: Seq<char>, text: Seq<char>, b: Seq<char>)
    requires
        !a.contains('>'),
        !b.contains('<'),
        text.len() > 0,
        !text.contains('&'),
        !is_white(text[0]) && !is_white(text.last()),
        text[0] != '"' && text.last() != '"',
    ensures
        element_text(a + seq!['>'] + text + seq!['<'] + b) == Some(text),
        element_text(a + seq!['>'] + ("&quot;"@ + text + "&quot;"@) + seq!['<'] + b) == Some(text),
{
    reveal_strlit("&quot;");
    reveal_strlit("&amp;");
    reveal_strlit("\"");
    reveal_strlit("&");
    let q = "&quot;"@;
    lemma_between_tags(a, text, b);
    lemma_between_tags(a, q + text + q, b);
    let e = Seq::<char>::empty();
    lemma_nothing_of(text, q, "\""@);
    lemma_nothing_of(text, "&amp;"@, "&"@);
    lemma_tidy_is_trimmed(text);
    law_trimming(e, text, e, Class::Is('"'));
    assert(e + text + e == text);
    // In quotes.
    let inner = q + text + q;
    let quoted = seq!['"'] + text + seq!['"'];
    assert(replaced(inner, q, "\""@) == quoted) by {
        assert(inner == e + q + (text + q));
        law_replacing(e, q, text + q, "\""@);
        assert(text + q == text + q + e);
        assert forall|i: int| 0 <= i < text.len() implies !crate::text::sub_at(
            text + q + e,
            q,
            i,
        ) by {
            if crate::text::sub_at(text + q + e, q, i) {
                assert((text + q + e).subrange(i, i + q.len())[0] == text[i]);
                assert(text.contains(text[i]));
            }
        }
        law_replacing(text, q, e, "\""@);
        assert(replaced(e, q, "\""@) == e);
        assert(text + "\""@ + e == text + seq!['"']);
        assert(e + "\""@ + (text + seq!['"']) == quoted);
    }
    assert(!quoted.contains('&')) by {
        if quoted.contains('&') {
            let i = choose|i: int| 0 <= i < quoted.len() && quoted[i] == '&';
            assert(text[i - 1] == '&');
            assert(text.contains('&'));
        }
    }
    lemma_nothing_of(quoted, "&amp;"@, "&"@);
    assert(quoted[0] == '"' && quoted.last() == '"');
    lemma_tidy_is_trimmed(quoted);
    law_trimming(seq!['"'], text, seq!['"'], Class::Is('"'));
}

proof fn lemma_between_tags(a: Seq<char>, inner: Seq<char>, b: Seq<char>)
    requires
        !a.contains('>'),
        !b.contains('<'),
        inner.len() > 0,
    ensures
        ({
            let s = a + seq!['>'] + inner + seq!['<'] + b;
            let start = prefix_len(s, Class::Is('>')) + 1;
            let end = last_position(s, Class::Is('<'));
            &&& start == a.len() + 1
            &&& end == a.len() + 1 + inner.len()
            &&& s.subrange(start, end) == inner
        }),
{
    let s = a + seq!['>'] + inner + seq!['<'] + b;
    assert(s == a + seq!['>'] + (inner + seq!['<'] + b));
    assert forall|i: int| 0 <= i < a.len() implies !in_class(Class::Is('>'), #[trigger] a[i]) by {
        assert(a.contains(a[i]));
    }
    law_cutting(a, '>', inner + seq!['<'] + b, Class::Is('>'), 1);
    let c = a + seq!['>'] + inner;
    assert(s == c + seq!['<'] + b);
    lemma_last_position(c, '<', b);
    assert(s.subrange(a.len() as int + 1, c.len() as int) == inner);
}

/// The protection that the listing gives is that of the first row of the name that gives one.
pub proof fn law_listed_protection(
    l: Seq<(Seq<char>, Option<WifiSecurity>)>,
    ssid: Seq<char>,
    i: int,
)
    requires
        0 <= i < l.len(),
        l[i].0 == ssid,
        l[i].1 is Some,
        forall|j: int| 0 <= j < i ==> (#[trigger] l[j]).0 != ssid || l[j].1 is None,
    ensures
        listed_security(l, ssid) == l[i].1,
    decreases l.len(),
{
    if i > 0 {
        let t = l.skip(1);
        assert(l[0].0 != ssid || l[0].1 is None);
        assert forall|j: int| 0 <= j < i - 1 implies (#[trigger] t[j]).0 != ssid || t[j].1 is None by {
            assert(t[j] == l[j + 1]);
        }
        assert(t[i - 1] == l[i]);
        law_listed_protection(t, ssid, i - 1);
    }
}

/// A line of the store's keys stands for WPA3, WPA2 or no protection by the words in it, in that order.
pub proof fn law_protection_in_the_store(line: Seq<char>)
    ensures
        ({
            let l = ascii_lower(line);
            let strong = has_sub(l, "sae"@) || has_sub(l, "wpa3"@);
            let usual = has_sub(l, "wpa_psk"@) || has_sub(l, "wpa2"@) || has_sub(l, "psk"@);
            &&& key_security(line) == Some(WifiSecurity::Wpa3) <==> strong
            &&& key_security(line) == Some(WifiSecurity::Wpa2) <==> usual && !strong
            &&& key_security(line) == Some(WifiSecurity::Open) <==> !strong && !usual && (has_sub(
                l,
                "none"@,
            ) || has_sub(l, "open"@) || has_sub(l, "owe"@))
        }),
{
}

/// The protection that the store gives is that of the first line of keys with the name in it that tells one.
pub proof fn law_stored_protection(ls: Seq<Seq<char>>, ssid: Seq<char>, i: int)
    requires
        0 <= i < ls.len(),
        has_sub(ls[i], "ConfigKey"@) && has_sub(ls[i], ssid),
        key_security(ls[i]) is Some,
        forall|j: int|
            0 <= j < i ==> !has_sub(#[trigger] ls[j], "ConfigKey"@) || (!has_sub(ls[j], ssid) && !has_sub(
                ls[j],
                "&quot;"@ + ssid + "&quot;"@,
            )) || key_security(ls[j]) is None,
    ensures
        store_security(ls, ssid) == key_security(ls[i]),
    decreases ls.len(),
{
    if i > 0 {
        let t = ls.skip(1);
        assert(!has_sub(ls[0], "ConfigKey"@) || (!has_sub(ls[0], ssid) && !has_sub(
            ls[0],
            "&quot;"@ + ssid + "&quot;"@,
        )) || key_security(ls[0]) is None);
        assert(t[i - 1] == ls[i]);
        assert forall|j: int| 0 <= j < i - 1 implies !has_sub(#[trigger] t[j], "ConfigKey"@) || (
        !has_sub(t[j], ssid) && !has_sub(t[j], "&quot;"@ + ssid + "&quot;"@)) || key_security(
            t[j],
        ) is None by {
            assert(t[j] == ls[j + 1]);
        }
        law_stored_protection(t, ssid, i - 1);
    }
}

proof fn lemma_network_line(ls: Seq<Seq<char>>, ssid: Seq<char>, from: int, i: int)
    requires
        0 <= from <= i <= ls.len(),
        i < ls.len() ==> names_network(ls[i], ssid),
        forall|x: int| from <= x < i ==> !names_network(#[trigger] ls[x], ssid),
    ensures
        network_line(ls, ssid, from) == i,
    decreases i - from,
{
    if from < i {
        assert(!names_network(ls[from], ssid));
        lemma_network_line(ls, ssid, from + 1, i);
    }
}

proof fn lemma_key_between(ls: Seq<Seq<char>>, i: int, from: int, j: int, end: int)
    requires
        0 <= i <= from <= j < end <= ls.len(),
        key_of_line(ls[j]) is Some,
        forall|x: int| from <= x < j ==> key_of_line(#[trigger] ls[x]) is None && (x > i ==> !has_sub(
            ls[x],
            "<WifiConfiguration>"@,
        )),
    ensures
        key_between(ls, i, from, end) == key_of_line(ls[j])->0,
    decreases j - from,
{
    if from < j {
        assert(key_of_line(ls[from]) is None);
        lemma_key_between(ls, i, from + 1, j, end);
    }
}

/// The key of a network is that of the first line of a key behind the first line that gives its name, within
/// fifty lines and before another network begins. A network that is not saved has none.
pub proof fn law_stored_key_is_found(
    raw: Seq<char>,
    ssid: Seq<char>,
    i: int,
    j: int,
    key: Seq<char>,
)
    requires
        0 <= i <= j < lines_of(raw).len(),
        j < i + 50,
        is_ssid_line(lines_of(raw)[i]) && element_text(lines_of(raw)[i]) == Some(ssid),
        forall|x: int| 0 <= x < i ==> !names_network(#[trigger] lines_of(raw)[x], ssid),
        is_key_line(lines_of(raw)[j]),
        !has_sub(lines_of(raw)[j], "<null"@),
        element_text(lines_of(raw)[j]) == Some(key),
        exists|y: int| 0 <= y < key.len() && #[trigger] key[y] != '*',
        forall|x: int|
            i <= x < j ==> !is_key_line(#[trigger] lines_of(raw)[x]) && (x > i ==> !has_sub(
                lines_of(raw)[x],
                "<WifiConfiguration>"@,
            )),
    ensures
        stored_key(Some(raw), ssid) == Ok::<Seq<char>, Seq<char>>(key),
{
    let ls = lines_of(raw);
    lemma_network_line(ls, ssid, 0, i);
    let end = if ls.len() < i + 50 {
        ls.len() as int
    } else {
        i + 50
    };
    assert(!all_stars(key)) by {
        let y = choose|y: int| 0 <= y < key.len() && #[trigger] key[y] != '*';
        assert(key[y] != '*');
    }
    assert forall|x: int| i <= x < j implies key_of_line(#[trigger] ls[x]) is None && (x > i
        ==> !has_sub(ls[x], "<WifiConfiguration>"@)) by {
        assert(!is_key_line(ls[x]));
    }
    lemma_key_between(ls, i, i, j, end);
}

/// Without the store, and for a name that it does not hold, there is no key.
pub proof fn law_no_key_for_unsaved(raw: Seq<char>, ssid: Seq<char>)
    requires
        forall|x: int|
            0 <= x < lines_of(raw).len() ==> !names_network(#[trigger] lines_of(raw)[x], ssid),
    ensures
        stored_key(Some(raw), ssid) is Err,
        stored_key(None, ssid) is Err,
{
    lemma_network_line(lines_of(raw), ssid, 0, lines_of(raw).len() as int);
}

/// What is handed to the system to connect: the name and the protection, the key unless the network is open,
/// and the access point where one is named. Without a key only an open network can be connected to.
pub proof fn law_arguments_to_connect(
    ssid: Seq<char>,
    sec: WifiSecurity,
    key: Seq<char>,
    bssid: Seq<char>,
)
    ensures
        connect_arguments(ssid, WifiSecurity::Open, Some(key), None) == Ok::<
            Seq<Seq<char>>,
            Seq<char>,
        >(seq!["wifi"@, "connect-network"@, ssid, "open"@]),
        connect_arguments(ssid, WifiSecurity::Wpa2, Some(key), None) == Ok::<
            Seq<Seq<char>>,
            Seq<char>,
        >(seq!["wifi"@, "connect-network"@, ssid, "wpa2"@, key]),
        connect_arguments(ssid, WifiSecurity::Wpa3, Some(key), None) == Ok::<
            Seq<Seq<char>>,
            Seq<char>,
        >(seq!["wifi"@, "connect-network"@, ssid, "wpa3"@, key]),
        bssid.len() > 0 ==> connect_arguments(ssid, WifiSecurity::Wpa2, Some(key), Some(bssid))
            == Ok::<Seq<Seq<char>>, Seq<char>>(
            seq!["wifi"@, "connect-network"@, ssid, "wpa2"@, key, "-b"@, bssid],
        ),
        bssid.len() > 0 ==> connect_arguments(ssid, WifiSecurity::Wpa3, Some(key), Some(bssid))
            == Ok::<Seq<Seq<char>>, Seq<char>>(
            seq!["wifi"@, "connect-network"@, ssid, "wpa3"@, key, "-b"@, bssid],
        ),
        bssid.len() > 0 ==> connect_arguments(ssid, WifiSecurity::Open, None, Some(bssid)) == Ok::<
            Seq<Seq<char>>,
            Seq<char>,
        >(seq!["wifi"@, "connect-network"@, ssid, "open"@, "-b"@, bssid]),
        connect_arguments(ssid, sec, None, None) is Err <==> sec != WifiSecurity::Open,
{
    let none = Seq::<Seq<char>>::empty();
    let o = seq!["wifi"@, "connect-network"@, ssid, "open"@];
    let w2 = seq!["wifi"@, "connect-network"@, ssid, "wpa2"@];
    let w3 = seq!["wifi"@, "connect-network"@, ssid, "wpa3"@];
    assert(o + none == o);
    assert(w2.push(key) + none == seq!["wifi"@, "connect-network"@, ssid, "wpa2"@, key]);
    assert(w3.push(key) + none == seq!["wifi"@, "connect-network"@, ssid, "wpa3"@, key]);
    assert(w2.push(key) + seq!["-b"@, bssid] == seq![
        "wifi"@,
        "connect-network"@,
        ssid,
        "wpa2"@,
        key,
        "-b"@,
        bssid,
    ]);
    assert(w3.push(key) + seq!["-b"@, bssid] == seq![
        "wifi"@,
        "connect-network"@,
        ssid,
        "wpa3"@,
        key,
        "-b"@,
        bssid,
    ]);
    assert(o + seq!["-b"@, bssid] == seq![
        "wifi"@,
        "connect-network"@,
        ssid,
        "open"@,
        "-b"@,
        bssid,
    ]);
}

/// What a command complains of is what it writes as an error, and only where it writes none what it
/// writes otherwise.
pub proof fn law_complaint(stderr: Seq<char>, stdout: Seq<char>)
    ensures
        trimmed(stderr).len() > 0 ==> complaint(stderr, stdout) == trimmed(stderr),
        trimmed(stderr).len() == 0 ==> complaint(stderr, stdout) == trimmed(stdout),
{
}

/// A message of up to 160 bytes is told whole; of a longer one its first 160 bytes, with a sign that
/// there is more.
pub proof fn law_long_messages_are_cut(msg: Seq<char>)
    requires
        can_cut(msg),
    ensures
        encode_utf8(msg).len() <= 160 ==> cut_message(msg) == msg,
        encode_utf8(msg).len() > 160 ==> has_suffix(cut_message(msg), "…"@) && encode_utf8(
            cut_message(msg).drop_last(),
        ) == encode_utf8(msg).take(160),
{
    let b = encode_utf8(msg);
    encode_utf8_valid_utf8(msg);
    if b.len() > 160 {
        let h = b.subrange(0, 160);
        valid_utf8_split(b, 160);
        decode_utf8_encode_utf8(h);
        assert(h =~= b.take(160));
        reveal_strlit("…");
        let c = cut_message(msg);
        assert(c.drop_last() =~= decode_utf8(h));
        assert(c.skip(c.len() - 1) =~= "…"@);
    }
}

/// A failure is told with the protection that was tried, the network, and last the message.
pub proof fn law_failure_is_told(ssid: Seq<char>, sec: WifiSecurity, msg: Seq<char>)
    ensures
        has_prefix(
            failure_text(ssid, sec, msg),
            "框架连接失败（"@ + sec.token() + " / "@ + ssid,
        ),
        has_suffix(failure_text(ssid, sec, msg), "）："@ + cut_message(msg)),
{
    let f = failure_text(ssid, sec, msg);
    let a = "框架连接失败（"@ + sec.token() + " / "@ + ssid;
    let z = "）："@ + cut_message(msg);
    assert(f =~= a + z);
    assert(f.take(a.len() as int) =~= a);
    assert(f.skip(f.len() - z.len()) =~= z);
}

/// A line of the store names a network only where it is the line for names, and then by the name in
/// quotes, however these are written, or as the text of the element.
pub proof fn law_line_names_a_network(line: Seq<char>, ssid: Seq<char>)
    ensures
        names_network(line, ssid) ==> has_sub(line, "name=\"SSID\""@) || has_sub(
            line,
            "name='SSID'"@,
        ),
        has_sub(line, "name=\"SSID\""@) || has_sub(line, "name='SSID'"@) ==> (names_network(
            line,
            ssid,
        ) <==> has_sub(line, "&quot;"@ + ssid + "&quot;"@) || has_sub(line, "\""@ + ssid + "\""@)
            || element_text(line) == Some(ssid)),
{
}

} // verus!
