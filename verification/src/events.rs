//! The history of switches: one entry for each, written as JSON and read back.

use crate::json::{
    escaped, find_string_end, is_printable, json_unesc, law_escaped_text_is_read_back,
    lemma_escaped_ends, lemma_string_end, raw_member, raw_member_text, read_back, string_end,
    text_member, text_member_text,
};
use crate::numbers::{
    dec, is_digit, law_decimal_read_back, lemma_dec, parse_u64, u64_text, unsigned_value,
};
use crate::text::{
    find_class, from_chars, in_class, lemma_prefix_len, lemma_prefix_len_is, prefix_len, str_eq,
    to_chars, Class,
};
use vstd::prelude::*;
use vstd::string::*;

verus! {

/// A switch, as the history keeps it.
#[derive(Debug)]
pub struct SwitchEvent {
    pub ts_unix: u64,
    pub from_ssid: String,
    pub to_ssid: String,
    pub from_band: String,
    pub to_band: String,
    pub reason: String,
    pub result: String,
    pub duration_ms: u64,
}

/// What a `SwitchEvent` holds.
#[verifier::ext_equal]
pub struct EventModel {
    pub ts_unix: u64,
    pub from_ssid: Seq<char>,
    pub to_ssid: Seq<char>,
    pub from_band: Seq<char>,
    pub to_band: Seq<char>,
    pub reason: Seq<char>,
    pub result: Seq<char>,
    pub duration_ms: u64,
}

impl View for SwitchEvent {
    type V = EventModel;

    open spec fn view(&self) -> EventModel {
        EventModel {
            ts_unix: self.ts_unix,
            from_ssid: self.from_ssid@,
            to_ssid: self.to_ssid@,
            from_band: self.from_band@,
            to_band: self.to_band@,
            reason: self.reason@,
            result: self.result@,
            duration_ms: self.duration_ms,
        }
    }
}

impl Clone for SwitchEvent {
    fn clone(&self) -> (r: Self)
        ensures
            r@ == self@,
    {
        SwitchEvent {
            ts_unix: self.ts_unix,
            from_ssid: self.from_ssid.clone(),
            to_ssid: self.to_ssid.clone(),
            from_band: self.from_band.clone(),
            to_band: self.to_band.clone(),
            reason: self.reason.clone(),
            result: self.result.clone(),
            duration_ms: self.duration_ms,
        }
    }
}

/// The contents of a history.
pub open spec fn event_models(v: Seq<SwitchEvent>) -> Seq<EventModel> {
    v.map_values(|e: SwitchEvent| e@)
}

/// An entry as a JSON object.
#[verifier::opaque]
pub open spec fn event_json(e: EventModel) -> Seq<char> {
    "{"@ + raw_member("ts_unix"@, dec(e.ts_unix as nat)) + ","@ + text_member(
        "from_ssid"@,
        e.from_ssid,
    ) + ","@ + text_member("to_ssid"@, e.to_ssid) + ","@ + text_member("from_band"@, e.from_band)
        + ","@ + text_member("to_band"@, e.to_band) + ","@ + text_member("reason"@, e.reason) + ","@
        + text_member("result"@, e.result) + ","@ + raw_member(
        "duration_ms"@,
        dec(e.duration_ms as nat),
    ) + "}"@
}

impl SwitchEvent {
    /// The entry as a JSON object.
    pub fn to_json(&self) -> (r: String)
        ensures
            r@ == event_json(self@),
    {
        proof {
            reveal(event_json);
        }
        let mut out = "{".to_owned();
        out.append(raw_member_text("ts_unix", u64_text(self.ts_unix).as_str()).as_str());
        out.append(",");
        out.append(text_member_text("from_ssid", self.from_ssid.as_str()).as_str());
        out.append(",");
        out.append(text_member_text("to_ssid", self.to_ssid.as_str()).as_str());
        out.append(",");
        out.append(text_member_text("from_band", self.from_band.as_str()).as_str());
        out.append(",");
        out.append(text_member_text("to_band", self.to_band.as_str()).as_str());
        out.append(",");
        out.append(text_member_text("reason", self.reason.as_str()).as_str());
        out.append(",");
        out.append(text_member_text("result", self.result.as_str()).as_str());
        out.append(",");
        out.append(raw_member_text("duration_ms", u64_text(self.duration_ms).as_str()).as_str());
        out.append("}");
        out
    }
}

/// The entries one after another, with commas between them.
pub open spec fn event_list(l: Seq<EventModel>) -> Seq<char>
    decreases l.len(),
{
    if l.len() == 0 {
        seq![]
    } else if l.len() == 1 {
        event_json(l[0])
    } else {
        event_list(l.drop_last()) + seq![','] + event_json(l.last())
    }
}

/// The history as a JSON array.
pub open spec fn events_json(l: Seq<EventModel>) -> Seq<char> {
    seq!['['] + event_list(l) + seq![']']
}

/// Writes the history as a JSON array.
pub fn events_to_json(events: &[SwitchEvent]) -> (r: String)
    ensures
        r@ == events_json(event_models(events@)),
{
    let ghost l = event_models(events@);
    let mut out = String::new();
    out.push('[');
    let mut i: usize = 0;
    assert(l.take(0) == Seq::<EventModel>::empty());
    assert(out@ == seq!['['] + event_list(l.take(0)));
    while i < events.len()
        invariant
            l == event_models(events@),
            i <= events@.len(),
            out@ == seq!['['] + event_list(l.take(i as int)),
        decreases events@.len() - i,
    {
        let ghost before = out@;
        if i > 0 {
            out.push(',');
        }
        let text = events[i].to_json();
        out.append(text.as_str());
        proof {
            let q = l.take(i + 1);
            assert(q.drop_last() == l.take(i as int));
            assert(q.last() == events@[i as int]@);
            if i > 0 {
                assert(out@ == seq!['['] + (event_list(l.take(i as int)) + seq![','] + text@));
            } else {
                assert(q[0] == q.last());
                assert(out@ == seq!['['] + text@);
            }
        }
        i = i + 1;
    }
    assert(l.take(i as int) == l);
    out.push(']');
    out
}

/// An entry with nothing in it.
pub open spec fn blank_event() -> EventModel {
    EventModel {
        ts_unix: 0,
        from_ssid: seq![],
        to_ssid: seq![],
        from_band: seq![],
        to_band: seq![],
        reason: seq![],
        result: seq![],
        duration_ms: 0,
    }
}

/// The entry with the member of that name set, where it is one that holds text.
pub open spec fn with_text(e: EventModel, key: Seq<char>, value: Seq<char>) -> EventModel {
    if key == "from_ssid"@ {
        EventModel { from_ssid: value, ..e }
    } else if key == "to_ssid"@ {
        EventModel { to_ssid: value, ..e }
    } else if key == "from_band"@ {
        EventModel { from_band: value, ..e }
    } else if key == "to_band"@ {
        EventModel { to_band: value, ..e }
    } else if key == "reason"@ {
        EventModel { reason: value, ..e }
    } else if key == "result"@ {
        EventModel { result: value, ..e }
    } else {
        e
    }
}

/// The number that a text stands for; zero where it is none.
pub open spec fn number_or_zero(s: Seq<char>) -> u64 {
    match unsigned_value(s, u64::MAX as nat) {
        Some(v) => v as u64,
        None => 0,
    }
}

/// The entry with the member of that name set, where it is one that holds a number.
pub open spec fn with_number(e: EventModel, key: Seq<char>, value: Seq<char>) -> EventModel {
    if key == "ts_unix"@ {
        EventModel { ts_unix: number_or_zero(value), ..e }
    } else if key == "duration_ms"@ {
        EventModel { duration_ms: number_or_zero(value), ..e }
    } else {
        e
    }
}

pub open spec fn is_json_white(c: char) -> bool {
    c == ' ' || c == '\n' || c == '\r' || c == '\t'
}

/// The text without white space in front.
pub open spec fn past_white(s: Seq<char>) -> Seq<char>
    decreases s.len(),
{
    if s.len() > 0 && is_json_white(s[0]) {
        past_white(s.skip(1))
    } else {
        s
    }
}

pub proof fn lemma_past_white(s: Seq<char>)
    ensures
        past_white(s).len() <= s.len(),
    decreases s.len(),
{
    if s.len() > 0 && is_json_white(s[0]) {
        lemma_past_white(s.skip(1));
    }
}

/// The text from the first character of the class on.
pub open spec fn from_class(s: Seq<char>, k: Class) -> Seq<char> {
    s.skip(prefix_len(s, k))
}

/// The text without its first character.
pub open spec fn past_one(s: Seq<char>) -> Seq<char> {
    if s.len() > 0 {
        s.skip(1)
    } else {
        s
    }
}

/// What is behind a value: the text from the next comma or closing brace on, without the comma.
pub open spec fn past_comma(s: Seq<char>) -> Seq<char> {
    let z = from_class(s, Class::Either(',', '}'));
    if z.len() > 0 && z[0] == ',' {
        z.skip(1)
    } else {
        z
    }
}

/// Reads a value at the front of `w` into the entry; the rest of the text is what is behind it.
/// Nothing where the text breaks off behind a backslash.
pub open spec fn read_value(w: Seq<char>, e: EventModel, key: Seq<char>) -> Option<
    (EventModel, Seq<char>),
> {
    if w.len() > 0 && w[0] == '"' {
        let x = w.skip(1);
        match string_end(x) {
            Some(n) => Some((with_text(e, key, read_back(x.take(n))), past_one(x.skip(n)))),
            None => None,
        }
    } else {
        let n = prefix_len(w, Class::OneOf(',', '}', ' '));
        Some((with_number(e, key, w.take(n)), w.skip(n)))
    }
}

/// Reads the members of an object into the entry, up to the closing brace or the end of the
/// text; the rest of the text is what is behind it. Nothing where the text breaks off behind a
/// member's name or behind a backslash.
pub open spec fn read_members(s: Seq<char>, e: EventModel) -> Option<(EventModel, Seq<char>)>
    decreases s.len(),
{
    let t = from_class(s, Class::Either('"', '}'));
    if t.len() == 0 || t[0] == '}' {
        Some((e, past_one(t)))
    } else {
        let u = t.skip(1);
        let key = u.take(prefix_len(u, Class::Is('"')));
        let v = from_class(u, Class::Is('"'));
        let c = from_class(past_one(v), Class::Is(':'));
        if v.len() == 0 || c.len() == 0 {
            None
        } else {
            match read_value(past_white(c.skip(1)), e, key) {
                Some((f, y)) => {
                    proof {
                        lemma_members_shrink(s, e, key, t, u, v, c, y);
                    }
                    read_members(past_comma(y), f)
                },
                None => None,
            }
        }
    }
}

pub proof fn lemma_from_class(s: Seq<char>, k: Class)
    ensures
        from_class(s, k).len() <= s.len(),
{
    lemma_prefix_len(s, k);
}

pub proof fn lemma_value_shrinks(w: Seq<char>, e: EventModel, key: Seq<char>)
    ensures
        read_value(w, e, key) matches Some(p) ==> past_comma(p.1).len() <= w.len(),
{
    if w.len() > 0 && w[0] == '"' {
        lemma_string_end(w.skip(1));
    } else {
        lemma_prefix_len(w, Class::OneOf(',', '}', ' '));
    }
    if read_value(w, e, key) is Some {
        lemma_from_class((read_value(w, e, key)->0).1, Class::Either(',', '}'));
    }
}

pub proof fn lemma_members_shrink(
    s: Seq<char>,
    e: EventModel,
    key: Seq<char>,
    t: Seq<char>,
    u: Seq<char>,
    v: Seq<char>,
    c: Seq<char>,
    y: Seq<char>,
)
    requires
        t == from_class(s, Class::Either('"', '}')),
        t.len() > 0,
        u == t.skip(1),
        v == from_class(u, Class::Is('"')),
        v.len() > 0,
        c == from_class(past_one(v), Class::Is(':')),
        c.len() > 0,
        read_value(past_white(c.skip(1)), e, key) matches Some(p) && p.1 == y,
    ensures
        past_comma(y).len() < s.len(),
{
    lemma_from_class(s, Class::Either('"', '}'));
    lemma_from_class(u, Class::Is('"'));
    lemma_from_class(past_one(v), Class::Is(':'));
    lemma_past_white(c.skip(1));
    lemma_value_shrinks(past_white(c.skip(1)), e, key);
}

pub proof fn lemma_read_members_shrinks(s: Seq<char>, e: EventModel)
    ensures
        read_members(s, e) matches Some(p) ==> p.1.len() <= s.len(),
    decreases s.len(),
{
    let t = from_class(s, Class::Either('"', '}'));
    lemma_from_class(s, Class::Either('"', '}'));
    if t.len() == 0 || t[0] == '}' {
    } else {
        let u = t.skip(1);
        let key = u.take(prefix_len(u, Class::Is('"')));
        let v = from_class(u, Class::Is('"'));
        let c = from_class(past_one(v), Class::Is(':'));
        if v.len() > 0 && c.len() > 0 {
            match read_value(past_white(c.skip(1)), e, key) {
                Some((f, y)) => {
                    lemma_members_shrink(s, e, key, t, u, v, c, y);
                    lemma_read_members_shrinks(past_comma(y), f);
                },
                None => {},
            }
        }
    }
}

/// Reads the entries of an array up to the closing bracket or the end of the text. Nothing where
/// the text breaks off inside a member.
pub open spec fn read_entries(s: Seq<char>) -> Option<Seq<EventModel>>
    decreases s.len(),
{
    let t = past_white(s);
    if t.len() == 0 || t[0] == ']' {
        Some(seq![])
    } else {
        let b = past_one(from_class(t, Class::Is('{')));
        match read_members(b, blank_event()) {
            Some((e, rest)) => {
                proof {
                    lemma_past_white(s);
                    lemma_from_class(t, Class::Is('{'));
                    lemma_read_members_shrinks(b, blank_event());
                }
                match read_entries(rest) {
                    Some(l) => Some(seq![e] + l),
                    None => None,
                }
            },
            None => None,
        }
    }
}

/// Reads a history. Nothing where the text breaks off inside a member.
pub open spec fn read_events(s: Seq<char>) -> Option<Seq<EventModel>> {
    read_entries(past_one(from_class(s, Class::Is('['))))
}

fn skip_white(v: &Vec<char>, from: usize) -> (r: usize)
    requires
        from <= v@.len(),
    ensures
        from <= r <= v@.len(),
        v@.skip(r as int) == past_white(v@.skip(from as int)),
{
    let mut p: usize = from;
    while p < v.len() && (v[p] == ' ' || v[p] == '\n' || v[p] == '\r' || v[p] == '\t')
        invariant
            from <= p <= v@.len(),
            past_white(v@.skip(p as int)) == past_white(v@.skip(from as int)),
        decreases v@.len() - p,
    {
        assert(v@.skip(p as int)[0] == v@[p as int]);
        assert(v@.skip(p as int).skip(1) == v@.skip(p + 1));
        p = p + 1;
    }
    if p < v.len() {
        assert(v@.skip(p as int)[0] == v@[p as int]);
    }
    p
}

fn skip_to(v: &Vec<char>, k: Class, from: usize) -> (r: usize)
    requires
        from <= v@.len(),
    ensures
        from <= r <= v@.len(),
        r == from + prefix_len(v@.skip(from as int), k),
        v@.skip(r as int) == from_class(v@.skip(from as int), k),
        r < v@.len() ==> v@.skip(r as int)[0] == v@[r as int],
{
    let r = find_class(v, k, from);
    assert(v@.skip(from as int).skip(r - from) == v@.skip(r as int));
    r
}

fn skip_one(v: &Vec<char>, at: usize) -> (r: usize)
    requires
        at <= v@.len(),
    ensures
        at <= r <= v@.len(),
        r == at + 1 || (r == at && at == v@.len()),
        v@.skip(r as int) == past_one(v@.skip(at as int)),
{
    if at < v.len() {
        assert(v@.skip(at as int).skip(1) == v@.skip(at + 1));
        at + 1
    } else {
        at
    }
}

fn set_text(e: SwitchEvent, key: &str, value: String) -> (r: SwitchEvent)
    ensures
        r@ == with_text(e@, key@, value@),
{
    let mut e = e;
    if str_eq(key, "from_ssid") {
        e.from_ssid = value;
    } else if str_eq(key, "to_ssid") {
        e.to_ssid = value;
    } else if str_eq(key, "from_band") {
        e.from_band = value;
    } else if str_eq(key, "to_band") {
        e.to_band = value;
    } else if str_eq(key, "reason") {
        e.reason = value;
    } else if str_eq(key, "result") {
        e.result = value;
    }
    e
}

fn set_number(e: SwitchEvent, key: &str, value: &str) -> (r: SwitchEvent)
    ensures
        r@ == with_number(e@, key@, value@),
{
    let mut e = e;
    let n: u64 = match parse_u64(value) {
        Some(n) => n,
        None => 0,
    };
    if str_eq(key, "ts_unix") {
        e.ts_unix = n;
    } else if str_eq(key, "duration_ms") {
        e.duration_ms = n;
    }
    e
}

/// What is read at a position, and the position behind it.
pub open spec fn reads_as(
    v: Seq<char>,
    r: Option<(SwitchEvent, usize)>,
    m: Option<(EventModel, Seq<char>)>,
) -> bool {
    match r {
        Some((e, p)) => p <= v.len() && m == Some((e@, v.skip(p as int))),
        None => m is None,
    }
}

fn take_value(v: &Vec<char>, at: usize, e: SwitchEvent, key: &str) -> (r: Option<
    (SwitchEvent, usize),
>)
    requires
        at <= v@.len(),
    ensures
        reads_as(v@, r, read_value(v@.skip(at as int), e@, key@)),
        r matches Some(p) ==> at <= p.1,
{
    let ghost w = v@.skip(at as int);
    if at < v.len() && v[at] == '"' {
        assert(w[0] == v@[at as int]);
        assert(w.skip(1) == v@.skip(at + 1));
        match find_string_end(v, at + 1) {
            Some(end) => {
                let raw = from_chars(v, at + 1, end);
                assert(raw@ == w.skip(1).take(end - at - 1));
                assert(w.skip(1).skip(end - at - 1) == v@.skip(end as int));
                let f = set_text(e, key, json_unesc(raw.as_str()));
                Some((f, skip_one(v, end)))
            },
            None => None,
        }
    } else {
        if at < v.len() {
            assert(w[0] == v@[at as int]);
        }
        let end = skip_to(v, Class::OneOf(',', '}', ' '), at);
        let raw = from_chars(v, at, end);
        assert(raw@ == w.take(end - at));
        Some((set_number(e, key, raw.as_str()), end))
    }
}

fn take_members(v: &Vec<char>, from: usize, first: SwitchEvent) -> (r: Option<(SwitchEvent, usize)>)
    requires
        from <= v@.len(),
    ensures
        reads_as(v@, r, read_members(v@.skip(from as int), first@)),
{
    let ghost want = read_members(v@.skip(from as int), first@);
    let mut pos: usize = from;
    let mut e = first;
    loop
        invariant
            pos <= v@.len(),
            want == read_members(v@.skip(from as int), first@),
            read_members(v@.skip(pos as int), e@) == want,
        decreases v@.len() - pos,
    {
        let at = skip_to(v, Class::Either('"', '}'), pos);
        if at >= v.len() || v[at] == '}' {
            let next = skip_one(v, at);
            return Some((e, next));
        }
        assert(v@.skip(at as int).skip(1) == v@.skip(at + 1));
        let key_end = skip_to(v, Class::Is('"'), at + 1);
        let key = from_chars(v, at + 1, key_end);
        assert(key@ == v@.skip(at + 1).take(key_end - at - 1));
        if key_end >= v.len() {
            return None;
        }
        let after = skip_one(v, key_end);
        let colon = skip_to(v, Class::Is(':'), after);
        if colon >= v.len() {
            return None;
        }
        assert(v@.skip(colon as int).skip(1) == v@.skip(colon + 1));
        let w = skip_white(v, colon + 1);
        match take_value(v, w, e, key.as_str()) {
            Some((f, y)) => {
                let z = skip_to(v, Class::Either(',', '}'), y);
                let next: usize = if z < v.len() && v[z] == ',' {
                    assert(v@.skip(z as int).skip(1) == v@.skip(z + 1));
                    z + 1
                } else {
                    z
                };
                assert(v@.skip(next as int) == past_comma(v@.skip(y as int)));
                e = f;
                pos = next;
            },
            None => {
                return None;
            },
        }
    }
}

/// Reads a history as `events_to_json` writes it, and whatever else has its shape: members may
/// come in any order, with white space between them, and unknown ones are passed over. None
/// where the text breaks off inside a member.
pub fn try_events_from_json(raw: &str) -> (r: Option<Vec<SwitchEvent>>)
    ensures
        r is Some <==> read_events(raw@) is Some,
        r matches Some(v) ==> event_models(v@) == read_events(raw@)->0,
{
    let v = to_chars(raw);
    let ghost want = read_events(raw@);
    let mut out: Vec<SwitchEvent> = Vec::new();
    assert(v@.skip(0) == v@);
    let open = skip_to(&v, Class::Is('['), 0);
    let mut pos: usize = skip_one(&v, open);
    proof {
        assert(event_models(out@) == Seq::<EventModel>::empty());
        match read_entries(v@.skip(pos as int)) {
            Some(l) => {
                assert(Seq::<EventModel>::empty() + l == l);
            },
            None => {},
        }
    }
    loop
        invariant
            pos <= v@.len(),
            want == read_events(raw@),
            want == (match read_entries(v@.skip(pos as int)) {
                Some(l) => Some(event_models(out@) + l),
                None => None,
            }),
        decreases v@.len() - pos,
    {
        let ghost s = v@.skip(pos as int);
        let at = skip_white(&v, pos);
        if at < v.len() {
            assert(v@.skip(at as int)[0] == v@[at as int]);
        }
        if at >= v.len() || v[at] == ']' {
            assert(read_entries(s) == Some(Seq::<EventModel>::empty()));
            assert(event_models(out@) + Seq::<EventModel>::empty() == event_models(out@));
            return Some(out);
        }
        let brace = skip_to(&v, Class::Is('{'), at);
        let start = skip_one(&v, brace);
        let blank = SwitchEvent {
            ts_unix: 0,
            from_ssid: String::new(),
            to_ssid: String::new(),
            from_band: String::new(),
            to_band: String::new(),
            reason: String::new(),
            result: String::new(),
            duration_ms: 0,
        };
        assert(blank@ == blank_event());
        match take_members(&v, start, blank) {
            Some((e, next)) => {
                proof {
                    lemma_read_members_shrinks(v@.skip(start as int), blank_event());
                    let rest = v@.skip(next as int);
                    let before = event_models(out@);
                    match read_entries(rest) {
                        Some(l) => {
                            assert(read_entries(s) == Some(seq![e@] + l));
                            assert(before + (seq![e@] + l) == before.push(e@) + l);
                        },
                        None => {
                            assert(read_entries(s) is None);
                        },
                    }
                }
                let ghost before = out@;
                out.push(e);
                assert(event_models(out@) == event_models(before).push(e@));
                assert(next > pos);
                pos = next;
            },
            None => {
                return None;
            },
        }
    }
}

/// Reads a history that does not break off inside a member.
pub fn events_from_json(raw: &str) -> (r: Vec<SwitchEvent>)
    requires
        read_events(raw@) is Some,
    ensures
        event_models(r@) == read_events(raw@)->0,
{
    match try_events_from_json(raw) {
        Some(v) => v,
        None => Vec::new(),
    }
}

/// A member's name holds no quote.
pub open spec fn is_plain_key(key: Seq<char>) -> bool {
    forall|i: int| 0 <= i < key.len() ==> #[trigger] key[i] != '"'
}

proof fn lemma_name_is_read(key: Seq<char>, value: Seq<char>, e: EventModel)
    requires
        is_plain_key(key),
        value.len() > 0,
        !is_json_white(value[0]),
    ensures
        read_members("\""@ + key + "\":"@ + value, e) == (match read_value(value, e, key) {
            Some((f, y)) => read_members(past_comma(y), f),
            None => None,
        }),
{
    reveal_strlit("\"");
    reveal_strlit("\":");
    let s = "\""@ + key + "\":"@ + value;
    lemma_prefix_len_is(s, Class::Either('"', '}'), 0);
    assert(s.skip(0) == s);
    let u = s.skip(1);
    let n = key.len() as int;
    assert(u == key + "\":"@ + value);
    assert forall|i: int| 0 <= i < n implies !in_class(Class::Is('"'), #[trigger] u[i]) by {
        assert(u[i] == key[i]);
    }
    lemma_prefix_len_is(u, Class::Is('"'), n);
    assert(u.take(n) == key);
    let v = u.skip(n);
    assert(v == "\":"@ + value);
    let c = v.skip(1);
    assert(c[0] == ':');
    lemma_prefix_len_is(c, Class::Is(':'), 0);
    assert(c.skip(0) == c);
    assert(c.skip(1) == value);
    assert(past_white(value) == value);
}

proof fn lemma_text_member_is_read(
    key: Seq<char>,
    value: Seq<char>,
    rest: Seq<char>,
    e: EventModel,
)
    requires
        is_plain_key(key),
        is_printable(value),
    ensures
        read_members(text_member(key, value) + rest, e) == read_members(
            past_comma(rest),
            with_text(e, key, value),
        ),
{
    reveal_strlit("\"");
    reveal_strlit("\":");
    reveal_strlit("\":\"");
    let w = seq!['"'] + (escaped(value) + seq!['"'] + rest);
    assert(text_member(key, value) + rest == "\""@ + key + "\":"@ + w);
    lemma_name_is_read(key, w, e);
    let x = w.skip(1);
    assert(x == escaped(value) + seq!['"'] + rest);
    lemma_escaped_ends(value, rest);
    let n = escaped(value).len() as int;
    assert(x.take(n) == escaped(value));
    law_escaped_text_is_read_back(value);
    assert(x.skip(n).skip(1) == rest);
}

proof fn lemma_number_member_is_read(key: Seq<char>, value: u64, rest: Seq<char>, e: EventModel)
    requires
        is_plain_key(key),
        rest.len() > 0,
        rest[0] == ',' || rest[0] == '}',
    ensures
        read_members(raw_member(key, dec(value as nat)) + rest, e) == read_members(
            past_comma(rest),
            with_number(e, key, dec(value as nat)),
        ),
        number_or_zero(dec(value as nat)) == value,
{
    let d = dec(value as nat);
    let w = d + rest;
    lemma_dec(value as nat);
    law_decimal_read_back(value as nat, u64::MAX as nat);
    assert(is_digit(d[0]));
    assert(w[0] == d[0]);
    assert(raw_member(key, d) + rest == "\""@ + key + "\":"@ + w);
    lemma_name_is_read(key, w, e);
    let k = Class::OneOf(',', '}', ' ');
    assert forall|i: int| 0 <= i < d.len() implies !in_class(k, #[trigger] w[i]) by {
        assert(w[i] == d[i]);
        assert(is_digit(d[i]));
    }
    assert(w[d.len() as int] == rest[0]);
    lemma_prefix_len_is(w, k, d.len() as int);
    assert(w.take(d.len() as int) == d);
    assert(w.skip(d.len() as int) == rest);
}

proof fn lemma_assoc(a: Seq<char>, b: Seq<char>, c: Seq<char>)
    ensures
        a + b + c == a + (b + c),
{
    assert(a + b + c =~= a + (b + c));
}

proof fn lemma_past_comma(rest: Seq<char>)
    ensures
        past_comma(","@ + rest) == rest,
        past_comma("}"@ + rest) == "}"@ + rest,
        (","@ + rest).len() > 0,
        (","@ + rest)[0] == ',',
        ("}"@ + rest).len() > 0,
        ("}"@ + rest)[0] == '}',
{
    reveal_strlit(",");
    reveal_strlit("}");
    let k = Class::Either(',', '}');
    let a = ","@ + rest;
    let b = "}"@ + rest;
    lemma_prefix_len_is(a, k, 0);
    lemma_prefix_len_is(b, k, 0);
    assert(a.skip(0) == a);
    assert(b.skip(0) == b);
    assert(a.skip(1) == rest);
}

proof fn lemma_closing_brace(rest: Seq<char>, e: EventModel)
    ensures
        read_members("}"@ + rest, e) == Some((e, rest)),
{
    reveal_strlit("}");
    let s = "}"@ + rest;
    lemma_prefix_len_is(s, Class::Either('"', '}'), 0);
    assert(s.skip(0) == s);
    assert(s.skip(1) == rest);
}

/// Whether none of an entry's texts holds a control character.
pub open spec fn is_printable_event(e: EventModel) -> bool {
    &&& is_printable(e.from_ssid)
    &&& is_printable(e.to_ssid)
    &&& is_printable(e.from_band)
    &&& is_printable(e.to_band)
    &&& is_printable(e.reason)
    &&& is_printable(e.result)
}

proof fn lemma_names()
    ensures
        is_plain_key("ts_unix"@),
        is_plain_key("duration_ms"@),
        is_plain_key("from_ssid"@),
        is_plain_key("to_ssid"@),
        is_plain_key("from_band"@),
        is_plain_key("to_band"@),
        is_plain_key("reason"@),
        is_plain_key("result"@),
        "ts_unix"@ != "duration_ms"@,
        "to_ssid"@ != "from_ssid"@,
        "from_band"@ != "from_ssid"@,
        "from_band"@ != "to_ssid"@,
        "to_band"@ != "from_ssid"@,
        "to_band"@ != "to_ssid"@,
        "to_band"@ != "from_band"@,
        "reason"@ != "from_ssid"@,
        "reason"@ != "to_ssid"@,
        "reason"@ != "from_band"@,
        "reason"@ != "to_band"@,
        "result"@ != "from_ssid"@,
        "result"@ != "to_ssid"@,
        "result"@ != "from_band"@,
        "result"@ != "to_band"@,
        "result"@ != "reason"@,
{
    reveal_strlit("ts_unix");
    reveal_strlit("duration_ms");
    reveal_strlit("from_ssid");
    reveal_strlit("to_ssid");
    reveal_strlit("from_band");
    reveal_strlit("to_band");
    reveal_strlit("reason");
    reveal_strlit("result");
    assert("from_ssid"@[5] != "from_band"@[5]);
    assert("to_ssid"@[3] != "to_band"@[3]);
    assert("reason"@[2] != "result"@[2]);
}

proof fn lemma_event_is_read(e: EventModel, rest: Seq<char>)
    requires
        is_printable_event(e),
    ensures
        (event_json(e) + rest).len() > 0,
        (event_json(e) + rest)[0] == '{',
        read_members((event_json(e) + rest).skip(1), blank_event()) == Some((e, rest)),
{
    reveal(event_json);
    reveal_strlit("{");
    lemma_names();
    let m1 = raw_member("ts_unix"@, dec(e.ts_unix as nat));
    let m2 = text_member("from_ssid"@, e.from_ssid);
    let m3 = text_member("to_ssid"@, e.to_ssid);
    let m4 = text_member("from_band"@, e.from_band);
    let m5 = text_member("to_band"@, e.to_band);
    let m6 = text_member("reason"@, e.reason);
    let m7 = text_member("result"@, e.result);
    let m8 = raw_member("duration_ms"@, dec(e.duration_ms as nat));
    let r8 = "}"@ + rest;
    let r7 = ","@ + (m8 + r8);
    let r6 = ","@ + (m7 + r7);
    let r5 = ","@ + (m6 + r6);
    let r4 = ","@ + (m5 + r5);
    let r3 = ","@ + (m4 + r4);
    let r2 = ","@ + (m3 + r3);
    let r1 = ","@ + (m2 + r2);
    let a1 = "{"@ + m1;
    let a2 = a1 + ","@ + m2;
    let a3 = a2 + ","@ + m3;
    let a4 = a3 + ","@ + m4;
    let a5 = a4 + ","@ + m5;
    let a6 = a5 + ","@ + m6;
    let a7 = a6 + ","@ + m7;
    let a8 = a7 + ","@ + m8;
    assert(event_json(e) == a8 + "}"@);
    lemma_assoc(a8, "}"@, rest);
    lemma_assoc(a7 + ","@, m8, r8);
    lemma_assoc(a7, ","@, m8 + r8);
    lemma_assoc(a6 + ","@, m7, r7);
    lemma_assoc(a6, ","@, m7 + r7);
    lemma_assoc(a5 + ","@, m6, r6);
    lemma_assoc(a5, ","@, m6 + r6);
    lemma_assoc(a4 + ","@, m5, r5);
    lemma_assoc(a4, ","@, m5 + r5);
    lemma_assoc(a3 + ","@, m4, r4);
    lemma_assoc(a3, ","@, m4 + r4);
    lemma_assoc(a2 + ","@, m3, r3);
    lemma_assoc(a2, ","@, m3 + r3);
    lemma_assoc(a1 + ","@, m2, r2);
    lemma_assoc(a1, ","@, m2 + r2);
    lemma_assoc("{"@, m1, r1);
    assert(event_json(e) + rest == "{"@ + (m1 + r1));
    assert(("{"@ + (m1 + r1)).skip(1) == m1 + r1);
    let e0 = blank_event();
    let e1 = with_number(e0, "ts_unix"@, dec(e.ts_unix as nat));
    let e2 = with_text(e1, "from_ssid"@, e.from_ssid);
    let e3 = with_text(e2, "to_ssid"@, e.to_ssid);
    let e4 = with_text(e3, "from_band"@, e.from_band);
    let e5 = with_text(e4, "to_band"@, e.to_band);
    let e6 = with_text(e5, "reason"@, e.reason);
    let e7 = with_text(e6, "result"@, e.result);
    let e8 = with_number(e7, "duration_ms"@, dec(e.duration_ms as nat));
    lemma_past_comma(m2 + r2);
    lemma_past_comma(m3 + r3);
    lemma_past_comma(m4 + r4);
    lemma_past_comma(m5 + r5);
    lemma_past_comma(m6 + r6);
    lemma_past_comma(m7 + r7);
    lemma_past_comma(m8 + r8);
    lemma_past_comma(rest);
    lemma_number_member_is_read("ts_unix"@, e.ts_unix, r1, e0);
    lemma_text_member_is_read("from_ssid"@, e.from_ssid, r2, e1);
    lemma_text_member_is_read("to_ssid"@, e.to_ssid, r3, e2);
    lemma_text_member_is_read("from_band"@, e.from_band, r4, e3);
    lemma_text_member_is_read("to_band"@, e.to_band, r5, e4);
    lemma_text_member_is_read("reason"@, e.reason, r6, e5);
    lemma_text_member_is_read("result"@, e.result, r7, e6);
    lemma_number_member_is_read("duration_ms"@, e.duration_ms, r8, e7);
    lemma_closing_brace(rest, e8);
    assert(e8 =~= e);
}

/// The list, taken from the front.
proof fn lemma_event_list_front(l: Seq<EventModel>)
    requires
        l.len() > 1,
    ensures
        event_list(l) == event_json(l[0]) + (seq![','] + event_list(l.skip(1))),
    decreases l.len(),
{
    let t = l.drop_last();
    let q = l.skip(1);
    assert(q.drop_last() == t.skip(1));
    assert(q.last() == l.last());
    let j = event_json(l.last());
    if l.len() == 2 {
        assert(t[0] == l[0]);
        assert(q[0] == l.last());
        assert(event_list(t) == event_json(l[0]));
        assert(event_list(q) == j);
        lemma_assoc(event_json(l[0]), seq![','], j);
    } else {
        lemma_event_list_front(t);
        assert(t[0] == l[0]);
        let a = event_json(l[0]);
        let b = event_list(t.skip(1));
        lemma_assoc(a, seq![','] + b, seq![',']);
        lemma_assoc(seq![','], b, seq![',']);
        lemma_assoc(a, seq![','] + (b + seq![',']), j);
        lemma_assoc(seq![','], b + seq![','], j);
        assert(event_list(q) == b + seq![','] + j);
        assert(event_list(t) == a + (seq![','] + b));
        assert(event_list(l) == event_list(t) + seq![','] + j);
    }
}

proof fn lemma_entries_are_read(l: Seq<EventModel>, front: Seq<char>)
    requires
        l.len() > 0,
        forall|i: int| 0 <= i < l.len() ==> is_printable_event(#[trigger] l[i]),
        front == Seq::<char>::empty() || front == seq![','],
    ensures
        read_entries(front + (event_list(l) + seq![']'])) == Some(l),
    decreases l.len(),
{
    let e = l[0];
    let q = l.skip(1);
    let tail = if l.len() == 1 {
        seq![']']
    } else {
        seq![','] + (event_list(q) + seq![']'])
    };
    let body = event_list(l) + seq![']'];
    assert(is_printable_event(l[0]));
    if l.len() == 1 {
        assert(body == event_json(e) + tail);
    } else {
        lemma_event_list_front(l);
        lemma_assoc(event_json(e), seq![','] + event_list(q), seq![']']);
        lemma_assoc(seq![','], event_list(q), seq![']']);
        assert forall|i: int| 0 <= i < q.len() implies is_printable_event(#[trigger] q[i]) by {
            assert(q[i] == l[i + 1]);
        }
        lemma_entries_are_read(q, seq![',']);
    }
    lemma_event_is_read(e, tail);
    let s = front + body;
    let n = front.len() as int;
    assert(s[n] == body[0]);
    assert(past_white(s) == s) by {
        assert(s[0] == '{' || s[0] == ',');
    }
    assert forall|i: int| 0 <= i < n implies !in_class(Class::Is('{'), #[trigger] s[i]) by {
        assert(s[i] == front[i]);
    }
    lemma_prefix_len_is(s, Class::Is('{'), n);
    assert(s.skip(n) == body);
    assert(past_one(body) == body.skip(1));
    if l.len() == 1 {
        assert(past_white(tail) == tail);
        assert(read_entries(tail) == Some(Seq::<EventModel>::empty()));
        assert(seq![e] + Seq::<EventModel>::empty() == l);
    } else {
        assert(read_entries(tail) == Some(q));
        assert(seq![e] + q == l);
    }
}

/// A history whose texts hold no control characters is read back as it was written.
pub proof fn law_history_is_read_back(l: Seq<EventModel>)
    requires
        forall|i: int| 0 <= i < l.len() ==> is_printable_event(#[trigger] l[i]),
    ensures
        read_events(events_json(l)) == Some(l),
{
    let s = events_json(l);
    lemma_prefix_len_is(s, Class::Is('['), 0);
    assert(s.skip(0) == s);
    let body = event_list(l) + seq![']'];
    assert(s.skip(1) == body);
    if l.len() == 0 {
        assert(body == seq![']']);
        assert(past_white(body) == body);
        assert(l == Seq::<EventModel>::empty());
    } else {
        lemma_entries_are_read(l, seq![]);
        assert(Seq::<char>::empty() + body == body);
    }
}

} // verus!
