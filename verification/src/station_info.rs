//! Counters of the link, read from the output of `iw dev <iface> station dump`.

use crate::clock::{elapsed, elapsed_between, is_clock, secs};
use crate::health_score::{Ratio, RetryRate};
use crate::numbers::{
    dec, is_digit, law_decimal_read_back, lemma_dec, parse_i32, parse_u64, signed_value,
    unsigned_value,
};
use crate::text::{
    cat, from_utf8_lossy, has_prefix, is_white, law_words, lemma_tidy_is_trimmed, lines, lines_of,
    lossy_text, skip_chars, starts_with, texts, to_chars, trim, trimmed, words, words_of,
};
use vstd::prelude::*;
use vstd::string::*;

verus! {

/// One reading of the counters. Times are nanoseconds on the monotonic clock.
#[derive(Clone, Copy, Debug, PartialEq, Eq, Structural)]
pub struct StationSample {
    pub tx_packets: u64,
    pub tx_retries: u64,
    pub tx_failed: u64,
    pub rx_packets: u64,
    pub signal: Option<i32>,
    pub rx_bytes: u64,
    pub tx_bytes: u64,
    pub timestamp: u128,
}

impl StationSample {
    pub open spec fn empty(now: u128) -> StationSample {
        StationSample {
            tx_packets: 0,
            tx_retries: 0,
            tx_failed: 0,
            rx_packets: 0,
            signal: None,
            rx_bytes: 0,
            tx_bytes: 0,
            timestamp: now,
        }
    }

    /// A reading taken at `now` with every counter at zero.
    pub fn new(now: u128) -> (r: StationSample)
        ensures
            r == StationSample::empty(now),
    {
        StationSample {
            tx_packets: 0,
            tx_retries: 0,
            tx_failed: 0,
            rx_packets: 0,
            signal: None,
            rx_bytes: 0,
            tx_bytes: 0,
            timestamp: now,
        }
    }
}

/// The first word after `key`, where the line starts with `key`.
pub open spec fn word_after(line: Seq<char>, key: Seq<char>) -> Option<Seq<char>> {
    if has_prefix(line, key) && words_of(trimmed(line.skip(key.len() as int))).len() > 0 {
        Some(words_of(trimmed(line.skip(key.len() as int)))[0])
    } else {
        None
    }
}

/// The counter that the line gives for `key`.
pub open spec fn counter_after(line: Seq<char>, key: Seq<char>) -> Option<u64> {
    match word_after(line, key) {
        Some(w) => match unsigned_value(w, u64::MAX as nat) {
            Some(v) => Some(v as u64),
            None => None,
        },
        None => None,
    }
}

/// The level in dBm that the line gives for `key`.
pub open spec fn level_after(line: Seq<char>, key: Seq<char>) -> Option<i32> {
    match word_after(line, key) {
        Some(w) => match signed_value(w, i32::MAX as nat) {
            Some(v) => Some(v as i32),
            None => None,
        },
        None => None,
    }
}

fn first_word_after(line: &str, key: &str) -> (r: Option<String>)
    ensures
        r is Some <==> word_after(line@, key@) is Some,
        r matches Some(w) ==> w@ == word_after(line@, key@)->0,
{
    if starts_with(line, key) {
        let n = to_chars(key).len();
        let rest = skip_chars(line, n);
        let ws = words(trim(rest.as_str()).as_str());
        if ws.len() > 0 {
            assert(texts(ws@)[0] == ws@[0]@);
            return Some(ws[0].clone());
        }
        assert(texts(ws@).len() == 0);
    }
    None
}

/// Reads the counter that a line gives for `key`.
pub fn parse_kv(line: &str, key: &str) -> (r: Option<u64>)
    ensures
        r == counter_after(line@, key@),
{
    match first_word_after(line, key) {
        Some(w) => parse_u64(w.as_str()),
        None => None,
    }
}

/// Reads the level that a line gives for `key`.
pub fn parse_signal(line: &str, key: &str) -> (r: Option<i32>)
    ensures
        r == level_after(line@, key@),
{
    match first_word_after(line, key) {
        Some(w) => parse_i32(w.as_str()),
        None => None,
    }
}

/// The reading after one more line: the first key that the trimmed line gives a value for is set.
pub open spec fn with_line(s: StationSample, line: Seq<char>) -> StationSample {
    let t = trimmed(line);
    if counter_after(t, "rx packets:\t"@) is Some {
        StationSample { rx_packets: counter_after(t, "rx packets:\t"@)->0, ..s }
    } else if counter_after(t, "tx packets:\t"@) is Some {
        StationSample { tx_packets: counter_after(t, "tx packets:\t"@)->0, ..s }
    } else if counter_after(t, "tx retries:\t"@) is Some {
        StationSample { tx_retries: counter_after(t, "tx retries:\t"@)->0, ..s }
    } else if counter_after(t, "tx failed:\t"@) is Some {
        StationSample { tx_failed: counter_after(t, "tx failed:\t"@)->0, ..s }
    } else if level_after(t, "signal:"@) is Some {
        StationSample { signal: level_after(t, "signal:"@), ..s }
    } else if counter_after(t, "rx bytes:\t"@) is Some {
        StationSample { rx_bytes: counter_after(t, "rx bytes:\t"@)->0, ..s }
    } else if counter_after(t, "tx bytes:\t"@) is Some {
        StationSample { tx_bytes: counter_after(t, "tx bytes:\t"@)->0, ..s }
    } else {
        s
    }
}

/// The reading after the lines, one after another.
pub open spec fn with_lines(s: StationSample, ls: Seq<Seq<char>>) -> StationSample
    decreases ls.len(),
{
    if ls.len() == 0 {
        s
    } else {
        with_line(with_lines(s, ls.drop_last()), ls.last())
    }
}

/// Reads a station dump taken at `now`. A key that comes twice counts as it comes last.
pub fn parse_iw_station(text: &str, now: u128) -> (r: StationSample)
    ensures
        r == with_lines(StationSample::empty(now), lines_of(text@)),
{
    let ls = lines(text);
    let mut s = StationSample::new(now);
    let mut i: usize = 0;
    assert(texts(ls@).take(0) == Seq::<Seq<char>>::empty());
    while i < ls.len()
        invariant
            i <= ls@.len(),
            s == with_lines(StationSample::empty(now), texts(ls@).take(i as int)),
        decreases ls@.len() - i,
    {
        let tt = trim(ls[i].as_str());
        let t = tt.as_str();
        let ghost line = ls@[i as int]@;
        let ghost before = s;
        if let Some(v) = parse_kv(t, "rx packets:\t") {
            s.rx_packets = v;
        } else if let Some(v) = parse_kv(t, "tx packets:\t") {
            s.tx_packets = v;
        } else if let Some(v) = parse_kv(t, "tx retries:\t") {
            s.tx_retries = v;
        } else if let Some(v) = parse_kv(t, "tx failed:\t") {
            s.tx_failed = v;
        } else if let Some(v) = parse_signal(t, "signal:") {
            s.signal = Some(v);
        } else if let Some(v) = parse_kv(t, "rx bytes:\t") {
            s.rx_bytes = v;
        } else if let Some(v) = parse_kv(t, "tx bytes:\t") {
            s.tx_bytes = v;
        }
        assert(s == with_line(before, line));
        proof {
            let q = texts(ls@).take(i + 1);
            assert(q.drop_last() == texts(ls@).take(i as int));
            assert(q.last() == line);
        }
        i = i + 1;
    }
    assert(texts(ls@).take(i as int) == texts(ls@));
    s
}

/// Retransmissions per packet between two readings, at most one; none where a counter went back
/// or no packet was sent.
pub open spec fn rate_between(prev: StationSample, cur: StationSample) -> Option<RetryRate> {
    let dp = cur.tx_packets - prev.tx_packets;
    let dr = cur.tx_retries - prev.tx_retries;
    if dp <= 0 || dr < 0 {
        None
    } else {
        Some(RetryRate { retries: (if dr < dp { dr } else { dp }) as u64, packets: dp as u64 })
    }
}

/// Retransmissions per packet between two readings.
pub fn retry_rate(prev: &StationSample, cur: &StationSample) -> (r: Option<RetryRate>)
    ensures
        r == rate_between(*prev, *cur),
        r matches Some(rate) ==> rate.well_formed(),
{
    if cur.tx_packets <= prev.tx_packets || cur.tx_retries < prev.tx_retries {
        return None;
    }
    let dp: u64 = cur.tx_packets - prev.tx_packets;
    let dr: u64 = cur.tx_retries - prev.tx_retries;
    Some(RetryRate { retries: if dr < dp { dr } else { dp }, packets: dp })
}

/// Bytes received and sent since the earlier reading; a counter that went back counts nothing.
pub open spec fn bytes_between(prev: StationSample, cur: StationSample) -> int {
    (if cur.rx_bytes > prev.rx_bytes { cur.rx_bytes - prev.rx_bytes } else { 0 })
        + (if cur.tx_bytes > prev.tx_bytes { cur.tx_bytes - prev.tx_bytes } else { 0 })
}

/// Traffic in both directions in KB/s since the earlier reading, seen at `now`; nothing where
/// less than half a second has passed.
pub fn traffic_rate_kbps(prev: &StationSample, cur: &StationSample, now: u128) -> (r: Option<Ratio>)
    requires
        bytes_between(*prev, *cur) <= u64::MAX,
        is_clock(now),
    ensures
        r is Some <==> elapsed_between(now, prev.timestamp) >= 500_000_000,
        r matches Some(q) ==> q.num == bytes_between(*prev, *cur) * 1_000_000_000 && q.den
            == elapsed_between(now, prev.timestamp) * 1024,
{
    let rx: u64 = if cur.rx_bytes > prev.rx_bytes {
        cur.rx_bytes - prev.rx_bytes
    } else {
        0
    };
    let tx: u64 = if cur.tx_bytes > prev.tx_bytes {
        cur.tx_bytes - prev.tx_bytes
    } else {
        0
    };
    let dbytes: u64 = rx + tx;
    let dt: u128 = elapsed(now, prev.timestamp);
    if dt < 500_000_000 {
        return None;
    }
    Some(Ratio { num: dbytes as u128 * 1_000_000_000, den: dt * 1024 })
}

/// The text of `iw dev <interface> station dump`, given what came of running it: whether it
/// succeeded, its exit status in words and its outputs.
pub fn iw_station_dump(success: bool, status: &str, stdout: &Vec<u8>, stderr: &Vec<u8>) -> (r: Result<
    String,
    String,
>)
    ensures
        r is Ok <==> success,
        r matches Ok(t) ==> t@ == lossy_text(stdout@),
        r matches Err(e) ==> e@ == "iw exit "@ + status@ + ": "@ + trimmed(lossy_text(stderr@)),
{
    if success {
        return Ok(from_utf8_lossy(stdout));
    }
    let why = trim(from_utf8_lossy(stderr).as_str());
    Err(cat(cat(cat("iw exit ".to_owned(), status), ": "), why.as_str()))
}

/// The last reading of the counters, and what it says beside the one before.
#[derive(Clone, Copy, Debug, PartialEq, Eq, Structural)]
pub struct Sampler {
    pub prev: StationSample,
    pub last_at: u128,
    pub retry: Option<RetryRate>,
    pub tx_delta: u64,
}

impl Sampler {
    /// The rate that is kept is a share.
    pub open spec fn well_formed(self) -> bool {
        self.retry matches Some(rate) ==> rate.well_formed()
    }

    /// No reading yet; the last one counts as ten seconds ago.
    pub fn new(now: u128) -> (r: Self)
        requires
            now >= 10_000_000_000,
        ensures
            r == (Sampler {
                prev: StationSample::empty(now),
                last_at: (now - 10_000_000_000) as u128,
                retry: None,
                tx_delta: 0,
            }),
            r.well_formed(),
    {
        Sampler {
            prev: StationSample::new(now),
            last_at: now - 10_000_000_000,
            retry: None,
            tx_delta: 0,
        }
    }

    /// Whether a reading is to be taken: not with the screen off, else after the gap. It is
    /// taken to be made.
    pub fn take_now(&mut self, screen_off: bool, gap_secs: u64, now: u128) -> (r: bool)
        ensures
            r == (!screen_off && elapsed_between(now, old(self).last_at) >= gap_secs
                * 1_000_000_000),
            *final(self) == (if r {
                Sampler { last_at: now, ..*old(self) }
            } else {
                *old(self)
            }),
    {
        if screen_off || elapsed(now, self.last_at) < secs(gap_secs) {
            return false;
        }
        self.last_at = now;
        true
    }

    /// Takes a reading.
    pub fn on_dump(&mut self, text: &str, now: u128)
        ensures
            ({
                let cur = with_lines(StationSample::empty(now), lines_of(text@));
                *final(self) == (Sampler {
                    prev: cur,
                    retry: rate_between(old(self).prev, cur),
                    tx_delta: (if cur.tx_packets > old(self).prev.tx_packets {
                        cur.tx_packets - old(self).prev.tx_packets
                    } else {
                        0
                    }) as u64,
                    ..*old(self)
                })
            }),
            final(self).well_formed(),
    {
        let cur = parse_iw_station(text, now);
        self.retry = retry_rate(&self.prev, &cur);
        self.tx_delta = if cur.tx_packets > self.prev.tx_packets {
            cur.tx_packets - self.prev.tx_packets
        } else {
            0
        };
        self.prev = cur;
    }

    /// The retransmissions and the packets that count: with the screen off there is no traffic.
    pub fn current(&self, screen_off: bool) -> (r: (Option<RetryRate>, u64))
        ensures
            r.0 == self.retry,
            r.1 == (if screen_off {
                0
            } else {
                self.tx_delta
            }),
    {
        (
            self.retry,
            if screen_off {
                0
            } else {
                self.tx_delta
            },
        )
    }
}

proof fn lemma_number_is_a_word(n: nat)
    ensures
        dec(n).len() > 0,
        !is_white(dec(n)[0]) && !is_white(dec(n).last()),
        words_of(trimmed(dec(n))) == seq![dec(n)],
{
    lemma_dec(n);
    let d = dec(n);
    assert forall|i: int| 0 <= i < d.len() implies !is_white(#[trigger] d[i]) by {
        assert(is_digit(d[i]));
    }
    lemma_tidy_is_trimmed(d);
    law_words(d, ' ', seq![]);
}

/// What a key in front of a number makes of a line.
proof fn lemma_counter_line(key: Seq<char>, n: nat)
    requires
        key.len() > 0,
        !is_white(key[0]),
        n <= u64::MAX,
    ensures
        trimmed(key + dec(n)) == key + dec(n),
        counter_after(key + dec(n), key) == Some(n as u64),
        forall|other: Seq<char>|
            other.len() > 3 && key.len() > 3 && (other[0] != key[0] || other[3] != key[3])
                ==> !#[trigger] has_prefix(key + dec(n), other),
{
    let d = dec(n);
    let t = key + d;
    lemma_number_is_a_word(n);
    assert(t[0] == key[0]);
    assert(t.last() == d.last());
    lemma_tidy_is_trimmed(t);
    assert(t.take(key.len() as int) == key);
    assert(t.skip(key.len() as int) == d);
    law_decimal_read_back(n, u64::MAX as nat);
    assert forall|other: Seq<char>|
        other.len() > 3 && key.len() > 3 && (other[0] != key[0] || other[3]
            != key[3]) implies !#[trigger] has_prefix(t, other) by {
        if has_prefix(t, other) {
            let q = t.take(other.len() as int);
            assert(q[0] == t[0] && q[3] == t[3]);
            assert(t[3] == key[3]);
        }
    }
}

/// A counter in the dump is read under its key, and leaves every other one alone.
pub proof fn law_counters_are_read(s: StationSample, n: u64)
    ensures
        with_line(s, "rx packets:\t"@ + dec(n as nat)) == (StationSample { rx_packets: n, ..s }),
        with_line(s, "tx packets:\t"@ + dec(n as nat)) == (StationSample { tx_packets: n, ..s }),
        with_line(s, "tx retries:\t"@ + dec(n as nat)) == (StationSample { tx_retries: n, ..s }),
        with_line(s, "tx failed:\t"@ + dec(n as nat)) == (StationSample { tx_failed: n, ..s }),
        with_line(s, "rx bytes:\t"@ + dec(n as nat)) == (StationSample { rx_bytes: n, ..s }),
        with_line(s, "tx bytes:\t"@ + dec(n as nat)) == (StationSample { tx_bytes: n, ..s }),
{
    lemma_key_letters();
    lemma_counter_line("rx packets:\t"@, n as nat);
    lemma_counter_line("tx packets:\t"@, n as nat);
    lemma_counter_line("tx retries:\t"@, n as nat);
    lemma_counter_line("tx failed:\t"@, n as nat);
    lemma_counter_line("rx bytes:\t"@, n as nat);
    lemma_counter_line("tx bytes:\t"@, n as nat);
}

proof fn lemma_key_letters()
    ensures
        "rx packets:\t"@.len() > 3 && "rx packets:\t"@[0] == 'r' && "rx packets:\t"@[3] == 'p',
        "tx packets:\t"@.len() > 3 && "tx packets:\t"@[0] == 't' && "tx packets:\t"@[3] == 'p',
        "tx retries:\t"@.len() > 3 && "tx retries:\t"@[0] == 't' && "tx retries:\t"@[3] == 'r',
        "tx failed:\t"@.len() > 3 && "tx failed:\t"@[0] == 't' && "tx failed:\t"@[3] == 'f',
        "signal:"@.len() > 3 && "signal:"@[0] == 's' && "signal:"@[3] == 'n',
        "rx bytes:\t"@.len() > 3 && "rx bytes:\t"@[0] == 'r' && "rx bytes:\t"@[3] == 'b',
        "tx bytes:\t"@.len() > 3 && "tx bytes:\t"@[0] == 't' && "tx bytes:\t"@[3] == 'b',
{
    reveal_strlit("rx packets:\t");
    reveal_strlit("tx packets:\t");
    reveal_strlit("tx retries:\t");
    reveal_strlit("tx failed:\t");
    reveal_strlit("signal:");
    reveal_strlit("rx bytes:\t");
    reveal_strlit("tx bytes:\t");
}

/// The lines of a dump are taken one after another.
pub proof fn law_dump_is_read_line_by_line(s: StationSample, ls: Seq<Seq<char>>, line: Seq<char>)
    ensures
        with_lines(s, seq![]) == s,
        with_lines(s, ls.push(line)) == with_line(with_lines(s, ls), line),
{
    assert(ls.push(line).drop_last() == ls);
}

/// Retransmissions are counted per packet sent between two readings, and at most one for each; where no
/// packet was sent or a counter went back there is nothing to say.
pub proof fn law_retries_per_packet(a: StationSample, b: StationSample)
    ensures
        rate_between(a, b) is Some <==> b.tx_packets > a.tx_packets && b.tx_retries >= a.tx_retries,
        rate_between(a, b) matches Some(r) ==> {
            &&& r.packets == b.tx_packets - a.tx_packets
            &&& r.retries <= r.packets
            &&& b.tx_retries - a.tx_retries <= r.packets ==> r.retries == b.tx_retries
                - a.tx_retries
            &&& b.tx_retries - a.tx_retries > r.packets ==> r.retries == r.packets
        },
        b.rx_bytes >= a.rx_bytes && b.tx_bytes >= a.tx_bytes ==> bytes_between(a, b) == b.rx_bytes
            - a.rx_bytes + b.tx_bytes - a.tx_bytes,
        b.rx_bytes < a.rx_bytes && b.tx_bytes >= a.tx_bytes ==> bytes_between(a, b) == b.tx_bytes
            - a.tx_bytes,
        b.rx_bytes >= a.rx_bytes && b.tx_bytes < a.tx_bytes ==> bytes_between(a, b) == b.rx_bytes
            - a.rx_bytes,
{
}

/// Before a dump has been read nothing has been counted, and the moment is that of the look.
pub proof fn law_reading_starts_at_zero(now: u128)
    ensures
        ({
            let s = StationSample::empty(now);
            &&& s.tx_packets == 0 && s.tx_retries == 0 && s.tx_failed == 0 && s.rx_packets == 0
            &&& s.rx_bytes == 0 && s.tx_bytes == 0
            &&& s.signal is None
            &&& s.timestamp == now
        }),
{
}

} // verus!
