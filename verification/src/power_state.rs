//! Whether the screen is on. In doubt it is: the daemon must not get stuck asleep.

use crate::clock::{elapsed, elapsed_between};
use crate::numbers::{
    dec, dec_int, is_digit, law_signed_decimal_read_back, lemma_dec, parse_i64, signed_value,
};
use crate::text::{
    contains, from_utf8_lossy, has_sub, is_white, lemma_tidy_is_trimmed, lines, lines_of,
    lossy_text, texts, trim, trimmed,
};
use vstd::prelude::*;
use vstd::string::*;

verus! {

/// Whether the screen is on.
#[derive(Clone, Copy, Debug, PartialEq, Eq, Structural)]
pub enum PowerState {
    On,
    Off,
}

/// Follows the screen. It counts as off only when it has been seen off twice in a row.
#[derive(Debug)]
pub struct PowerStateManager {
    last: PowerState,
    off_streak: u8,
    dump_cache: Option<(u128, PowerState)>,
}

/// What a `PowerStateManager` holds.
pub struct PowerModel {
    pub last: PowerState,
    pub off_streak: u8,
    pub dump_cache: Option<(u128, PowerState)>,
}

impl View for PowerStateManager {
    type V = PowerModel;

    closed spec fn view(&self) -> PowerModel {
        PowerModel { last: self.last, off_streak: self.off_streak, dump_cache: self.dump_cache }
    }
}

/// The state after another look at the screen.
pub open spec fn after_look(m: PowerModel, raw: PowerState) -> PowerModel {
    match raw {
        PowerState::On => PowerModel { last: PowerState::On, off_streak: 0, ..m },
        PowerState::Off => {
            let n = if m.off_streak < u8::MAX {
                (m.off_streak + 1) as u8
            } else {
                u8::MAX
            };
            PowerModel {
                last: if n >= 2 {
                    PowerState::Off
                } else {
                    m.last
                },
                off_streak: n,
                ..m
            }
        },
    }
}

/// What was last learnt from the system, where it is less than two seconds old.
pub open spec fn fresh_dump(m: PowerModel, now: u128) -> Option<PowerState> {
    match m.dump_cache {
        Some((t, st)) => if elapsed_between(now, t) < 2_000_000_000 {
            Some(st)
        } else {
            None
        },
        None => None,
    }
}

impl PowerStateManager {
    /// The screen is taken to be on.
    pub fn new() -> (r: Self)
        ensures
            r@ == (PowerModel { last: PowerState::On, off_streak: 0, dump_cache: None }),
    {
        PowerStateManager { last: PowerState::On, off_streak: 0, dump_cache: None }
    }

    /// What was last learnt from the system, where it is less than two seconds old.
    pub fn cached_dump(&self, now: u128) -> (r: Option<PowerState>)
        ensures
            r == fresh_dump(self@, now),
    {
        match self.dump_cache {
            Some((t, st)) => if elapsed(now, t) < 2_000_000_000 {
                Some(st)
            } else {
                None
            },
            None => None,
        }
    }

    /// Takes what the system's output says, where it says anything, and remembers it.
    pub fn note_dump(&mut self, stdout: &Vec<u8>, now: u128) -> (r: Option<PowerState>)
        ensures
            r == (if stdout@.len() == 0 {
                None
            } else {
                wakefulness(lossy_text(stdout@))
            }),
            final(self)@ == (PowerModel {
                dump_cache: match r {
                    Some(st) => Some((now, st)),
                    None => old(self)@.dump_cache,
                },
                ..old(self)@
            }),
    {
        if stdout.len() == 0 {
            return None;
        }
        let text = from_utf8_lossy(stdout);
        let st = read_wakefulness(text.as_str());
        if let Some(s) = st {
            self.dump_cache = Some((now, s));
        }
        st
    }

    /// Takes another look: what the panel and what the system say. The screen counts as off when
    /// it has been seen off twice in a row.
    pub fn current_state(&mut self, backlight: Option<PowerState>, dump: Option<PowerState>) -> (r:
        PowerState)
        ensures
            final(self)@ == after_look(old(self)@, seen_state(backlight, dump)),
            r == final(self)@.last,
    {
        match detect_screen_raw(backlight, dump) {
            PowerState::On => {
                self.off_streak = 0;
                self.last = PowerState::On;
            },
            PowerState::Off => {
                if self.off_streak < u8::MAX {
                    self.off_streak = self.off_streak + 1;
                }
                if self.off_streak >= 2 {
                    self.last = PowerState::Off;
                }
            },
        }
        self.last
    }
}

/// What the panel and the system say together: on where either says so, off only where the
/// system says so.
pub open spec fn seen_state(backlight: Option<PowerState>, dump: Option<PowerState>) -> PowerState {
    if backlight == Some(PowerState::On) || dump == Some(PowerState::On) {
        PowerState::On
    } else if dump == Some(PowerState::Off) {
        PowerState::Off
    } else {
        PowerState::On
    }
}

/// What the panel and the system say together.
pub fn detect_screen_raw(backlight: Option<PowerState>, dump: Option<PowerState>) -> (r: PowerState)
    ensures
        r == seen_state(backlight, dump),
{
    match (backlight, dump) {
        (Some(PowerState::On), _) => PowerState::On,
        (_, Some(PowerState::Off)) => PowerState::Off,
        _ => PowerState::On,
    }
}

/// The brightness that a text gives.
pub open spec fn brightness(text: Seq<char>) -> Option<int> {
    signed_value(trimmed(text), i64::MAX as nat)
}

/// What brightness files say: on where one gives more than zero, off where one gives anything at
/// all, else nothing.
pub open spec fn panel_state(l: Seq<Seq<char>>) -> Option<PowerState> {
    if exists|i: int| 0 <= i < l.len() && (brightness(#[trigger] l[i]) matches Some(n) && n > 0) {
        Some(PowerState::On)
    } else if exists|i: int| 0 <= i < l.len() && brightness(#[trigger] l[i]) is Some {
        Some(PowerState::Off)
    } else {
        None
    }
}

/// What brightness files say.
pub fn read_panel_backlight(files: &Vec<String>) -> (r: Option<PowerState>)
    ensures
        r == panel_state(texts(files@)),
{
    let ghost l = texts(files@);
    let mut saw = false;
    let mut i: usize = 0;
    while i < files.len()
        invariant
            l == texts(files@),
            i <= files@.len(),
            forall|x: int|
                0 <= x < i ==> !(brightness(#[trigger] l[x]) matches Some(n) && n > 0),
            saw == exists|x: int| 0 <= x < i && brightness(#[trigger] l[x]) is Some,
        decreases files@.len() - i,
    {
        assert(l[i as int] == files@[i as int]@);
        if let Some(n) = parse_i64(trim(files[i].as_str()).as_str()) {
            assert(brightness(l[i as int]) is Some);
            if n > 0 {
                assert(brightness(l[i as int]) matches Some(m) && m > 0);
                return Some(PowerState::On);
            }
            saw = true;
        }
        i = i + 1;
    }
    if saw {
        Some(PowerState::Off)
    } else {
        None
    }
}

/// Whether a line holds the pattern.
pub open spec fn some_line_has(text: Seq<char>, pat: Seq<char>) -> bool {
    exists|i: int| 0 <= i < lines_of(text).len() && has_sub(#[trigger] lines_of(text)[i], pat)
}

/// Whether a line holds the pattern.
pub fn line_has(text: &str, pat: &str) -> (r: bool)
    ensures
        r == some_line_has(text@, pat@),
{
    let l = lines(text);
    let mut i: usize = 0;
    while i < l.len()
        invariant
            texts(l@) == lines_of(text@),
            i <= l@.len(),
            forall|x: int| 0 <= x < i ==> !has_sub(#[trigger] lines_of(text@)[x], pat@),
        decreases l@.len() - i,
    {
        assert(texts(l@)[i as int] == l@[i as int]@);
        if contains(l[i].as_str(), pat) {
            assert(has_sub(lines_of(text@)[i as int], pat@));
            return true;
        }
        i = i + 1;
    }
    assert(texts(l@).len() == l@.len());
    false
}

/// What the power service's dump says of the screen.
pub open spec fn wakefulness(text: Seq<char>) -> Option<PowerState> {
    if some_line_has(text, "mWakefulness=Awake"@) {
        Some(PowerState::On)
    } else if some_line_has(text, "mWakefulness=Dozing"@) || some_line_has(
        text,
        "mWakefulness=Asleep"@,
    ) || some_line_has(text, "mWakefulness=Dreaming"@) {
        Some(PowerState::Off)
    } else if some_line_has(text, "mScreenState=ON"@) {
        Some(PowerState::On)
    } else if some_line_has(text, "mScreenState=OFF"@) {
        Some(PowerState::Off)
    } else {
        None
    }
}

/// What the power service's dump says of the screen.
pub fn read_wakefulness(text: &str) -> (r: Option<PowerState>)
    ensures
        r == wakefulness(text@),
{
    if line_has(text, "mWakefulness=Awake") {
        Some(PowerState::On)
    } else if line_has(text, "mWakefulness=Dozing") || line_has(text, "mWakefulness=Asleep")
        || line_has(text, "mWakefulness=Dreaming") {
        Some(PowerState::Off)
    } else if line_has(text, "mScreenState=ON") {
        Some(PowerState::On)
    } else if line_has(text, "mScreenState=OFF") {
        Some(PowerState::Off)
    } else {
        None
    }
}

/// Either source alone keeps the screen on, and without the system's word it is never off.
pub proof fn law_doubt_means_on(backlight: Option<PowerState>, dump: Option<PowerState>)
    ensures
        backlight == Some(PowerState::On) || dump == Some(PowerState::On) ==> seen_state(
            backlight,
            dump,
        ) == PowerState::On,
        dump is None ==> seen_state(backlight, dump) == PowerState::On,
{
}

/// From on, a single look that shows it off leaves the screen on; a second one does not. A look
/// that shows it on puts it on at once.
pub proof fn law_off_takes_two_looks(m: PowerModel)
    requires
        m.last == PowerState::On,
        m.off_streak == 0,
    ensures
        after_look(m, PowerState::Off).last == PowerState::On,
        after_look(after_look(m, PowerState::Off), PowerState::Off).last == PowerState::Off,
        after_look(after_look(after_look(m, PowerState::Off), PowerState::Off), PowerState::On).last
            == PowerState::On,
{
}

/// The screen counts as off exactly where the system says so and the panel does not say that it is on.
pub proof fn law_seen_off(backlight: Option<PowerState>, dump: Option<PowerState>)
    ensures
        seen_state(backlight, dump) == PowerState::Off <==> dump == Some(PowerState::Off)
            && backlight != Some(PowerState::On),
{
}

/// A look that shows the screen on puts it on at once; two in a row that show it off put it off; one
/// alone changes nothing.
pub proof fn law_looks_at_the_screen(m: PowerModel)
    ensures
        after_look(m, PowerState::On).last == PowerState::On,
        after_look(m, PowerState::On).off_streak == 0,
        after_look(after_look(m, PowerState::Off), PowerState::Off).last == PowerState::Off,
        after_look(after_look(m, PowerState::On), PowerState::Off).last == PowerState::On,
        after_look(m, PowerState::Off).last == PowerState::Off <==> m.last == PowerState::Off
            || m.off_streak >= 1,
        after_look(m, PowerState::On).dump_cache == m.dump_cache,
        after_look(m, PowerState::Off).dump_cache == m.dump_cache,
{
}

/// What was learnt from the system counts for two seconds.
pub proof fn law_dump_counts_for_two_seconds(m: PowerModel, at: u128, st: PowerState, now: u128)
    requires
        m.dump_cache == Some((at, st)),
        at <= now,
    ensures
        fresh_dump(m, now) == (if now < at + 2_000_000_000 {
            Some(st)
        } else {
            None
        }),
{
}

/// A dump with a line that tells the phone is awake means on, whatever else it holds; one that tells that
/// it dozes, sleeps or dreams means off; without either the screen's own state counts; without that there
/// is nothing to say.
pub proof fn law_what_a_dump_says(text: Seq<char>, i: int)
    requires
        0 <= i < lines_of(text).len(),
    ensures
        ({
            let l = lines_of(text)[i];
            let awake = exists|j: int|
                0 <= j < lines_of(text).len() && has_sub(
                    #[trigger] lines_of(text)[j],
                    "mWakefulness=Awake"@,
                );
            let told = exists|j: int|
                0 <= j < lines_of(text).len() && (has_sub(
                    #[trigger] lines_of(text)[j],
                    "mWakefulness=Dozing"@,
                ) || has_sub(lines_of(text)[j], "mWakefulness=Asleep"@) || has_sub(
                    lines_of(text)[j],
                    "mWakefulness=Dreaming"@,
                ));
            let on = exists|j: int|
                0 <= j < lines_of(text).len() && has_sub(
                    #[trigger] lines_of(text)[j],
                    "mScreenState=ON"@,
                );
            &&& has_sub(l, "mWakefulness=Awake"@) ==> wakefulness(text) == Some(PowerState::On)
            &&& !awake && (has_sub(l, "mWakefulness=Dozing"@) || has_sub(l, "mWakefulness=Asleep"@)
                || has_sub(l, "mWakefulness=Dreaming"@)) ==> wakefulness(text) == Some(
                PowerState::Off,
            )
            &&& !awake && !told && has_sub(l, "mScreenState=ON"@) ==> wakefulness(text) == Some(
                PowerState::On,
            )
            &&& !awake && !told && !on && has_sub(l, "mScreenState=OFF"@) ==> wakefulness(text)
                == Some(PowerState::Off)
        }),
{
    let l = lines_of(text)[i];
    assert(has_sub(l, "mWakefulness=Awake"@) ==> some_line_has(text, "mWakefulness=Awake"@));
    assert(has_sub(l, "mWakefulness=Dozing"@) ==> some_line_has(text, "mWakefulness=Dozing"@));
    assert(has_sub(l, "mWakefulness=Asleep"@) ==> some_line_has(text, "mWakefulness=Asleep"@));
    assert(has_sub(l, "mWakefulness=Dreaming"@) ==> some_line_has(text, "mWakefulness=Dreaming"@));
    assert(has_sub(l, "mScreenState=ON"@) ==> some_line_has(text, "mScreenState=ON"@));
    assert(has_sub(l, "mScreenState=OFF"@) ==> some_line_has(text, "mScreenState=OFF"@));
}

/// A file that gives a number above zero tells that the screen is on, whatever the others give; where none
/// does, one that gives any other number tells that it is off.
pub proof fn law_what_the_panel_says(l: Seq<Seq<char>>, i: int, n: int)
    requires
        0 <= i < l.len(),
        l[i] == dec_int(n),
        i64::MIN <= n <= i64::MAX,
    ensures
        n > 0 ==> panel_state(l) == Some(PowerState::On),
        n <= 0 ==> panel_state(l) is Some,
        n <= 0 && (forall|j: int|
            0 <= j < l.len() && j != i ==> brightness(#[trigger] l[j]) is None) ==> panel_state(l)
            == Some(PowerState::Off),
{
    law_signed_decimal_read_back(n, i64::MAX as nat);
    let m: nat = if n < 0 {
        (-n) as nat
    } else {
        n as nat
    };
    lemma_dec(m);
    let d = dec_int(n);
    assert(!is_white(d[0]) && !is_white(d.last())) by {
        if n < 0 {
            assert(d.last() == dec(m)[dec(m).len() - 1]);
            assert(is_digit(dec(m)[dec(m).len() - 1]));
        } else {
            assert(is_digit(d[0]) && is_digit(d[d.len() - 1]));
        }
    }
    lemma_tidy_is_trimmed(d);
    assert(brightness(l[i]) == Some(n));
    if n <= 0 && (forall|j: int| 0 <= j < l.len() && j != i ==> brightness(#[trigger] l[j]) is None) {
        assert forall|j: int| 0 <= j < l.len() implies !(brightness(#[trigger] l[j]) matches Some(v)
            && v > 0) by {
            if j != i {
                assert(brightness(l[j]) is None);
            }
        }
    }
}

} // verus!
