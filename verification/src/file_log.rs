//! The log: its levels, its lines, when its file is turned over, and its end for the panel.

use crate::numbers::{dec, u64_text};
use crate::text::{
    ascii_lower, cat, is_white, join_from, joined, law_joining, law_trimming, lines, lines_of,
    str_eq, texts, to_ascii_lower, trimmed, Class,
};
use vstd::prelude::*;
use vstd::string::*;

verus! {

/// Where the log is kept on a phone.
pub const ANDROID_LOG_DIR: &'static str = "/data/adb/amberguard/log";

/// The name of the log.
pub const LOG_NAME: &'static str = "amberguard.log";

/// Size in bytes at which the log is turned over.
pub const MAX_BYTES: u64 = 1_048_576;

/// How much is logged, or how grave an entry is.
#[derive(Clone, Copy, Debug, PartialEq, Eq, Structural)]
pub enum LogLevel {
    Error,
    Warn,
    Info,
    Debug,
    Trace,
}

/// The level that a text names, in whatever case; `info` where it names none.
pub open spec fn named_level(s: Seq<char>) -> LogLevel {
    let t = ascii_lower(s);
    if t == "error"@ {
        LogLevel::Error
    } else if t == "warn"@ || t == "warning"@ {
        LogLevel::Warn
    } else if t == "debug"@ {
        LogLevel::Debug
    } else if t == "trace"@ {
        LogLevel::Trace
    } else {
        LogLevel::Info
    }
}

/// The level that a text names.
pub fn level_from_str(s: &str) -> (r: LogLevel)
    ensures
        r == named_level(s@),
{
    let t = to_ascii_lower(s);
    if str_eq(t.as_str(), "error") {
        LogLevel::Error
    } else if str_eq(t.as_str(), "warn") || str_eq(t.as_str(), "warning") {
        LogLevel::Warn
    } else if str_eq(t.as_str(), "debug") {
        LogLevel::Debug
    } else if str_eq(t.as_str(), "trace") {
        LogLevel::Trace
    } else {
        LogLevel::Info
    }
}

/// A level as it stands in a line: five characters wide, to the right.
pub open spec fn level_column(level: LogLevel) -> Seq<char> {
    match level {
        LogLevel::Error => "ERROR"@,
        LogLevel::Warn => " WARN"@,
        LogLevel::Info => " INFO"@,
        LogLevel::Debug => "DEBUG"@,
        LogLevel::Trace => "TRACE"@,
    }
}

/// A line of the log.
pub fn log_line(secs: u64, level: LogLevel, target: &str, message: &str) -> (r: String)
    ensures
        r@ == dec(secs as nat) + " "@ + level_column(level) + " ["@ + target@ + "] "@ + message@
            + "\n"@,
{
    let column = match level {
        LogLevel::Error => "ERROR",
        LogLevel::Warn => " WARN",
        LogLevel::Info => " INFO",
        LogLevel::Debug => "DEBUG",
        LogLevel::Trace => "TRACE",
    };
    let mut out = u64_text(secs);
    out.append(" ");
    out.append(column);
    out.append(" [");
    out.append(target);
    out.append("] ");
    out.append(message);
    out.append("\n");
    out
}

/// Whether a log of that size is to be turned over before the next line.
pub fn needs_rotation(len: u64) -> (r: bool)
    ensures
        r == (len >= MAX_BYTES),
{
    len >= MAX_BYTES
}

/// Where the log is kept, given whether its directory on a phone, or the one that holds it,
/// exists.
pub fn resolve_log_path(dir_exists: bool, parent_exists: bool) -> (r: String)
    ensures
        r@ == (if dir_exists || parent_exists {
            ANDROID_LOG_DIR@ + "/"@ + LOG_NAME@
        } else {
            LOG_NAME@
        }),
{
    if dir_exists || parent_exists {
        cat(cat(ANDROID_LOG_DIR.to_owned(), "/"), LOG_NAME)
    } else {
        LOG_NAME.to_owned()
    }
}

/// The end of a text: at most so many lines. A text that is short enough stays as it is.
pub open spec fn text_end(text: Seq<char>, max_lines: nat) -> Seq<char> {
    let l = lines_of(text);
    if max_lines == 0 {
        seq![]
    } else if l.len() <= max_lines {
        text
    } else {
        joined(l.skip(l.len() - max_lines), "\n"@) + "\n"@
    }
}

/// The end of a text: at most so many lines.
pub fn last_lines(text: &str, max_lines: usize) -> (r: String)
    ensures
        r@ == text_end(text@, max_lines as nat),
{
    if max_lines == 0 {
        return String::new();
    }
    let l = lines(text);
    assert(texts(l@).len() == l@.len());
    if l.len() <= max_lines {
        return text.to_owned();
    }
    cat(join_from(&l, l.len() - max_lines, "\n"), "\n")
}

/// What the panel shows of the log: the end of the log, or of the service's own where there is
/// none, or nothing.
pub fn tail(log: Option<&str>, service_log: Option<&str>, max_lines: usize) -> (r: String)
    ensures
        r@ == (match (log, service_log) {
            (Some(t), _) => text_end(t@, max_lines as nat),
            (None, Some(t)) => text_end(t@, max_lines as nat),
            (None, None) => seq![],
        }),
{
    match log {
        Some(t) => last_lines(t, max_lines),
        None => match service_log {
            Some(t) => last_lines(t, max_lines),
            None => String::new(),
        },
    }
}

/// A level is known by its name in whatever letter case, and what names none counts as `info`.
pub proof fn law_levels_by_name(s: Seq<char>)
    ensures
        ascii_lower(s) == "error"@ ==> named_level(s) == LogLevel::Error,
        ascii_lower(s) == "warn"@ || ascii_lower(s) == "warning"@ ==> named_level(s)
            == LogLevel::Warn,
        ascii_lower(s) == "debug"@ ==> named_level(s) == LogLevel::Debug,
        ascii_lower(s) == "trace"@ ==> named_level(s) == LogLevel::Trace,
        ascii_lower(s) == "info"@ ==> named_level(s) == LogLevel::Info,
        named_level(s) != LogLevel::Info ==> 4 <= s.len() <= 7,
{
    reveal_strlit("error");
    reveal_strlit("warn");
    reveal_strlit("warning");
    reveal_strlit("info");
    reveal_strlit("debug");
    reveal_strlit("trace");
    assert("error"@[0] == 'e' && "debug"@[0] == 'd' && "trace"@[0] == 't');
    assert("warn"@[0] == 'w' && "info"@[0] == 'i');
    assert("error"@.len() == 5 && "debug"@.len() == 5 && "trace"@.len() == 5);
    assert("warn"@.len() == 4 && "info"@.len() == 4 && "warning"@.len() == 7);
    assert(ascii_lower(s).len() == s.len());
}

/// The column of a level is five characters wide, and what is written in it names the level again.
pub proof fn law_level_column(level: LogLevel)
    ensures
        level_column(level).len() == 5,
        named_level(trimmed(level_column(level))) == level,
{
    reveal_strlit("ERROR");
    reveal_strlit(" WARN");
    reveal_strlit(" INFO");
    reveal_strlit("DEBUG");
    reveal_strlit("TRACE");
    reveal_strlit("error");
    reveal_strlit("warn");
    reveal_strlit("info");
    reveal_strlit("debug");
    reveal_strlit("trace");
    let c = level_column(level);
    let (a, t) = if c[0] == ' ' {
        (seq![' '], c.skip(1))
    } else {
        (Seq::<char>::empty(), c)
    };
    let e = Seq::<char>::empty();
    assert(is_white(' '));
    assert(!is_white('E') && !is_white('R') && !is_white('W') && !is_white('N') && !is_white('I')
        && !is_white('O') && !is_white('D') && !is_white('G') && !is_white('T'));
    assert(a + t + e =~= c);
    law_trimming(a, t, e, Class::White);
    assert(trimmed(c) == t);
    law_levels_by_name(t);
    match level {
        LogLevel::Error => {
            assert(ascii_lower(t) =~= "error"@);
        },
        LogLevel::Warn => {
            assert(ascii_lower(t) =~= "warn"@);
        },
        LogLevel::Info => {
            assert(ascii_lower(t) =~= "info"@);
        },
        LogLevel::Debug => {
            assert(ascii_lower(t) =~= "debug"@);
        },
        LogLevel::Trace => {
            assert(ascii_lower(t) =~= "trace"@);
        },
    }
}

/// The end of a text is the whole of it where it has no more lines than are asked for, and else its
/// last line on top of one line less: so many lines, and the last ones.
pub proof fn law_end_of_a_text(text: Seq<char>, n: nat)
    ensures
        text_end(text, 0) == Seq::<char>::empty(),
        n > 0 && lines_of(text).len() <= n ==> text_end(text, n) == text,
        lines_of(text).len() > 1 ==> text_end(text, 1) == lines_of(text).last() + "\n"@,
        n > 0 && lines_of(text).len() > n + 1 ==> text_end(text, n + 1) == lines_of(
            text,
        )[lines_of(text).len() - n - 1] + "\n"@ + text_end(text, n),
{
    let l = lines_of(text);
    if l.len() > 1 {
        assert(l.skip(l.len() - 1) =~= seq![l.last()]);
        law_joining(seq![], l.last(), "\n"@);
    }
    if n > 0 && l.len() > n + 1 {
        let k = l.len() - n - 1;
        lemma_joined_from_the_front(l.skip(k), "\n"@);
        assert(l.skip(k)[0] == l[k]);
        assert(l.skip(k).skip(1) =~= l.skip(k + 1));
        assert(text_end(text, n + 1) =~= l[k] + "\n"@ + text_end(text, n));
    }
}

proof fn lemma_joined_from_the_front(p: Seq<Seq<char>>, sep: Seq<char>)
    requires
        p.len() > 1,
    ensures
        joined(p, sep) == p[0] + sep + joined(p.skip(1), sep),
    decreases p.len(),
{
    let d = p.drop_last();
    assert(p =~= d.push(p.last()));
    law_joining(d, p.last(), sep);
    let q = p.skip(1);
    if p.len() == 2 {
        assert(d =~= seq![p[0]]);
        assert(q =~= seq![p[1]]);
        law_joining(seq![], p[0], sep);
        law_joining(seq![], p[1], sep);
    } else {
        lemma_joined_from_the_front(d, sep);
        assert(q.drop_last() =~= d.skip(1));
        assert(q =~= q.drop_last().push(q.last()));
        law_joining(q.drop_last(), q.last(), sep);
        assert(joined(p, sep) =~= p[0] + sep + joined(q, sep));
    }
}

} // verus!
