//! The module's own files: the description in `module.prop`, its version, and what an update on
//! disk asks for.

use crate::text::{
    cat, contains, has_prefix, has_sub, law_standing_in, lemma_trim_both, lines, lines_of,
    skip_chars, starts_with, texts, to_chars, trim, trim_both, trimmed, Class,
};
use vstd::prelude::*;
use vstd::string::*;

verus! {

/// A character as it may stand in the description.
pub open spec fn plain_char(c: char) -> char {
    if c == '\n' || c == '\r' || c == '#' || c == '=' {
        ' '
    } else {
        c
    }
}

/// The description that is made of a line: its first 96 characters, without those that mean
/// something in the file, trimmed.
pub open spec fn description_of(line: Seq<char>) -> Seq<char> {
    let n = if line.len() < 96 {
        line.len() as int
    } else {
        96
    };
    trimmed(line.take(n).map_values(|c: char| plain_char(c)))
}

/// The description that is made of a line.
pub fn description_text(line: &str) -> (r: String)
    ensures
        r@ == description_of(line@),
{
    let v = to_chars(line);
    let n: usize = if v.len() < 96 {
        v.len()
    } else {
        96
    };
    let mut out = String::new();
    let mut i: usize = 0;
    while i < n
        invariant
            v@ == line@,
            i <= n <= v@.len(),
            out@ == line@.take(i as int).map_values(|c: char| plain_char(c)),
        decreases n - i,
    {
        let c = v[i];
        let d = if c == '\n' || c == '\r' || c == '#' || c == '=' {
            ' '
        } else {
            c
        };
        out.push(d);
        i = i + 1;
        assert(out@ == line@.take(i as int).map_values(|c: char| plain_char(c)));
    }
    trim(out.as_str())
}

/// A line of the file with the new description.
pub open spec fn described_line(l: Seq<char>, desc: Seq<char>) -> Seq<char> {
    if has_prefix(l, "description="@) {
        "description="@ + desc + "\n"@
    } else {
        l + "\n"@
    }
}

/// The lines of the file with the new description.
pub open spec fn described_lines(ls: Seq<Seq<char>>, desc: Seq<char>) -> Seq<char>
    decreases ls.len(),
{
    if ls.len() == 0 {
        seq![]
    } else {
        described_lines(ls.drop_last(), desc) + described_line(ls.last(), desc)
    }
}

/// Whether a line gives a description.
pub open spec fn has_description(ls: Seq<Seq<char>>) -> bool {
    exists|i: int| 0 <= i < ls.len() && has_prefix(#[trigger] ls[i], "description="@)
}

/// The file with the new description in the place of the old one, or at its end.
pub open spec fn described_file(raw: Seq<char>, desc: Seq<char>) -> Seq<char> {
    let ls = lines_of(raw);
    if has_description(ls) {
        described_lines(ls, desc)
    } else {
        described_lines(ls, desc) + ("description="@ + desc + "\n"@)
    }
}

/// The file with a line of status as its description; nothing where that is empty.
pub fn describe(raw: &str, line: &str) -> (r: Option<String>)
    ensures
        r is Some <==> description_of(line@).len() > 0,
        r matches Some(t) ==> t@ == described_file(raw@, description_of(line@)),
{
    let desc = description_text(line);
    if desc.as_str().is_empty() {
        return None;
    }
    let ls = lines(raw);
    let ghost l = texts(ls@);
    let entry = cat(cat("description=".to_owned(), desc.as_str()), "\n");
    let mut out = String::new();
    let mut found = false;
    let mut i: usize = 0;
    assert(l.take(0) == Seq::<Seq<char>>::empty());
    assert(out@ == described_lines(l.take(0), desc@));
    while i < ls.len()
        invariant
            l == texts(ls@),
            i <= ls@.len(),
            entry@ == "description="@ + desc@ + "\n"@,
            out@ == described_lines(l.take(i as int), desc@),
            found == exists|x: int| 0 <= x < i && has_prefix(#[trigger] l[x], "description="@),
        decreases ls@.len() - i,
    {
        let ghost before = out@;
        assert(l[i as int] == ls@[i as int]@);
        assert(l.take(i + 1).drop_last() == l.take(i as int));
        assert(l.take(i + 1).last() == l[i as int]);
        if starts_with(ls[i].as_str(), "description=") {
            out.append(entry.as_str());
            found = true;
        } else {
            let text = cat(ls[i].clone(), "\n");
            out.append(text.as_str());
        }
        i = i + 1;
    }
    assert(l.take(i as int) == l);
    if !found {
        out.append(entry.as_str());
    }
    Some(out)
}

/// Every line goes over in its place: one that gives a description becomes the new one, any other
/// stays as it is.
pub proof fn law_other_lines_are_kept(ls: Seq<Seq<char>>, desc: Seq<char>, i: int)
    requires
        0 <= i < ls.len(),
    ensures
        has_prefix(ls[i], "description="@) ==> described_line(ls[i], desc) == "description="@ + desc
            + "\n"@,
        !has_prefix(ls[i], "description="@) ==> described_line(ls[i], desc) == ls[i] + "\n"@,
        described_lines(ls.take(i + 1), desc) == described_lines(ls.take(i), desc)
            + described_line(ls[i], desc),
{
    assert(ls.take(i + 1).drop_last() == ls.take(i));
    assert(ls.take(i + 1).last() == ls[i]);
}

/// When the description is written: every fifteen seconds at most.
pub fn description_is_due(last: u64, now: u64) -> (r: bool)
    ensures
        r == (now - last >= 15),
{
    now >= last && now - last >= 15
}

/// The version in the lines: what the last one that gives it says.
pub open spec fn version_in(ls: Seq<Seq<char>>) -> Seq<char>
    decreases ls.len(),
{
    if ls.len() == 0 {
        seq![]
    } else if has_prefix(ls.last(), "version="@) {
        trimmed(ls.last().skip("version="@.len() as int))
    } else {
        version_in(ls.drop_last())
    }
}

/// Whether a line asks for the settings to be reset.
pub open spec fn asks_reset(l: Seq<char>) -> bool {
    has_sub(l, "configResetNeeded=true"@) || has_sub(l, "configResetNeeded=1"@)
}

/// The version in `module.prop`, and whether it asks for the settings to be reset.
pub fn read_module_prop(raw: &str) -> (r: (String, bool))
    ensures
        r.0@ == version_in(lines_of(raw@)),
        r.1 == exists|i: int| 0 <= i < lines_of(raw@).len() && asks_reset(#[trigger] lines_of(raw@)[i]),
{
    let ls = lines(raw);
    let ghost l = texts(ls@);
    let mut version = String::new();
    let mut reset = false;
    let mut i: usize = 0;
    assert(l.take(0) == Seq::<Seq<char>>::empty());
    while i < ls.len()
        invariant
            l == texts(ls@),
            l == lines_of(raw@),
            i <= ls@.len(),
            version@ == version_in(l.take(i as int)),
            reset == exists|x: int| 0 <= x < i && asks_reset(#[trigger] lines_of(raw@)[x]),
        decreases ls@.len() - i,
    {
        let line = ls[i].as_str();
        assert(l[i as int] == line@);
        assert(l.take(i + 1).drop_last() == l.take(i as int));
        assert(l.take(i + 1).last() == l[i as int]);
        if starts_with(line, "version=") {
            let n = to_chars("version=").len();
            version = trim(skip_chars(line, n).as_str());
        }
        if contains(line, "configResetNeeded=true") || contains(line, "configResetNeeded=1") {
            assert(asks_reset(lines_of(raw@)[i as int]));
            reset = true;
        }
        i = i + 1;
    }
    assert(l.take(i as int) == l);
    (version, reset)
}

/// When the module's files were last changed.
#[derive(Clone, Copy, Debug, PartialEq, Eq, Structural)]
pub struct ModuleFileMtimes {
    pub binary: Option<i128>,
    pub sepolicy: Option<i128>,
    pub post_fs_data: Option<i128>,
    pub service_sh: Option<i128>,
}

/// Whether the program itself has been changed. Where its time is not known, it has not.
pub fn binary_changed(start: &ModuleFileMtimes, binary: Option<i128>) -> (r: bool)
    ensures
        r == (start.binary is Some && binary is Some && start.binary != binary),
{
    match (start.binary, binary) {
        (Some(a), Some(b)) => a != b,
        _ => false,
    }
}

fn same_time(a: Option<i128>, b: Option<i128>) -> (r: bool)
    ensures
        r == (a == b),
{
    match (a, b) {
        (Some(x), Some(y)) => x == y,
        (None, None) => true,
        _ => false,
    }
}

/// Whether a file has been changed that takes effect only when the phone starts.
pub fn reboot_files_changed(start: &ModuleFileMtimes, cur: &ModuleFileMtimes) -> (r: bool)
    ensures
        r == (cur.sepolicy != start.sepolicy || cur.post_fs_data != start.post_fs_data
            || cur.service_sh != start.service_sh),
{
    !same_time(cur.sepolicy, start.sepolicy) || !same_time(cur.post_fs_data, start.post_fs_data)
        || !same_time(cur.service_sh, start.service_sh)
}

/// What is told of an update on disk.
#[derive(Debug)]
pub struct UpdateInfo {
    pub detected: bool,
    pub new_version: String,
    pub need_reboot: bool,
    pub need_config_reset: bool,
    pub message: String,
}

/// What is said of an update.
pub open spec fn update_message(version: Seq<char>, need_reboot: bool, reset: bool) -> Seq<char> {
    "模块已更新到 "@ + version + (if need_reboot && reset {
        "：需重启手机生效，且本次更新需重置配置"@
    } else if need_reboot {
        "：需重启手机才能完整生效"@
    } else if reset {
        "：本次更新需重置配置"@
    } else {
        "，正在自动重启…"@
    })
}

/// What is told of an update on disk.
pub fn update_info(version: &str, need_reboot: bool, reset: bool) -> (r: UpdateInfo)
    ensures
        r.detected,
        r.new_version@ == version@,
        r.need_reboot == need_reboot,
        r.need_config_reset == reset,
        r.message@ == update_message(version@, need_reboot, reset),
{
    let tail = if need_reboot && reset {
        "：需重启手机生效，且本次更新需重置配置"
    } else if need_reboot {
        "：需重启手机才能完整生效"
    } else if reset {
        "：本次更新需重置配置"
    } else {
        "，正在自动重启…"
    };
    UpdateInfo {
        detected: true,
        new_version: version.to_owned(),
        need_reboot,
        need_config_reset: reset,
        message: cat(cat("模块已更新到 ".to_owned(), version), tail),
    }
}

impl UpdateInfo {
    /// Whether the daemon can start anew by itself: nothing is asked of the user.
    pub fn can_restart(&self) -> (r: bool)
        ensures
            r == (!self.need_reboot && !self.need_config_reset),
    {
        !self.need_reboot && !self.need_config_reset
    }
}

/// The description is a text without what means something in the file, at most 96 characters long,
/// and a line that is short and plain already is its own description.
pub proof fn law_description(line: Seq<char>)
    ensures
        description_of(line).len() <= 96,
        forall|i: int|
            0 <= i < description_of(line).len() ==> {
                let c = #[trigger] description_of(line)[i];
                c != '\n' && c != '\r' && c != '#' && c != '='
            },
        line.len() <= 96 && (forall|i: int|
            0 <= i < line.len() ==> #[trigger] line[i] != '\n' && line[i] != '\r' && line[i] != '#'
                && line[i] != '=') ==> description_of(line) == trimmed(line),
{
    let n = if line.len() < 96 {
        line.len() as int
    } else {
        96
    };
    let m = line.take(n).map_values(|c: char| plain_char(c));
    lemma_trim_both(m, Class::White);
    let (i, j) = choose|i: int, j: int|
        0 <= i <= j <= m.len() && trim_both(m, Class::White) == m.subrange(i, j);
    assert(description_of(line) == m.subrange(i, j));
    if line.len() <= 96 && (forall|i: int|
        0 <= i < line.len() ==> #[trigger] line[i] != '\n' && line[i] != '\r' && line[i] != '#'
            && line[i] != '=') {
        assert(m =~= line);
    }
}

/// The new description is in the file: what follows the key up to the end of that line. A line that
/// gives the old one is gone, and the other lines are all there.
pub proof fn law_described_line_by_line(p: Seq<Seq<char>>, l: Seq<char>, v: Seq<char>, desc: Seq<char>)
    requires
        !has_prefix(l, "description="@),
    ensures
        described_lines(seq![], desc) == Seq::<char>::empty(),
        described_lines(p.push(l), desc) == described_lines(p, desc) + l + "\n"@,
        described_lines(p.push("description="@ + v), desc) == described_lines(p, desc)
            + "description="@ + desc + "\n"@,
{
    assert(p.push(l).drop_last() == p);
    let d = "description="@ + v;
    assert(p.push(d).drop_last() == p);
    assert(d.take("description="@.len() as int) == "description="@);
    assert(described_lines(p, desc) + (l + "\n"@) =~= described_lines(p, desc) + l + "\n"@);
    assert(described_lines(p, desc) + ("description="@ + desc + "\n"@) =~= described_lines(p, desc)
        + "description="@ + desc + "\n"@);
}

/// A file that gave no description has its lines as they were, and the description behind them.
pub proof fn law_description_is_added(raw: Seq<char>, desc: Seq<char>)
    requires
        forall|i: int|
            0 <= i < lines_of(raw).len() ==> !has_prefix(
                #[trigger] lines_of(raw)[i],
                "description="@,
            ),
    ensures
        described_file(raw, desc) == ended(lines_of(raw)) + "description="@ + desc + "\n"@,
{
    let ls = lines_of(raw);
    lemma_no_description(ls, desc);
    assert(ended(ls) + ("description="@ + desc + "\n"@) =~= ended(ls) + "description="@ + desc
        + "\n"@);
}

/// Lines, each with its end.
pub open spec fn ended(ls: Seq<Seq<char>>) -> Seq<char>
    decreases ls.len(),
{
    if ls.len() == 0 {
        seq![]
    } else {
        ended(ls.drop_last()) + ls.last() + "\n"@
    }
}

proof fn lemma_no_description(ls: Seq<Seq<char>>, desc: Seq<char>)
    requires
        forall|i: int| 0 <= i < ls.len() ==> !has_prefix(#[trigger] ls[i], "description="@),
    ensures
        described_lines(ls, desc) == ended(ls),
    decreases ls.len(),
{
    if ls.len() > 0 {
        assert forall|i: int| 0 <= i < ls.drop_last().len() implies !has_prefix(
            #[trigger] ls.drop_last()[i],
            "description="@,
        ) by {
            assert(ls.drop_last()[i] == ls[i]);
        }
        lemma_no_description(ls.drop_last(), desc);
        assert(ended(ls.drop_last()) + (ls.last() + "\n"@) =~= ended(ls.drop_last()) + ls.last()
            + "\n"@);
    }
}

/// The version is what stands behind its key, without the space around it, in the last line that has
/// the key; other lines have no say.
pub proof fn law_version_is_read(p: Seq<Seq<char>>, v: Seq<char>, l: Seq<char>)
    requires
        !has_prefix(l, "version="@),
    ensures
        version_in(seq![]) == Seq::<char>::empty(),
        version_in(p.push("version="@ + v)) == trimmed(v),
        version_in(p.push(l)) == version_in(p),
{
    let d = "version="@ + v;
    assert(p.push(d).last() == d);
    assert(d.take("version="@.len() as int) == "version="@);
    assert(d.skip("version="@.len() as int) == v);
    assert(p.push(l).drop_last() == p);
}

/// A reset is asked for wherever a line has the key with a yes behind it, and nowhere else.
pub proof fn law_reset_is_asked_for(a: Seq<char>, b: Seq<char>, l: Seq<char>)
    ensures
        asks_reset(a + "configResetNeeded=true"@ + b),
        asks_reset(a + "configResetNeeded=1"@ + b),
        asks_reset(l) ==> exists|x: Seq<char>, y: Seq<char>|
            l == #[trigger] (x + "configResetNeeded=true"@ + y) || l == x + "configResetNeeded=1"@ + y,
{
    let t = "configResetNeeded=true"@;
    let o = "configResetNeeded=1"@;
    law_standing_in(a, t, b);
    law_standing_in(a, o, b);
    if asks_reset(l) {
        if has_sub(l, t) {
            let (x, y) = choose|x: Seq<char>, y: Seq<char>| l == #[trigger] (x + t + y);
            assert(l == x + t + y);
        } else {
            let (x, y) = choose|x: Seq<char>, y: Seq<char>| l == #[trigger] (x + o + y);
            let z = x + t + y;
            assert(l == x + o + y);
        }
    }
}

/// What is said of an update names its version, and says that the phone is to be started anew and
/// that the settings are to be reset exactly where each is so; it is the daemon that starts anew
/// where neither is.
pub proof fn law_update_is_told(version: Seq<char>)
    ensures
        update_message(version, true, true) == "模块已更新到 "@ + version
            + "：需重启手机生效，且本次更新需重置配置"@,
        update_message(version, true, false) == "模块已更新到 "@ + version
            + "：需重启手机才能完整生效"@,
        update_message(version, false, true) == "模块已更新到 "@ + version
            + "：本次更新需重置配置"@,
        update_message(version, false, false) == "模块已更新到 "@ + version
            + "，正在自动重启…"@,
{
}

} // verus!
