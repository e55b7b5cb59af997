//! The control interface of `wpa_supplicant`: what its replies say, which commands are sent, and
//! which sockets may be its own.

use crate::config::opt_text;
use crate::numbers::{dec, parse_i32, parse_u32, signed_value, u64_text, unsigned_value};
use crate::text::{
    byte_len, cat, contains, find_class, from_chars, from_utf8, has_prefix, has_sub, has_suffix,
    in_class, is_white, law_cutting, lemma_prefix_len, lemma_tidy_is_trimmed, len_bytes, lines,
    lines_of, list_has, prefix_len, skip_chars, starts_with, str_eq, texts, to_chars, trim, trimmed,
    Class,
};
use crate::text_map::TextMap;
use vstd::prelude::*;
use vstd::string::*;
use vstd::utf8::*;

verus! {

/// Why a command had no effect.
#[derive(Debug)]
pub enum WpaError {
    Io(String),
    Parse(String),
    NotConnected,
}

impl WpaError {
    /// What the error says.
    pub open spec fn message(&self) -> Seq<char> {
        match self {
            WpaError::Io(s) => "IO: "@ + s@,
            WpaError::Parse(s) => "Parse: "@ + s@,
            WpaError::NotConnected => "Not connected"@,
        }
    }

    /// What the error says.
    pub fn text(&self) -> (r: String)
        ensures
            r@ == self.message(),
    {
        match self {
            WpaError::Io(s) => cat("IO: ".to_owned(), s.as_str()),
            WpaError::Parse(s) => cat("Parse: ".to_owned(), s.as_str()),
            WpaError::NotConnected => "Not connected".to_owned(),
        }
    }
}

/// A text in a map.
#[derive(Debug)]
pub struct RawValue {
    pub text: String,
}

impl View for RawValue {
    type V = Seq<char>;

    open spec fn view(&self) -> Seq<char> {
        self.text@
    }
}

/// The state of the link, as a reply gives it.
#[derive(Debug)]
pub struct WpaStatus {
    pub wpa_state: String,
    pub ssid: Option<String>,
    pub bssid: Option<String>,
    pub freq: Option<u32>,
    pub signal_dbm: Option<i32>,
    pub ip_address: Option<String>,
    pub disabled: Option<u32>,
    pub raw: TextMap<RawValue>,
}

/// What a `WpaStatus` holds.
#[verifier::ext_equal]
pub struct WpaModel {
    pub wpa_state: Seq<char>,
    pub ssid: Option<Seq<char>>,
    pub bssid: Option<Seq<char>>,
    pub freq: Option<u32>,
    pub signal_dbm: Option<i32>,
    pub ip_address: Option<Seq<char>>,
    pub disabled: Option<u32>,
    pub raw: Map<Seq<char>, Seq<char>>,
}

impl View for WpaStatus {
    type V = WpaModel;

    open spec fn view(&self) -> WpaModel {
        WpaModel {
            wpa_state: self.wpa_state@,
            ssid: opt_text(self.ssid),
            bssid: opt_text(self.bssid),
            freq: self.freq,
            signal_dbm: self.signal_dbm,
            ip_address: opt_text(self.ip_address),
            disabled: self.disabled,
            raw: self.raw@,
        }
    }
}

/// A status with nothing in it.
pub open spec fn blank_status() -> WpaModel {
    WpaModel {
        wpa_state: seq![],
        ssid: None,
        bssid: None,
        freq: None,
        signal_dbm: None,
        ip_address: None,
        disabled: None,
        raw: Map::empty(),
    }
}

impl Default for WpaStatus {
    fn default() -> (r: Self)
        ensures
            r@ == blank_status(),
            r.raw.well_formed(),
    {
        WpaStatus {
            wpa_state: String::new(),
            ssid: None,
            bssid: None,
            freq: None,
            signal_dbm: None,
            ip_address: None,
            disabled: None,
            raw: TextMap::new(),
        }
    }
}

pub open spec fn u32_value(s: Seq<char>) -> Option<u32> {
    match unsigned_value(s, u32::MAX as nat) {
        Some(v) => Some(v as u32),
        None => None,
    }
}

pub open spec fn i32_value(s: Seq<char>) -> Option<i32> {
    match signed_value(s, i32::MAX as nat) {
        Some(v) => Some(v as i32),
        None => None,
    }
}

/// Whether a key is one of the names that the signal goes by.
pub open spec fn is_signal_key(key: Seq<char>) -> bool {
    key == "signal_dbm"@ || key == "signal"@ || key == "rssi"@ || key == "RSSI"@
}

/// The status after one more key with its value. The signal stays as it came first.
pub open spec fn with_pair(s: WpaModel, key: Seq<char>, val: Seq<char>) -> WpaModel {
    if key == "wpa_state"@ {
        WpaModel { wpa_state: val, ..s }
    } else if key == "ssid"@ {
        WpaModel { ssid: Some(val), ..s }
    } else if key == "bssid"@ {
        WpaModel { bssid: Some(val), ..s }
    } else if key == "freq"@ {
        WpaModel { freq: u32_value(val), ..s }
    } else if is_signal_key(key) {
        if s.signal_dbm is None {
            WpaModel { signal_dbm: i32_value(val), ..s }
        } else {
            s
        }
    } else if key == "ip_address"@ {
        WpaModel { ip_address: Some(val), ..s }
    } else if key == "disabled"@ {
        WpaModel { disabled: u32_value(val), ..s }
    } else {
        WpaModel { raw: s.raw.insert(key, val), ..s }
    }
}

/// The status after one more line: a key and its value around the first equals sign, both
/// trimmed. A line without one is passed over.
pub open spec fn with_status_line(s: WpaModel, line: Seq<char>) -> WpaModel {
    let t = trimmed(line);
    let n = prefix_len(t, Class::Is('='));
    if n >= t.len() {
        s
    } else {
        with_pair(s, trimmed(t.take(n)), trimmed(t.skip(n + 1)))
    }
}

/// The status after the lines, one after another.
pub open spec fn with_status_lines(ls: Seq<Seq<char>>) -> WpaModel
    decreases ls.len(),
{
    if ls.len() == 0 {
        blank_status()
    } else {
        with_status_line(with_status_lines(ls.drop_last()), ls.last())
    }
}

impl WpaStatus {
    fn set_pair(&mut self, key: &str, val: String)
        requires
            old(self).raw.well_formed(),
        ensures
            final(self).raw.well_formed(),
            final(self)@ == with_pair(old(self)@, key@, val@),
    {
        if str_eq(key, "wpa_state") {
            self.wpa_state = val;
        } else if str_eq(key, "ssid") {
            self.ssid = Some(val);
        } else if str_eq(key, "bssid") {
            self.bssid = Some(val);
        } else if str_eq(key, "freq") {
            self.freq = parse_u32(val.as_str());
        } else if str_eq(key, "signal_dbm") || str_eq(key, "signal") || str_eq(key, "rssi")
            || str_eq(key, "RSSI") {
            if self.signal_dbm.is_none() {
                self.signal_dbm = parse_i32(val.as_str());
            }
        } else if str_eq(key, "ip_address") {
            self.ip_address = Some(val);
        } else if str_eq(key, "disabled") {
            self.disabled = parse_u32(val.as_str());
        } else {
            self.raw.insert(key.to_owned(), RawValue { text: val });
        }
    }

    /// Reads a reply of lines with keys and values.
    pub fn parse(text: &str) -> (r: Self)
        ensures
            r@ == with_status_lines(lines_of(text@)),
            r.raw.well_formed(),
    {
        let ls = lines(text);
        let mut s = WpaStatus::default();
        let mut i: usize = 0;
        assert(texts(ls@).take(0) == Seq::<Seq<char>>::empty());
        while i < ls.len()
            invariant
                i <= ls@.len(),
                s.raw.well_formed(),
                s@ == with_status_lines(texts(ls@).take(i as int)),
            decreases ls@.len() - i,
        {
            let ghost q = texts(ls@).take(i + 1);
            assert(q.drop_last() == texts(ls@).take(i as int));
            assert(q.last() == ls@[i as int]@);
            let t = trim(ls[i].as_str());
            let v = to_chars(t.as_str());
            assert(v@.skip(0) == v@);
            let n = find_class(&v, Class::Is('='), 0);
            if n < v.len() {
                let key = from_chars(&v, 0, n);
                let val = from_chars(&v, n + 1, v.len());
                assert(key@ == v@.take(n as int));
                assert(val@ == v@.skip(n + 1));
                s.set_pair(trim(key.as_str()).as_str(), trim(val.as_str()));
            }
            i = i + 1;
        }
        assert(texts(ls@).take(i as int) == texts(ls@));
        s
    }
}

/// The map with the entries at those keys of another one added, where it does not have them.
pub open spec fn added(
    m: Map<Seq<char>, Seq<char>>,
    other: Map<Seq<char>, Seq<char>>,
    keys: Seq<Seq<char>>,
) -> Map<Seq<char>, Seq<char>> {
    Map::new(
        |k: Seq<char>| m.dom().contains(k) || keys.contains(k),
        |k: Seq<char>|
            if m.dom().contains(k) {
                m[k]
            } else {
                other[k]
            },
    )
}

/// The status with the signal of another reply, where it has none itself.
pub open spec fn with_signal(s: WpaModel, poll: WpaModel) -> WpaModel {
    if s.signal_dbm is Some {
        s
    } else {
        WpaModel {
            signal_dbm: poll.signal_dbm,
            raw: poll.raw.union_prefer_right(s.raw),
            ..s
        }
    }
}

/// Whether a name in a socket directory may be the server's: an interface, and none of the
/// sockets that clients have left there.
pub open spec fn is_server_socket(name: Seq<char>) -> bool {
    !has_prefix(name, "wpa_ctrl_"@) && (has_prefix(name, "wlan"@) || has_prefix(name, "p2p"@)
        || has_prefix(name, "wifi"@) || name == "wpa_wlan0"@ || has_prefix(name, "vendor_wpa"@))
}

/// Whether a name in a socket directory may be the server's.
pub fn looks_like_server_socket(name: &str) -> (r: bool)
    ensures
        r == is_server_socket(name@),
{
    if starts_with(name, "wpa_ctrl_") {
        return false;
    }
    starts_with(name, "wlan") || starts_with(name, "p2p") || starts_with(name, "wifi") || str_eq(
        name,
        "wpa_wlan0",
    ) || starts_with(name, "vendor_wpa")
}

/// An entry of a directory.
#[derive(Debug)]
pub struct SocketEntry {
    pub name: String,
    pub path: String,
}

/// What a `SocketEntry` holds.
#[verifier::ext_equal]
pub struct SocketModel {
    pub name: Seq<char>,
    pub path: Seq<char>,
}

impl View for SocketEntry {
    type V = SocketModel;

    open spec fn view(&self) -> SocketModel {
        SocketModel { name: self.name@, path: self.path@ }
    }
}

/// The contents of a list of entries.
pub open spec fn sockets(v: Seq<SocketEntry>) -> Seq<SocketModel> {
    v.map_values(|e: SocketEntry| e@)
}

/// The list with a text at its end, where it does not hold it yet.
pub open spec fn with_new(l: Seq<Seq<char>>, t: Seq<char>) -> Seq<Seq<char>> {
    if l.contains(t) {
        l
    } else {
        l.push(t)
    }
}

fn add_new(l: &mut Vec<String>, t: &str)
    ensures
        texts(final(l)@) == with_new(texts(old(l)@), t@),
{
    if !list_has(l, t) {
        let ghost before = l@;
        l.push(t.to_owned());
        assert(texts(l@) == texts(before).push(t@));
    }
}

/// The list with the paths of those entries that may be a server's, each once. In a directory of
/// its own an entry must look like one; elsewhere it must have `wpa` or `wifi` in its name.
pub open spec fn with_sockets(l: Seq<Seq<char>>, e: Seq<SocketModel>, own_dir: bool) -> Seq<
    Seq<char>,
>
    decreases e.len(),
{
    if e.len() == 0 {
        l
    } else {
        let b = with_sockets(l, e.drop_last(), own_dir);
        let x = e.last();
        let fits = if own_dir {
            is_server_socket(x.name)
        } else {
            has_sub(x.name, "wpa"@) || has_sub(x.name, "wifi"@)
        };
        if fits {
            with_new(b, x.path)
        } else {
            b
        }
    }
}

fn add_sockets(l: &mut Vec<String>, entries: &Vec<SocketEntry>, own_dir: bool)
    ensures
        texts(final(l)@) == with_sockets(texts(old(l)@), sockets(entries@), own_dir),
{
    let ghost first = texts(l@);
    let ghost e = sockets(entries@);
    let mut i: usize = 0;
    assert(e.take(0) == Seq::<SocketModel>::empty());
    while i < entries.len()
        invariant
            e == sockets(entries@),
            i <= entries@.len(),
            texts(l@) == with_sockets(first, e.take(i as int), own_dir),
        decreases entries@.len() - i,
    {
        assert(e.take(i + 1).drop_last() == e.take(i as int));
        assert(e.take(i + 1).last() == entries@[i as int]@);
        let name = entries[i].name.as_str();
        let fits = if own_dir {
            looks_like_server_socket(name)
        } else {
            contains(name, "wpa") || contains(name, "wifi")
        };
        if fits {
            add_new(l, entries[i].path.as_str());
        }
        i = i + 1;
    }
    assert(e.take(i as int) == e);
}

/// The sockets to be tried: those in the directories that are made for them, those in the
/// general one, then two abstract names; each once.
pub open spec fn candidates_of(own_dirs: Seq<SocketModel>, dev_socket: Seq<SocketModel>) -> Seq<
    Seq<char>,
> {
    let l = with_sockets(with_sockets(seq![], own_dirs, true), dev_socket, false);
    with_new(with_new(l, "@wpa_wlan0"@), "@wpa_wifi0"@)
}

/// The sockets to be tried, in their order.
pub fn discover(own_dirs: &Vec<SocketEntry>, dev_socket: &Vec<SocketEntry>) -> (r: Vec<String>)
    ensures
        texts(r@) == candidates_of(sockets(own_dirs@), sockets(dev_socket@)),
{
    let mut l: Vec<String> = Vec::new();
    assert(texts(l@) == Seq::<Seq<char>>::empty());
    add_sockets(&mut l, own_dirs, true);
    add_sockets(&mut l, dev_socket, false);
    add_new(&mut l, "@wpa_wlan0");
    add_new(&mut l, "@wpa_wifi0");
    l
}

/// No socket is tried twice, and the two abstract names are always tried.
pub proof fn law_candidates_are_distinct(
    own_dirs: Seq<SocketModel>,
    dev_socket: Seq<SocketModel>,
)
    ensures
        candidates_of(own_dirs, dev_socket).no_duplicates(),
        candidates_of(own_dirs, dev_socket).contains("@wpa_wlan0"@),
        candidates_of(own_dirs, dev_socket).contains("@wpa_wifi0"@),
{
    let a = with_sockets(seq![], own_dirs, true);
    let b = with_sockets(a, dev_socket, false);
    lemma_distinct_sockets(seq![], own_dirs, true);
    lemma_distinct_sockets(a, dev_socket, false);
    let c = with_new(b, "@wpa_wlan0"@);
    let d = with_new(c, "@wpa_wifi0"@);
    if !b.contains("@wpa_wlan0"@) {
        assert(c[b.len() as int] == "@wpa_wlan0"@);
    }
    let i = choose|i: int| 0 <= i < c.len() && c[i] == "@wpa_wlan0"@;
    assert(d[i] == "@wpa_wlan0"@);
    if !c.contains("@wpa_wifi0"@) {
        assert(d[c.len() as int] == "@wpa_wifi0"@);
    }
}

proof fn lemma_distinct_sockets(l: Seq<Seq<char>>, e: Seq<SocketModel>, own_dir: bool)
    requires
        l.no_duplicates(),
    ensures
        with_sockets(l, e, own_dir).no_duplicates(),
    decreases e.len(),
{
    if e.len() > 0 {
        lemma_distinct_sockets(l, e.drop_last(), own_dir);
    }
}

/// The search for the server's socket.
#[derive(Debug)]
pub struct AutoConnect {
    paths: Vec<String>,
    next: usize,
    last: WpaError,
}

/// What an `AutoConnect` holds: the sockets, how many have failed, and the last failure.
#[verifier::ext_equal]
pub struct AutoConnectModel {
    pub paths: Seq<Seq<char>>,
    pub next: int,
    pub last: WpaError,
}

impl View for AutoConnect {
    type V = AutoConnectModel;

    closed spec fn view(&self) -> AutoConnectModel {
        AutoConnectModel { paths: texts(self.paths@), next: self.next as int, last: self.last }
    }
}

impl AutoConnect {
    /// The socket to be tried next; none where all have failed.
    pub fn path(&self) -> (r: Option<&str>)
        ensures
            r is Some <==> 0 <= self@.next < self@.paths.len(),
            r matches Some(p) ==> p@ == self@.paths[self@.next],
    {
        if self.next < self.paths.len() {
            Some(self.paths[self.next].as_str())
        } else {
            None
        }
    }

    /// The socket has not answered, for that reason.
    pub fn failed(&mut self, e: WpaError)
        requires
            0 <= old(self)@.next < old(self)@.paths.len(),
        ensures
            final(self)@ == (AutoConnectModel { next: old(self)@.next + 1, last: e, ..old(self)@ }),
    {
        assert(self@.paths.len() == self.paths.len());
        self.next = self.next + 1;
        self.last = e;
    }

    /// The last failure.
    pub fn into_error(self) -> (r: WpaError)
        ensures
            r == self@.last,
    {
        self.last
    }
}

/// A directory and a name in it, as a path.
pub open spec fn path_in(dir: Seq<char>, name: Seq<char>) -> Seq<char> {
    if dir.len() == 0 {
        name
    } else if dir.last() == '/' {
        dir + name
    } else {
        dir + "/"@ + name
    }
}

/// The name of the client's socket.
pub open spec fn client_name(pid: u32, micros: u32) -> Seq<char> {
    "wpa_ctrl_"@ + dec(pid as nat) + "-"@ + dec(micros as nat)
}

/// The path of the client's socket, in the directory of the server's. A path of 108 bytes or
/// more is refused: it does not fit in an address.
pub fn client_socket_path(dir: &str, pid: u32, micros: u32) -> (r: Result<String, WpaError>)
    ensures
        r is Ok <==> byte_len(path_in(dir@, client_name(pid, micros))) < 108,
        r matches Ok(p) ==> p@ == path_in(dir@, client_name(pid, micros)),
        r matches Err(e) ==> e matches WpaError::Parse(s) && s@ == "client path too long: "@
            + path_in(dir@, client_name(pid, micros)),
{
    let mut name = "wpa_ctrl_".to_owned();
    name.append(u64_text(pid as u64).as_str());
    name.append("-");
    name.append(u64_text(micros as u64).as_str());
    let d = to_chars(dir);
    let path = if d.len() == 0 {
        name
    } else if d[d.len() - 1] == '/' {
        cat(dir.to_owned(), name.as_str())
    } else {
        cat(cat(dir.to_owned(), "/"), name.as_str())
    };
    if len_bytes(path.as_str()) >= 108 {
        return Err(WpaError::Parse(cat("client path too long: ".to_owned(), path.as_str())));
    }
    Ok(path)
}

/// The two names of an abstract socket: the client's, and the server's without its sign. None
/// where the path is one in the file system.
pub fn abstract_names(ctrl_path: &str, pid: u32) -> (r: Option<(String, String)>)
    ensures
        r is Some <==> ctrl_path@.len() > 0 && ctrl_path@[0] == '@',
        r matches Some(p) ==> p.0@ == "wpa_ctrl_"@ + dec(pid as nat) && p.1@ == ctrl_path@.skip(1),
{
    let v = to_chars(ctrl_path);
    if v.len() > 0 && v[0] == '@' {
        let client = cat("wpa_ctrl_".to_owned(), u64_text(pid as u64).as_str());
        Some((client, skip_chars(ctrl_path, 1)))
    } else {
        None
    }
}

/// What a reply to a command says: done, or the error with the reply in it.
pub fn expect_ok(cmd: &str, rep: &str) -> (r: Result<(), WpaError>)
    ensures
        r is Ok <==> has_sub(rep@, "OK"@),
        r matches Err(e) ==> e matches WpaError::Parse(s) && s@ == (if has_sub(rep@, "FAIL"@) {
            cmd@ + " => "@ + rep@
        } else {
            cmd@ + " unexpected: "@ + rep@
        }),
{
    if contains(rep, "OK") {
        Ok(())
    } else if contains(rep, "FAIL") {
        Err(WpaError::Parse(cat(cat(cmd.to_owned(), " => "), rep)))
    } else {
        Err(WpaError::Parse(cat(cat(cmd.to_owned(), " unexpected: "), rep)))
    }
}

/// Whether a reply answers a ping.
pub fn is_pong(rep: &str) -> (r: bool)
    ensures
        r == has_sub(rep@, "PONG"@),
{
    contains(rep, "PONG")
}

/// What is to be sent, where there is a connection to send it on.
pub open spec fn sent(r: Result<String, WpaError>, connected: bool, cmd: Seq<char>) -> bool {
    if connected {
        r matches Ok(c) && c@ == cmd
    } else {
        r matches Err(WpaError::NotConnected)
    }
}

/// The text of a reply, which is one where its bytes are UTF-8.
pub fn reply_text(bytes: Vec<u8>) -> (r: Result<String, WpaError>)
    ensures
        r is Ok <==> valid_utf8(bytes@),
        r matches Ok(t) ==> t@ == decode_utf8(bytes@),
        r matches Err(e) ==> (e matches WpaError::Parse(why) && why@ == "non-utf8 reply from wpa"@),
{
    match from_utf8(bytes) {
        Some(t) => Ok(t),
        None => Err(WpaError::Parse("non-utf8 reply from wpa".to_owned())),
    }
}

/// Whether the signal is to be asked for on its own: the status does not tell it.
pub fn wants_poll(st: &WpaStatus) -> (r: bool)
    ensures
        r == (st@.signal_dbm is None),
{
    st.signal_dbm.is_none()
}

/// The daemon's side of the control interface: what it sends. Its replies are judged by
/// `expect_ok` and `is_pong`, or read as text.
#[derive(Clone, Copy, Debug, PartialEq, Eq, Structural)]
pub struct WpaCtrl {
    pub connected: bool,
}

impl WpaCtrl {
    /// The interface, with a connection or without.
    pub fn new(connected: bool) -> (r: Self)
        ensures
            r.connected == connected,
    {
        WpaCtrl { connected }
    }

    /// The search for a connection: each socket that may be the server's is tried once, the first
    /// that answers is taken, and where none does the last failure counts.
    pub fn auto_connect(own_dirs: &Vec<SocketEntry>, dev_socket: &Vec<SocketEntry>) -> (r:
        AutoConnect)
        ensures
            r@ == (AutoConnectModel {
                paths: candidates_of(sockets(own_dirs@), sockets(dev_socket@)),
                next: 0,
                last: WpaError::NotConnected,
            }),
    {
        AutoConnect {
            paths: discover(own_dirs, dev_socket),
            next: 0,
            last: WpaError::NotConnected,
        }
    }

    /// Whether there is a connection.
    pub fn is_connected(&self) -> (r: bool)
        ensures
            r == self.connected,
    {
        self.connected
    }

    /// A command as it is sent.
    pub fn command(&self, cmd: &str) -> (r: Result<String, WpaError>)
        ensures
            sent(r, self.connected, cmd@),
    {
        if self.connected {
            Ok(cmd.to_owned())
        } else {
            Err(WpaError::NotConnected)
        }
    }

    /// Asks for the state of the link.
    pub fn status(&self) -> (r: Result<String, WpaError>)
        ensures
            sent(r, self.connected, "STATUS"@),
    {
        self.command("STATUS")
    }

    /// Asks for the signal.
    pub fn signal_poll(&self) -> (r: Result<String, WpaError>)
        ensures
            sent(r, self.connected, "SIGNAL_POLL"@),
    {
        self.command("SIGNAL_POLL")
    }

    /// Asks whether there is anyone.
    pub fn ping(&self) -> (r: Result<String, WpaError>)
        ensures
            sent(r, self.connected, "PING"@),
    {
        self.command("PING")
    }

    /// Asks for the saved networks.
    pub fn list_networks(&self) -> (r: Result<String, WpaError>)
        ensures
            sent(r, self.connected, "LIST_NETWORKS"@),
    {
        self.command("LIST_NETWORKS")
    }

    /// Asks for what the last scan has found.
    pub fn scan_results(&self) -> (r: Result<String, WpaError>)
        ensures
            sent(r, self.connected, "SCAN_RESULTS"@),
    {
        self.command("SCAN_RESULTS")
    }

    /// Moves the link to an access point of its network.
    pub fn roam(&self, bssid: &str) -> (r: Result<String, WpaError>)
        ensures
            sent(r, self.connected, "ROAM "@ + bssid@),
    {
        self.command(cat("ROAM ".to_owned(), bssid).as_str())
    }

    /// Selects a saved network.
    pub fn select_network(&self, id: u32) -> (r: Result<String, WpaError>)
        ensures
            sent(r, self.connected, "SELECT_NETWORK "@ + dec(id as nat)),
    {
        self.command(cat("SELECT_NETWORK ".to_owned(), u64_text(id as u64).as_str()).as_str())
    }

    /// Ties a saved network to an access point; an empty BSSID unties it.
    pub fn set_network_bssid(&self, id: u32, bssid: &str) -> (r: Result<String, WpaError>)
        ensures
            sent(r, self.connected, "SET_NETWORK "@ + dec(id as nat) + " bssid "@ + bssid@),
    {
        let head = cat(cat("SET_NETWORK ".to_owned(), u64_text(id as u64).as_str()), " bssid ");
        self.command(cat(head, bssid).as_str())
    }

    /// Takes a saved network out of use.
    pub fn disable_network(&self, id: u32) -> (r: Result<String, WpaError>)
        ensures
            sent(r, self.connected, "DISABLE_NETWORK "@ + dec(id as nat)),
    {
        self.command(cat("DISABLE_NETWORK ".to_owned(), u64_text(id as u64).as_str()).as_str())
    }

    /// Puts a saved network to use again.
    pub fn enable_network(&self, id: u32) -> (r: Result<String, WpaError>)
        ensures
            sent(r, self.connected, "SET_NETWORK "@ + dec(id as nat) + " disabled 0"@),
    {
        let head = cat("SET_NETWORK ".to_owned(), u64_text(id as u64).as_str());
        self.command(cat(head, " disabled 0").as_str())
    }

    /// The status with the signal of another reply, where it has none itself; what else that
    /// reply holds is added where the status does not hold it.
    pub fn status_with_signal(&self, status: WpaStatus, poll: Option<WpaStatus>) -> (r: WpaStatus)
        requires
            status.raw.well_formed(),
            poll matches Some(p) ==> p.raw.well_formed(),
        ensures
            r.raw.well_formed(),
            r@ == (match poll {
                Some(p) => with_signal(status@, p@),
                None => status@,
            }),
    {
        let mut st = status;
        if st.signal_dbm.is_some() {
            return st;
        }
        if let Some(p) = poll {
            st.signal_dbm = p.signal_dbm;
            let ghost before = st.raw@;
            let ghost ks = p.raw.keys();
            let mut i: usize = 0;
            proof {
                p.raw.lemma_keys();
                assert(st.raw@ =~= added(before, p.raw@, ks.take(0)));
            }
            while i < p.raw.len()
                invariant
                    i <= ks.len(),
                    ks == p.raw.keys(),
                    p.raw.well_formed(),
                    st.raw.well_formed(),
                    st.raw@ == added(before, p.raw@, ks.take(i as int)),
                    st@ == (WpaModel { signal_dbm: p.signal_dbm, raw: st.raw@, ..status@ }),
                decreases ks.len() - i,
            {
                let ghost at = st.raw@;
                let key = p.raw.key_at(i).clone();
                let value = p.raw.value_at(i).text.clone();
                if st.raw.get(key.as_str()).is_none() {
                    st.raw.insert(key, RawValue { text: value });
                }
                proof {
                    let k = ks[i as int];
                    assert(ks.take(i + 1) =~= ks.take(i as int).push(k));
                    assert forall|q: Seq<char>| ks.take(i + 1).contains(q) <==> (ks.take(
                        i as int,
                    ).contains(q) || q == k) by {
                        if ks.take(i as int).contains(q) {
                            let a = choose|a: int|
                                0 <= a < ks.take(i as int).len() && ks.take(i as int)[a] == q;
                            assert(ks.take(i + 1)[a] == q);
                        }
                        if q == k {
                            assert(ks.take(i + 1)[i as int] == q);
                        }
                    }
                    assert(st.raw@ =~= added(before, p.raw@, ks.take(i + 1)));
                }
                i = i + 1;
            }
            proof {
                p.raw.lemma_keys();
                assert(ks.take(i as int) == ks);
                assert(st.raw@ =~= p.raw@.union_prefer_right(before));
            }
        }
        st
    }
}

/// A line of a status is a key and its value around the first equals sign, with the space around both
/// taken off; a line without one says nothing.
pub proof fn law_status_line_is_read(s: WpaModel, key: Seq<char>, val: Seq<char>)
    requires
        !key.contains('='),
        key.len() > 0 ==> !is_white(key[0]) && !is_white(key.last()),
        val.len() > 0 ==> !is_white(val[0]) && !is_white(val.last()),
    ensures
        with_status_line(s, key + seq!['='] + val) == with_pair(s, key, val),
        with_status_line(s, key) == s,
{
    let t = key + seq!['='] + val;
    let k = Class::Is('=');
    assert forall|i: int| 0 <= i < key.len() implies !in_class(k, #[trigger] key[i]) by {
        assert(key.contains(key[i]));
    }
    law_cutting(key, '=', val, k, 1);
    assert(t[0] == (if key.len() > 0 {
        key[0]
    } else {
        '='
    }));
    assert(t.last() == (if val.len() > 0 {
        val.last()
    } else {
        '='
    }));
    lemma_tidy_is_trimmed(t);
    lemma_tidy_is_trimmed(key);
    lemma_tidy_is_trimmed(val);
    assert(t.take(key.len() as int) == key);
    assert(t.skip(key.len() as int + 1) == val);
}

/// The key and the value of a line, where it has them.
pub open spec fn pair_of(line: Seq<char>) -> Option<(Seq<char>, Seq<char>)> {
    let t = trimmed(line);
    if t.contains('=') {
        let n = prefix_len(t, Class::Is('='));
        Some((trimmed(t.take(n)), trimmed(t.skip(n + 1))))
    } else {
        None
    }
}

proof fn lemma_pair_of(s: WpaModel, line: Seq<char>)
    ensures
        with_status_line(s, line) == (match pair_of(line) {
            Some(p) => with_pair(s, p.0, p.1),
            None => s,
        }),
{
    let t = trimmed(line);
    let n = prefix_len(t, Class::Is('='));
    lemma_prefix_len(t, Class::Is('='));
    if t.contains('=') {
        let i = choose|i: int| 0 <= i < t.len() && t[i] == '=';
        if n >= t.len() {
            assert(!in_class(Class::Is('='), t[i]));
        }
    } else if n < t.len() {
        assert(t[n] == '=');
        assert(t.contains('='));
    }
}

proof fn lemma_keys_differ()
    ensures
        "wpa_state"@.len() == 9,
        "ssid"@.len() == 4 && "ssid"@[0] == 's',
        "bssid"@.len() == 5,
        "freq"@.len() == 4 && "freq"@[0] == 'f',
        "signal_dbm"@.len() == 10 && "signal_dbm"@[0] == 's',
        "signal"@.len() == 6,
        "rssi"@.len() == 4 && "rssi"@[0] == 'r',
        "RSSI"@.len() == 4 && "RSSI"@[0] == 'R',
        "ip_address"@.len() == 10 && "ip_address"@[0] == 'i',
        "disabled"@.len() == 8,
{
    reveal_strlit("wpa_state");
    reveal_strlit("ssid");
    reveal_strlit("bssid");
    reveal_strlit("freq");
    reveal_strlit("signal_dbm");
    reveal_strlit("signal");
    reveal_strlit("rssi");
    reveal_strlit("RSSI");
    reveal_strlit("ip_address");
    reveal_strlit("disabled");
}

/// Of each key the last line counts, whatever else the status holds; of the signal the first one that
/// gives a number does.
pub proof fn law_last_line_counts(ls: Seq<Seq<char>>, i: int)
    requires
        0 <= i < ls.len(),
        pair_of(ls[i]) is Some,
        forall|j: int|
            i < j < ls.len() ==> (pair_of(#[trigger] ls[j]) matches Some(p) ==> p.0 != (pair_of(
                ls[i],
            )->0).0),
    ensures
        ({
            let key = (pair_of(ls[i])->0).0;
            let val = (pair_of(ls[i])->0).1;
            let s = with_status_lines(ls);
            &&& key == "wpa_state"@ ==> s.wpa_state == val
            &&& key == "ssid"@ ==> s.ssid == Some(val)
            &&& key == "bssid"@ ==> s.bssid == Some(val)
            &&& key == "freq"@ ==> s.freq == u32_value(val)
            &&& key == "ip_address"@ ==> s.ip_address == Some(val)
            &&& key == "disabled"@ ==> s.disabled == u32_value(val)
        }),
    decreases ls.len(),
{
    lemma_keys_differ();
    let t = ls.drop_last();
    let last = ls.last();
    lemma_pair_of(with_status_lines(t), last);
    if i < t.len() {
        assert(t[i] == ls[i]);
        assert forall|j: int| i < j < t.len() implies (pair_of(#[trigger] t[j]) matches Some(p)
            ==> p.0 != (pair_of(t[i])->0).0) by {
            assert(t[j] == ls[j]);
        }
        law_last_line_counts(t, i);
        assert(ls[ls.len() - 1] == last);
        if let Some(p) = pair_of(last) {
            assert(p.0 != (pair_of(ls[i])->0).0);
        }
    }
}

/// What no line gives is not known; the signal is that of the first line that gives one as a number.
pub proof fn law_signal_comes_first(ls: Seq<Seq<char>>)
    ensures
        ({
            let s = with_status_lines(ls);
            &&& s.signal_dbm is None ==> forall|j: int|
                0 <= j < ls.len() && is_signal_line(#[trigger] ls[j]) ==> i32_value(
                    (pair_of(ls[j])->0).1,
                ) is None
            &&& s.signal_dbm matches Some(n) ==> exists|i: int|
                0 <= i < ls.len() && is_signal_line(#[trigger] ls[i]) && i32_value(
                    (pair_of(ls[i])->0).1,
                ) == Some(n) && forall|j: int|
                    0 <= j < i && is_signal_line(#[trigger] ls[j]) ==> i32_value(
                        (pair_of(ls[j])->0).1,
                    ) is None
        }),
    decreases ls.len(),
{
    lemma_keys_differ();
    if ls.len() > 0 {
        let t = ls.drop_last();
        let last = ls.last();
        let b = with_status_lines(t);
        let n = ls.len() - 1;
        law_signal_comes_first(t);
        lemma_pair_of(b, last);
        assert(ls[n] == last);
        assert forall|j: int| 0 <= j < n implies t[j] == #[trigger] ls[j] by {}
        if b.signal_dbm is Some {
            let v = b.signal_dbm->0;
            let i = choose|i: int|
                0 <= i < t.len() && is_signal_line(#[trigger] t[i]) && i32_value(
                    (pair_of(t[i])->0).1,
                ) == Some(v) && forall|j: int|
                    0 <= j < i && is_signal_line(#[trigger] t[j]) ==> i32_value(
                        (pair_of(t[j])->0).1,
                    ) is None;
            assert(is_signal_line(ls[i]));
            assert forall|j: int| 0 <= j < i && is_signal_line(#[trigger] ls[j]) implies i32_value(
                (pair_of(ls[j])->0).1,
            ) is None by {
                assert(t[j] == ls[j]);
            }
        } else {
            assert forall|j: int| 0 <= j < n && is_signal_line(#[trigger] ls[j]) implies i32_value(
                (pair_of(ls[j])->0).1,
            ) is None by {
                assert(t[j] == ls[j]);
            }
        }
    }
}

/// Whether a line gives the signal under one of its names.
pub open spec fn is_signal_line(line: Seq<char>) -> bool {
    pair_of(line) matches Some(p) && (p.0 == "signal_dbm"@ || p.0 == "signal"@ || p.0 == "rssi"@
        || p.0 == "RSSI"@)
}

/// A status keeps its own signal; without one it takes that of the other reply. What else it holds
/// stays, and of the other reply's entries those come in that it does not have itself.
pub proof fn law_signal_is_filled_in(s: WpaModel, poll: WpaModel, key: Seq<char>)
    ensures
        ({
            let r = with_signal(s, poll);
            &&& s.signal_dbm is Some ==> r == s
            &&& s.signal_dbm is None ==> r.signal_dbm == poll.signal_dbm
            &&& r.wpa_state == s.wpa_state && r.ssid == s.ssid && r.bssid == s.bssid && r.freq
                == s.freq && r.ip_address == s.ip_address && r.disabled == s.disabled
            &&& s.raw.dom().contains(key) ==> r.raw.dom().contains(key) && r.raw[key] == s.raw[key]
            &&& s.signal_dbm is None && !s.raw.dom().contains(key) ==> (r.raw.dom().contains(key)
                <==> poll.raw.dom().contains(key)) && (poll.raw.dom().contains(key) ==> r.raw[key]
                == poll.raw[key])
        }),
{
}

/// A socket may be the server's where its name starts like an interface's or like the vendor's, or is
/// the one well-known name; what clients leave behind never is.
pub proof fn law_server_sockets(rest: Seq<char>)
    ensures
        is_server_socket("wlan"@ + rest),
        is_server_socket("p2p"@ + rest),
        is_server_socket("wifi"@ + rest),
        is_server_socket("vendor_wpa"@ + rest),
        is_server_socket("wpa_wlan0"@),
        !is_server_socket("wpa_ctrl_"@ + rest),
        rest.len() > 0 && rest[0] != 'w' && rest[0] != 'p' && rest[0] != 'v' ==> !is_server_socket(rest),
{
    reveal_strlit("wlan");
    reveal_strlit("p2p");
    reveal_strlit("wifi");
    reveal_strlit("vendor_wpa");
    reveal_strlit("wpa_wlan0");
    reveal_strlit("wpa_ctrl_");
    let c = "wpa_ctrl_"@;
    assert(("wlan"@ + rest).take(4) == "wlan"@);
    assert(("p2p"@ + rest).take(3) == "p2p"@);
    assert(("wifi"@ + rest).take(4) == "wifi"@);
    assert(("vendor_wpa"@ + rest).take(10) == "vendor_wpa"@);
    assert((c + rest).take(9) == c);
    if has_prefix("wlan"@ + rest, c) {
        assert(("wlan"@ + rest).take(9)[1] == 'l');
    }
    if has_prefix("p2p"@ + rest, c) {
        assert(("p2p"@ + rest).take(9)[0] == 'p');
    }
    if has_prefix("wifi"@ + rest, c) {
        assert(("wifi"@ + rest).take(9)[1] == 'i');
    }
    if has_prefix("vendor_wpa"@ + rest, c) {
        assert(("vendor_wpa"@ + rest).take(9)[0] == 'v');
    }
    if has_prefix("wpa_wlan0"@, c) {
        assert("wpa_wlan0"@.take(9)[4] == 'w');
    }
    if rest.len() > 0 && rest[0] != 'w' && rest[0] != 'p' && rest[0] != 'v' {
        if has_prefix(rest, "wlan"@) {
            assert(rest.take(4)[0] == rest[0]);
        }
        if has_prefix(rest, "p2p"@) {
            assert(rest.take(3)[0] == rest[0]);
        }
        if has_prefix(rest, "wifi"@) {
            assert(rest.take(4)[0] == rest[0]);
        }
        if has_prefix(rest, "vendor_wpa"@) {
            assert(rest.take(10)[0] == rest[0]);
        }
    }
}

proof fn lemma_sockets_taken(l: Seq<Seq<char>>, e: Seq<SocketModel>, own_dir: bool, p: Seq<char>)
    ensures
        with_sockets(l, e, own_dir).contains(p) <==> l.contains(p) || exists|i: int|
            0 <= i < e.len() && (#[trigger] e[i]).path == p && (if own_dir {
                is_server_socket(e[i].name)
            } else {
                has_sub(e[i].name, "wpa"@) || has_sub(e[i].name, "wifi"@)
            }),
    decreases e.len(),
{
    if e.len() > 0 {
        let t = e.drop_last();
        let n = e.len() - 1;
        lemma_sockets_taken(l, t, own_dir, p);
        let b = with_sockets(l, t, own_dir);
        assert(e[n] == e.last());
        assert forall|i: int| 0 <= i < n implies t[i] == #[trigger] e[i] by {}
        lemma_with_new(b, e.last().path, p);
        if exists|i: int|
            0 <= i < t.len() && (#[trigger] t[i]).path == p && (if own_dir {
                is_server_socket(t[i].name)
            } else {
                has_sub(t[i].name, "wpa"@) || has_sub(t[i].name, "wifi"@)
            }) {
            let i = choose|i: int|
                0 <= i < t.len() && (#[trigger] t[i]).path == p && (if own_dir {
                    is_server_socket(t[i].name)
                } else {
                    has_sub(t[i].name, "wpa"@) || has_sub(t[i].name, "wifi"@)
                });
            assert(e[i].path == p);
        }
        if exists|i: int|
            0 <= i < e.len() && (#[trigger] e[i]).path == p && (if own_dir {
                is_server_socket(e[i].name)
            } else {
                has_sub(e[i].name, "wpa"@) || has_sub(e[i].name, "wifi"@)
            }) {
            let i = choose|i: int|
                0 <= i < e.len() && (#[trigger] e[i]).path == p && (if own_dir {
                    is_server_socket(e[i].name)
                } else {
                    has_sub(e[i].name, "wpa"@) || has_sub(e[i].name, "wifi"@)
                });
            if i < n {
                assert(t[i].path == p);
            }
        }
    }
}

proof fn lemma_with_new(l: Seq<Seq<char>>, t: Seq<char>, p: Seq<char>)
    ensures
        with_new(l, t).contains(p) <==> l.contains(p) || p == t,
{
    let q = with_new(l, t);
    if !l.contains(t) {
        assert(q[l.len() as int] == t);
        if l.contains(p) {
            let i = choose|i: int| 0 <= i < l.len() && l[i] == p;
            assert(q[i] == p);
        }
        if q.contains(p) {
            let i = choose|i: int| 0 <= i < q.len() && q[i] == p;
            if i < l.len() {
                assert(l[i] == p);
            }
        }
    }
}

/// The sockets that are tried are exactly those of a directory made for them whose names may be a
/// server's, those of the general one that have `wpa` or `wifi` in their names, and the two abstract ones.
pub proof fn law_sockets_that_are_tried(
    own_dirs: Seq<SocketModel>,
    dev_socket: Seq<SocketModel>,
    p: Seq<char>,
)
    ensures
        candidates_of(own_dirs, dev_socket).contains(p) <==> {
            ||| p == "@wpa_wlan0"@
            ||| p == "@wpa_wifi0"@
            ||| exists|i: int|
                0 <= i < own_dirs.len() && (#[trigger] own_dirs[i]).path == p && is_server_socket(
                    own_dirs[i].name,
                )
            ||| exists|i: int|
                0 <= i < dev_socket.len() && (#[trigger] dev_socket[i]).path == p && (has_sub(
                    dev_socket[i].name,
                    "wpa"@,
                ) || has_sub(dev_socket[i].name, "wifi"@))
        },
{
    let a = with_sockets(seq![], own_dirs, true);
    let b = with_sockets(a, dev_socket, false);
    lemma_sockets_taken(seq![], own_dirs, true, p);
    lemma_sockets_taken(a, dev_socket, false, p);
    lemma_with_new(b, "@wpa_wlan0"@, p);
    lemma_with_new(with_new(b, "@wpa_wlan0"@), "@wpa_wifi0"@, p);
}

/// What went wrong is told with its kind in front and the text behind it.
pub proof fn law_wpa_error_is_told(s: String)
    ensures
        WpaError::Io(s).message() == "IO: "@ + s@,
        WpaError::Parse(s).message() == "Parse: "@ + s@,
        WpaError::NotConnected.message() == "Not connected"@,
{
}

/// A command goes out as it is over a connection, and not at all without one.
pub proof fn law_commands_need_a_connection(r: Result<String, WpaError>, cmd: Seq<char>)
    ensures
        sent(r, true, cmd) <==> r is Ok && r->Ok_0@ == cmd,
        sent(r, false, cmd) <==> r is Err && r->Err_0 is NotConnected,
{
}

/// A name in a directory stands behind it and one separator, whether or not the directory is written
/// with one; without a directory it stands alone.
pub proof fn law_name_in_a_directory(dir: Seq<char>, name: Seq<char>)
    requires
        dir.len() > 0 && dir.last() != '/',
    ensures
        path_in(dir, name) == dir + seq!['/'] + name,
        path_in(dir.push('/'), name) == dir + seq!['/'] + name,
        path_in(seq![], name) == name,
{
    reveal_strlit("/");
    assert("/"@ =~= seq!['/']);
    assert(dir.push('/') + name =~= dir + seq!['/'] + name);
}

/// The client's own sockets are never taken for the server's.
pub proof fn law_own_sockets_are_not_the_servers(pid: u32, micros: u32)
    ensures
        !is_server_socket(client_name(pid, micros)),
{
    let h = "wpa_ctrl_"@;
    let t = dec(pid as nat) + "-"@ + dec(micros as nat);
    assert(client_name(pid, micros) =~= h + t);
    assert((h + t).take(h.len() as int) =~= h);
}

/// The name of a client's socket tells the process and the moment.
pub proof fn law_own_sockets_are_told_apart(pid: u32, micros: u32)
    ensures
        has_prefix(client_name(pid, micros), "wpa_ctrl_"@ + dec(pid as nat) + "-"@),
        has_suffix(client_name(pid, micros), "-"@ + dec(micros as nat)),
{
    let a = "wpa_ctrl_"@ + dec(pid as nat);
    let d = dec(micros as nat);
    let n = client_name(pid, micros);
    let p = a + "-"@;
    let t = "-"@ + d;
    assert(n =~= p + d);
    assert((p + d).take(p.len() as int) =~= p);
    assert(n =~= a + t);
    assert((a + t).skip(a.len() as int) =~= t);
}

} // verus!
