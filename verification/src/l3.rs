//! Whether the Internet can be reached after a switch: which addresses are asked, in which
//! order, and what their replies mean.

use crate::text::{
    cat, contains, from_utf8_lossy, has_prefix, has_sub, has_suffix, law_lines, lines, lines_of,
    lossy_text, texts,
};
use vstd::prelude::*;
use vstd::string::*;

verus! {

/// What a probe has found.
#[derive(Clone, Copy, Debug, PartialEq, Eq, Structural)]
pub enum L3Kind {
    /// The Internet answers.
    Online,
    /// Something else answers in its place.
    Portal,
    Timeout,
    Unreachable,
    /// There was no probe.
    Skip,
}

impl L3Kind {
    pub open spec fn prefix(self) -> Seq<char> {
        match self {
            L3Kind::Online => "ok"@,
            L3Kind::Portal => "portal"@,
            L3Kind::Timeout => "timeout"@,
            L3Kind::Unreachable => "net"@,
            L3Kind::Skip => "skip"@,
        }
    }

    pub open spec fn history_word(self) -> Seq<char> {
        match self {
            L3Kind::Online => "Ok"@,
            L3Kind::Portal => "OkL3Portal"@,
            L3Kind::Timeout => "OkL3Timeout"@,
            L3Kind::Unreachable => "OkL3Net"@,
            L3Kind::Skip => "Ok"@,
        }
    }

    /// The finding as the panel knows it.
    pub fn as_prefix(self) -> (r: &'static str)
        ensures
            r@ == self.prefix(),
    {
        match self {
            L3Kind::Online => "ok",
            L3Kind::Portal => "portal",
            L3Kind::Timeout => "timeout",
            L3Kind::Unreachable => "net",
            L3Kind::Skip => "skip",
        }
    }

    /// The result that the history keeps of a switch with this finding: always a success.
    pub fn hist_result(self) -> (r: &'static str)
        ensures
            r@ == self.history_word(),
    {
        match self {
            L3Kind::Online => "Ok",
            L3Kind::Portal => "OkL3Portal",
            L3Kind::Timeout => "OkL3Timeout",
            L3Kind::Unreachable => "OkL3Net",
            L3Kind::Skip => "Ok",
        }
    }
}

/// A finding, or a failure with its kind and what is said of it.
pub type L3Result = Result<L3Kind, (L3Kind, String)>;

/// What an `L3Result` holds.
pub open spec fn l3_model(r: L3Result) -> Result<L3Kind, (L3Kind, Seq<char>)> {
    match r {
        Ok(k) => Ok(k),
        Err((k, e)) => Err((k, e@)),
    }
}

/// An address that is asked over HTTP.
#[derive(Clone, Copy, Debug)]
pub struct Endpoint {
    pub host: &'static str,
    pub port: u16,
    pub path: &'static str,
}

/// The host of an address, in the order in which they are asked.
pub open spec fn endpoint_host(i: int) -> Seq<char> {
    if i == 0 {
        "connect.rom.miui.com"@
    } else if i == 1 {
        "connectivitycheck.gstatic.com"@
    } else {
        "www.msftconnecttest.com"@
    }
}

pub open spec fn endpoint_path(i: int) -> Seq<char> {
    if i == 2 {
        "/connecttest.txt"@
    } else {
        "/generate_204"@
    }
}

/// The addresses that are asked over HTTP, the nearest first.
pub fn endpoint(i: usize) -> (r: Endpoint)
    requires
        i < 3,
    ensures
        r.host@ == endpoint_host(i as int),
        r.port == 80,
        r.path@ == endpoint_path(i as int),
{
    if i == 0 {
        Endpoint { host: "connect.rom.miui.com", port: 80, path: "/generate_204" }
    } else if i == 1 {
        Endpoint { host: "connectivitycheck.gstatic.com", port: 80, path: "/generate_204" }
    } else {
        Endpoint { host: "www.msftconnecttest.com", port: 80, path: "/connecttest.txt" }
    }
}

pub open spec fn bare_address_text(i: int) -> Seq<char> {
    if i == 0 {
        "223.5.5.5:80"@
    } else if i == 1 {
        "223.5.5.5:53"@
    } else {
        "1.1.1.1:80"@
    }
}

/// The addresses that are tried without names, after the others have failed.
pub fn bare_address(i: usize) -> (r: &'static str)
    requires
        i < 3,
    ensures
        r@ == bare_address_text(i as int),
{
    if i == 0 {
        "223.5.5.5:80"
    } else if i == 1 {
        "223.5.5.5:53"
    } else {
        "1.1.1.1:80"
    }
}

/// The request that is sent.
pub fn request_text(path: &str, host: &str) -> (r: String)
    ensures
        r@ == "GET "@ + path@ + " HTTP/1.0\r\nHost: "@ + host@ + "\r\nConnection: close\r\n\r\n"@,
{
    cat(
        cat(cat(cat("GET ".to_owned(), path), " HTTP/1.0\r\nHost: "), host),
        "\r\nConnection: close\r\n\r\n",
    )
}

/// A name that cannot be resolved, for that reason.
pub fn dns_failure(host: &str, e: &str) -> (r: L3Result)
    ensures
        l3_model(r) == Err::<L3Kind, (L3Kind, Seq<char>)>(
            (L3Kind::Unreachable, "DNS "@ + host@ + ": "@ + e@),
        ),
{
    Err((L3Kind::Unreachable, cat(cat(cat("DNS ".to_owned(), host), ": "), e)))
}

/// The kind of a connection that failed with a message.
pub open spec fn connect_kind(msg: Seq<char>) -> L3Kind {
    if has_sub(msg, "timed"@) || has_sub(msg, "10060"@) || has_sub(msg, "110"@) {
        L3Kind::Timeout
    } else {
        L3Kind::Unreachable
    }
}

/// A connection that failed with a message.
pub fn connect_failure(host: &str, msg: &str) -> (r: L3Result)
    ensures
        l3_model(r) == Err::<L3Kind, (L3Kind, Seq<char>)>(
            (connect_kind(msg@), "connect "@ + host@ + ": "@ + msg@),
        ),
{
    let kind = if contains(msg, "timed") || contains(msg, "10060") || contains(msg, "110") {
        L3Kind::Timeout
    } else {
        L3Kind::Unreachable
    };
    Err((kind, cat(cat(cat("connect ".to_owned(), host), ": "), msg)))
}

/// A request that could not be sent (`write`) or a reply that did not come (`read`).
pub fn io_failure(what: &str, e: &str) -> (r: L3Result)
    ensures
        l3_model(r) == Err::<L3Kind, (L3Kind, Seq<char>)>(
            (L3Kind::Timeout, what@ + ": "@ + e@),
        ),
{
    Err((L3Kind::Timeout, cat(cat(what.to_owned(), ": "), e)))
}

/// What the first line of a reply means. Only 204 is the Internet for sure, or 200 where the
/// request was for the file that says so; other successes and redirections are a portal's.
pub open spec fn line_meaning(path: Seq<char>, line: Seq<char>) -> Result<
    L3Kind,
    (L3Kind, Seq<char>),
> {
    if has_sub(line, " 204"@) {
        Ok(L3Kind::Online)
    } else if has_sub(path, "connecttest"@) && has_sub(line, " 200"@) {
        Ok(L3Kind::Online)
    } else if has_sub(line, " 200"@) || has_sub(line, " 30"@) || has_sub(line, " 302"@) || has_sub(
        line,
        " 301"@,
    ) {
        Ok(L3Kind::Portal)
    } else if has_sub(line, "HTTP/"@) {
        Err((L3Kind::Portal, "状态行: "@ + line))
    } else {
        Err((L3Kind::Timeout, "非 HTTP: "@ + line))
    }
}

/// What the first line of a reply means.
pub fn classify_line(path: &str, line: &str) -> (r: L3Result)
    ensures
        l3_model(r) == line_meaning(path@, line@),
{
    if contains(line, " 204") {
        Ok(L3Kind::Online)
    } else if contains(path, "connecttest") && contains(line, " 200") {
        Ok(L3Kind::Online)
    } else if contains(line, " 200") || contains(line, " 30") || contains(line, " 302") || contains(
        line,
        " 301",
    ) {
        Ok(L3Kind::Portal)
    } else if contains(line, "HTTP/") {
        Err((L3Kind::Portal, cat("状态行: ".to_owned(), line)))
    } else {
        Err((L3Kind::Timeout, cat("非 HTTP: ".to_owned(), line)))
    }
}

/// The first line of a text; empty where there is none.
pub open spec fn first_line(text: Seq<char>) -> Seq<char> {
    if lines_of(text).len() > 0 {
        lines_of(text)[0]
    } else {
        ""@
    }
}

/// What the bytes of a reply mean.
pub fn l3_reply(path: &str, bytes: &Vec<u8>) -> (r: L3Result)
    ensures
        bytes@.len() == 0 ==> l3_model(r) == Err::<L3Kind, (L3Kind, Seq<char>)>(
            (L3Kind::Timeout, "空响应"@),
        ),
        bytes@.len() > 0 ==> l3_model(r) == line_meaning(path@, first_line(lossy_text(bytes@))),
{
    if bytes.len() == 0 {
        return Err((L3Kind::Timeout, "空响应".to_owned()));
    }
    let head = from_utf8_lossy(bytes);
    let ls = lines(head.as_str());
    let ghost l = texts(ls@);
    if ls.len() > 0 {
        assert(l[0] == ls@[0]@);
        classify_line(path, ls[0].as_str())
    } else {
        assert(l.len() == 0);
        classify_line(path, "")
    }
}

/// What is to be done next in a probe.
#[derive(Debug)]
pub enum L3Action {
    /// Ask an address over HTTP.
    Http(usize),
    /// Try to connect to a bare address.
    Tcp(usize),
    /// Nothing more: this is the finding.
    Done(L3Result),
}

/// A probe under way.
#[derive(Debug)]
pub struct L3Probe {
    next: usize,
    reached: bool,
    portal: Option<String>,
    last_kind: L3Kind,
    last_text: String,
}

/// What an `L3Probe` holds.
#[verifier::ext_equal]
pub struct ProbeModel {
    /// The steps that have been taken: three over HTTP, then three to bare addresses.
    pub next: nat,
    pub reached: bool,
    pub portal: Option<Seq<char>>,
    pub last: (L3Kind, Seq<char>),
}

impl View for L3Probe {
    type V = ProbeModel;

    closed spec fn view(&self) -> ProbeModel {
        ProbeModel {
            next: self.next as nat,
            reached: self.reached,
            portal: match self.portal {
                Some(s) => Some(s@),
                None => None,
            },
            last: (self.last_kind, self.last_text@),
        }
    }
}

/// The probe after an address has been asked over HTTP.
pub open spec fn after_http_step(
    m: ProbeModel,
    r: Result<L3Kind, (L3Kind, Seq<char>)>,
) -> ProbeModel {
    let host = endpoint_host(m.next as int);
    let n = ProbeModel { next: m.next + 1, ..m };
    match r {
        Ok(L3Kind::Online) => ProbeModel { reached: true, ..n },
        Ok(L3Kind::Portal) => ProbeModel { portal: Some(host + " 非 204"@), ..n },
        Ok(k) => ProbeModel { last: (k, host), ..n },
        Err((k, e)) => ProbeModel { last: (k, e), ..n },
    }
}

/// The probe after a bare address has been tried.
pub open spec fn after_tcp_step(m: ProbeModel, connected: bool) -> ProbeModel {
    ProbeModel { next: m.next + 1, reached: m.reached || connected, ..m }
}

/// The finding, where there is one already: the first answer that is clear ends the probe; a
/// portal keeps the bare addresses from being tried; after everything the last failure counts.
pub open spec fn finding(m: ProbeModel) -> Option<Result<L3Kind, (L3Kind, Seq<char>)>> {
    if m.reached {
        Some(Ok(L3Kind::Online))
    } else if m.next < 3 {
        None
    } else if m.portal is Some {
        Some(Err((L3Kind::Portal, m.portal->0)))
    } else if m.next < 6 {
        None
    } else {
        Some(Err(m.last))
    }
}

impl L3Probe {
    /// A probe at its beginning.
    pub fn new() -> (r: Self)
        ensures
            r@ == (ProbeModel {
                next: 0,
                reached: false,
                portal: None,
                last: (L3Kind::Timeout, "无终点"@),
            }),
    {
        L3Probe {
            next: 0,
            reached: false,
            portal: None,
            last_kind: L3Kind::Timeout,
            last_text: "无终点".to_owned(),
        }
    }

    /// What is to be done next.
    pub fn action(&self) -> (r: L3Action)
        ensures
            match r {
                L3Action::Http(i) => finding(self@) is None && self@.next < 3 && i == self@.next,
                L3Action::Tcp(i) => finding(self@) is None && 3 <= self@.next < 6 && i
                    == self@.next - 3,
                L3Action::Done(f) => finding(self@) == Some(l3_model(f)),
            },
    {
        if self.reached {
            return L3Action::Done(Ok(L3Kind::Online));
        }
        if self.next < 3 {
            return L3Action::Http(self.next);
        }
        if let Some(p) = &self.portal {
            return L3Action::Done(Err((L3Kind::Portal, p.clone())));
        }
        if self.next < 6 {
            return L3Action::Tcp(self.next - 3);
        }
        L3Action::Done(Err((self.last_kind, self.last_text.clone())))
    }

    /// Takes what came of asking the next address over HTTP.
    pub fn after_http(&mut self, r: L3Result)
        requires
            old(self)@.next < 3,
        ensures
            final(self)@ == after_http_step(old(self)@, l3_model(r)),
    {
        let host = endpoint(self.next).host;
        self.next = self.next + 1;
        match r {
            Ok(L3Kind::Online) => {
                self.reached = true;
            },
            Ok(L3Kind::Portal) => {
                self.portal = Some(cat(host.to_owned(), " 非 204"));
            },
            Ok(k) => {
                self.last_kind = k;
                self.last_text = host.to_owned();
            },
            Err((k, e)) => {
                self.last_kind = k;
                self.last_text = e;
            },
        }
    }

    /// Takes what came of trying the next bare address.
    pub fn after_tcp(&mut self, connected: bool)
        requires
            3 <= old(self)@.next < 6,
        ensures
            final(self)@ == after_tcp_step(old(self)@, connected),
    {
        self.next = self.next + 1;
        if connected {
            self.reached = true;
        }
    }
}

/// What the panel shows of a finding.
pub open spec fn shown_finding(r: Result<L3Kind, (L3Kind, Seq<char>)>) -> Seq<char> {
    match r {
        Ok(k) => k.prefix(),
        Err((k, e)) => k.prefix() + ":"@ + e,
    }
}

/// What the panel shows of a finding, and the result that the history keeps of the switch.
pub fn report(r: &L3Result) -> (t: (String, &'static str))
    ensures
        t.0@ == shown_finding(l3_model(*r)),
        t.1@ == (match *r {
            Ok(k) => k.history_word(),
            Err((k, _)) => k.history_word(),
        }),
{
    match r {
        Ok(k) => (k.as_prefix().to_owned(), k.hist_result()),
        Err((k, e)) => (cat(cat(k.as_prefix().to_owned(), ":"), e.as_str()), k.hist_result()),
    }
}

/// A probe comes to an end: every step takes it on, and after six at the latest there is a
/// finding. One that is clear stays.
pub proof fn law_probe_ends(
    m: ProbeModel,
    r: Result<L3Kind, (L3Kind, Seq<char>)>,
    connected: bool,
)
    ensures
        m.next >= 6 ==> finding(m) is Some,
        after_http_step(m, r).next == m.next + 1,
        after_tcp_step(m, connected).next == m.next + 1,
        m.reached ==> finding(after_http_step(m, r)) == Some(
            Ok::<L3Kind, (L3Kind, Seq<char>)>(L3Kind::Online),
        ),
        m.reached ==> finding(after_tcp_step(m, connected)) == Some(
            Ok::<L3Kind, (L3Kind, Seq<char>)>(L3Kind::Online),
        ),
        r == Ok::<L3Kind, (L3Kind, Seq<char>)>(L3Kind::Online) ==> finding(after_http_step(m, r))
            == Some(Ok::<L3Kind, (L3Kind, Seq<char>)>(L3Kind::Online)),
{
}

/// Whatever a probe finds, the switch before it stays a success in the history.
pub proof fn law_probe_never_undoes_a_switch(k: L3Kind)
    ensures
        has_prefix(k.history_word(), "Ok"@),
{
    reveal_strlit("Ok");
    reveal_strlit("OkL3Portal");
    reveal_strlit("OkL3Timeout");
    reveal_strlit("OkL3Net");
    assert(k.history_word().take(2) == "Ok"@);
}

/// A reply means the Internet exactly where its line holds 204, or 200 to a request for the file that says
/// so; any other 200 and every 30x is a portal's; what is no HTTP is as good as no reply.
pub proof fn law_what_a_reply_means(path: Seq<char>, line: Seq<char>)
    ensures
        line_meaning(path, line) == Ok::<L3Kind, (L3Kind, Seq<char>)>(L3Kind::Online) <==> has_sub(
            line,
            " 204"@,
        ) || (has_sub(line, " 200"@) && has_sub(path, "connecttest"@)),
        line_meaning(path, line) == Ok::<L3Kind, (L3Kind, Seq<char>)>(L3Kind::Portal) <==> !has_sub(
            line,
            " 204"@,
        ) && ((has_sub(line, " 200"@) && !has_sub(path, "connecttest"@)) || (has_sub(line, " 30"@)
            && !has_sub(line, " 200"@))),
        line_meaning(path, line) matches Err((k, e)) ==> (k == L3Kind::Portal <==> has_sub(
            line,
            "HTTP/"@,
        )) && (k == L3Kind::Timeout <==> !has_sub(line, "HTTP/"@)),
{
    reveal_strlit(" 30");
    reveal_strlit(" 302");
    reveal_strlit(" 301");
    if has_sub(line, " 302"@) {
        let i = choose|i: int| crate::text::sub_at(line, " 302"@, i);
        assert(line.subrange(i, i + 3) == line.subrange(i, i + 4).take(3));
        assert(line.subrange(i, i + 3) == " 30"@);
        assert(crate::text::sub_at(line, " 30"@, i));
    }
    if has_sub(line, " 301"@) {
        let i = choose|i: int| crate::text::sub_at(line, " 301"@, i);
        assert(line.subrange(i, i + 3) == line.subrange(i, i + 4).take(3));
        assert(line.subrange(i, i + 3) == " 30"@);
        assert(crate::text::sub_at(line, " 30"@, i));
    }
}

/// A failed connection is one that timed out where its message says so, by the word or by one of the two
/// numbers; else the address cannot be reached.
pub proof fn law_kind_of_failure(msg: Seq<char>)
    ensures
        connect_kind(msg) == L3Kind::Timeout <==> has_sub(msg, "timed"@) || has_sub(msg, "10060"@)
            || has_sub(msg, "110"@),
        connect_kind(msg) == L3Kind::Timeout || connect_kind(msg) == L3Kind::Unreachable,
{
}

/// What a probe finds: the Internet where any address has answered as it should; else a portal where one has
/// answered over HTTP; else, when all six have been tried, the last failure over HTTP.
pub proof fn law_what_a_probe_finds(
    a: Result<L3Kind, (L3Kind, Seq<char>)>,
    b: Result<L3Kind, (L3Kind, Seq<char>)>,
    c: Result<L3Kind, (L3Kind, Seq<char>)>,
    x: bool,
    y: bool,
    z: bool,
)
    ensures
        ({
            let online = Ok::<L3Kind, (L3Kind, Seq<char>)>(L3Kind::Online);
            let portal = Ok::<L3Kind, (L3Kind, Seq<char>)>(L3Kind::Portal);
            let m = ProbeModel {
                next: 0,
                reached: false,
                portal: None,
                last: (L3Kind::Timeout, "无终点"@),
            };
            let asked = after_http_step(after_http_step(after_http_step(m, a), b), c);
            let tried = after_tcp_step(after_tcp_step(after_tcp_step(asked, x), y), z);
            &&& a == online ==> finding(after_http_step(m, a)) == Some(online)
            &&& a != online ==> finding(after_http_step(m, a)) is None
            &&& a == online || b == online || c == online ==> finding(asked) == Some(online)
            &&& a != online && b != online && c != online && (a == portal || b == portal || c
                == portal) ==> (finding(asked) matches Some(Err((k, _))) && k == L3Kind::Portal)
            &&& a is Err && b is Err && c is Err ==> finding(asked) is None
            &&& a is Err && b is Err && c is Err && (x || y || z) ==> finding(tried) == Some(online)
            &&& a is Err && b is Err && c is Err && !x && !y && !z ==> finding(tried) == Some(
                Err::<L3Kind, (L3Kind, Seq<char>)>(c->Err_0),
            )
        }),
{
}

/// What a probe has found is shown by a word of its own for each kind, and behind it what went wrong
/// where something did.
pub proof fn law_finding_is_shown(k: L3Kind, j: L3Kind, e: Seq<char>)
    ensures
        k.prefix() == j.prefix() <==> k == j,
        shown_finding(Ok(k)) == k.prefix(),
        has_prefix(shown_finding(Err((k, e))), k.prefix() + ":"@),
        has_suffix(shown_finding(Err((k, e))), e),
        shown_finding(Err((k, e))).len() == k.prefix().len() + 1 + e.len(),
        L3Kind::Online.prefix() == "ok"@,
        L3Kind::Portal.prefix() == "portal"@,
        L3Kind::Timeout.prefix() == "timeout"@,
        L3Kind::Unreachable.prefix() == "net"@,
        L3Kind::Skip.prefix() == "skip"@,
{
    reveal_strlit("ok");
    reveal_strlit("portal");
    reveal_strlit("timeout");
    reveal_strlit("net");
    reveal_strlit("skip");
    reveal_strlit(":");
    assert("ok"@.len() == 2 && "portal"@.len() == 6 && "timeout"@.len() == 7 && "net"@.len() == 3
        && "skip"@.len() == 4 && ":"@.len() == 1);
    let s = shown_finding(Err((k, e)));
    let p = k.prefix() + ":"@;
    assert(s.take(p.len() as int) =~= p);
    assert(s.skip(s.len() - e.len()) =~= e);
}

/// The addresses that are asked are three different ones of each sort; of the servers only the last
/// answers with a text, and is asked for it.
pub proof fn law_addresses_that_are_asked(i: int, j: int)
    requires
        0 <= i < 3 && 0 <= j < 3,
    ensures
        endpoint_host(i) == endpoint_host(j) <==> i == j,
        bare_address_text(i) == bare_address_text(j) <==> i == j,
        endpoint_path(i) == endpoint_path(j) <==> (i == 2) == (j == 2),
        endpoint_path(2) == "/connecttest.txt"@,
        endpoint_path(0) == "/generate_204"@,
        endpoint_host(0) == "connect.rom.miui.com"@,
        endpoint_host(1) == "connectivitycheck.gstatic.com"@,
        endpoint_host(2) == "www.msftconnecttest.com"@,
        bare_address_text(0) == "223.5.5.5:80"@,
        bare_address_text(1) == "223.5.5.5:53"@,
        bare_address_text(2) == "1.1.1.1:80"@,
{
    reveal_strlit("connect.rom.miui.com");
    reveal_strlit("connectivitycheck.gstatic.com");
    reveal_strlit("www.msftconnecttest.com");
    reveal_strlit("/connecttest.txt");
    reveal_strlit("/generate_204");
    reveal_strlit("223.5.5.5:80");
    reveal_strlit("223.5.5.5:53");
    reveal_strlit("1.1.1.1:80");
    assert("connect.rom.miui.com"@.len() == 20 && "connectivitycheck.gstatic.com"@.len() == 29
        && "www.msftconnecttest.com"@.len() == 23);
    assert("/connecttest.txt"@.len() == 16 && "/generate_204"@.len() == 13);
    assert("223.5.5.5:80"@[10] == '8' && "223.5.5.5:53"@[10] == '5');
    assert("223.5.5.5:80"@.len() == 12 && "1.1.1.1:80"@.len() == 10 && "223.5.5.5:53"@.len() == 12);
}

/// Of a reply only what stands before the first line feed counts.
pub proof fn law_first_line_counts(a: Seq<char>, rest: Seq<char>)
    requires
        !a.contains('\n'),
        a.len() > 0 && a.last() != '\r',
    ensures
        first_line(a) == a,
        first_line(a + seq!['\n'] + rest) == a,
        first_line(a + seq!['\r', '\n'] + rest) == a,
        first_line(seq![]) == Seq::<char>::empty(),
{
    law_lines(a, rest);
    let b = a.push('\r');
    assert forall|i: int| 0 <= i < b.len() implies b[i] != '\n' by {
        if i < a.len() {
            assert(b[i] == a[i]);
            assert(a.contains(a[i]));
        }
    }
    assert(!b.contains('\n'));
    law_lines(b, rest);
    assert(b + seq!['\n'] + rest =~= a + seq!['\r', '\n'] + rest);
    assert(b.drop_last() =~= a);
    reveal_strlit("");
    assert(""@ =~= Seq::<char>::empty());
}

/// Each address that is asked moves the probe on by one; a portal is remembered by the server that
/// should have answered, and what went wrong last is what is remembered of failures.
pub proof fn law_probe_goes_step_by_step(m: ProbeModel, k: L3Kind, e: Seq<char>)
    requires
        m.next < 3,
    ensures
        after_http_step(m, Ok(k)).next == m.next + 1,
        after_http_step(m, Err((k, e))).next == m.next + 1,
        after_http_step(m, Ok(L3Kind::Online)).reached,
        after_http_step(m, Ok(L3Kind::Portal)).portal == Some(
            endpoint_host(m.next as int) + " 非 204"@,
        ),
        k != L3Kind::Online ==> after_http_step(m, Ok(k)).reached == m.reached,
        k != L3Kind::Portal ==> after_http_step(m, Ok(k)).portal == m.portal,
        after_http_step(m, Err((k, e))).last == (k, e),
        after_http_step(m, Err((k, e))).portal == m.portal,
        after_http_step(m, Err((k, e))).reached == m.reached,
        after_tcp_step(m, true).reached,
        after_tcp_step(m, false).reached == m.reached,
        after_tcp_step(m, true).next == m.next + 1,
        after_tcp_step(m, false).portal == m.portal && after_tcp_step(m, false).last == m.last,
{
}

} // verus!
