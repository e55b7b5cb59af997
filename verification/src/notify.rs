//! Notifications: what is posted, and when a standing one is posted anew.

use crate::clock::{elapsed_between, elapsed_secs, is_clock};
use crate::numbers::{dec, lemma_dec, u64_text};
use crate::text::{cat, str_eq, texts};
use vstd::prelude::*;
use vstd::string::*;

verus! {

/// The channel of the standing notification.
pub const CHANNEL: &'static str = "amberguard";

/// The id of the standing notification; posting it again updates it.
pub const ONGOING_ID: &'static str = "amber_ongoing";

/// What the id of any other notification starts with.
pub const EVENT_PREFIX: &'static str = "amber_ev_";

/// Numbers the notifications, and remembers the standing one.
#[derive(Debug)]
pub struct Notifier {
    seq: u64,
    last_ongoing: Option<(u128, String)>,
}

/// What a `Notifier` holds.
#[verifier::ext_equal]
pub struct NotifierModel {
    pub seq: u64,
    pub last_ongoing: Option<(u128, Seq<char>)>,
}

impl View for Notifier {
    type V = NotifierModel;

    closed spec fn view(&self) -> NotifierModel {
        NotifierModel {
            seq: self.seq,
            last_ongoing: match self.last_ongoing {
                Some((t, s)) => Some((t, s@)),
                None => None,
            },
        }
    }
}

/// The arguments that post a notification.
pub open spec fn event_args(seq: nat, title: Seq<char>, text: Seq<char>) -> Seq<Seq<char>> {
    let id = EVENT_PREFIX@ + dec(seq);
    seq![
        "notification"@,
        "post"@,
        "-S"@,
        "messaging"@,
        "--conversation"@,
        id,
        "--message"@,
        title + "："@ + text,
        "-t"@,
        title,
        id,
        title,
    ]
}

/// The arguments that post the standing notification.
pub open spec fn ongoing_args(text: Seq<char>) -> Seq<Seq<char>> {
    seq![
        "notification"@,
        "post"@,
        "--ongoing"@,
        "-t"@,
        "AmberGuard"@,
        "-channel"@,
        CHANNEL@,
        ONGOING_ID@,
        text,
    ]
}

/// Whether a text is to be posted as the standing notification: not where there is no interval,
/// and not where it is the text that stands and the interval is not over.
pub open spec fn ongoing_is_due(m: NotifierModel, text: Seq<char>, interval: u64, now: u128) -> bool {
    interval > 0 && !(m.last_ongoing matches Some((t, prev)) && prev == text && elapsed_between(
        now,
        t,
    ) / 1_000_000_000 < interval)
}

impl Notifier {
    pub fn new() -> (r: Self)
        ensures
            r@ == (NotifierModel { seq: 0, last_ongoing: None }),
    {
        Notifier { seq: 0, last_ongoing: None }
    }

    /// The arguments that post a notification under a number of its own.
    pub fn event(&mut self, title: &str, text: &str) -> (r: Vec<String>)
        requires
            old(self)@.seq < u64::MAX,
        ensures
            final(self)@ == (NotifierModel { seq: (old(self)@.seq + 1) as u64, ..old(self)@ }),
            texts(r@) == event_args((old(self)@.seq + 1) as nat, title@, text@),
    {
        self.seq = self.seq + 1;
        let id = cat(EVENT_PREFIX.to_owned(), u64_text(self.seq).as_str());
        let message = cat(cat(title.to_owned(), "："), text);
        let r = vec![
            "notification".to_owned(),
            "post".to_owned(),
            "-S".to_owned(),
            "messaging".to_owned(),
            "--conversation".to_owned(),
            id.clone(),
            "--message".to_owned(),
            message,
            "-t".to_owned(),
            title.to_owned(),
            id,
            title.to_owned(),
        ];
        assert(texts(r@) == event_args(self@.seq as nat, title@, text@));
        r
    }

    /// Whether there is room for another number.
    pub fn can_number(&self) -> (r: bool)
        ensures
            r == (self@.seq < u64::MAX),
    {
        self.seq < u64::MAX
    }

    /// The arguments that post the standing notification, where it is to be posted.
    pub fn ongoing(&mut self, text: &str, min_interval_secs: u64, now: u128) -> (r: Option<Vec<String>>)
        requires
            is_clock(now),
        ensures
            r is Some <==> ongoing_is_due(old(self)@, text@, min_interval_secs, now),
            r matches Some(v) ==> texts(v@) == ongoing_args(text@),
            final(self)@ == (if ongoing_is_due(old(self)@, text@, min_interval_secs, now) {
                NotifierModel { last_ongoing: Some((now, text@)), ..old(self)@ }
            } else {
                old(self)@
            }),
    {
        if min_interval_secs == 0 {
            return None;
        }
        if let Some((t, prev)) = &self.last_ongoing {
            if str_eq(prev.as_str(), text) && elapsed_secs(now, *t) < min_interval_secs {
                return None;
            }
        }
        self.last_ongoing = Some((now, text.to_owned()));
        let r = vec![
            "notification".to_owned(),
            "post".to_owned(),
            "--ongoing".to_owned(),
            "-t".to_owned(),
            "AmberGuard".to_owned(),
            "-channel".to_owned(),
            CHANNEL.to_owned(),
            ONGOING_ID.to_owned(),
            text.to_owned(),
        ];
        assert(texts(r@) == ongoing_args(text@));
        Some(r)
    }

    /// The arguments that take the standing notification away; it is forgotten.
    pub fn cancel_ongoing(&mut self) -> (r: Vec<String>)
        ensures
            final(self)@ == (NotifierModel { last_ongoing: None, ..old(self)@ }),
            texts(r@) == seq!["notification"@, "remove"@, ONGOING_ID@],
    {
        self.last_ongoing = None;
        let r = vec!["notification".to_owned(), "remove".to_owned(), ONGOING_ID.to_owned()];
        assert(texts(r@) == seq!["notification"@, "remove"@, ONGOING_ID@]);
        r
    }

    /// The arguments that post a notification to try them out.
    pub fn test(&mut self) -> (r: Vec<String>)
        requires
            old(self)@.seq < u64::MAX,
        ensures
            final(self)@ == (NotifierModel { seq: (old(self)@.seq + 1) as u64, ..old(self)@ }),
            texts(r@) == event_args(
                (old(self)@.seq + 1) as nat,
                "AmberGuard"@,
                "通知测试：如果你看到这条，说明通知功能正常工作。"@,
            ),
    {
        self.event(
            "AmberGuard",
            "通知测试：如果你看到这条，说明通知功能正常工作。",
        )
    }
}

/// A text that has just been posted is not posted again until the interval is over; another text
/// is posted at once.
pub proof fn law_ongoing_is_throttled(
    m: NotifierModel,
    text: Seq<char>,
    other: Seq<char>,
    interval: u64,
    now: u128,
    later: u128,
)
    requires
        ongoing_is_due(m, text, interval, now),
        now <= later,
        other != text,
    ensures
        ({
            let n = NotifierModel { last_ongoing: Some((now, text)), ..m };
            &&& ongoing_is_due(n, text, interval, later) <==> later - now >= interval
                * 1_000_000_000
            &&& ongoing_is_due(n, other, interval, later)
        }),
{
    let d = later - now;
    assert(d / 1_000_000_000 < interval <==> d < interval * 1_000_000_000);
}

/// A notification is posted with its title and both title and text as its message, under an id that
/// no notification with another number has; the standing one is posted under the same id each time,
/// with its text last.
pub proof fn law_what_is_posted(n: nat, m: nat, title: Seq<char>, text: Seq<char>)
    ensures
        event_args(n, title, text)[7] == title + "："@ + text,
        event_args(n, title, text)[9] == title && event_args(n, title, text)[11] == title,
        event_args(n, title, text)[5] == event_args(n, title, text)[10],
        event_args(n, title, text)[5] == event_args(m, title, text)[5] <==> n == m,
        event_args(n, title, text)[5] == "amber_ev_"@ + dec(n),
        event_args(n, title, text).take(5) == seq![
            "notification"@,
            "post"@,
            "-S"@,
            "messaging"@,
            "--conversation"@,
        ],
        event_args(n, title, text)[6] == "--message"@ && event_args(n, title, text)[8] == "-t"@,
        event_args(n, title, text).len() == 12,
        ongoing_args(text).last() == text,
        ongoing_args(text).drop_last() == seq![
            "notification"@,
            "post"@,
            "--ongoing"@,
            "-t"@,
            "AmberGuard"@,
            "-channel"@,
            "amberguard"@,
            "amber_ongoing"@,
        ],
{
    let p = EVENT_PREFIX@;
    let a = p + dec(n);
    let b = p + dec(m);
    if a == b {
        assert(a.skip(p.len() as int) =~= dec(n));
        assert(b.skip(p.len() as int) =~= dec(m));
        lemma_dec(n);
        lemma_dec(m);
    }
    assert(event_args(n, title, text).take(5) =~= seq![
        "notification"@,
        "post"@,
        "-S"@,
        "messaging"@,
        "--conversation"@,
    ]);
}

} // verus!
