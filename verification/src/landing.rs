//! The wait for a link to stand at its target after a switch has been asked for.

use crate::scheduler::{got_text, link_reached_peer, place, reached};
use crate::text::{ascii_lower, trimmed};
use crate::wpa_ctrl::{WpaModel, WpaStatus};
use vstd::prelude::*;
use vstd::string::*;

verus! {

/// Looks that are taken after the switch has been asked for.
pub const FIRST_LOOKS: u32 = 48;

/// Looks that are taken after it has been asked for once more.
pub const RETRY_LOOKS: u32 = 32;

/// What the wait asks for next.
#[derive(Clone, Copy, Debug, PartialEq, Eq, Structural)]
pub enum LandingStep {
    /// A look at the link, a quarter of a second from now.
    Look,
    /// The connection is to be asked for once more, without naming the access point.
    Retry,
    /// The link stands at its target.
    Landed,
    /// The link has not come to its target.
    Missed,
}

/// The wait for a link to stand at its target.
#[derive(Debug)]
pub struct Landing {
    ssid: String,
    bssid: String,
    same_ssid: bool,
    left: u32,
    retried: bool,
    landed: bool,
    got: String,
}

/// What a `Landing` holds: the target, whether it has the name of the link before, the looks that
/// are left, whether the connection has been asked for again, whether the link has arrived, and
/// where it was seen last.
#[verifier::ext_equal]
pub struct LandingModel {
    pub ssid: Seq<char>,
    pub bssid: Seq<char>,
    pub same_ssid: bool,
    pub left: int,
    pub retried: bool,
    pub landed: bool,
    pub got: Seq<char>,
}

impl View for Landing {
    type V = LandingModel;

    closed spec fn view(&self) -> LandingModel {
        LandingModel {
            ssid: self.ssid@,
            bssid: self.bssid@,
            same_ssid: self.same_ssid,
            left: self.left as int,
            retried: self.retried,
            landed: self.landed,
            got: self.got@,
        }
    }
}

/// What the wait asks for next: looks while there are any left; then, where the target has
/// another name than the link before, one retry.
pub open spec fn landing_step(m: LandingModel) -> LandingStep {
    if m.landed {
        LandingStep::Landed
    } else if m.left > 0 {
        LandingStep::Look
    } else if !m.same_ssid && !m.retried {
        LandingStep::Retry
    } else {
        LandingStep::Missed
    }
}

/// The wait after a look. Where the target has the name of the link before, the access point must
/// be the right one; else the name is enough.
pub open spec fn looked(m: LandingModel, seen: Option<WpaModel>) -> LandingModel {
    match seen {
        Some(st) => LandingModel {
            left: m.left - 1,
            landed: reached(st, m.ssid, m.bssid, m.same_ssid),
            got: place(st),
            ..m
        },
        None => LandingModel { left: m.left - 1, ..m },
    }
}

/// The wait after the connection has been asked for once more, with success or without.
pub open spec fn tried_again(m: LandingModel, ok: bool) -> LandingModel {
    LandingModel {
        retried: true,
        left: if ok {
            RETRY_LOOKS as int
        } else {
            0
        },
        ..m
    }
}

impl Landing {
    /// The wait for a link to stand at a target.
    pub fn new(ssid: &str, bssid: &str, same_ssid: bool) -> (r: Self)
        ensures
            r@ == (LandingModel {
                ssid: ssid@,
                bssid: bssid@,
                same_ssid,
                left: FIRST_LOOKS as int,
                retried: false,
                landed: false,
                got: seq![],
            }),
    {
        let got = String::new();
        assert(got@ == Seq::<char>::empty());
        Landing {
            ssid: ssid.to_owned(),
            bssid: bssid.to_owned(),
            same_ssid,
            left: FIRST_LOOKS,
            retried: false,
            landed: false,
            got,
        }
    }

    /// What is asked for next.
    pub fn step(&self) -> (r: LandingStep)
        ensures
            r == landing_step(self@),
    {
        if self.landed {
            LandingStep::Landed
        } else if self.left > 0 {
            LandingStep::Look
        } else if !self.same_ssid && !self.retried {
            LandingStep::Retry
        } else {
            LandingStep::Missed
        }
    }

    /// Takes a look, or that none could be taken.
    pub fn after_look(&mut self, seen: Option<&WpaStatus>)
        requires
            landing_step(old(self)@) == LandingStep::Look,
        ensures
            final(self)@ == looked(
                old(self)@,
                match seen {
                    Some(st) => Some(st@),
                    None => None,
                },
            ),
    {
        self.left = self.left - 1;
        if let Some(st) = seen {
            self.got = got_text(st);
            self.landed = link_reached_peer(
                st,
                self.ssid.as_str(),
                self.bssid.as_str(),
                self.same_ssid,
            );
        }
    }

    /// The connection has been asked for once more.
    pub fn after_retry(&mut self, ok: bool)
        requires
            landing_step(old(self)@) == LandingStep::Retry,
        ensures
            final(self)@ == tried_again(old(self)@, ok),
    {
        self.retried = true;
        self.left = if ok {
            RETRY_LOOKS
        } else {
            0
        };
    }

    /// Where the link was seen last.
    pub fn got(&self) -> (r: &str)
        ensures
            r@ == self@.got,
    {
        self.got.as_str()
    }
}

/// What is left of a wait: the looks, and a retry with those that may follow it.
pub open spec fn steps_left(m: LandingModel) -> int {
    m.left + if !m.same_ssid && !m.retried {
        RETRY_LOOKS + 1
    } else {
        0
    }
}

/// A wait comes to an end: every step that it asks for leaves fewer, and where none are left it
/// has landed or missed.
pub proof fn law_landing_ends(m: LandingModel, seen: Option<WpaModel>, ok: bool)
    requires
        m.left >= 0,
    ensures
        landing_step(m) == LandingStep::Look ==> 0 <= steps_left(looked(m, seen)) < steps_left(m),
        landing_step(m) == LandingStep::Retry ==> 0 <= steps_left(tried_again(m, ok)) < steps_left(
            m,
        ),
        steps_left(m) == 0 ==> landing_step(m) == LandingStep::Landed || landing_step(m)
            == LandingStep::Missed,
{
}

/// A link counts as landed only where a look has shown it at its target, and the first such look
/// ends the wait.
pub proof fn law_landed_means_reached(m: LandingModel, seen: Option<WpaModel>)
    requires
        landing_step(m) == LandingStep::Look,
    ensures
        landing_step(looked(m, seen)) == LandingStep::Landed <==> (seen matches Some(st) && reached(
            st,
            m.ssid,
            m.bssid,
            m.same_ssid,
        )),
{
}

/// A look counts one off and shows where the link is; it changes nothing about the target. A look that could
/// not be taken shows nothing.
pub proof fn law_a_look_at_the_landing(m: LandingModel, st: WpaModel)
    ensures
        looked(m, Some(st)).left == m.left - 1,
        looked(m, None).left == m.left - 1,
        looked(m, None).landed == m.landed && looked(m, None).got == m.got,
        looked(m, Some(st)).ssid == m.ssid && looked(m, Some(st)).bssid == m.bssid && looked(
            m,
            Some(st),
        ).same_ssid == m.same_ssid && looked(m, Some(st)).retried == m.retried,
        looked(m, Some(st)).landed <==> {
            &&& st.wpa_state == "COMPLETED"@
            &&& st.ssid matches Some(s) && s == m.ssid && s.len() > 0
            &&& {
                ||| !m.same_ssid
                ||| trimmed(m.bssid).len() == 0
                ||| st.bssid matches Some(b) && ascii_lower(b) == ascii_lower(trimmed(m.bssid))
            }
        },
{
}

/// What is asked for: looks while there are any; then, towards another network, the connection once more;
/// after that, or within the network at once, the target has been missed.
pub proof fn law_what_the_wait_asks_for(m: LandingModel, ok: bool)
    requires
        !m.landed,
        m.left >= 0,
    ensures
        landing_step(m) == LandingStep::Look <==> m.left > 0,
        landing_step(m) == LandingStep::Retry <==> m.left == 0 && !m.same_ssid && !m.retried,
        landing_step(m) == LandingStep::Missed <==> m.left == 0 && (m.same_ssid || m.retried),
        landing_step(tried_again(LandingModel { left: 0, ..m }, false)) == LandingStep::Missed,
        landing_step(tried_again(m, true)) == LandingStep::Look,
        tried_again(m, ok).retried && tried_again(m, ok).ssid == m.ssid && tried_again(m, ok).bssid
            == m.bssid,
{
}

} // verus!
