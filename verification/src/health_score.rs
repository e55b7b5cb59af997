//! How healthy a link is, from its signal strength and its retransmissions.

use vstd::prelude::*;

verus! {

/// The share of transmissions that had to be repeated.
#[derive(Clone, Copy, Debug, PartialEq, Eq, Structural)]
pub struct RetryRate {
    pub retries: u64,
    pub packets: u64,
}

impl RetryRate {
    /// A share between nothing and everything.
    pub open spec fn well_formed(self) -> bool {
        self.packets > 0 && self.retries <= self.packets
    }
}

/// An exact non-negative fraction.
#[derive(Clone, Copy, Debug, PartialEq, Eq, Structural)]
pub struct Ratio {
    pub num: u128,
    pub den: u128,
}

/// The signal's share of the score in twelfths of a point: straight lines between the anchors
/// (-90, 0), (-80, 5), (-75, 25), (-67, 65), (-55, 90) and (-50, 100), flat outside.
pub open spec fn rssi_twelfths(rssi: int) -> int {
    if rssi <= -90 {
        0
    } else if rssi <= -80 {
        (rssi + 90) * 6
    } else if rssi <= -75 {
        12 * 5 + (rssi + 80) * 48
    } else if rssi <= -67 {
        12 * 25 + (rssi + 75) * 60
    } else if rssi <= -55 {
        12 * 65 + (rssi + 67) * 25
    } else if rssi <= -50 {
        12 * 90 + (rssi + 55) * 24
    } else {
        1200
    }
}

/// The signal's share of the score, 0 to 100 points, in twelfths of a point: blunt where the
/// link runs at full speed, steep where it is about to break down.
pub fn rssi_to_score(rssi: i32) -> (r: u32)
    ensures
        r == rssi_twelfths(rssi as int),
{
    if rssi <= -90 {
        0
    } else if rssi <= -80 {
        ((rssi + 90) * 6) as u32
    } else if rssi <= -75 {
        (60 + (rssi + 80) * 48) as u32
    } else if rssi <= -67 {
        (300 + (rssi + 75) * 60) as u32
    } else if rssi <= -55 {
        (780 + (rssi + 67) * 25) as u32
    } else if rssi <= -50 {
        (1080 + (rssi + 55) * 24) as u32
    } else {
        1200
    }
}

/// The retry rate that counts: the measured one where more than 8 packets went out, else one
/// half, which neither adds nor takes.
pub open spec fn effective_rate(retry_rate: Option<RetryRate>, tx_delta: u64) -> RetryRate {
    match retry_rate {
        Some(rate) if tx_delta > 8 => rate,
        _ => RetryRate { retries: 1, packets: 2 },
    }
}

/// Half the signal's points and half the points for what went through at once, in units of
/// `1 / (120 * packets)` point.
pub open spec fn composite_units(twelfths: int, rate: RetryRate) -> int {
    5 * (twelfths * rate.packets + 1200 * (rate.packets - rate.retries))
}

/// The score in units of `1 / (120 * packets)` point. Where the signal is worth 25 points or
/// less, the score is not held up by the retransmissions: it is at most 1.2 times the signal's.
pub open spec fn health_units(rssi: int, rate: RetryRate) -> int {
    let t = rssi_twelfths(rssi);
    let c = composite_units(t, rate);
    let cap = 12 * (t * rate.packets);
    if t <= 300 && cap < c {
        cap
    } else {
        c
    }
}

/// Health of a link, 0 to 100 points. Without traffic the retransmissions say nothing and count
/// as the middle. The round-trip time is not taken into account.
pub fn health_score(
    rssi: i32,
    retry_rate: Option<RetryRate>,
    tx_delta: u64,
    _rtt_ms: Option<u32>,
) -> (r: Ratio)
    requires
        retry_rate matches Some(rate) ==> rate.well_formed(),
    ensures
        r.den == 120 * effective_rate(retry_rate, tx_delta).packets,
        r.num == health_units(rssi as int, effective_rate(retry_rate, tx_delta)),
{
    let rate = match retry_rate {
        Some(rate) => if tx_delta > 8 {
            rate
        } else {
            RetryRate { retries: 1, packets: 2 }
        },
        None => RetryRate { retries: 1, packets: 2 },
    };
    let t: u128 = rssi_to_score(rssi) as u128;
    let p: u128 = rate.packets as u128;
    let q: u128 = (rate.packets - rate.retries) as u128;
    assert(t * p <= 1200 * 0xffff_ffff_ffff_ffff) by (nonlinear_arith)
        requires
            t <= 1200,
            p <= 0xffff_ffff_ffff_ffff,
    ;
    let tp: u128 = t * p;
    let c: u128 = 5 * (tp + 1200 * q);
    let cap: u128 = 12 * tp;
    if t <= 300 && cap < c {
        Ratio { num: cap, den: 120 * p }
    } else {
        Ratio { num: c, den: 120 * p }
    }
}

/// A stronger signal is never worth fewer points.
pub proof fn law_rssi_score_is_monotonic(weak: int, strong: int)
    requires
        weak <= strong,
    ensures
        rssi_twelfths(weak) <= rssi_twelfths(strong),
        0 <= rssi_twelfths(weak),
        rssi_twelfths(strong) <= 1200,
{
}

/// A score is between 0 and 100 points.
pub proof fn law_health_is_bounded(rssi: int, rate: RetryRate)
    requires
        rate.well_formed(),
    ensures
        0 <= health_units(rssi, rate) <= 100 * (120 * rate.packets),
{
    let t = rssi_twelfths(rssi);
    law_rssi_score_is_monotonic(rssi, rssi);
    assert(0 <= t * rate.packets <= 1200 * rate.packets) by (nonlinear_arith)
        requires
            0 <= t <= 1200,
            rate.packets >= 0,
    ;
}

/// With the same retransmissions, a stronger signal never gives a lower score.
pub proof fn law_health_grows_with_signal(weak: int, strong: int, rate: RetryRate)
    requires
        weak <= strong,
        rate.well_formed(),
    ensures
        health_units(weak, rate) <= health_units(strong, rate),
{
    let a = rssi_twelfths(weak);
    let b = rssi_twelfths(strong);
    law_rssi_score_is_monotonic(weak, strong);
    assert(a * rate.packets <= b * rate.packets) by (nonlinear_arith)
        requires
            a <= b,
            rate.packets >= 0,
    ;
}

/// With the same signal, more of the packets repeated never gives a higher score.
pub proof fn law_health_falls_with_retries(rssi: int, fewer: RetryRate, more: RetryRate)
    requires
        fewer.well_formed(),
        more.well_formed(),
        fewer.packets == more.packets,
        fewer.retries <= more.retries,
    ensures
        health_units(rssi, more) <= health_units(rssi, fewer),
{
}

/// At -75 dBm or less the score is at most 30 points, whatever the retransmissions say: a weak
/// link without traffic still gets down to the point where it is left.
pub proof fn law_weak_signal_reaches_downswitch(rssi: int, rate: RetryRate)
    requires
        rate.well_formed(),
        rssi <= -75,
    ensures
        health_units(rssi, rate) <= 30 * (120 * rate.packets),
        rssi < -75 ==> health_units(rssi, rate) < 30 * (120 * rate.packets),
{
    let t = rssi_twelfths(rssi);
    law_rssi_score_is_monotonic(rssi, -75);
    assert(t * rate.packets <= 300 * rate.packets) by (nonlinear_arith)
        requires
            t <= 300,
            rate.packets >= 0,
    ;
    if rssi < -75 {
        assert(t * rate.packets < 300 * rate.packets) by (nonlinear_arith)
            requires
                t < 300,
                rate.packets > 0,
        ;
    }
}

/// The lead in dB that a better AP on the same band must have: `base` from -55 dBm up, less the
/// weaker the link is, and never under 5.
pub open spec fn roam_margin(cur_rssi: int, base: int) -> int {
    if cur_rssi <= -75 {
        5
    } else if cur_rssi >= -55 {
        base
    } else {
        5 + (cur_rssi + 75) * (base - 5) / 20
    }
}

/// The lead in dB that a better AP on the same band must have.
pub fn calc_dynamic_roam_margin(cur_rssi: i32, base: i32) -> (r: i32)
    requires
        base >= 5,
    ensures
        r == roam_margin(cur_rssi as int, base as int),
{
    if cur_rssi <= -75 {
        5
    } else if cur_rssi >= -55 {
        base
    } else {
        let k: i64 = cur_rssi as i64 + 75;
        let b: i64 = base as i64 - 5;
        assert(0 <= k * b <= 20 * b) by (nonlinear_arith)
            requires
                0 < k < 20,
                b >= 0,
        ;
        (5 + k * b / 20) as i32
    }
}

/// The lead stays between 5 and `base`, and a stronger link never asks for a smaller one.
pub proof fn law_roam_margin_bounds(weak: int, strong: int, base: int)
    requires
        base >= 5,
        weak <= strong,
    ensures
        5 <= roam_margin(weak, base) <= base,
        roam_margin(weak, base) <= roam_margin(strong, base),
{
    let b = base - 5;
    if -75 < weak < -55 {
        let k = weak + 75;
        assert(0 <= k * b <= 20 * b) by (nonlinear_arith)
            requires
                0 < k < 20,
                b >= 0,
        ;
    }
    if -75 < strong < -55 {
        let k = strong + 75;
        assert(0 <= k * b <= 20 * b) by (nonlinear_arith)
            requires
                0 < k < 20,
                b >= 0,
        ;
        if -75 < weak {
            assert((weak + 75) * b <= k * b) by (nonlinear_arith)
                requires
                    weak + 75 <= k,
                    b >= 0,
            ;
        }
    }
}

/// The signal's points: none up to -90 dBm and all hundred from -50 dBm on; between, each dBm is worth
/// the same within a stretch: half a point up to -80, four up to -75, five up to -67, 25 twelfths up to
/// -55, and two up to -50.
pub proof fn law_points_of_a_signal(rssi: int)
    ensures
        rssi <= -90 ==> rssi_twelfths(rssi) == 0,
        rssi >= -50 ==> rssi_twelfths(rssi) == 12 * 100,
        -90 <= rssi < -80 ==> rssi_twelfths(rssi + 1) - rssi_twelfths(rssi) == 6,
        -80 <= rssi < -75 ==> rssi_twelfths(rssi + 1) - rssi_twelfths(rssi) == 12 * 4,
        -75 <= rssi < -67 ==> rssi_twelfths(rssi + 1) - rssi_twelfths(rssi) == 12 * 5,
        -67 <= rssi < -55 ==> rssi_twelfths(rssi + 1) - rssi_twelfths(rssi) == 25,
        -55 <= rssi < -50 ==> rssi_twelfths(rssi + 1) - rssi_twelfths(rssi) == 12 * 2,
{
}

/// A score is half the signal's points and half the share of packets that went through at once; but where
/// the signal is worth 25 points or less, it is at most 1.2 times the signal's points.
pub proof fn law_score_is_half_and_half(rssi: int, rate: RetryRate)
    requires
        rate.well_formed(),
    ensures
        ({
            let signal = rssi_twelfths(rssi) * rate.packets;
            let through = 1200 * (rate.packets - rate.retries);
            let units = health_units(rssi, rate);
            &&& rssi > -75 ==> 2 * units == 10 * signal + 10 * through
            &&& rssi <= -75 ==> 2 * units <= 10 * signal + 10 * through && 10 * units <= 12 * (10
                * signal) && (2 * units == 10 * signal + 10 * through || 10 * units == 12 * (10
                * signal))
        }),
{
}

/// Where more than eight packets went out, what was measured counts; else the share is one half.
pub proof fn law_rate_that_counts(rate: Option<RetryRate>, tx_delta: u64)
    ensures
        tx_delta > 8 && rate is Some ==> effective_rate(rate, tx_delta) == rate->0,
        tx_delta <= 8 || rate is None ==> 2 * effective_rate(rate, tx_delta).retries
            == effective_rate(rate, tx_delta).packets && effective_rate(rate, tx_delta).packets > 0,
{
}

/// The lead that is asked for goes from 5 dB at -75 dBm in equal steps to the base at -55 dBm, rounded
/// down.
pub proof fn law_lead_goes_in_equal_steps(cur: int, base: int)
    requires
        base >= 5,
    ensures
        cur <= -75 ==> roam_margin(cur, base) == 5,
        cur >= -55 ==> roam_margin(cur, base) == base,
        -75 < cur < -55 ==> 20 * (roam_margin(cur, base) - 5) <= (cur + 75) * (base - 5) < 20 * (
        roam_margin(cur, base) - 5) + 20,
{
}

} // verus!
