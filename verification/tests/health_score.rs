use amberguard::health_score::{
    calc_dynamic_roam_margin, health_score, rssi_to_score, Ratio, RetryRate,
};

fn points(rssi: i32) -> f32 {
    rssi_to_score(rssi) as f32 / 12.0
}

fn value(r: Ratio) -> f32 {
    (r.num as f64 / r.den as f64) as f32
}

#[test]
fn rssi_to_score_anchors() {
    assert_eq!(points(-50), 100.0);
    assert_eq!(points(-55), 90.0);
    assert_eq!(points(-67), 65.0);
    assert_eq!(points(-75), 25.0);
    assert_eq!(points(-80), 5.0);
    assert_eq!(points(-90), 0.0);
}

#[test]
fn rssi_to_score_monotonic() {
    let mut prev = -1.0f32;
    for r in (-95..=-40).step_by(5) {
        let s = points(r);
        assert!(s >= prev, "rssi {} score {} 应单调不降（前 {})", r, s, prev);
        prev = s;
    }
}

#[test]
fn dynamic_margin_bounds() {
    assert_eq!(calc_dynamic_roam_margin(-55, 12), 12);
    assert_eq!(calc_dynamic_roam_margin(-50, 12), 12);
    assert_eq!(calc_dynamic_roam_margin(-75, 12), 5);
    assert_eq!(calc_dynamic_roam_margin(-90, 12), 5);
    let m = calc_dynamic_roam_margin(-65, 12);
    assert!(m >= 5 && m <= 12, "中段 margin {} 应在 [5,12]", m);
}

#[test]
fn silent_avalanche_reaches_downswitch() {
    // Without traffic the middle of 50 would hold the score at 37.5; the cap takes it to 30.
    assert!(value(health_score(-75, None, 0, None)) <= 30.0, "静默 -75 复合应 ≤ 下切阈值 30");
    assert!(value(health_score(-77, None, 0, None)) < 30.0, "静默 -77 复合应 < 下切阈值 30");
}

#[test]
fn health_follows_signal_and_retries() {
    // Half of 65 points and half of 100 points for a link without retries.
    let clean = RetryRate { retries: 0, packets: 100 };
    assert_eq!(value(health_score(-67, Some(clean), 9, None)), 82.5);
    // The same link with one packet in four repeated.
    let some = RetryRate { retries: 25, packets: 100 };
    assert_eq!(value(health_score(-67, Some(some), 9, None)), 70.0);
    // Too few packets to judge by: the middle counts.
    assert_eq!(value(health_score(-67, Some(clean), 8, None)), 57.5);
    // The round-trip time changes nothing.
    assert_eq!(
        health_score(-67, Some(some), 9, Some(400)),
        health_score(-67, Some(some), 9, None)
    );
    // A weak signal is not held up by a clean link.
    assert_eq!(value(health_score(-75, Some(clean), 9, None)), 30.0);
    assert_eq!(value(health_score(-80, Some(clean), 9, None)), 6.0);
    // A bad link with a good signal is not cut.
    let all = RetryRate { retries: 100, packets: 100 };
    assert_eq!(value(health_score(-50, Some(all), 9, None)), 50.0);
}

#[test]
fn health_is_exact() {
    assert_eq!(health_score(-75, None, 0, None), Ratio { num: 7200, den: 240 });
    let rate = RetryRate { retries: 1, packets: 3 };
    assert_eq!(health_score(-60, Some(rate), 30, None), Ratio { num: 26325, den: 360 });
    let most = RetryRate { retries: u64::MAX, packets: u64::MAX };
    assert_eq!(value(health_score(i32::MIN, Some(most), u64::MAX, None)), 0.0);
    assert_eq!(value(health_score(i32::MAX, None, 0, None)), 75.0);
}

#[test]
fn health_stays_between_zero_and_a_hundred() {
    for rssi in -100..=-30 {
        for retries in 0..=20u64 {
            let r = health_score(rssi, Some(RetryRate { retries, packets: 20 }), 20, None);
            assert!(r.num <= 100 * r.den);
            let weaker = health_score(rssi - 1, Some(RetryRate { retries, packets: 20 }), 20, None);
            assert!(weaker.num <= r.num);
            if retries < 20 {
                let worse =
                    health_score(rssi, Some(RetryRate { retries: retries + 1, packets: 20 }), 20, None);
                assert!(worse.num <= r.num);
            }
        }
    }
}

#[test]
fn score_table_between_anchors() {
    assert_eq!(rssi_to_score(-85), 30);
    assert_eq!(rssi_to_score(-78), 156);
    assert_eq!(rssi_to_score(-70), 600);
    assert_eq!(rssi_to_score(-60), 955);
    assert_eq!(rssi_to_score(-52), 1152);
    assert_eq!(rssi_to_score(0), 1200);
    assert_eq!(rssi_to_score(i32::MIN), 0);
}

#[test]
fn roam_margin_is_the_floor_of_the_line() {
    for base in 5..=25i32 {
        for rssi in -100..=-40i32 {
            let line = 5.0 + (rssi + 75) as f32 / 20.0 * (base as f32 - 5.0);
            let expected = line.clamp(5.0, base as f32) as i32;
            assert_eq!(calc_dynamic_roam_margin(rssi, base), expected, "{rssi} {base}");
        }
    }
}
