use amberguard::landing::{Landing, LandingStep, FIRST_LOOKS, RETRY_LOOKS};
use amberguard::wpa_ctrl::WpaStatus;

fn at(ssid: &str, bssid: &str) -> WpaStatus {
    WpaStatus::parse(&format!("wpa_state=COMPLETED\nssid={ssid}\nbssid={bssid}"))
}

/// Takes looks that show the same until something else is asked for; says how many.
fn wait(l: &mut Landing, seen: Option<&WpaStatus>) -> u32 {
    let mut n = 0;
    while l.step() == LandingStep::Look {
        l.after_look(seen);
        n += 1;
    }
    n
}

#[test]
fn same_name_needs_the_access_point_and_gets_no_retry() {
    let mut l = Landing::new("HOME", "aa:01", true);
    assert_eq!(wait(&mut l, Some(&at("HOME", "aa:02"))), FIRST_LOOKS);
    assert_eq!(l.step(), LandingStep::Missed);
    assert_eq!(l.got(), "COMPLETED|HOME|aa:02");
    let mut l = Landing::new("HOME", "aa:01", true);
    assert_eq!(wait(&mut l, Some(&at("HOME", "AA:01"))), 1);
    assert_eq!(l.step(), LandingStep::Landed);
}

#[test]
fn other_name_gets_one_retry() {
    let mut l = Landing::new("HOME_5G", "aa:01", false);
    assert_eq!(l.got(), "");
    assert_eq!(wait(&mut l, None), 48);
    assert_eq!((l.step(), l.got()), (LandingStep::Retry, ""));
    l.after_retry(true);
    assert_eq!(wait(&mut l, Some(&at("HOME", "aa:01"))), RETRY_LOOKS);
    assert_eq!(l.step(), LandingStep::Missed);
    let mut l = Landing::new("HOME_5G", "aa:01", false);
    wait(&mut l, None);
    l.after_retry(false);
    assert_eq!(l.step(), LandingStep::Missed);
    let mut l = Landing::new("HOME_5G", "aa:01", false);
    wait(&mut l, None);
    l.after_retry(true);
    assert_eq!(wait(&mut l, Some(&at("HOME_5G", "zz"))), 1);
    assert_eq!((l.step(), l.got()), (LandingStep::Landed, "COMPLETED|HOME_5G|zz"));
}

#[test]
fn landing_after_some_looks() {
    let mut l = Landing::new("HOME_5G", "aa:01", false);
    for _ in 0..47 {
        l.after_look(Some(&at("HOME", "x")));
        assert_eq!(l.step(), LandingStep::Look);
    }
    l.after_look(Some(&at("HOME_5G", "aa:01")));
    assert_eq!(l.step(), LandingStep::Landed);
}
