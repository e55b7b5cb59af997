use amberguard::band_bond::{
    best_bonded_on_band, best_on_band, best_on_band_with, bssid_eq, decode_wpa_ssid,
    default_home_band, dual_band_pair_saved, home_contains, link_in_home,
    mark_suggested_stem_pairs, merge_scan_aps, network_id_for_ssid, parse_cmd_scan_results,
    parse_list_networks, parse_scan_results, scan_views, scan_views_filtered, scans_from_cmd,
    ssid_stem,
    stems_from_ssids, HomeAp, ScanAp, ScanApView,
};

fn ap(bssid: &str, freq: u32, signal: i32, ssid: &str) -> ScanAp {
    ScanAp { bssid: bssid.into(), freq, signal, ssid: ssid.into() }
}

fn home_ap(bssid: &str, ssid: &str, band: &str) -> HomeAp {
    HomeAp { bssid: bssid.into(), ssid: ssid.into(), band: band.into() }
}

fn row(a: &ScanAp) -> (&str, u32, i32, &str) {
    (&a.bssid, a.freq, a.signal, &a.ssid)
}

#[test]
fn decodes_utf8_hex_escape() {
    let raw = r"\xe6\xb5\xb7\xe5\xba\xb7";
    let s = decode_wpa_ssid(raw);
    assert!(s.contains('海'), "got {s:?}");
}

#[test]
fn plain_ascii_unchanged() {
    assert_eq!(decode_wpa_ssid("MERCURY_C8B5"), "MERCURY_C8B5");
}

#[test]
fn suggests_stem_dual_band_pair() {
    let mut v = vec![
        ScanApView {
            bssid: "aa:aa:aa:aa:aa:01".into(),
            ssid: "MERCURY_C8B5".into(),
            freq: 2412,
            signal: -50,
            band: "2.4".into(),
            in_home: false,
            suggested: false,
        },
        ScanApView {
            bssid: "aa:aa:aa:aa:aa:02".into(),
            ssid: "MERCURY_5G_C8B5".into(),
            freq: 5180,
            signal: -55,
            band: "5".into(),
            in_home: false,
            suggested: false,
        },
        ScanApView {
            bssid: "bb:bb:bb:bb:bb:01".into(),
            ssid: "OTHER".into(),
            freq: 2412,
            signal: -40,
            band: "2.4".into(),
            in_home: false,
            suggested: false,
        },
    ];
    let allow: Vec<String> = ["MERCURY_C8B5".into()].into_iter().collect();
    mark_suggested_stem_pairs(&mut v, Some(&allow));
    assert!(v[0].suggested && v[1].suggested);
    assert!(!v[2].suggested);
}

#[test]
fn suggests_all_bssids_on_allowed_stem_not_neighbors() {
    let mut v = vec![
        ScanApView {
            bssid: "a1".into(),
            ssid: "HOME".into(),
            freq: 2412,
            signal: -70,
            band: "2.4".into(),
            in_home: false,
            suggested: false,
        },
        ScanApView {
            bssid: "a2".into(),
            ssid: "HOME".into(),
            freq: 2412,
            signal: -40,
            band: "2.4".into(),
            in_home: false,
            suggested: false,
        },
        ScanApView {
            bssid: "b1".into(),
            ssid: "HOME_5G".into(),
            freq: 5180,
            signal: -60,
            band: "5".into(),
            in_home: false,
            suggested: false,
        },
        ScanApView {
            bssid: "b2".into(),
            ssid: "HOME_5G".into(),
            freq: 5180,
            signal: -45,
            band: "5".into(),
            in_home: false,
            suggested: false,
        },
        ScanApView {
            bssid: "n1".into(),
            ssid: "NEIGHBOR".into(),
            freq: 2412,
            signal: -30,
            band: "2.4".into(),
            in_home: false,
            suggested: false,
        },
        ScanApView {
            bssid: "n2".into(),
            ssid: "NEIGHBOR_5G".into(),
            freq: 5180,
            signal: -35,
            band: "5".into(),
            in_home: false,
            suggested: false,
        },
    ];
    let allow: Vec<String> = ["HOME".into()].into_iter().collect();
    mark_suggested_stem_pairs(&mut v, Some(&allow));
    // Every access point of the home stem is marked, no neighbour is.
    assert!(v[0].suggested && v[1].suggested && v[2].suggested && v[3].suggested);
    assert!(!v[4].suggested && !v[5].suggested);
    // Without a list of stems nothing is marked.
    for x in v.iter_mut() {
        x.suggested = false;
    }
    mark_suggested_stem_pairs(&mut v, None);
    assert!(v.iter().all(|x| !x.suggested));
}

#[test]
fn skips_demoted_strongest_and_uses_next_candidate() {
    let scans = vec![
        ScanAp {
            bssid: "aa:aa:aa:aa:aa:01".into(),
            freq: 5180,
            signal: -40,
            ssid: "HOME_5G".into(),
        },
        ScanAp {
            bssid: "aa:aa:aa:aa:aa:02".into(),
            freq: 5180,
            signal: -55,
            ssid: "HOME_5G".into(),
        },
    ];
    let home = vec![
        HomeAp {
            bssid: scans[0].bssid.clone(),
            ssid: scans[0].ssid.clone(),
            band: "5".into(),
        },
        HomeAp {
            bssid: scans[1].bssid.clone(),
            ssid: scans[1].ssid.clone(),
            band: "5".into(),
        },
    ];

    let selected = best_on_band_with(
        &scans,
        "HOME",
        true,
        -80,
        &home,
        &[scans[0].bssid.clone()],
    )
    .expect("second candidate should remain selectable");

    assert_eq!(selected.bssid, scans[1].bssid);
}

#[test]
fn returns_none_when_all_candidates_are_demoted() {
    let scans = vec![
        ScanAp {
            bssid: "aa:aa:aa:aa:aa:01".into(),
            freq: 5180,
            signal: -40,
            ssid: "HOME_5G".into(),
        },
        ScanAp {
            bssid: "aa:aa:aa:aa:aa:02".into(),
            freq: 5180,
            signal: -55,
            ssid: "HOME_5G".into(),
        },
    ];
    let home = scans
        .iter()
        .map(|scan| HomeAp {
            bssid: scan.bssid.clone(),
            ssid: scan.ssid.clone(),
            band: "5".into(),
        })
        .collect::<Vec<_>>();
    let demoted = scans.iter().map(|scan| scan.bssid.clone()).collect::<Vec<_>>();

    assert!(best_on_band_with(&scans, "HOME", true, -80, &home, &demoted).is_none());
}

#[test]
fn known_nonmatching_bssid_is_not_home() {
    let home = vec![HomeAp {
        bssid: "aa:aa:aa:aa:aa:01".into(),
        ssid: "HOME".into(),
        band: "auto".into(),
    }];

    assert!(!link_in_home(
        &home,
        "aa:aa:aa:aa:aa:02",
        "HOME"
    ));
    assert!(link_in_home(&home, "", "HOME"));
}

#[test]
fn escapes_in_names() {
    assert_eq!(decode_wpa_ssid(r#"a\\b\"c\'d\te\nf\eg"#), "a\\b\"c'd\te\nf\u{1b}g");
    assert_eq!(decode_wpa_ssid(r"\X41\x4a"), "AJ");
    // A sign is part of what a hexadecimal byte may be written with.
    assert_eq!(decode_wpa_ssid(r"\x+5"), "\u{5}");
    // What is no escape stays.
    assert_eq!(decode_wpa_ssid(r"\q\xg1\x4"), r"\q\xg1\x4");
    assert_eq!(decode_wpa_ssid("tail\\"), "tail\\");
    // Bytes that are no text are replaced.
    assert_eq!(decode_wpa_ssid(r"a\xffb"), "a\u{fffd}b");
}

#[test]
fn escaped_names_are_read_back() {
    for name in ["plain", "海康_5G", "é😀 \"x\"", "back\\slash", ""] {
        let raw: String = name.bytes().map(|b| format!("\\x{b:02x}")).collect();
        assert_eq!(decode_wpa_ssid(&raw), name);
    }
    // Plain bytes and escapes may be mixed.
    assert_eq!(decode_wpa_ssid(r"caf\xc3\xa9\x2e"), "café.");
    assert_eq!(decode_wpa_ssid(r"\xe6\xb5\xb7康\\x41\\"), r"海康\x41\");
    assert_eq!(decode_wpa_ssid(r#"\x5c\"5\X47\""#), r#"\"5G""#);
}

#[test]
fn stems_drop_band_marks() {
    assert_eq!(ssid_stem("HOME_5G"), "HOME");
    assert_eq!(ssid_stem("HOME-2.4G"), "HOME");
    assert_eq!(ssid_stem("MERCURY_5G_C8B5"), "MERCURY_C8B5");
    assert_eq!(ssid_stem("5G_HOME_5G_CLONE"), "HOME");
    assert_eq!(ssid_stem("A____B"), "A_B");
    assert_eq!(ssid_stem("-_x_-"), "x");
    assert_eq!(ssid_stem("home_5g"), "home_5g");
    assert_eq!(ssid_stem("_5G"), "");
}

#[test]
fn home_members_are_found_by_bssid() {
    let home = vec![home_ap("AA:BB:CC:DD:EE:01", "HOME", "5")];
    assert!(bssid_eq("AA:bb", "aa:BB"));
    assert!(!bssid_eq("aa", "aaa"));
    assert!(home_contains(&home, "aa:bb:cc:dd:ee:01"));
    assert!(!home_contains(&home, "aa:bb:cc:dd:ee:02"));
    assert!(link_in_home(&[], "any", ""));
    assert!(!link_in_home(&home, "", "OTHER"));
    assert!(!link_in_home(&[home_ap("aa", "", "5")], "", ""));
    assert_eq!(default_home_band(), "auto");
    assert_eq!(home_ap("AB:Ç", "", "").bssid_norm(), "ab:ç");
    for (band, hint) in [
        ("5", Some(true)),
        ("5g", Some(true)),
        ("5G", Some(true)),
        ("2.4", Some(false)),
        ("24", Some(false)),
        ("2.4g", Some(false)),
        ("2G", Some(false)),
        ("2g", Some(false)),
        ("auto", None),
        ("2.4G", None),
    ] {
        assert_eq!(home_ap("x", "x", band).is_5g_hint(), hint, "{band}");
    }
}

#[test]
fn framework_scan_rows() {
    let raw = "\
BSSID              Frequency      RSSI           Age(sec)     SSID                 Flags
Wifi is on
aa:bb:cc:dd:ee:01  5180  -59(0:-61/1:-65)  1.234  海康 网 [WPA2-PSK-CCMP][ESS]
aa:bb:cc:dd:ee:02  2412  -70  2.5  12.3 NAME [ESS]
aa:bb:cc:dd:ee:03  2412  -71  0.1 [ESS]
short  2412  -71  0.1  X [ESS]
aa:bb:cc:dd:ee:04  x  -71  0.1  X [ESS]
aa:bb:cc:dd:ee:05  2412  y  0.1  X [ESS]
aa:bb:cc:dd:ee:06  2412  -71  0.1  X no flags
[ESS]
aa:bb:cc:dd:ee:07  2412  -59  3.5  360 WiFi [ESS]
aa:bb:cc:dd:ee:08  2412  -59  TWO WORDS [ESS]
aa:bb:cc:dd:ee:09  2412  -59 [ESS]
";
    let v = parse_cmd_scan_results(raw);
    assert_eq!(
        v.iter().map(row).collect::<Vec<_>>(),
        [
            ("aa:bb:cc:dd:ee:01", 5180, -59, "海康 网"),
            ("aa:bb:cc:dd:ee:02", 2412, -70, "12.3 NAME"),
            ("aa:bb:cc:dd:ee:03", 2412, -71, ""),
            ("aa:bb:cc:dd:ee:07", 2412, -59, "360 WiFi"),
            ("aa:bb:cc:dd:ee:08", 2412, -59, "TWO WORDS"),
            ("aa:bb:cc:dd:ee:09", 2412, -59, ""),
        ]
    );
}

#[test]
fn framework_output() {
    let raw = b"aa:bb:cc:dd:ee:01 2412 -59 3.5 A\xff [ESS]".to_vec();
    for (success, strict, n) in [(true, true, 1), (true, false, 1), (false, false, 1), (false, true, 0)] {
        let v = scans_from_cmd(success, strict, &raw);
        assert_eq!(v.len(), n);
        assert!(v.iter().all(|a| a.ssid == "A\u{fffd}"));
    }
}

#[test]
fn supplicant_scan_rows() {
    let raw = "\
bssid / frequency / signal level / flags / ssid
aa:bb:cc:dd:ee:01\t5180\t-59\t[WPA2-PSK-CCMP][ESS]\t\\xe6\\xb5\\xb7
aa:bb:cc:dd:ee:02\t2412\t-70\t[ESS]\tTWO WORDS
aa:bb:cc:dd:ee:03\t2412\t-70
aa:bb\t2412\t-70\t[ESS]\tX
aa:bb:cc:dd:ee:04\t-1\t-70\t[ESS]\tX
aa:bb:cc:dd:ee:05\t2412\tx\t[ESS]\tX
";
    let v = parse_scan_results(raw);
    assert_eq!(
        v.iter().map(row).collect::<Vec<_>>(),
        [
            ("aa:bb:cc:dd:ee:01", 5180, -59, "海"),
            ("aa:bb:cc:dd:ee:02", 2412, -70, "TWO WORDS"),
            ("aa:bb:cc:dd:ee:03", 2412, -70, ""),
        ]
    );
    assert!(v[0].is_5g());
    assert!(!v[1].is_5g());
    assert!(!ap("x", 5000, 0, "").is_5g());
}

#[test]
fn merging_keeps_the_best_of_each() {
    let v = merge_scan_aps(
        vec![ap("AA:01", 2412, -60, ""), ap("aa:02", 2412, -50, "N")],
        vec![
            ap("aa:01", 2437, -55, "HOME"),
            ap("AA:02", 2437, -70, "海"),
            ap("ÀA", 5180, -80, "x"),
            ap("àa", 5200, -90, "y"),
        ],
    );
    assert_eq!(
        v.iter().map(row).collect::<Vec<_>>(),
        [("aa:02", 2412, -50, "海"), ("AA:01", 2437, -55, "HOME"), ("ÀA", 5180, -80, "x")]
    );
}

#[test]
fn saved_pairs() {
    let none: Vec<String> = vec![" ".into(), "".into()];
    assert_eq!(
        dual_band_pair_saved(&none),
        (false, "未读到已保存网络（请先在系统连过 WiFi）".to_string())
    );
    let one: Vec<String> = vec!["HOME".into(), " HOME ".into()];
    assert_eq!(dual_band_pair_saved(&one), (false, "仅 1 个：HOME；请再保存对端频段".to_string()));
    let pair: Vec<String> = vec!["X".into(), "HOME".into(), "HOME_5G".into()];
    assert_eq!(dual_band_pair_saved(&pair), (true, "配对 HOME ↔ HOME_5G".to_string()));
    let two: Vec<String> = vec!["X".into(), "Y".into()];
    assert_eq!(
        dual_band_pair_saved(&two),
        (true, "已保存 2 个网络（未识别同名双频后缀）".to_string())
    );
}

#[test]
fn targets_without_a_home_group() {
    let scans = vec![
        ap("a", 5180, -60, "HOME_5G"),
        ap("b", 5180, -50, "OTHER"),
        ap("c", 5180, -60, "home"),
        ap("d", 2412, -30, "HOME"),
        ap("e", 5180, -81, "HOME"),
    ];
    // Of equally strong ones the last seen is taken; case does not matter to the stem.
    assert_eq!(best_bonded_on_band(&scans, "HOME", true, -80).unwrap().bssid, "c");
    assert_eq!(best_bonded_on_band(&scans, "HOME_5G", false, -80).unwrap().bssid, "d");
    assert!(best_bonded_on_band(&scans, "NONE", true, -80).is_none());
    assert!(best_bonded_on_band(&scans, "HOME", true, -40).is_none());
    // A name that is nothing but a band mark has no stem to match by.
    let marks = vec![ap("a", 5180, -60, "_5G"), ap("b", 5180, -50, "-5G")];
    assert_eq!(best_bonded_on_band(&marks, "_5G", true, -80).unwrap().bssid, "a");
}

#[test]
fn targets_stay_in_the_home_group() {
    let scans = vec![ap("AA:01", 5180, -60, "HOME_5G"), ap("aa:02", 5180, -40, "HOME")];
    let home = vec![home_ap("aa:01", "HOME", "5")];
    assert_eq!(best_on_band(&scans, "HOME", true, -80, &home).unwrap().bssid, "AA:01");
    assert!(best_on_band(&scans, "HOME", true, -50, &home).is_none());
    let gone: Vec<String> = vec!["aa:01".into()];
    assert!(best_on_band_with(&scans, "HOME", true, -80, &home, &gone).is_none());
    assert_eq!(best_on_band_with(&scans, "HOME", true, -80, &home, &[]).unwrap().bssid, "AA:01");
}

#[test]
fn views_are_marked_and_ordered() {
    let scans = vec![
        ap("a", 2412, -70, "HOME"),
        ap("b", 5180, -60, "HOME_5G"),
        ap("c", 5180, -50, "N_5G"),
        ap("d", 2412, -70, ""),
    ];
    let home = vec![home_ap("B", "HOME", "5")];
    let plain = scan_views(&scans, &home);
    assert_eq!(plain.iter().map(|v| v.bssid.as_str()).collect::<Vec<_>>(), ["c", "b", "a", "d"]);
    assert!(plain.iter().all(|v| !v.suggested));
    assert!(plain[1].in_home && !plain[0].in_home);
    assert_eq!(plain[1].band, "5");
    assert_eq!(plain[2].band, "2.4");
    let names: Vec<String> = vec!["HOME".into(), "".into(), "N".into(), "HOME_5G".into()];
    let allow = stems_from_ssids(&names);
    assert_eq!(allow, ["HOME"]);
    let marked = scan_views_filtered(&scans, &home, Some(&allow));
    assert_eq!(
        marked.iter().map(|v| v.suggested).collect::<Vec<_>>(),
        [false, true, true, false]
    );
}

#[test]
fn one_band_alone_is_not_suggested() {
    let scans = vec![ap("a", 2412, -70, "HOME"), ap("b", 2437, -60, "HOME")];
    let allow: Vec<String> = vec!["HOME".into()];
    assert!(scan_views_filtered(&scans, &[], Some(&allow)).iter().all(|v| !v.suggested));
    let empty: Vec<String> = vec![];
    assert!(scan_views_filtered(&scans, &[], Some(&empty)).iter().all(|v| !v.suggested));
}

#[test]
fn network_lists() {
    let tabs = "network id / ssid / bssid / flags\n0\tHOME\tany\t[CURRENT]\n1\t\"Q\"\tany\t\nx\tY\n2\n";
    assert_eq!(parse_list_networks(tabs), [(0, "HOME".to_string()), (1, "Q".to_string())]);
    let spaces = "Using interface wlan0\n3  \\xe6\\xb5\\xb7  any\n4 HOME_5G any";
    assert_eq!(parse_list_networks(spaces), [(3, "海".to_string()), (4, "HOME_5G".to_string())]);
    assert_eq!(network_id_for_ssid(tabs, "HOME"), Some(0));
    assert_eq!(network_id_for_ssid(tabs, "HOME_5G"), None);
    assert_eq!(network_id_for_ssid(spaces, "HOME_5G"), Some(4));
}
