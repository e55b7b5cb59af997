use amberguard::wpa_ctrl::{
    abstract_names, client_socket_path, discover, expect_ok, is_pong, looks_like_server_socket,
    reply_text, wants_poll, SocketEntry, WpaCtrl, WpaError, WpaStatus,
};

fn entry(dir: &str, name: &str) -> SocketEntry {
    SocketEntry { name: name.into(), path: format!("{dir}/{name}") }
}

#[test]
fn status_is_read() {
    let s = WpaStatus::parse(
        " wpa_state = COMPLETED \nssid=a=b\nbssid=aa:bb\nfreq=5180\nsignal=-60\nrssi=-70\nip_address=1.2.3.4\ndisabled=0\nkey_mgmt=SAE\nno value\n\n",
    );
    assert_eq!(s.wpa_state, "COMPLETED");
    assert_eq!(s.ssid.as_deref(), Some("a=b"));
    assert_eq!(s.bssid.as_deref(), Some("aa:bb"));
    assert_eq!((s.freq, s.signal_dbm, s.disabled), (Some(5180), Some(-60), Some(0)));
    assert_eq!(s.ip_address.as_deref(), Some("1.2.3.4"));
    assert_eq!(s.raw.len(), 1);
    assert_eq!(s.raw.get("key_mgmt").unwrap().text, "SAE");
    let d = WpaStatus::default();
    assert_eq!((d.wpa_state.as_str(), d.ssid, d.raw.len()), ("", None, 0));
}

#[test]
fn first_readable_signal_counts() {
    assert_eq!(WpaStatus::parse("RSSI=x\nsignal_dbm=-55").signal_dbm, Some(-55));
    assert_eq!(WpaStatus::parse("freq=5180\nfreq=x").freq, None);
}

#[test]
fn server_sockets_are_told_apart() {
    for name in ["wlan0", "p2p-dev", "wifi0", "wpa_wlan0", "vendor_wpa_wlan0"] {
        assert!(looks_like_server_socket(name), "{name}");
    }
    for name in ["wpa_ctrl_12-3", "wpa_wlan1", "other", ""] {
        assert!(!looks_like_server_socket(name), "{name}");
    }
}

#[test]
fn candidates_are_distinct_and_end_with_the_abstract_names() {
    let own = vec![entry("/a", "wlan0"), entry("/a", "wpa_ctrl_1"), entry("/a", "wlan0")];
    let dev = vec![entry("/dev/socket", "zygote"), entry("/dev/socket", "my_wpa"), entry("/dev/socket", "xwifi")];
    assert_eq!(
        discover(&own, &dev),
        ["/a/wlan0", "/dev/socket/my_wpa", "/dev/socket/xwifi", "@wpa_wlan0", "@wpa_wifi0"]
    );
    assert_eq!(discover(&vec![], &vec![]), ["@wpa_wlan0", "@wpa_wifi0"]);
}

#[test]
fn client_sockets() {
    assert_eq!(client_socket_path("/run", 7, 42).unwrap(), "/run/wpa_ctrl_7-42");
    let long = format!("/{}", "d".repeat(100));
    assert_eq!(
        client_socket_path(&long, 7, 42).unwrap_err().text(),
        format!("Parse: client path too long: {long}/wpa_ctrl_7-42")
    );
    assert_eq!(
        abstract_names("@wpa_wlan0", 9),
        Some(("wpa_ctrl_9".to_string(), "wpa_wlan0".to_string()))
    );
    assert_eq!(abstract_names("/run/wlan0", 9), None);
}

#[test]
fn replies() {
    assert!(expect_ok("ROAM x", "OK\n").is_ok());
    assert_eq!(expect_ok("ROAM x", "FAIL\n").unwrap_err().text(), "Parse: ROAM x => FAIL\n");
    assert_eq!(expect_ok("ROAM x", "BUSY").unwrap_err().text(), "Parse: ROAM x unexpected: BUSY");
    assert!(is_pong("PONG\n"));
    assert!(!is_pong("OK"));
}

#[test]
fn commands() {
    let c = WpaCtrl::new(true);
    assert!(c.is_connected());
    assert_eq!(c.status().unwrap(), "STATUS");
    assert_eq!(c.signal_poll().unwrap(), "SIGNAL_POLL");
    assert_eq!(c.ping().unwrap(), "PING");
    assert_eq!(c.list_networks().unwrap(), "LIST_NETWORKS");
    assert_eq!(c.scan_results().unwrap(), "SCAN_RESULTS");
    assert_eq!(c.command("SCAN").unwrap(), "SCAN");
    assert_eq!(c.roam("aa:bb").unwrap(), "ROAM aa:bb");
    assert_eq!(c.select_network(3).unwrap(), "SELECT_NETWORK 3");
    assert_eq!(c.set_network_bssid(3, "any").unwrap(), "SET_NETWORK 3 bssid any");
    assert_eq!(c.disable_network(3).unwrap(), "DISABLE_NETWORK 3");
    assert_eq!(c.enable_network(3).unwrap(), "SET_NETWORK 3 disabled 0");
    let off = WpaCtrl::new(false);
    assert!(matches!(off.roam("x"), Err(WpaError::NotConnected)));
    assert_eq!(off.status().unwrap_err().text(), "Not connected");
    assert_eq!(WpaError::Io("gone".into()).text(), "IO: gone");
}

#[test]
fn missing_signal_is_filled_in() {
    let c = WpaCtrl::new(true);
    let poll = || Some(WpaStatus::parse("RSSI=-61\nNOISE=9\nkey_mgmt=x"));
    let st = c.status_with_signal(WpaStatus::parse("ssid=a\nkey_mgmt=SAE"), poll());
    assert_eq!(st.signal_dbm, Some(-61));
    assert_eq!(st.raw.get("NOISE").unwrap().text, "9");
    assert_eq!(st.raw.get("key_mgmt").unwrap().text, "SAE");
    let kept = c.status_with_signal(WpaStatus::parse("signal=-50"), poll());
    assert_eq!((kept.signal_dbm, kept.raw.len()), (Some(-50), 0));
    let none = c.status_with_signal(WpaStatus::parse("ssid=a"), None);
    assert_eq!(none.signal_dbm, None);
}

#[test]
fn sockets_are_tried_in_turn() {
    let mut a = WpaCtrl::auto_connect(&vec![entry("/a", "wlan0")], &vec![]);
    let mut seen = Vec::new();
    while let Some(p) = a.path() {
        seen.push(p.to_string());
        let e = WpaError::Io(format!("{} gone", seen.len()));
        a.failed(e);
    }
    assert_eq!(seen, ["/a/wlan0", "@wpa_wlan0", "@wpa_wifi0"]);
    assert_eq!(a.into_error().text(), "IO: 3 gone");
    let fresh = WpaCtrl::auto_connect(&vec![], &vec![]);
    assert!(matches!(fresh.into_error(), WpaError::NotConnected));
}

#[test]
fn replies_are_text() {
    assert_eq!(reply_text("ssid=海".as_bytes().to_vec()).unwrap(), "ssid=海");
    assert_eq!(reply_text(vec![0x61, 0xff]).unwrap_err().text(), "Parse: non-utf8 reply from wpa");
    assert!(wants_poll(&WpaStatus::parse("ssid=a")));
    assert!(!wants_poll(&WpaStatus::parse("signal=-60")));
}
