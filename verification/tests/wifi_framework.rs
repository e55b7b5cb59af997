use amberguard::wifi_framework::{
    connect_args, connect_outcome, extract_quoted_xml_string, framework_connect,
    merge_saved_ssids, network_rows_from_cmd, parse_network_rows, parse_sec_token,
    parse_store_ssids, psk_from_store, run_failure, security_for_ssid, security_from_store,
    ssids_from_cmd_list, ssids_from_config_store, WifiSecurity,
};

const STORE: &str = r#"<WifiConfiguration>
<string name="ConfigKey">&quot;HOME&quot;WPA_PSK</string>
<string name="SSID">&quot;HOME&quot;</string>
<string name="PreSharedKey">&quot;pass&amp;word&quot;</string>
</WifiConfiguration>
<WifiConfiguration>
<string name="ConfigKey">&quot;CAFE&quot;NONE</string>
<string name="SSID">&quot;CAFE&quot;</string>
<null name="PreSharedKey" />
</WifiConfiguration>
<WifiConfiguration>
<string name="ConfigKey">&quot;NEW&quot;SAE</string>
<string name="SSID">&quot;NEW&quot;</string>
<string name="PreSharedKey">&quot;****&quot;</string>
</WifiConfiguration>
<WifiConfiguration>
<string name="SSID">&quot;BARE&quot;</string>
</WifiConfiguration>
"#;

fn texts(v: &[&str]) -> Vec<String> {
    v.iter().map(|s| s.to_string()).collect()
}


#[test]
fn parse_ssid_line() {
    let line = r#"<string name="SSID">&quot;MERCURY_C8B5&quot;</string>"#;
    assert_eq!(
        extract_quoted_xml_string(line).as_deref(),
        Some("MERCURY_C8B5")
    );
}

#[test]
fn parse_sec() {
    assert_eq!(parse_sec_token("wpa2-psk"), Some(WifiSecurity::Wpa2));
    assert_eq!(parse_sec_token("wpa3-sae^"), Some(WifiSecurity::Wpa3));
    assert_eq!(parse_sec_token("open"), Some(WifiSecurity::Open));
}

#[test]
fn security_tokens() {
    assert_eq!(parse_sec_token("owe-transition"), Some(WifiSecurity::Open));
    assert_eq!(parse_sec_token("PSK"), Some(WifiSecurity::Wpa2));
    assert_eq!(parse_sec_token("opened"), None);
    assert_eq!(WifiSecurity::Open.cmd_token(), "open");
    assert_eq!(WifiSecurity::Wpa2.cmd_token(), "wpa2");
    assert_eq!(WifiSecurity::Wpa3.cmd_token(), "wpa3");
}

#[test]
fn quoted_strings() {
    assert_eq!(extract_quoted_xml_string("<a>&quot;x&amp;y&quot;</a>").as_deref(), Some("x&y"));
    assert_eq!(extract_quoted_xml_string("<a> plain </a>").as_deref(), Some("plain"));
    assert_eq!(extract_quoted_xml_string("<a></a>"), None);
    assert_eq!(extract_quoted_xml_string("<a>&quot;&quot;</a>"), None);
    assert_eq!(extract_quoted_xml_string("text"), None);
    assert_eq!(extract_quoted_xml_string("< x >"), None);
}

#[test]
fn network_rows() {
    let text = "Network Id  SSID  Security\n0  HOME NET  wpa2-psk\n1 CAFE open\n2 X\n3\n4 wpa2\n5 HOME NET wpa3-sae\n";
    let rows = parse_network_rows(text);
    assert_eq!(
        rows,
        [
            ("HOME NET".to_string(), Some(WifiSecurity::Wpa2)),
            ("CAFE".to_string(), Some(WifiSecurity::Open)),
            ("X".to_string(), None),
            ("HOME NET".to_string(), Some(WifiSecurity::Wpa3)),
        ]
    );
    assert_eq!(ssids_from_cmd_list(&rows), ["HOME NET", "CAFE", "X"]);
    assert!(network_rows_from_cmd(false, &text.as_bytes().to_vec()).is_empty());
    assert_eq!(
        network_rows_from_cmd(true, &b"0 A\xff\n".to_vec()),
        [("A\u{fffd}".to_string(), None)]
    );
}

#[test]
fn saved_names_are_merged() {
    assert_eq!(parse_store_ssids(STORE), ["HOME", "CAFE", "NEW", "BARE"]);
    assert_eq!(ssids_from_config_store(Some(STORE)).len(), 4);
    assert!(ssids_from_config_store(None).is_empty());
    assert_eq!(
        merge_saved_ssids(&texts(&[" HOME ", "", "B"]), &texts(&["B", "C"]), &texts(&["HOME", "D"])),
        ["HOME", "B", "C", "D"]
    );
}

#[test]
fn security_is_taken_from_the_list_then_the_store() {
    let rows = vec![("HOME".to_string(), None), ("LIST".to_string(), Some(WifiSecurity::Wpa3))];
    assert_eq!(security_for_ssid("LIST", &rows, Some(STORE)), WifiSecurity::Wpa3);
    assert_eq!(security_for_ssid("HOME", &rows, Some(STORE)), WifiSecurity::Wpa2);
    assert_eq!(security_for_ssid("CAFE", &rows, Some(STORE)), WifiSecurity::Open);
    assert_eq!(security_for_ssid("NEW", &rows, Some(STORE)), WifiSecurity::Wpa3);
    assert_eq!(security_for_ssid("NONE", &rows, None), WifiSecurity::Wpa2);
    assert_eq!(security_from_store(STORE, "BARE"), None);
}

#[test]
fn stored_keys() {
    assert_eq!(psk_from_store("HOME", Some(STORE)), Ok("pass&word".to_string()));
    assert_eq!(
        psk_from_store("CAFE", Some(STORE)),
        Err("「CAFE」在系统里无 PreSharedKey（开放网应走 open；企业/证书网无法代连）".to_string())
    );
    assert_eq!(
        psk_from_store("NEW", Some(STORE)),
        Err("「NEW」密码已被系统加密存储，模块无法代连。请保持系统已保存该网，或改用可明文保存的 ROM/设置。".to_string())
    );
    assert_eq!(
        psk_from_store("BARE", Some(STORE)),
        Err("ConfigStore 有「BARE」但未找到 PreSharedKey。请用系统 WiFi 重新连接并勾选保存后重试。".to_string())
    );
    assert_eq!(
        psk_from_store("NONE", Some(STORE)),
        Err("系统未保存「NONE」。请先在系统设置连接该 WiFi 并保存，再让 AmberGuard 切换。".to_string())
    );
    assert_eq!(
        psk_from_store("HOME", None),
        Err("读不到 WifiConfigStore（无 root 或路径变化）。请确认已用系统设置连接并保存「HOME」。".to_string())
    );
}

#[test]
fn connect_arguments() {
    assert_eq!(
        connect_args("HOME", WifiSecurity::Wpa2, Some("pw"), Some("aa:bb")).unwrap(),
        ["wifi", "connect-network", "HOME", "wpa2", "pw", "-b", "aa:bb"]
    );
    assert_eq!(
        connect_args("CAFE", WifiSecurity::Open, Some("pw"), Some("")).unwrap(),
        ["wifi", "connect-network", "CAFE", "open"]
    );
    assert_eq!(
        connect_args("HOME", WifiSecurity::Wpa3, None, None),
        Err("「HOME」需要密码但未提供".to_string())
    );
}

#[test]
fn connect_outcomes() {
    let none: Vec<u8> = vec![];
    let sec = WifiSecurity::Wpa2;
    assert_eq!(connect_outcome("H", sec, true, &b"x".to_vec(), &none), Some(Ok(())));
    assert_eq!(
        connect_outcome("H", sec, false, &b" bad\n".to_vec(), &b"out".to_vec()),
        Some(Err("框架连接失败（wpa2 / H）：bad".to_string()))
    );
    assert_eq!(
        connect_outcome("H", sec, false, &b" \n".to_vec(), &b" out\n".to_vec()),
        Some(Err("框架连接失败（wpa2 / H）：out".to_string()))
    );
    let long = vec![b'x'; 161];
    assert_eq!(
        connect_outcome("H", sec, false, &long, &none),
        Some(Err(format!("框架连接失败（wpa2 / H）：{}…", "x".repeat(160))))
    );
    // A character lies across the place of the cut.
    let wide: Vec<u8> = format!("{}海海", "x".repeat(159)).into_bytes();
    assert_eq!(connect_outcome("H", sec, false, &wide, &none), None);
    assert_eq!(run_failure("gone"), "无法执行 cmd wifi：gone");
}

#[test]
fn newer_security_falls_back_to_the_older() {
    let rows = vec![("HOME".to_string(), Some(WifiSecurity::Wpa3))];
    let mut c = framework_connect("HOME", Some("aa"), &rows, Some(STORE)).unwrap();
    assert_eq!(c.security(), WifiSecurity::Wpa3);
    assert_eq!(c.args().unwrap()[3], "wpa3");
    assert!(c.after(Err("e1".into())).is_none());
    assert_eq!(c.security(), WifiSecurity::Wpa2);
    assert_eq!(c.args().unwrap()[3..], ["wpa2", "pass&word", "-b", "aa"]);
    assert_eq!(c.after(Err("e2".into())), Some(Err("wpa3 与 wpa2 均失败。e1 | e2".to_string())));
    let mut c = framework_connect("HOME", None, &rows, Some(STORE)).unwrap();
    assert_eq!(c.after(Ok(())), Some(Ok(())));
    let mut open = framework_connect("CAFE", None, &rows, Some(STORE)).unwrap();
    assert_eq!(open.args().unwrap(), ["wifi", "connect-network", "CAFE", "open"]);
    assert_eq!(open.after(Err("x".into())), Some(Err("x".to_string())));
    assert!(framework_connect("BARE", None, &rows, Some(STORE)).is_err());
}
