use amberguard::history::{load_history, push_history, save_text, HISTORY_CAP};
use amberguard::json::{
    bool_text, find_string_end, json_esc, json_unesc, raw_member_text, text_member_text,
};
use amberguard::text::to_chars;
use amberguard::web::{events_from_json, events_to_json, try_events_from_json, SwitchEvent};
use std::collections::VecDeque;

fn event(ts: u64, to: &str) -> SwitchEvent {
    SwitchEvent {
        ts_unix: ts,
        from_ssid: "HOME".into(),
        to_ssid: to.into(),
        from_band: "5".into(),
        to_band: "2.4".into(),
        reason: "Downswitch".into(),
        result: "Ok".into(),
        duration_ms: 1200,
    }
}

fn all(e: &SwitchEvent) -> (u64, &str, &str, &str, &str, &str, &str, u64) {
    (
        e.ts_unix,
        &e.from_ssid,
        &e.to_ssid,
        &e.from_band,
        &e.to_band,
        &e.reason,
        &e.result,
        e.duration_ms,
    )
}

#[test]
fn texts_are_escaped() {
    assert_eq!(json_esc("a\"b\\c\nd\re\tf\u{1}g\u{7f}h\u{85}海"), "a\\\"b\\\\c\\nd\\re\\tf\\u0001g\\u007fh\\u0085海");
    assert_eq!(json_unesc(r#"a\"b\\c\nd"#), "a\"b\\c\\nd");
    assert_eq!(json_unesc(&json_esc(r#"\"\\" \"#)), r#"\"\\" \"#);
    assert_eq!(bool_text(true), "true");
    assert_eq!(bool_text(false), "false");
    assert_eq!(raw_member_text("n", "5"), "\"n\":5");
    assert_eq!(text_member_text("s", "a\"b"), "\"s\":\"a\\\"b\"");
}

#[test]
fn strings_end_at_a_plain_quote() {
    assert_eq!(find_string_end(&to_chars(r#"ab"c"#), 0), Some(2));
    assert_eq!(find_string_end(&to_chars(r#"a\"b"c"#), 0), Some(4));
    assert_eq!(find_string_end(&to_chars(r#"a\\"c"#), 0), Some(3));
    assert_eq!(find_string_end(&to_chars("abc"), 1), Some(3));
}

#[test]
fn events_are_written() {
    assert_eq!(
        event(7, "A\"B").to_json(),
        r#"{"ts_unix":7,"from_ssid":"HOME","to_ssid":"A\"B","from_band":"5","to_band":"2.4","reason":"Downswitch","result":"Ok","duration_ms":1200}"#
    );
    assert_eq!(events_to_json(&[]), "[]");
    let two = events_to_json(&[event(1, "a"), event(2, "b")]);
    assert!(two.starts_with("[{\"ts_unix\":1,") && two.contains("},{\"ts_unix\":2,") && two.ends_with("}]"));
}

#[test]
fn events_are_read_back() {
    let list = vec![event(1, r#"q"\ "#), event(u64::MAX, "海康 {[,]}"), event(0, "")];
    let back = events_from_json(&events_to_json(&list));
    assert_eq!(back.len(), 3);
    for (a, b) in list.iter().zip(&back) {
        assert_eq!(all(a), all(b));
    }
    // A line break is written as an escape that is not undone.
    let back = events_from_json(&events_to_json(&[event(1, "a\nb")]));
    assert_eq!(back[0].to_ssid, "a\\nb");
}

#[test]
fn loose_texts_are_read_as_far_as_they_go() {
    assert!(events_from_json("").is_empty());
    assert!(events_from_json("no list").is_empty());
    assert!(events_from_json("[]").is_empty());
    let v = events_from_json(r#"x [ { "ts_unix" : 5 , "other":"y", "to_ssid":"Z", "duration_ms":-1 } ] "#);
    assert_eq!(v.len(), 1);
    assert_eq!((v[0].ts_unix, v[0].to_ssid.as_str(), v[0].duration_ms), (5, "Z", 0));
    assert_eq!(try_events_from_json("[{}]").map(|v| v.len()), Some(1));
    assert_eq!(try_events_from_json("[{\"reason\":\"half").map(|v| v[0].reason.clone()), Some("half".into()));
    // A text that ends within an escape cannot be cut.
    assert!(try_events_from_json("[{\"reason\":\"half\\").is_none());
    assert!(try_events_from_json("[{\"reason").is_none());
}

#[test]
fn newest_event_comes_first_and_the_oldest_leaves() {
    let mut h: VecDeque<SwitchEvent> = VecDeque::new();
    for i in 0..(HISTORY_CAP as u64 + 5) {
        push_history(&mut h, event(i, "x"));
        assert_eq!(h[0].ts_unix, i);
    }
    assert_eq!(h.len(), HISTORY_CAP);
    assert_eq!(h[HISTORY_CAP - 1].ts_unix, 5);
}

#[test]
fn saved_history_is_loaded() {
    let mut h: VecDeque<SwitchEvent> = VecDeque::new();
    for i in 0..3 {
        push_history(&mut h, event(i, "x\\y"));
    }
    let back = load_history(&save_text(&h)).unwrap();
    assert_eq!(back.iter().map(all).collect::<Vec<_>>(), h.iter().map(all).collect::<Vec<_>>());
}

#[test]
fn long_files_are_cut() {
    let many: Vec<SwitchEvent> = (0..100).map(|i| event(i, "x")).collect();
    let h = load_history(&events_to_json(&many)).unwrap();
    assert_eq!(h.len(), HISTORY_CAP);
    assert!(load_history("[{\"reason\":\"x\\").is_none());
}
