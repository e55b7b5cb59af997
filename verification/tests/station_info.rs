use amberguard::health_score::{Ratio, RetryRate};
use amberguard::station_info::{
    iw_station_dump, parse_iw_station, parse_kv, parse_signal, retry_rate, traffic_rate_kbps, Sampler,
    StationSample,
};

const SEC: u128 = 1_000_000_000;

const DUMP: &str = "Station aa:bb:cc:dd:ee:01 (on wlan0)
\tinactive time:\t10 ms
\trx bytes:\t2048
\trx packets:\t11
\ttx bytes:\t1024
\ttx packets:\t100
\ttx retries:\t7
\ttx failed:\t2
\tsignal:  \t-61 [-63, -66] dBm
";

fn sent(packets: u64, retries: u64) -> StationSample {
    StationSample { tx_packets: packets, tx_retries: retries, ..StationSample::new(0) }
}

#[test]
fn station_dump_is_read() {
    let s = parse_iw_station(DUMP, 5 * SEC);
    assert_eq!((s.rx_bytes, s.rx_packets), (2048, 11));
    assert_eq!((s.tx_bytes, s.tx_packets), (1024, 100));
    assert_eq!((s.tx_retries, s.tx_failed), (7, 2));
    assert_eq!(s.signal, Some(-61));
    assert_eq!(s.timestamp, 5 * SEC);
    let empty = parse_iw_station("", 0);
    assert_eq!((empty.tx_packets, empty.signal), (0, None));
}

#[test]
fn values_of_a_line() {
    assert_eq!(parse_kv("tx packets:\t12 frames", "tx packets:\t"), Some(12));
    assert_eq!(parse_kv("tx packets: 12", "tx packets:\t"), None);
    assert_eq!(parse_kv("tx packets:\t", "tx packets:\t"), None);
    assert_eq!(parse_kv("tx packets:\t-1", "tx packets:\t"), None);
    assert_eq!(parse_signal("signal:\t-70 dBm", "signal:"), Some(-70));
    assert_eq!(parse_signal("signal avg:\t-70 dBm", "signal:"), None);
}

#[test]
fn retry_rates() {
    assert_eq!(
        retry_rate(&sent(100, 10), &sent(150, 20)),
        Some(RetryRate { retries: 10, packets: 50 })
    );
    // Never more than all.
    assert_eq!(
        retry_rate(&sent(0, 0), &sent(10, 30)),
        Some(RetryRate { retries: 10, packets: 10 })
    );
    assert_eq!(retry_rate(&sent(5, 0), &sent(5, 1)), None);
    assert_eq!(retry_rate(&sent(5, 0), &sent(4, 1)), None);
    assert_eq!(retry_rate(&sent(5, 2), &sent(6, 1)), None);
}

#[test]
fn traffic_rates() {
    let prev = StationSample { rx_bytes: 1000, tx_bytes: 500, ..StationSample::new(0) };
    let cur = StationSample { rx_bytes: 1000 + 4096, tx_bytes: 0, ..StationSample::new(0) };
    let value = |r: Ratio| r.num as f64 / r.den as f64;
    assert_eq!(traffic_rate_kbps(&prev, &cur, 2 * SEC).map(value), Some(2.0));
    assert_eq!(traffic_rate_kbps(&prev, &cur, SEC / 2).map(value), Some(8.0));
    assert_eq!(traffic_rate_kbps(&prev, &cur, SEC / 2 - 1), None);
}

#[test]
fn sampler_keeps_the_last_rate() {
    let mut s = Sampler::new(100 * SEC);
    assert!(s.take_now(false, 10, 100 * SEC));
    s.on_dump(DUMP, 100 * SEC);
    assert!(!s.take_now(false, 10, 109 * SEC));
    assert!(s.take_now(false, 10, 110 * SEC));
    assert!(!s.take_now(true, 10, 200 * SEC));
    s.on_dump(&DUMP.replace("\t100\n", "\t200\n").replace("retries:\t7", "retries:\t32"), 110 * SEC);
    assert_eq!(s.current(false), (Some(RetryRate { retries: 25, packets: 100 }), 100));
    assert_eq!(s.current(true), (Some(RetryRate { retries: 25, packets: 100 }), 0));
}

#[test]
fn outcome_of_a_dump() {
    let out = b"x\xff".to_vec();
    let err = b" no device \xff\n".to_vec();
    assert_eq!(iw_station_dump(true, "exit status: 0", &out, &err), Ok("x\u{fffd}".to_string()));
    assert_eq!(
        iw_station_dump(false, "exit status: 237", &out, &err),
        Err("iw exit exit status: 237: no device \u{fffd}".to_string())
    );
}
