use aranet::address::{format_mac, str_mac_to_array};
use aranet::config::Cfg;
use aranet::error::Error;

#[test]
fn parses_upper_case_address() {
    assert_eq!(str_mac_to_array("ED:12:89:6C:08:37"), Ok([0xED, 0x12, 0x89, 0x6C, 0x08, 0x37]));
}

#[test]
fn parses_lower_case_address() {
    assert_eq!(str_mac_to_array("ed:12:89:6c:08:37"), Ok([0xED, 0x12, 0x89, 0x6C, 0x08, 0x37]));
}

#[test]
fn rejects_non_hex_segment() {
    assert_eq!(str_mac_to_array("ZZ:12:89:6C:08:37"), Err(Error::MalformedAddress));
    assert_eq!(str_mac_to_array("ED:12:89:6C:08:ZZ"), Err(Error::MalformedAddress));
}

#[test]
fn rejects_wrong_segment_count() {
    assert_eq!(str_mac_to_array("ED:12:89:6C:08"), Err(Error::MalformedAddress));
    assert_eq!(str_mac_to_array("ED:12:89:6C:08:37:01"), Err(Error::MalformedAddress));
    assert_eq!(str_mac_to_array(""), Err(Error::MalformedAddress));
}

#[test]
fn rejects_wrong_separator_and_width() {
    assert_eq!(str_mac_to_array("ED-12-89-6C-08-37"), Err(Error::MalformedAddress));
    assert_eq!(str_mac_to_array("ED:12:89:6C:8:037"), Err(Error::MalformedAddress));
}

#[test]
fn formats_canonical_text() {
    assert_eq!(format_mac(&[0xED, 0x12, 0x89, 0x6C, 0x08, 0x37]), "ED:12:89:6C:08:37");
    assert_eq!(format_mac(&[0, 0, 0, 0, 0, 0]), "00:00:00:00:00:00");
}

#[test]
fn format_then_parse_round_trips() {
    let a = [0x01, 0xab, 0xff, 0x10, 0x9c, 0x00];
    assert_eq!(str_mac_to_array(&format_mac(&a)), Ok(a));
}

fn cfg(macs: &[&str]) -> Cfg {
    Cfg {
        adapter: "hci0".to_string(),
        macs: macs.iter().map(|m| m.to_string()).collect(),
        fahrenheit: None,
        stream_freq: None,
        prometheus_address: None,
        conn_timeout_ms: None,
    }
}

#[test]
fn config_defaults() {
    let c = cfg(&[]);
    assert!(!c.use_fahrenheit());
    assert_eq!(c.stream_interval_secs(), 30);
    assert_eq!(c.search_timeout_ms(), 15000);
    assert_eq!(c.metrics_address(), "127.0.0.1:8080");
}

#[test]
fn config_explicit_values() {
    let mut c = cfg(&[]);
    c.fahrenheit = Some(true);
    c.stream_freq = Some(5);
    c.conn_timeout_ms = Some(2500);
    c.prometheus_address = Some("0.0.0.0:9100".to_string());
    assert!(c.use_fahrenheit());
    assert_eq!(c.stream_interval_secs(), 5);
    assert_eq!(c.search_timeout_ms(), 2500);
    assert_eq!(c.metrics_address(), "0.0.0.0:9100");
}

#[test]
fn config_addresses() {
    let c = cfg(&["ED:12:89:6C:08:37", "00:11:22:33:44:55"]);
    assert_eq!(
        c.addresses(),
        Ok(vec![[0xED, 0x12, 0x89, 0x6C, 0x08, 0x37], [0x00, 0x11, 0x22, 0x33, 0x44, 0x55]])
    );
    let bad = cfg(&["ED:12:89:6C:08:37", "nope"]);
    assert_eq!(bad.addresses(), Err(Error::MalformedAddress));
}
