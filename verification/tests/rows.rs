use netscanner::action::SortColumn;
use netscanner::rows::{position, sort_hosts, ScannedIp};

fn host(ip: &str, mac: &str, hostname: &str, vendor: &str) -> ScannedIp {
    ScannedIp {
        ip: ip.to_string(),
        mac: mac.to_string(),
        hostname: hostname.to_string(),
        vendor: vendor.to_string(),
    }
}

fn hosts() -> Vec<ScannedIp> {
    vec![
        host("10.0.0.10", "B0:00:00:00:00:01", "beta", "zyxel"),
        host("10.0.0.9", "a0:00:00:00:00:02", "Alpha", "Acme"),
        host("9.0.0.200", "", "", ""),
        host("10.0.0.2", "", "ÉCLAIR", "acme"),
    ]
}

fn ips(v: &Vec<ScannedIp>) -> Vec<&str> {
    v.iter().map(|h| h.ip.as_str()).collect()
}

#[test]
fn by_address() {
    let mut v = hosts();
    sort_hosts(&mut v, SortColumn::Ip);
    assert_eq!(ips(&v), vec!["9.0.0.200", "10.0.0.2", "10.0.0.9", "10.0.0.10"]);
}

#[test]
fn by_hardware_address_without_case() {
    let mut v = hosts();
    sort_hosts(&mut v, SortColumn::Mac);
    assert_eq!(ips(&v), vec!["9.0.0.200", "10.0.0.2", "10.0.0.9", "10.0.0.10"]);
}

#[test]
fn by_name_without_case() {
    let mut v = hosts();
    sort_hosts(&mut v, SortColumn::Hostname);
    assert_eq!(ips(&v), vec!["9.0.0.200", "10.0.0.9", "10.0.0.10", "10.0.0.2"]);
}

#[test]
fn by_vendor_and_stable() {
    let mut v = hosts();
    sort_hosts(&mut v, SortColumn::Vendor);
    assert_eq!(ips(&v), vec!["9.0.0.200", "10.0.0.9", "10.0.0.2", "10.0.0.10"]);
    let once = v.clone();
    sort_hosts(&mut v, SortColumn::Vendor);
    assert_eq!(v, once);
}

#[test]
fn what_is_no_address_sorts_as_the_first() {
    let mut v = vec![host("0.0.0.1", "", "", ""), host("x", "", "", ""), host("0.0.0.0", "", "", "")];
    sort_hosts(&mut v, SortColumn::Ip);
    assert_eq!(ips(&v), vec!["x", "0.0.0.0", "0.0.0.1"]);
}

#[test]
fn sorting_is_that_of_std() {
    let names = ["b", "A", "a", "C", "ß", "ẞ", "İ", "c", "", "Z", "z1", "Z0"];
    let mut v: Vec<ScannedIp> = Vec::new();
    for (i, name) in names.iter().enumerate() {
        v.push(host(&format!("10.0.0.{i}"), "", name, ""));
    }
    let mut expected = v.clone();
    expected.sort_by(|a, b| a.hostname.to_lowercase().cmp(&b.hostname.to_lowercase()));
    sort_hosts(&mut v, SortColumn::Hostname);
    assert_eq!(v, expected);
}

#[test]
fn places() {
    let v = hosts();
    assert_eq!(position(&v, &"9.0.0.200".to_string()), Some(2));
    assert_eq!(position(&v, &"9.0.0.20".to_string()), None);
}

#[test]
fn a_hardware_address_brings_its_vendor() {
    let mut h = ScannedIp::placeholder("10.0.0.1".to_string());
    assert_eq!(h, host("10.0.0.1", "", "", ""));
    h.set_mac("m".to_string(), None);
    assert_eq!(h, host("10.0.0.1", "m", "", ""));
    h.set_mac("n".to_string(), Some("v".to_string()));
    assert_eq!(h, host("10.0.0.1", "n", "", "v"));
}
