use cfddns::{fetch_current_ip, parse_ipv4, Ipv4Address, RunError};

#[test]
fn parses_plain_addresses() {
    assert_eq!(parse_ipv4("1.2.3.4"), Some(Ipv4Address(1, 2, 3, 4)));
    assert_eq!(parse_ipv4("0.0.0.0"), Some(Ipv4Address(0, 0, 0, 0)));
    assert_eq!(parse_ipv4("255.255.255.255"), Some(Ipv4Address(255, 255, 255, 255)));
    assert_eq!(parse_ipv4("192.168.10.1"), Some(Ipv4Address(192, 168, 10, 1)));
    assert_eq!(parse_ipv4("10.0.200.99"), Some(Ipv4Address(10, 0, 200, 99)));
    assert_eq!(parse_ipv4("100.109.250.249"), Some(Ipv4Address(100, 109, 250, 249)));
}

#[test]
fn rejects_octets_over_255() {
    assert_eq!(parse_ipv4("256.1.1.1"), None);
    assert_eq!(parse_ipv4("1.1.1.256"), None);
    assert_eq!(parse_ipv4("1.300.1.1"), None);
    assert_eq!(parse_ipv4("1.1.999.1"), None);
    assert_eq!(parse_ipv4("1.1.1.1000"), None);
}

#[test]
fn rejects_zeros_in_front() {
    assert_eq!(parse_ipv4("01.2.3.4"), None);
    assert_eq!(parse_ipv4("1.02.3.4"), None);
    assert_eq!(parse_ipv4("1.2.003.4"), None);
    assert_eq!(parse_ipv4("1.2.3.00"), None);
}

#[test]
fn rejects_wrong_number_of_octets() {
    assert_eq!(parse_ipv4(""), None);
    assert_eq!(parse_ipv4("1"), None);
    assert_eq!(parse_ipv4("1.2.3"), None);
    assert_eq!(parse_ipv4("1.2.3."), None);
    assert_eq!(parse_ipv4(".1.2.3"), None);
    assert_eq!(parse_ipv4("1..2.3"), None);
    assert_eq!(parse_ipv4("1.2.3.4.5"), None);
    assert_eq!(parse_ipv4("1.2.3.4."), None);
    assert_eq!(parse_ipv4("..."), None);
}

#[test]
fn rejects_anything_around_the_address() {
    assert_eq!(parse_ipv4(" 1.2.3.4"), None);
    assert_eq!(parse_ipv4("1.2.3.4 "), None);
    assert_eq!(parse_ipv4("1.2.3.4\n"), None);
    assert_eq!(parse_ipv4("1.2.3.4/24"), None);
    assert_eq!(parse_ipv4("+1.2.3.4"), None);
    assert_eq!(parse_ipv4("1.2.3.-4"), None);
    assert_eq!(parse_ipv4("a.b.c.d"), None);
    assert_eq!(parse_ipv4("1.2.3.4x"), None);
    assert_eq!(parse_ipv4("0x1.2.3.4"), None);
    assert_eq!(parse_ipv4("::1"), None);
    assert_eq!(parse_ipv4("1.2.3.\u{663}"), None);
    assert_eq!(parse_ipv4("\u{e9}.2.3.4"), None);
    assert_eq!(parse_ipv4("1.2.3.4 and a very long tail that is no address"), None);
}

#[test]
fn every_octet_value_reads_back() {
    for v in 0..=255u8 {
        let text = format!("{}.{}.{}.{}", v, 255 - v, v / 2, v);
        assert_eq!(parse_ipv4(&text), Some(Ipv4Address(v, 255 - v, v / 2, v)));
    }
}

#[test]
fn fetch_current_ip_reads_the_body() {
    assert_eq!(fetch_current_ip("203.0.113.7"), Ok(Ipv4Address(203, 0, 113, 7)));
}

#[test]
fn fetch_current_ip_rejects_other_bodies() {
    assert_eq!(fetch_current_ip("<html>busy</html>"), Err(RunError::Parse));
    assert_eq!(fetch_current_ip(""), Err(RunError::Parse));
    assert_eq!(fetch_current_ip("203.0.113.7\n"), Err(RunError::Parse));
    assert_eq!(fetch_current_ip("2001:db8::1"), Err(RunError::Parse));
}

#[test]
fn to_text_writes_dotted_decimal() {
    assert_eq!(Ipv4Address(1, 2, 3, 4).to_text(), "1.2.3.4");
    assert_eq!(Ipv4Address(0, 0, 0, 0).to_text(), "0.0.0.0");
    assert_eq!(Ipv4Address(255, 255, 255, 255).to_text(), "255.255.255.255");
    assert_eq!(Ipv4Address(10, 100, 109, 9).to_text(), "10.100.109.9");
    assert_eq!(Ipv4Address(203, 0, 113, 70).to_text(), "203.0.113.70");
}

#[test]
fn text_of_an_address_reads_back() {
    for v in 0..=255u8 {
        let ip = Ipv4Address(v, 255 - v, v.wrapping_mul(7), v / 3);
        assert_eq!(ip.to_text(), format!("{}.{}.{}.{}", ip.0, ip.1, ip.2, ip.3));
        assert_eq!(parse_ipv4(&ip.to_text()), Some(ip));
    }
}
