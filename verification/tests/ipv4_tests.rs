use taskwire::ipv4::{parse_ipv4, validate_destination};

#[test]
fn rejects_non_address_immediately() {
    assert_eq!(parse_ipv4("not-an-ip"), None);
    let r = validate_destination("not-an-ip");
    assert_eq!(r, Err(String::from("Invalid dst_ip")));
}

#[test]
fn parses_common_addresses() {
    assert_eq!(parse_ipv4("127.0.0.1"), Some((127, 0, 0, 1)));
    assert_eq!(parse_ipv4("0.0.0.0"), Some((0, 0, 0, 0)));
    assert_eq!(parse_ipv4("255.255.255.255"), Some((255, 255, 255, 255)));
    assert_eq!(parse_ipv4("192.168.10.42"), Some((192, 168, 10, 42)));
}

#[test]
fn rejects_out_of_range_octets() {
    assert_eq!(parse_ipv4("256.0.0.1"), None);
    assert_eq!(parse_ipv4("1.2.3.999"), None);
}

#[test]
fn rejects_wrong_shapes() {
    assert_eq!(parse_ipv4(""), None);
    assert_eq!(parse_ipv4("1.2.3"), None);
    assert_eq!(parse_ipv4("1.2.3.4.5"), None);
    assert_eq!(parse_ipv4("1..2.3"), None);
    assert_eq!(parse_ipv4(".1.2.3"), None);
    assert_eq!(parse_ipv4("1.2.3."), None);
    assert_eq!(parse_ipv4("1.2.3.4 "), None);
    assert_eq!(parse_ipv4("a.b.c.d"), None);
}

#[test]
fn rejects_leading_zeros() {
    assert_eq!(parse_ipv4("01.2.3.4"), None);
    assert_eq!(parse_ipv4("1.2.3.04"), None);
    assert_eq!(parse_ipv4("0.2.3.4"), Some((0, 2, 3, 4)));
}

#[test]
fn accepted_destination_returns_octets() {
    assert_eq!(validate_destination("10.0.0.7"), Ok((10, 0, 0, 7)));
}
