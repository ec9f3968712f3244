use harbor::addr::{parse_host, parse_ipv4, parse_octet, parse_port, Ipv4Address};
use harbor::text::{append_decimal, parse_digits, split_fields};

fn decimal(n: u16) -> String {
    let mut out = String::new();
    append_decimal(&mut out, n);
    out
}

#[test]
fn decimal_has_no_padding() {
    assert_eq!(decimal(0), "0");
    assert_eq!(decimal(7), "7");
    assert_eq!(decimal(10), "10");
    assert_eq!(decimal(99), "99");
    assert_eq!(decimal(100), "100");
    assert_eq!(decimal(3300), "3300");
    assert_eq!(decimal(65535), "65535");
}

#[test]
fn decimal_appends_to_what_is_there() {
    let mut out = String::from("port ");
    append_decimal(&mut out, 9001);
    assert_eq!(out, "port 9001");
}

#[test]
fn decimal_agrees_with_std_for_every_port() {
    let mut n: u16 = 0;
    loop {
        assert_eq!(decimal(n), n.to_string());
        if n == u16::MAX {
            break;
        }
        n += 1;
    }
}

#[test]
fn digits_are_read_up_to_the_limit() {
    assert_eq!(parse_digits(b"0", 255), Some(0));
    assert_eq!(parse_digits(b"255", 255), Some(255));
    assert_eq!(parse_digits(b"256", 255), None);
    assert_eq!(parse_digits(b"65535", 65535), Some(65535));
    assert_eq!(parse_digits(b"65536", 65535), None);
    assert_eq!(parse_digits(b"000000000000000000000000080", 65535), Some(80));
    assert_eq!(parse_digits(b"99999999999999999999999999", 65535), None);
}

#[test]
fn digits_reject_anything_else() {
    assert_eq!(parse_digits(b"", 255), None);
    assert_eq!(parse_digits(b"1a", 255), None);
    assert_eq!(parse_digits(b"-1", 255), None);
    assert_eq!(parse_digits(b" 1", 255), None);
    assert_eq!(parse_digits(b"1 ", 255), None);
    assert_eq!(parse_digits(b"/", 255), None);
    assert_eq!(parse_digits(b":", 255), None);
}

#[test]
fn split_keeps_empty_fields() {
    let fields = |s: &[u8]| -> Vec<Vec<u8>> { split_fields(s, b':') };
    assert_eq!(fields(b""), vec![b"".to_vec()]);
    assert_eq!(fields(b"abc"), vec![b"abc".to_vec()]);
    assert_eq!(fields(b"a:b"), vec![b"a".to_vec(), b"b".to_vec()]);
    assert_eq!(fields(b":"), vec![b"".to_vec(), b"".to_vec()]);
    assert_eq!(fields(b"a::b"), vec![b"a".to_vec(), b"".to_vec(), b"b".to_vec()]);
    assert_eq!(fields(b":a:"), vec![b"".to_vec(), b"a".to_vec(), b"".to_vec()]);
}

#[test]
fn split_agrees_with_std() {
    for line in ["10.0.0.1:9000", "bad-line", "a:b:c", "::", "", "x:", ":y"] {
        let expected: Vec<Vec<u8>> = line.split(':').map(|s| s.as_bytes().to_vec()).collect();
        assert_eq!(split_fields(line.as_bytes(), b':'), expected);
    }
}

#[test]
fn octets_are_one_to_three_digits() {
    assert_eq!(parse_octet(b"0"), Some(0));
    assert_eq!(parse_octet(b"9"), Some(9));
    assert_eq!(parse_octet(b"10"), Some(10));
    assert_eq!(parse_octet(b"255"), Some(255));
    assert_eq!(parse_octet(b"256"), None);
    assert_eq!(parse_octet(b"999"), None);
    assert_eq!(parse_octet(b"1000"), None);
    assert_eq!(parse_octet(b""), None);
    assert_eq!(parse_octet(b"1x"), None);
}

#[test]
fn octets_have_no_leading_zero() {
    assert_eq!(parse_octet(b"00"), None);
    assert_eq!(parse_octet(b"01"), None);
    assert_eq!(parse_octet(b"001"), None);
    assert_eq!(parse_octet(b"010"), None);
    assert_eq!(parse_octet(b"0000"), None);
}

#[test]
fn addresses_are_four_octets() {
    assert_eq!(parse_ipv4(b"127.0.0.1"), Some(Ipv4Address::new(127, 0, 0, 1)));
    assert_eq!(parse_ipv4(b"0.0.0.0"), Some(Ipv4Address::new(0, 0, 0, 0)));
    assert_eq!(parse_ipv4(b"255.255.255.255"), Some(Ipv4Address::new(255, 255, 255, 255)));
    assert_eq!(parse_ipv4(b"192.168.1.82"), Some(Ipv4Address::new(192, 168, 1, 82)));
    assert_eq!(parse_ipv4(b"1.2.3"), None);
    assert_eq!(parse_ipv4(b"1.2.3.4.5"), None);
    assert_eq!(parse_ipv4(b"1.2.3."), None);
    assert_eq!(parse_ipv4(b".1.2.3"), None);
    assert_eq!(parse_ipv4(b"1..2.3"), None);
    assert_eq!(parse_ipv4(b"256.0.0.1"), None);
    assert_eq!(parse_ipv4(b"1.2.3.04"), None);
    assert_eq!(parse_ipv4(b"localhost"), None);
    assert_eq!(parse_ipv4(b""), None);
    assert_eq!(parse_ipv4(b" 1.2.3.4"), None);
}

#[test]
fn address_parse_reads_text() {
    assert_eq!(Ipv4Address::parse("10.0.0.2"), Some(Ipv4Address::new(10, 0, 0, 2)));
    assert_eq!(Ipv4Address::parse("10.0.0"), None);
    assert_eq!(Ipv4Address::parse("१.२.३.४"), None);
}

#[test]
fn address_text_round_trips() {
    for ip in [
        Ipv4Address::new(0, 0, 0, 0),
        Ipv4Address::new(1, 20, 255, 100),
        Ipv4Address::new(192, 168, 1, 12),
        Ipv4Address::new(255, 255, 255, 255),
    ] {
        assert_eq!(Ipv4Address::parse(&ip.to_string()), Some(ip));
    }
    assert_eq!(Ipv4Address::new(192, 168, 1, 12).to_string(), "192.168.1.12");
}

#[test]
fn ports_fit_sixteen_bits() {
    assert_eq!(parse_port(b"0"), Some(0));
    assert_eq!(parse_port(b"9000"), Some(9000));
    assert_eq!(parse_port(b"65535"), Some(65535));
    assert_eq!(parse_port(b"65536"), None);
    assert_eq!(parse_port(b"0080"), Some(80));
    assert_eq!(parse_port(b"+80"), Some(80));
    assert_eq!(parse_port(b"+"), None);
    assert_eq!(parse_port(b"++80"), None);
    assert_eq!(parse_port(b"-80"), None);
    assert_eq!(parse_port(b""), None);
    assert_eq!(parse_port(b"80 "), None);
    assert_eq!(parse_port(b"http"), None);
}

#[test]
fn ports_agree_with_std() {
    for text in ["0", "1", "65535", "65536", "+1", "-1", "", "+", "007", "12a", "999999"] {
        assert_eq!(parse_port(text.as_bytes()), text.parse::<u16>().ok(), "{text}");
    }
}

#[test]
fn host_lines_are_ip_colon_port() {
    assert_eq!(parse_host(b"10.0.0.1:9000"), Some((Ipv4Address::new(10, 0, 0, 1), 9000)));
    assert_eq!(parse_host(b"10.0.0.2:9001"), Some((Ipv4Address::new(10, 0, 0, 2), 9001)));
    assert_eq!(parse_host(b"bad-line"), None);
    assert_eq!(parse_host(b"10.0.0.1"), None);
    assert_eq!(parse_host(b"10.0.0.1:9000:1"), None);
    assert_eq!(parse_host(b"10.0.0.1:"), None);
    assert_eq!(parse_host(b":9000"), None);
    assert_eq!(parse_host(b"10.0.0:9000"), None);
    assert_eq!(parse_host(b"10.0.0.1:70000"), None);
    assert_eq!(parse_host(b"host:port"), None);
    assert_eq!(parse_host(b""), None);
}
