use actix_app_api::port::{listen_address, parse_port};

#[test]
fn parses_plain_port() {
    assert_eq!(parse_port("8080"), Some(8080));
}

#[test]
fn parses_like_std() {
    let cases = [
        "", "+", "-", "0", "+0", "-0", "8080", "+8080", "08080", "65535", "65536", "99999999999",
        " 80", "80 ", "8_0", "80a", "++1", "+-1", "\u{0660}", "１",
    ];
    for case in cases {
        assert_eq!(parse_port(case), case.parse::<u16>().ok(), "case {:?}", case);
    }
}

#[test]
fn rejects_empty_sign_and_overflow() {
    assert_eq!(parse_port(""), None);
    assert_eq!(parse_port("+"), None);
    assert_eq!(parse_port("-1"), None);
    assert_eq!(parse_port("65536"), None);
    assert_eq!(parse_port("65535"), Some(65535));
    assert_eq!(parse_port("+00001"), Some(1));
}

#[test]
fn renders_decimal_ports() {
    assert_eq!(listen_address(7), "0.0.0.0:7");
    assert_eq!(listen_address(10), "0.0.0.0:10");
    assert_eq!(listen_address(65535), "0.0.0.0:65535");
}

#[test]
fn listen_address_binds_all_interfaces() {
    assert_eq!(listen_address(8080), "0.0.0.0:8080");
    assert_eq!(listen_address(0), "0.0.0.0:0");
}

#[test]
fn rendered_ports_parse_back() {
    for p in [0u16, 1, 9, 10, 99, 100, 443, 8080, 65534, 65535] {
        let addr = listen_address(p);
        assert_eq!(parse_port(&addr["0.0.0.0:".len()..]), Some(p));
    }
}
