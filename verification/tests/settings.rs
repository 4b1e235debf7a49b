use barp_tunnel::address::{parse_ipv4, parse_port, PortError};
use barp_tunnel::proxy::{
    parse_target, proxy_secret, route_label, secret_key, server_target, set_proxy, tunnel_target, HalfConfigured,
    ProxyConfig, ProxySecret, Target, TargetError, SERVER_HOST, SERVER_PORT,
};
use barp_tunnel::text::{chars_of, is_blank, non_blank};

fn some(s: &str) -> Option<String> {
    Some(s.to_string())
}

fn config(addr: Option<String>, secret: Option<String>) -> ProxyConfig {
    let mut c = ProxyConfig::new();
    set_proxy(&mut c, addr, secret);
    c
}

fn ipv4(s: &str) -> Option<[u8; 4]> {
    parse_ipv4(&chars_of(s))
}

fn port(s: &str) -> Result<u16, PortError> {
    parse_port(&chars_of(s), 0)
}

#[test]
fn blank_text() {
    assert!(is_blank(""));
    assert!(is_blank(" \t\r\n"));
    assert!(is_blank("\u{a0}\u{2003}\u{3000}"));
    assert!(!is_blank("\u{200b}"));
    assert!(!is_blank(" a "));
    assert_eq!(non_blank(some(" x ")), some(" x "));
    assert_eq!(non_blank(some("  ")), None);
    assert_eq!(non_blank(None), None);
}

#[test]
fn blank_is_what_trim_leaves_empty() {
    for c in (0..0x11_0000u32).filter_map(char::from_u32) {
        let s: String = vec![c].into_iter().collect();
        assert_eq!(is_blank(&s), s.trim().is_empty());
    }
}

#[test]
fn proxy_is_set_and_cleared() {
    let mut c = config(some("1.2.3.4:5"), some("dd00"));
    assert_eq!(c.addr, some("1.2.3.4:5"));
    assert_eq!(c.secret, some("dd00"));
    set_proxy(&mut c, some(" "), some(""));
    assert_eq!(c.addr, None);
    assert_eq!(c.secret, None);
    set_proxy(&mut c, None, some(" s "));
    assert_eq!(c.secret, some(" s "));
}

#[test]
fn secret_needs_both() {
    assert_eq!(proxy_secret(&config(None, None)), Ok(None));
    assert_eq!(proxy_secret(&config(some("a"), some("s"))), Ok(some("s")));
    assert_eq!(proxy_secret(&config(some("a"), None)), Err(HalfConfigured));
    assert_eq!(proxy_secret(&config(some(" "), some("s"))), Err(HalfConfigured));
}

#[test]
fn server_is_the_default() {
    let server = Target { ip: [5, 188, 183, 132], port: 20443 };
    assert_eq!(server_target(), server);
    assert_eq!(ipv4(SERVER_HOST), Some(server.ip));
    assert_eq!(SERVER_PORT, 20443);
    assert_eq!(tunnel_target(&config(None, None)), Ok(server));
    assert_eq!(tunnel_target(&config(some("1.2.3.4:5"), None)), Ok(server));
    assert_eq!(tunnel_target(&config(some("nonsense"), some("  "))), Ok(server));
    assert_eq!(tunnel_target(&config(None, some("s"))), Ok(server));
}

#[test]
fn proxy_is_the_target() {
    assert_eq!(
        tunnel_target(&config(some("10.0.0.1:443"), some("s"))),
        Ok(Target { ip: [10, 0, 0, 1], port: 443 })
    );
}

#[test]
fn targets_that_are_none() {
    assert_eq!(parse_target("10.0.0.1"), Err(TargetError::NoPort));
    assert_eq!(parse_target("example.com:443"), Err(TargetError::BadHost));
    assert_eq!(parse_target("x:y"), Err(TargetError::BadHost));
    assert_eq!(parse_target("1.2.3.4:y"), Err(TargetError::BadPort(PortError::InvalidDigit)));
    assert_eq!(parse_target("1.2.3.4:"), Err(TargetError::BadPort(PortError::Empty)));
    assert_eq!(parse_target("1.2.3.4:65536"), Err(TargetError::BadPort(PortError::TooLarge)));
    assert_eq!(parse_target("1.2.3.4:5:6"), Err(TargetError::BadHost));
    assert_eq!(parse_target(" 1.2.3.4:5"), Err(TargetError::BadHost));
    assert_eq!(
        tunnel_target(&config(some("x"), some("s"))),
        Err(TargetError::NoPort)
    );
}

#[test]
fn ports() {
    assert_eq!(port("0"), Ok(0));
    assert_eq!(port("65535"), Ok(65535));
    assert_eq!(port("+80"), Ok(80));
    assert_eq!(port("0000000080"), Ok(80));
    assert_eq!(port(""), Err(PortError::Empty));
    assert_eq!(port("+"), Err(PortError::InvalidDigit));
    assert_eq!(port("-1"), Err(PortError::InvalidDigit));
    assert_eq!(port("8 "), Err(PortError::InvalidDigit));
    assert_eq!(port("++8"), Err(PortError::InvalidDigit));
    assert_eq!(port("65536"), Err(PortError::TooLarge));
    assert_eq!(port("655360x"), Err(PortError::TooLarge));
    assert_eq!(port("6553x0"), Err(PortError::InvalidDigit));
}

#[test]
fn ports_are_read_as_std_reads_them() {
    for s in ["", "+", "-", "-0", "+0", "0", "00", "1a", "99999", "65535", "65536", "99999x", "x99999", "\u{661}"] {
        assert_eq!(port(s).ok(), s.parse::<u16>().ok());
    }
    for v in 0..=65535u16 {
        assert_eq!(port(&format!("{}", v)), Ok(v));
    }
}

#[test]
fn addresses() {
    assert_eq!(ipv4("0.0.0.0"), Some([0, 0, 0, 0]));
    assert_eq!(ipv4("255.255.255.255"), Some([255, 255, 255, 255]));
    assert_eq!(ipv4("256.0.0.1"), None);
    assert_eq!(ipv4("01.0.0.1"), None);
    assert_eq!(ipv4("00.0.0.1"), None);
    assert_eq!(ipv4("1.2.3"), None);
    assert_eq!(ipv4("1.2.3.4.5"), None);
    assert_eq!(ipv4("1.2.3.4 "), None);
    assert_eq!(ipv4("1..3.4"), None);
    assert_eq!(ipv4("1111.2.3.4"), None);
    assert_eq!(ipv4(""), None);
}

#[test]
fn every_octet_reads_back() {
    for v in 0..=255u8 {
        assert_eq!(ipv4(&format!("{}.{}.1.{}", v, 255 - v, v)), Some([v, 255 - v, 1, v]));
    }
}

#[test]
fn routes() {
    let simple = Some(ProxySecret::Simple([1; 16]));
    let disguised = Some(ProxySecret::FakeTls { key: [2; 16], domain: "example.com".to_string() });
    assert_eq!(route_label(&None), "direct");
    assert_eq!(route_label(&simple), "obfuscated");
    assert_eq!(route_label(&disguised), "faketls:example.com");
    assert_eq!(secret_key(&None), None);
    assert_eq!(secret_key(&simple), Some([1; 16]));
    assert_eq!(secret_key(&disguised), Some([2; 16]));
}
