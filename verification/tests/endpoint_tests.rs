use magicrune::endpoint::{
    allowed_match, endpoint_permitted, extract_http_hosts, hostport_parts, parse_cidr,
    parse_port_spec,
};
use magicrune::ip::{ip_in_cidr, parse_ip, IpLiteral};

fn chars(s: &str) -> Vec<char> {
    s.chars().collect()
}

fn ip(s: &str) -> Option<IpLiteral> {
    parse_ip(&chars(s))
}

fn v4(s: &str) -> Option<u32> {
    match ip(s) {
        Some(IpLiteral::V4(v)) => Some(v),
        _ => None,
    }
}

fn v6(s: &str) -> Option<u128> {
    match ip(s) {
        Some(IpLiteral::V6(v)) => Some(v),
        _ => None,
    }
}

#[test]
fn hostport_is_split_at_the_last_colon_before_digits() {
    assert_eq!(hostport_parts("example.com:443"), ("example.com".to_string(), Some("443".to_string())));
    assert_eq!(hostport_parts("example.com"), ("example.com".to_string(), None));
    assert_eq!(hostport_parts("  example.com:80  "), ("example.com".to_string(), Some("80".to_string())));
    assert_eq!(hostport_parts("example.com:"), ("example.com:".to_string(), None));
    assert_eq!(hostport_parts("example.com:8a"), ("example.com:8a".to_string(), None));
    assert_eq!(hostport_parts("host:8080-8090"), ("host:8080-8090".to_string(), None));
    assert_eq!(hostport_parts("::1:80"), ("::1".to_string(), Some("80".to_string())));
    assert_eq!(hostport_parts(""), ("".to_string(), None));
}

#[test]
fn bracketed_hosts_lose_their_brackets() {
    assert_eq!(hostport_parts("[::1]"), ("::1".to_string(), None));
    assert_eq!(hostport_parts("[::1]:8080"), ("::1".to_string(), Some("8080".to_string())));
    assert_eq!(hostport_parts("[::1]:80-90"), ("::1".to_string(), Some("80-90".to_string())));
    assert_eq!(hostport_parts("[::1]x"), ("::1".to_string(), None));
    assert_eq!(hostport_parts("[::1"), ("[:".to_string(), Some("1".to_string())));
}

#[test]
fn port_specifications() {
    assert_eq!(parse_port_spec(None), (false, None));
    assert_eq!(parse_port_spec(Some("*")), (true, None));
    assert_eq!(parse_port_spec(Some("443")), (false, Some((443, 443))));
    assert_eq!(parse_port_spec(Some("8080-8090")), (false, Some((8080, 8090))));
    assert_eq!(parse_port_spec(Some("90-80")), (false, Some((90, 80))));
    assert_eq!(parse_port_spec(Some("65535")), (false, Some((65535, 65535))));
    assert_eq!(parse_port_spec(Some("65536")), (false, None));
    assert_eq!(parse_port_spec(Some("a-b")), (false, None));
    assert_eq!(parse_port_spec(Some("")), (false, None));
    assert_eq!(parse_port_spec(Some("**")), (false, None));
}

#[test]
fn version_4_addresses() {
    assert_eq!(v4("127.0.0.1"), Some(0x7f000001));
    assert_eq!(v4("0.0.0.0"), Some(0));
    assert_eq!(v4("255.255.255.255"), Some(0xffffffff));
    assert_eq!(v4("10.20.30.40"), Some(0x0a141e28));
    for bad in ["", "1.2.3", "1.2.3.4.5", "256.1.1.1", "01.2.3.4", "1.2.3.", ".1.2.3", "1..2.3", "a.b.c.d", "1.2.3.4 ", "+1.2.3.4", "1.2.3.0004"] {
        assert!(ip(bad).is_none(), "{:?}", bad);
    }
}

#[test]
fn version_6_addresses() {
    assert_eq!(v6("::"), Some(0));
    assert_eq!(v6("::1"), Some(1));
    assert_eq!(v6("1::"), Some(1u128 << 112));
    assert_eq!(v6("2001:db8::"), Some(0x20010db8u128 << 96));
    assert_eq!(v6("2001:DB8::1"), Some((0x20010db8u128 << 96) | 1));
    assert_eq!(
        v6("1:2:3:4:5:6:7:8"),
        Some(0x0001_0002_0003_0004_0005_0006_0007_0008u128)
    );
    assert_eq!(v6("1:2:3:4:5:6:7::"), Some(0x0001_0002_0003_0004_0005_0006_0007_0000u128));
    assert_eq!(v6("::ffff:1.2.3.4"), Some(0xffff_0102_0304u128));
    assert_eq!(v6("1:2:3:4:5:6:1.2.3.4"), Some(0x0001_0002_0003_0004_0005_0006_0102_0304u128));
    assert_eq!(v6("::1.2.3.4"), Some(0x0102_0304u128));
    for bad in [
        ":", ":::", "1:2:3:4:5:6:7", "1:2:3:4:5:6:7:8:9", "1::2::3", "12345::", "::g", "1:2:3:4:5:6:7:8::",
        "1.2.3.4::", "::1.2.3.4:5", "1:2:3:4:5:6:7:1.2.3.4", ":1:2:3:4:5:6:7", "1:2:3:4:5:6:7:", "[::1]", "::1%eth0",
    ] {
        assert!(ip(bad).is_none(), "{:?}", bad);
    }
}

#[test]
fn subnets() {
    let a = ip("10.1.2.3").unwrap();
    let net = ip("10.0.0.0").unwrap();
    assert!(ip_in_cidr(a, (net, 8)));
    assert!(!ip_in_cidr(a, (net, 16)));
    assert!(ip_in_cidr(a, (net, 0)));
    assert!(ip_in_cidr(a, (a, 32)));
    assert!(!ip_in_cidr(a, (net, 32)));
    assert!(!ip_in_cidr(a, (a, 33)));
    assert!(ip_in_cidr(ip("192.168.1.129").unwrap(), (ip("192.168.1.128").unwrap(), 25)));
    assert!(!ip_in_cidr(ip("192.168.1.127").unwrap(), (ip("192.168.1.128").unwrap(), 25)));
    let six = ip("2001:db8::1").unwrap();
    assert!(ip_in_cidr(six, (ip("2001:db8::").unwrap(), 32)));
    assert!(!ip_in_cidr(six, (ip("2001:db9::").unwrap(), 32)));
    assert!(ip_in_cidr(six, (ip("::").unwrap(), 0)));
    assert!(ip_in_cidr(six, (six, 128)));
    assert!(!ip_in_cidr(six, (six, 129)));
    // different families never match, not even with no bits to compare
    assert!(!ip_in_cidr(a, (six, 0)));
    assert!(!ip_in_cidr(six, (net, 0)));
}

#[test]
fn cidr_entries_are_read() {
    assert!(matches!(parse_cidr("127.0.0.0/8"), Some((IpLiteral::V4(0x7f000000), 8))));
    assert!(matches!(parse_cidr("2001:db8::/32"), Some((IpLiteral::V6(_), 32))));
    assert!(matches!(parse_cidr("10.0.0.0/255"), Some((IpLiteral::V4(_), 255))));
    assert!(parse_cidr("10.0.0.0/256").is_none());
    assert!(parse_cidr("10.0.0.0").is_none());
    assert!(parse_cidr("example.com/8").is_none());
    assert!(parse_cidr("10.0.0.0/").is_none());
    assert!(parse_cidr("10.0.0.0/8/9").is_none());
}

#[test]
fn allow_ipv6_literal() {
    // IPv6 literal [::1]
    let hosts = extract_http_hosts("echo test http://[::1]/");
    assert_eq!(hosts, vec!["::1:80".to_string()]);
    assert!(!endpoint_permitted(&hosts[0], &vec![]));
    assert!(endpoint_permitted(&hosts[0], &vec!["[::1]".to_string()]));
    assert!(allowed_match("::1", Some("80"), "[::1]"));
}

#[test]
fn allow_cidr_v4_v6_and_port_ranges() {
    let hosts = extract_http_hosts("echo curl http://127.0.0.1:8085/");
    assert_eq!(hosts, vec!["127.0.0.1:8085".to_string()]);
    assert!(endpoint_permitted(
        &hosts[0],
        &vec!["127.0.0.0/8".to_string(), "2001:db8::/32".to_string()]
    ));
    let hosts = extract_http_hosts("echo curl http://127.0.0.1:9090/");
    assert!(!endpoint_permitted(&hosts[0], &vec!["127.0.0.1:8080-8090".to_string()]));
    let hosts = extract_http_hosts("echo curl https://api.example.com/");
    assert_eq!(hosts, vec!["api.example.com:443".to_string()]);
    assert!(endpoint_permitted(&hosts[0], &vec!["*.example.com:443".to_string()]));
}

#[test]
fn wildcards_need_the_dot() {
    assert!(allowed_match("api.example.com", Some("443"), "*.example.com"));
    assert!(allowed_match("a.b.example.com", None, "*.example.com"));
    assert!(!allowed_match("badexample.com", Some("443"), "*.example.com"));
    assert!(!allowed_match("example.com", Some("443"), "*.example.com"));
    assert!(!allowed_match("api.example.org", Some("443"), "*.example.com"));
}

#[test]
fn ports_of_allow_entries() {
    assert!(allowed_match("example.com", Some("443"), "example.com:443"));
    assert!(!allowed_match("example.com", Some("80"), "example.com:443"));
    assert!(!allowed_match("example.com", None, "example.com:443"));
    assert!(!allowed_match("example.com", Some("x"), "example.com:443"));
    assert!(allowed_match("example.com", Some("80"), "example.com"));
    assert!(allowed_match("example.com", None, "example.com"));
    assert!(allowed_match("::1", Some("8085"), "[::1]:8080-8090"));
    assert!(!allowed_match("::1", Some("9090"), "[::1]:8080-8090"));
    assert!(allowed_match("::1", Some("9090"), "[::1]:*"));
    assert!(allowed_match("::1", None, "[::1]:*"));
    assert!(allowed_match("api.example.com", Some("443"), "*.example.com:443"));
    assert!(!allowed_match("api.example.com", Some("80"), "*.example.com:443"));
}

#[test]
fn port_specifications_after_a_plain_host() {
    assert!(allowed_match("127.0.0.1", Some("8085"), "127.0.0.1:8080-8090"));
    assert!(allowed_match("127.0.0.1", Some("8080"), "127.0.0.1:8080-8090"));
    assert!(allowed_match("127.0.0.1", Some("8090"), "127.0.0.1:8080-8090"));
    assert!(!allowed_match("127.0.0.1", Some("9090"), "127.0.0.1:8080-8090"));
    assert!(!allowed_match("127.0.0.1", Some("8079"), "127.0.0.1:8080-8090"));
    assert!(!allowed_match("127.0.0.1", None, "127.0.0.1:8080-8090"));
    assert!(!allowed_match("127.0.0.2", Some("8085"), "127.0.0.1:8080-8090"));
    assert!(allowed_match("example.com", Some("1"), "example.com:*"));
    assert!(allowed_match("example.com", None, "example.com:*"));
    assert!(!allowed_match("example.org", Some("1"), "example.com:*"));
    assert!(allowed_match("api.example.com", Some("8443"), "*.example.com:8000-9000"));
    assert!(!allowed_match("api.example.com", Some("443"), "*.example.com:8000-9000"));
    assert!(allowed_match("api.example.com", Some("443"), "*.example.com:*"));
    assert!(!allowed_match("example.com", Some("85"), "example.com:90-80"));
    // what follows the last colon is no port specification: all of it is host
    assert!(allowed_match("example.com:x-y", None, "example.com:x-y"));
    assert!(!allowed_match("example.com", Some("80"), "example.com:x-y"));
    assert!(!allowed_match("example.com", Some("80"), "example.com:70000"));
    assert!(!allowed_match("example.com", Some("80"), "example.com:"));
}

#[test]
fn subnet_entries_admit_addresses_only() {
    assert!(allowed_match("127.0.0.1", Some("8085"), "127.0.0.0/8"));
    assert!(allowed_match("127.0.0.1", None, "127.0.0.0/8"));
    assert!(!allowed_match("128.0.0.1", Some("80"), "127.0.0.0/8"));
    assert!(!allowed_match("localhost", Some("80"), "127.0.0.0/8"));
    assert!(!allowed_match("::1", Some("80"), "127.0.0.0/8"));
    assert!(allowed_match("2001:db8::5", Some("80"), "2001:db8::/32"));
    assert!(allowed_match("8.8.8.8", Some("80"), "0.0.0.0/0"));
    assert!(!allowed_match("127.0.0.0/8", None, "127.0.0.0/8"));
}

#[test]
fn endpoints_of_a_command() {
    assert_eq!(extract_http_hosts("echo hi"), Vec::<String>::new());
    assert_eq!(extract_http_hosts("curl http://a.example/x https://b.example:8443/y"),
        vec!["a.example:80".to_string(), "b.example:8443".to_string()]);
    // the endpoints come in the order in which the command names them
    assert_eq!(extract_http_hosts("curl https://s.example http://p.example"),
        vec!["s.example:443".to_string(), "p.example:80".to_string()]);
    assert_eq!(extract_http_hosts("curl https://a.com/ http://b.com/"),
        vec!["a.com:443".to_string(), "b.com:80".to_string()]);
    assert_eq!(
        extract_http_hosts("http://a https://b http://c:81/x https://d:444"),
        vec!["a:80".to_string(), "b:443".to_string(), "c:81".to_string(), "d:444".to_string()]
    );
    // a scheme inside an endpoint is part of that endpoint
    assert_eq!(extract_http_hosts("http://xhttps://y"), vec!["xhttps::80".to_string()]);
    // duplicates stay
    assert_eq!(extract_http_hosts("http://a http://a"),
        vec!["a:80".to_string(), "a:80".to_string()]);
    // nothing after the scheme names no endpoint
    assert_eq!(extract_http_hosts("http:// http:///x"), Vec::<String>::new());
    // the scheme is found in lower case only
    assert_eq!(extract_http_hosts("HTTP://a.example"), Vec::<String>::new());
    assert_eq!(extract_http_hosts("x http://[::1]:8080/y"), vec!["[::1]:8080".to_string()]);
    assert_eq!(extract_http_hosts("http://a\tb"), vec!["a:80".to_string()]);
}
