use jumpserver_client::origin::{
    host_is_ip_literal, http_origin_from_url, target_host, target_host_of_url, UrlParts,
};

fn parts(scheme: &str, host: Option<&str>, port: Option<u16>) -> UrlParts {
    UrlParts { scheme: scheme.to_string(), host: host.map(str::to_string), port }
}

fn is_ip(host: &str) -> bool {
    host_is_ip_literal(&host.chars().collect())
}

#[test]
fn origin_of_an_https_address() {
    assert_eq!(
        http_origin_from_url(&parts("https", Some("js.example.com"), None)),
        Some("https://js.example.com".to_string())
    );
}

#[test]
fn origin_keeps_an_explicit_port() {
    assert_eq!(
        http_origin_from_url(&parts("http", Some("10.1.2.3"), Some(8080))),
        Some("http://10.1.2.3:8080".to_string())
    );
    assert_eq!(
        http_origin_from_url(&parts("https", Some("h"), Some(0))),
        Some("https://h:0".to_string())
    );
    assert_eq!(
        http_origin_from_url(&parts("https", Some("h"), Some(65535))),
        Some("https://h:65535".to_string())
    );
}

#[test]
fn other_schemes_and_missing_hosts_give_no_origin() {
    assert_eq!(http_origin_from_url(&parts("about", None, None)), None);
    assert_eq!(http_origin_from_url(&parts("ftp", Some("example.com"), None)), None);
    assert_eq!(http_origin_from_url(&parts("https", None, None)), None);
    assert_eq!(http_origin_from_url(&parts("HTTPS", Some("example.com"), None)), None);
}

#[test]
fn target_host_of_a_url_and_of_a_bare_host() {
    assert_eq!(target_host("https://JS.Example.com/ui/"), Ok("js.example.com".to_string()));
    assert_eq!(target_host("js.example.com"), Ok("js.example.com".to_string()));
    assert_eq!(target_host("192.168.0.7:8443"), Ok("192.168.0.7".to_string()));
    assert_eq!(target_host("http://0x7f.1/"), Ok("127.0.0.1".to_string()));
}

#[test]
fn target_host_is_empty_where_the_url_has_no_host() {
    assert_eq!(target_host("data:text/plain,hello"), Ok(String::new()));
}

#[test]
fn target_host_reports_the_parse_error() {
    assert_eq!(target_host(""), Err("empty host".to_string()));
    assert_eq!(target_host("exa mple.com"), Err("invalid international domain name".to_string()));
}

#[test]
fn target_host_drops_leading_dots() {
    assert_eq!(target_host_of_url(&parts("x", Some("..example.com"), None)), "example.com");
    assert_eq!(target_host_of_url(&parts("x", Some("..."), None)), "");
    assert_eq!(target_host_of_url(&parts("x", None, None)), "");
}

#[test]
fn dotted_decimal_addresses_are_ip_literals() {
    assert!(is_ip("127.0.0.1"));
    assert!(is_ip("0.0.0.0"));
    assert!(is_ip("255.255.255.255"));
    assert!(is_ip("10.20.30.40"));
}

#[test]
fn other_hosts_are_no_ip_literals() {
    assert!(!is_ip(""));
    assert!(!is_ip("example.com"));
    assert!(!is_ip("256.0.0.1"));
    assert!(!is_ip("1.2.3"));
    assert!(!is_ip("1.2.3.4.5"));
    assert!(!is_ip("1.2.3."));
    assert!(!is_ip("01.2.3.4"));
    assert!(!is_ip("1.2.3.0004"));
    assert!(!is_ip("1.2.3.a"));
    assert!(!is_ip("1..3.4"));
    assert!(!is_ip("１.2.3.4"));
    assert!(!is_ip("[::1]"));
}

#[test]
fn ipv6_text_forms_are_ip_literals() {
    for host in [
        "::",
        "::1",
        "1::",
        "2001:db8::8a2e:370:7334",
        "2001:0db8:0000:0000:0000:ff00:0042:8329",
        "1:2:3:4:5:6:7:8",
        "1:2:3:4:5:6:7::",
        "::2:3:4:5:6:7:8",
        "FE80::AbCd",
        "::ffff:192.168.0.1",
        "::192.168.0.1",
        "64:ff9b::10.0.0.1",
        "1:2:3:4:5:6:1.2.3.4",
        "1:2:3:4:5::1.2.3.4",
    ] {
        assert!(is_ip(host), "{}", host);
    }
}

#[test]
fn malformed_ipv6_text_is_no_ip_literal() {
    for host in [
        ":",
        ":::",
        "1:2:3:4:5:6:7",
        "1:2:3:4:5:6:7:8:9",
        "1:2:3:4:5:6:7:8::",
        "::1:2:3:4:5:6:7:8",
        "1::2::3",
        "1:::2",
        "12345::",
        "g::1",
        "1:2:3:4:5:6:7:1.2.3.4",
        "1:2:3:4:5:6::1.2.3.4",
        "1.2.3.4::",
        "1:2.3.4.5::1",
        "::1.2.3",
        "::1.2.3.04",
        "::1%eth0",
        "1:2:3:4:5:6:7:",
        ":1:2:3:4:5:6:7",
        " ::1",
    ] {
        assert!(!is_ip(host), "{}", host);
    }
}
