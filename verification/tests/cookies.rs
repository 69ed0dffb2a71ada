use jumpserver_client::commands::logout::logout_script;
use jumpserver_client::cookies::{
    dedupe_cookies, domain_matches_host, extract_csrf_token, format_cookies, get_window_cookies,
    normalize, select_cookies,
};
use jumpserver_client::models::{CookieMessage, JarCookie};

fn cookie(domain: &str, path: &str, name: &str, value: &str) -> CookieMessage {
    CookieMessage {
        name: name.to_string(),
        value: value.to_string(),
        domain: domain.to_string(),
        path: path.to_string(),
        secure: false,
        http_only: false,
    }
}

fn jar_cookie(domain: Option<&str>, name: &str, value: &str) -> JarCookie {
    JarCookie {
        name: name.to_string(),
        value: value.to_string(),
        domain: domain.map(str::to_string),
        path: None,
        secure: None,
        http_only: None,
    }
}

fn chars(s: &str) -> Vec<char> {
    s.chars().collect()
}

fn matches(domain: Option<&str>, host: &str) -> bool {
    domain_matches_host(&domain.map(str::to_string), &chars(host))
}

#[test]
fn dedupe_keeps_the_last_value_and_sorts() {
    let mut cookies = vec![
        cookie("b.example.com", "/", "sid", "1"),
        cookie("a.example.com", "/", "sid", "2"),
        cookie("b.example.com", "/", "sid", "3"),
    ];
    dedupe_cookies(&mut cookies);
    assert_eq!(cookies.len(), 2);
    assert_eq!(cookies[0].domain, "a.example.com");
    assert_eq!(cookies[0].value, "2");
    assert_eq!(cookies[1].domain, "b.example.com");
    assert_eq!(cookies[1].value, "3");
    assert_eq!(format_cookies(&cookies), "sid=2; sid=3");
}

#[test]
fn dedupe_orders_by_domain_then_path_then_name() {
    let mut cookies = vec![
        cookie("example.com", "/b", "a", "1"),
        cookie("example.com", "/a", "z", "2"),
        cookie("example.com", "/a", "b", "3"),
        cookie("a.com", "/z", "z", "4"),
        cookie("example.com", "/", "z", "5"),
    ];
    dedupe_cookies(&mut cookies);
    let order: Vec<String> = cookies.iter().map(|c| c.value.clone()).collect();
    assert_eq!(order, vec!["4", "5", "3", "2", "1"]);
}

#[test]
fn dedupe_compares_by_code_point_and_prefix() {
    let mut cookies = vec![
        cookie("", "/", "ab", "1"),
        cookie("", "/", "a", "2"),
        cookie("", "/", "B", "3"),
        cookie("", "/", "é", "4"),
        cookie("", "/", "", "5"),
    ];
    dedupe_cookies(&mut cookies);
    let names: Vec<String> = cookies.iter().map(|c| c.name.clone()).collect();
    assert_eq!(names, vec!["", "B", "a", "ab", "é"]);
}

#[test]
fn dedupe_of_nothing_is_nothing() {
    let mut cookies: Vec<CookieMessage> = Vec::new();
    dedupe_cookies(&mut cookies);
    assert!(cookies.is_empty());
    assert_eq!(format_cookies(&cookies), "");
}

#[test]
fn dedupe_keeps_the_flags_of_the_survivor() {
    let mut first = cookie("example.com", "/", "sid", "old");
    first.secure = true;
    let mut second = cookie("example.com", "/", "sid", "new");
    second.http_only = true;
    let mut cookies = vec![first, second];
    dedupe_cookies(&mut cookies);
    assert_eq!(cookies.len(), 1);
    assert_eq!(cookies[0].value, "new");
    assert!(!cookies[0].secure);
    assert!(cookies[0].http_only);
}

#[test]
fn normalizing_twice_gives_the_same_header() {
    let raw = vec![
        jar_cookie(Some(".example.com"), "b", "2"),
        jar_cookie(Some("example.com"), "a", "1"),
        jar_cookie(Some(".example.com"), "b", "3"),
    ];
    let once = normalize(&raw, "example.com");
    let twice = normalize(&raw, "example.com");
    assert_eq!(once, twice);
    assert_eq!(once, "b=3; a=1");
}

#[test]
fn normalizing_a_normal_form_changes_nothing() {
    let mut cookies = vec![
        cookie("b.com", "/", "x", "1"),
        cookie("a.com", "/", "y", "2"),
        cookie("a.com", "/", "x", "3"),
    ];
    dedupe_cookies(&mut cookies);
    let first = format_cookies(&cookies);
    dedupe_cookies(&mut cookies);
    assert_eq!(format_cookies(&cookies), first);
    assert_eq!(first, "x=3; y=2; x=1");
}

#[test]
fn shuffling_a_cookie_set_does_not_change_the_header() {
    let mut a = vec![
        cookie("example.com", "/", "sessionid", "xyz"),
        cookie("example.com", "/", "jms_csrftoken", "abc"),
        cookie("example.com", "/app", "theme", "dark"),
    ];
    let mut b = vec![
        cookie("example.com", "/app", "theme", "dark"),
        cookie("example.com", "/", "sessionid", "xyz"),
        cookie("example.com", "/", "jms_csrftoken", "abc"),
    ];
    dedupe_cookies(&mut a);
    dedupe_cookies(&mut b);
    assert_eq!(format_cookies(&a), format_cookies(&b));
    assert_eq!(format_cookies(&a), "jms_csrftoken=abc; sessionid=xyz; theme=dark");
}

#[test]
fn format_joins_pairs_with_semicolon_and_space() {
    let cookies = vec![cookie("", "", "a", "1"), cookie("", "", "b", ""), cookie("", "", "", "3")];
    assert_eq!(format_cookies(&cookies), "a=1; b=; =3");
    assert_eq!(format_cookies(&cookies[..1].to_vec()), "a=1");
}

#[test]
fn parent_domain_cookie_matches_host_and_subdomain() {
    assert!(matches(Some(".example.com"), "a.example.com"));
    assert!(matches(Some(".example.com"), "example.com"));
    assert!(matches(Some("example.com"), "deep.a.example.com"));
}

#[test]
fn foreign_domain_cookie_does_not_match() {
    assert!(!matches(Some("other.com"), "example.com"));
    assert!(!matches(Some("ample.com"), "example.com"));
    assert!(!matches(Some("a.example.com"), "example.com"));
    assert!(!matches(Some(""), "example.com"));
    assert!(!matches(Some("..."), "example.com"));
}

#[test]
fn host_only_cookie_matches_any_named_host() {
    assert!(matches(None, "example.com"));
    assert!(!matches(None, ""));
}

#[test]
fn select_filters_maps_and_normalizes() {
    let raw = vec![
        jar_cookie(Some("other.com"), "x", "0"),
        jar_cookie(None, "host_only", "1"),
        jar_cookie(Some(".example.com"), "sid", "2"),
    ];
    let cookies = select_cookies(&raw, "app.example.com");
    assert_eq!(cookies.len(), 2);
    assert_eq!(cookies[0].name, "host_only");
    assert_eq!(cookies[0].domain, "");
    assert_eq!(cookies[0].path, "/");
    assert!(!cookies[0].secure);
    assert!(!cookies[0].http_only);
    assert_eq!(cookies[1].name, "sid");
    assert_eq!(cookies[1].domain, ".example.com");
}

#[test]
fn ip_literal_target_accepts_every_cookie() {
    let raw = vec![
        jar_cookie(Some("other.com"), "x", "0"),
        jar_cookie(Some("10.0.0.8"), "sid", "2"),
    ];
    assert_eq!(normalize(&raw, "10.0.0.8"), "sid=2; x=0");
    assert_eq!(normalize(&raw, "10.0.0.256"), "");
    assert_eq!(normalize(&raw, "10.0.0"), "");
    assert_eq!(normalize(&raw, "10.0.0.08"), "");
}

#[test]
fn window_cookies_reads_the_host_out_of_the_origin() {
    let raw = vec![
        jar_cookie(Some("other.com"), "x", "0"),
        jar_cookie(Some("example.com"), "sid", "2"),
    ];
    let from_url = get_window_cookies(&raw, "https://js.example.com:8443/core/auth/login/").unwrap();
    assert_eq!(from_url.len(), 1);
    assert_eq!(from_url[0].name, "sid");
    let from_host = get_window_cookies(&raw, "js.example.com").unwrap();
    assert_eq!(from_host.len(), 1);
    let from_ip = get_window_cookies(&raw, "192.168.1.20:8080").unwrap();
    assert_eq!(from_ip.len(), 2);
}

#[test]
fn window_cookies_fails_where_the_origin_names_no_site() {
    let raw = vec![jar_cookie(Some("example.com"), "sid", "2")];
    let error = get_window_cookies(&raw, "exa mple.com").unwrap_err();
    assert_eq!(error, "invalid international domain name");
    assert!(get_window_cookies(&raw, "").is_err());
}

#[test]
fn csrf_token_prefers_the_jms_cookie() {
    assert_eq!(extract_csrf_token("csrftoken=a; jms_csrftoken = b ; x=y"), "b");
    assert_eq!(extract_csrf_token("CSRFToken=a; other"), "a");
    assert_eq!(extract_csrf_token("sessionid=xyz"), "");
    assert_eq!(extract_csrf_token(""), "");
}

#[test]
fn csrf_token_takes_the_first_match_and_cuts_at_the_first_equals() {
    assert_eq!(extract_csrf_token("jms_csrftoken=a=b; jms_csrftoken=c"), "a=b");
    assert_eq!(extract_csrf_token(" JMS_CSRFTOKEN\t=\u{a0}tok\u{3000}"), "tok");
    assert_eq!(extract_csrf_token("jms_csrftoken"), "");
    assert_eq!(extract_csrf_token("csrftoken=1;jms_csrftoken="), "");
}

#[test]
fn logout_script_clears_only_what_a_page_can_see() {
    let mut hidden = cookie("example.com", "/", "sessionid", "xyz");
    hidden.http_only = true;
    let cookies = vec![
        cookie("example.com", "/", "jms_csrftoken", "abc"),
        hidden,
        cookie(".example.com", "/app", "theme", "dark"),
    ];
    let (script, cleared) = logout_script(&cookies);
    assert_eq!(cleared, 2);
    assert_eq!(
        script,
        "document.cookie = 'jms_csrftoken=; Max-Age=0; path=/; domain=example.com; SameSite=Lax';\n\
document.cookie = 'theme=; Max-Age=0; path=/app; domain=.example.com; SameSite=Lax';"
    );
}

#[test]
fn logout_script_is_empty_without_visible_cookies() {
    let mut hidden = cookie("example.com", "/", "sessionid", "xyz");
    hidden.http_only = true;
    let (script, cleared) = logout_script(&vec![hidden]);
    assert_eq!(script, "");
    assert_eq!(cleared, 0);
}
