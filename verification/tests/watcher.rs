use jumpserver_client::models::JarCookie;
use jumpserver_client::origin::UrlParts;
use jumpserver_client::requests::ApiResponse;
use jumpserver_client::watcher::{
    CallKind, WatchAction, WatchEvent, WatchOutcome, WatchPhase, WatchState, WindowStatus,
    DEADLINE_MS, GRACE_MS, TICK_MS,
};

const STUB_PERMISSION_ORGS: &str =
    "{\"audit_orgs\":[],\"console_orgs\":[],\"id\":\"\",\"pam_orgs\":[],\"username\":\"\",\"workbench_orgs\":[]}";
const STUB_CURRENT_ORG: &str =
    "{\"comment\":\"\",\"id\":\"\",\"is_default\":false,\"is_root\":false,\"is_system\":false,\"name\":\"\"}";

fn response(status: u16, data: &str) -> ApiResponse {
    ApiResponse {
        status,
        data: data.to_string(),
        success: status == 200 || status == 201 || status == 204,
    }
}

fn present(scheme: &str, host: &str, port: Option<u16>) -> WindowStatus {
    WindowStatus::Present {
        url: Some(UrlParts { scheme: scheme.to_string(), host: Some(host.to_string()), port }),
    }
}

fn tick(elapsed_ms: u64, window: WindowStatus) -> WatchEvent {
    WatchEvent::Tick { elapsed_ms, window }
}

fn jar(cookies: &[(&str, &str)]) -> WatchEvent {
    WatchEvent::Cookies {
        jar: Some(
            cookies
                .iter()
                .map(|(name, value)| JarCookie {
                    name: name.to_string(),
                    value: value.to_string(),
                    domain: Some("js.example.com".to_string()),
                    path: Some("/".to_string()),
                    secure: Some(true),
                    http_only: Some(true),
                })
                .collect(),
        ),
    }
}

fn watch() -> WatchState {
    WatchState::new("https://js.example.com".to_string())
}

fn assert_call(action: WatchAction, expected: CallKind, header: &str) {
    match action {
        WatchAction::Call { kind, origin, cookie_header } => {
            assert_eq!(kind, expected);
            assert_eq!(origin, "https://js.example.com");
            assert_eq!(cookie_header, header);
        }
        other => panic!("expected a call, got {:?}", other),
    }
}

fn assert_waits(action: WatchAction) {
    assert!(matches!(action, WatchAction::AwaitTick { announce: false }), "{:?}", action);
}

fn assert_reads(action: WatchAction, site: &str) {
    match action {
        WatchAction::ReadCookies { origin } => assert_eq!(origin, site),
        other => panic!("expected a reading of the jar, got {:?}", other),
    }
}

#[test]
fn watch_constants() {
    assert_eq!(DEADLINE_MS, 60_000);
    assert_eq!(GRACE_MS, 5_000);
    assert_eq!(TICK_MS, 2_000);
}

#[test]
fn watch_begins_waiting_for_its_window() {
    let state = watch();
    assert_eq!(state.phase(), WatchPhase::WaitingForWindow);
    assert!(!state.is_finished());
    assert_eq!(state.effective_origin(), "https://js.example.com");
    assert_eq!(state.cookie_header(), "");
}

#[test]
fn login_is_detected_when_the_profile_call_succeeds() {
    let header = "jms_csrftoken=abc; sessionid=xyz";
    let cookies = [("sessionid", "xyz"), ("jms_csrftoken", "abc")];
    let mut state = watch();

    assert_reads(state.step(tick(0, present("https", "js.example.com", None))), "https://js.example.com");
    assert_eq!(state.phase(), WatchPhase::PollingCookies);
    assert_waits(state.step(jar(&[])));
    assert_reads(state.step(tick(2_000, present("https", "js.example.com", None))), "https://js.example.com");
    assert_waits(state.step(jar(&[])));

    assert_reads(state.step(tick(4_000, present("https", "js.example.com", None))), "https://js.example.com");
    assert_call(state.step(jar(&cookies)), CallKind::Profile, header);
    assert_eq!(state.phase(), WatchPhase::ValidatingSession);
    assert_waits(state.step(WatchEvent::Profile { response: response(401, "") }));
    assert_eq!(state.phase(), WatchPhase::PollingCookies);

    assert_reads(state.step(tick(6_000, present("https", "js.example.com", None))), "https://js.example.com");
    assert_call(state.step(jar(&cookies)), CallKind::Profile, header);
    assert_waits(state.step(WatchEvent::Profile { response: response(401, "") }));

    assert_reads(state.step(tick(8_000, present("https", "js.example.com", None))), "https://js.example.com");
    assert_call(state.step(jar(&cookies)), CallKind::Profile, header);
    assert_call(
        state.step(WatchEvent::Profile { response: response(200, "{\"name\":\"admin\"}") }),
        CallKind::License,
        header,
    );
    assert_eq!(state.phase(), WatchPhase::Bootstrapping);
    assert_call(
        state.step(WatchEvent::License {
            response: response(200, "{\"XPACK_LICENSE_IS_VALID\": true}"),
        }),
        CallKind::Version,
        header,
    );
    assert_call(
        state.step(WatchEvent::Version { response: response(200, "v4.10.1") }),
        CallKind::Orgs,
        header,
    );
    let done = state.step(WatchEvent::Orgs {
        permission_orgs: response(200, "{\"pam_orgs\":[\"a\"]}"),
        current_org: response(200, "{\"id\":\"o1\"}"),
    });
    match done {
        WatchAction::Finish { outcome: WatchOutcome::Authenticated(success), close_window } => {
            assert!(close_window);
            assert!(success.license_valid);
            assert_eq!(success.version, "v4.10.1");
            assert_eq!(success.cookie_header, header);
            assert_eq!(success.resolved_origin, "https://js.example.com");
            assert_eq!(success.profile.data, "{\"name\":\"admin\"}");
            assert_eq!(success.permission_orgs.data, "{\"pam_orgs\":[\"a\"]}");
            assert_eq!(success.current_org.data, "{\"id\":\"o1\"}");
            assert_ne!(success.permission_orgs.data, STUB_PERMISSION_ORGS);
            assert_ne!(success.current_org.data, STUB_CURRENT_ORG);
        }
        other => panic!("expected the watch to succeed, got {:?}", other),
    }
    assert_eq!(state.phase(), WatchPhase::Succeeded);
    assert!(state.is_finished());
    assert!(matches!(state.step(tick(10_000, WindowStatus::Absent)), WatchAction::Halt));
}

#[test]
fn window_that_never_appears_ends_the_watch_after_the_grace_period() {
    let mut state = watch();
    assert!(matches!(
        state.step(tick(0, WindowStatus::Absent)),
        WatchAction::AwaitTick { announce: true }
    ));
    assert_waits(state.step(tick(2_000, WindowStatus::Absent)));
    assert_waits(state.step(tick(4_000, WindowStatus::Absent)));
    assert_waits(state.step(tick(4_999, WindowStatus::Absent)));
    assert_eq!(state.phase(), WatchPhase::WaitingForWindow);
    let done = state.step(tick(5_000, WindowStatus::Absent));
    assert!(matches!(
        done,
        WatchAction::Finish { outcome: WatchOutcome::WindowClosed, close_window: false }
    ));
    assert_eq!(state.phase(), WatchPhase::WindowClosed);
    assert!(matches!(state.step(tick(6_000, WindowStatus::Absent)), WatchAction::Halt));
    assert!(matches!(state.step(jar(&[("a", "b")])), WatchAction::Halt));
}

#[test]
fn closing_the_window_ends_the_watch() {
    let mut state = watch();
    assert_reads(state.step(tick(0, present("https", "js.example.com", None))), "https://js.example.com");
    assert_waits(state.step(WatchEvent::Cookies { jar: None }));
    let done = state.step(tick(2_000, WindowStatus::Absent));
    assert!(matches!(
        done,
        WatchAction::Finish { outcome: WatchOutcome::WindowClosed, close_window: false }
    ));
}

#[test]
fn watch_times_out_at_the_deadline() {
    let mut state = watch();
    let mut elapsed = 0;
    while elapsed < DEADLINE_MS {
        assert_reads(
            state.step(tick(elapsed, present("https", "js.example.com", None))),
            "https://js.example.com",
        );
        assert_waits(state.step(jar(&[])));
        elapsed += TICK_MS;
    }
    assert_eq!(elapsed, 60_000);
    let done = state.step(tick(elapsed, present("https", "js.example.com", None)));
    assert!(matches!(
        done,
        WatchAction::Finish { outcome: WatchOutcome::TimedOut, close_window: true }
    ));
    assert_eq!(state.phase(), WatchPhase::TimedOut);
    assert!(matches!(state.step(tick(62_000, WindowStatus::Absent)), WatchAction::Halt));
}

#[test]
fn timeout_comes_before_the_window_check() {
    let mut state = watch();
    let done = state.step(tick(60_000, WindowStatus::Absent));
    assert!(matches!(
        done,
        WatchAction::Finish { outcome: WatchOutcome::TimedOut, close_window: false }
    ));
    let mut late = watch();
    assert!(matches!(
        late.step(tick(59_999, WindowStatus::Absent)),
        WatchAction::Finish { outcome: WatchOutcome::WindowClosed, .. }
    ));
}

#[test]
fn failed_license_check_skips_the_organisation_calls() {
    for license in [
        response(200, "{\"XPACK_LICENSE_IS_VALID\": false}"),
        response(200, "{}"),
        response(200, "not json"),
        response(500, "{\"XPACK_LICENSE_IS_VALID\": true}"),
        response(0, "请求失败: timeout"),
    ] {
        let mut state = watch();
        state.step(tick(0, present("https", "js.example.com", None)));
        assert_call(state.step(jar(&[("sessionid", "xyz")])), CallKind::Profile, "sessionid=xyz");
        state.step(WatchEvent::Profile { response: response(200, "me") });
        assert_call(
            state.step(WatchEvent::License { response: license }),
            CallKind::Version,
            "sessionid=xyz",
        );
        let done = state.step(WatchEvent::Version { response: response(404, "") });
        match done {
            WatchAction::Finish { outcome: WatchOutcome::Authenticated(success), close_window } => {
                assert!(close_window);
                assert!(!success.license_valid);
                assert_eq!(success.version, "incompatible");
                assert_eq!(success.profile.data, "me");
                assert_eq!(success.permission_orgs.status, 200);
                assert!(success.permission_orgs.success);
                assert_eq!(success.permission_orgs.data, STUB_PERMISSION_ORGS);
                assert_eq!(success.current_org.status, 200);
                assert!(success.current_org.success);
                assert_eq!(success.current_org.data, STUB_CURRENT_ORG);
            }
            other => panic!("expected the watch to succeed, got {:?}", other),
        }
        assert!(state.is_finished());
    }
}

#[test]
fn redirect_to_another_site_is_adopted() {
    let mut state = watch();
    assert_reads(
        state.step(tick(0, present("https", "sso.idp.example", None))),
        "https://sso.idp.example",
    );
    assert_eq!(state.effective_origin(), "https://sso.idp.example");
    assert_waits(state.step(jar(&[("sessionid", "xyz")])));
    assert_reads(
        state.step(tick(2_000, present("http", "js2.example.com", Some(8080)))),
        "http://js2.example.com:8080",
    );
    assert_eq!(state.effective_origin(), "http://js2.example.com:8080");
}

#[test]
fn malformed_navigation_is_ignored() {
    let mut state = watch();
    assert_reads(
        state.step(tick(0, WindowStatus::Present { url: None })),
        "https://js.example.com",
    );
    state.step(jar(&[]));
    assert_reads(
        state.step(tick(2_000, present("about", "blank", None))),
        "https://js.example.com",
    );
    state.step(jar(&[]));
    let no_host = WindowStatus::Present {
        url: Some(UrlParts { scheme: "https".to_string(), host: None, port: None }),
    };
    assert_reads(state.step(tick(4_000, no_host)), "https://js.example.com");
    assert_eq!(state.phase(), WatchPhase::PollingCookies);
}

#[test]
fn failed_or_empty_reading_keeps_the_earlier_header() {
    let mut state = watch();
    state.step(tick(0, present("https", "js.example.com", None)));
    assert_call(state.step(jar(&[("sessionid", "one")])), CallKind::Profile, "sessionid=one");
    assert_waits(state.step(WatchEvent::Profile { response: response(0, "请求失败: x") }));

    state.step(tick(2_000, present("https", "js.example.com", None)));
    assert_call(state.step(WatchEvent::Cookies { jar: None }), CallKind::Profile, "sessionid=one");
    state.step(WatchEvent::Profile { response: response(401, "") });

    state.step(tick(4_000, present("https", "js.example.com", None)));
    assert_call(state.step(jar(&[])), CallKind::Profile, "sessionid=one");
    state.step(WatchEvent::Profile { response: response(401, "") });

    state.step(tick(6_000, present("https", "js.example.com", None)));
    assert_call(state.step(jar(&[("sessionid", "two")])), CallKind::Profile, "sessionid=two");
    assert_eq!(state.cookie_header(), "sessionid=two");
}

#[test]
fn profile_outcomes_that_keep_polling() {
    let inconsistent = ApiResponse { status: 401, data: String::new(), success: true };
    for profile in [response(401, ""), response(403, ""), response(500, ""), response(0, ""), inconsistent] {
        let mut state = watch();
        state.step(tick(0, present("https", "js.example.com", None)));
        state.step(jar(&[("sessionid", "xyz")]));
        assert_waits(state.step(WatchEvent::Profile { response: profile }));
        assert_eq!(state.phase(), WatchPhase::PollingCookies);
    }
    for profile in [response(200, ""), response(201, ""), response(204, "")] {
        let mut state = watch();
        state.step(tick(0, present("https", "js.example.com", None)));
        state.step(jar(&[("sessionid", "xyz")]));
        assert_call(
            state.step(WatchEvent::Profile { response: profile }),
            CallKind::License,
            "sessionid=xyz",
        );
    }
}

#[test]
fn unexpected_event_repeats_the_pending_action() {
    let mut state = watch();
    assert_waits(state.step(WatchEvent::Profile { response: response(200, "") }));
    assert_waits(state.step(jar(&[("a", "b")])));
    assert_eq!(state.phase(), WatchPhase::WaitingForWindow);
    state.step(tick(0, present("https", "js.example.com", None)));
    assert_reads(
        state.step(tick(2_000, present("https", "other.example.com", None))),
        "https://js.example.com",
    );
    assert_call(state.step(jar(&[("sessionid", "xyz")])), CallKind::Profile, "sessionid=xyz");
    assert_call(
        state.step(tick(70_000, WindowStatus::Absent)),
        CallKind::Profile,
        "sessionid=xyz",
    );
    assert_call(
        state.step(WatchEvent::Version { response: response(200, "v") }),
        CallKind::Profile,
        "sessionid=xyz",
    );
}

#[test]
fn unusable_origin_never_yields_a_header() {
    let mut state = WatchState::new("exa mple.com".to_string());
    assert_reads(state.step(tick(0, WindowStatus::Present { url: None })), "exa mple.com");
    assert_waits(state.step(jar(&[("sessionid", "xyz")])));
    assert_eq!(state.cookie_header(), "");
}

#[test]
fn random_event_orders_publish_at_most_one_outcome() {
    let mut seed: u64 = 0x9e37_79b9_7f4a_7c15;
    for _ in 0..200 {
        let mut state = watch();
        let mut outcomes = 0;
        let mut halted_after_end = true;
        for step in 0..60u64 {
            seed = seed.wrapping_mul(6364136223846793005).wrapping_add(1442695040888963407);
            let pick = (seed >> 33) % 8;
            let ended = state.is_finished();
            let event = match pick {
                0 => tick(step * 1_500, WindowStatus::Absent),
                1 | 2 => tick(step * 1_500, present("https", "js.example.com", None)),
                3 => jar(&[("sessionid", "xyz")]),
                4 => WatchEvent::Profile { response: response(if seed & 1 == 0 { 200 } else { 401 }, "") },
                5 => WatchEvent::License {
                    response: response(200, "{\"XPACK_LICENSE_IS_VALID\": true}"),
                },
                6 => WatchEvent::Version { response: response(200, "v") },
                _ => WatchEvent::Orgs {
                    permission_orgs: response(200, "p"),
                    current_org: response(200, "c"),
                },
            };
            let action = state.step(event);
            if matches!(action, WatchAction::Finish { .. }) {
                outcomes += 1;
                assert!(state.is_finished());
            }
            if ended && !matches!(action, WatchAction::Halt) {
                halted_after_end = false;
            }
        }
        assert!(outcomes <= 1);
        assert!(halted_after_end);
        assert_eq!(outcomes == 1, state.is_finished());
    }
}
