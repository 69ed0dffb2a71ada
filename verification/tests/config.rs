use jumpserver_client::commands::get_assets::add_empty_permissions;
use jumpserver_client::json::Json;
use jumpserver_client::service::config::{ConfigService, DEFAULT_CONFIG_VERSION};

fn text(t: &str) -> Json {
    Json::Text(t.to_string())
}

fn object(members: Vec<(&str, Json)>) -> Json {
    Json::Object(members.into_iter().map(|(k, v)| (k.to_string(), v)).collect())
}

fn list(items: Vec<Json>) -> Json {
    Json::Array(items)
}

fn same(a: &Json, b: &Json) -> bool {
    match (a, b) {
        (Json::Null, Json::Null) => true,
        (Json::Bool(x), Json::Bool(y)) => x == y,
        (Json::Integer(x), Json::Integer(y)) => x == y,
        (Json::Number(x), Json::Number(y)) => x == y,
        (Json::Text(x), Json::Text(y)) => x == y,
        (Json::Array(x), Json::Array(y)) => {
            x.len() == y.len() && x.iter().zip(y.iter()).all(|(p, q)| same(p, q))
        }
        (Json::Object(x), Json::Object(y)) => {
            x.len() == y.len()
                && x.iter().zip(y.iter()).all(|((k, p), (l, q))| k == l && same(p, q))
        }
        _ => false,
    }
}

fn assert_same(actual: &Json, expected: &Json) {
    assert!(same(actual, expected), "\n  actual: {:?}\nexpected: {:?}", actual, expected);
}

fn entry(name: &str, path: &str, match_first: Vec<&str>) -> Json {
    object(vec![
        ("name", text(name)),
        ("path", text(path)),
        ("match_first", list(match_first.into_iter().map(text).collect())),
    ])
}

#[test]
fn json_members_are_found_by_the_first_entry_of_their_name() {
    let value = object(vec![("a", Json::Integer(1)), ("b", Json::Bool(true)), ("a", Json::Null)]);
    assert!(matches!(value.get("a"), Some(Json::Integer(1))));
    assert!(matches!(value.get("b"), Some(Json::Bool(true))));
    assert!(value.get("c").is_none());
    assert!(text("a").get("a").is_none());
    assert_eq!(text("a").as_str(), Some("a"));
    assert_eq!(Json::Integer(1).as_str(), None);
    assert_eq!(object(vec![("n", text("x"))]).get_str("n"), Some("x"));
    assert_eq!(object(vec![("n", Json::Integer(1))]).get_str("n"), None);
    assert!(value.is_object());
    assert!(!list(vec![]).is_object());
    assert!(list(vec![Json::Null]).as_array().is_some());
    assert!(value.as_array().is_none());
}

#[test]
fn json_insert_replaces_in_place_or_appends() {
    let value = object(vec![("a", Json::Integer(1)), ("b", Json::Integer(2))]);
    assert_same(
        &value.clone().insert("a", Json::Null),
        &object(vec![("a", Json::Null), ("b", Json::Integer(2))]),
    );
    assert_same(
        &value.clone().insert("c", Json::Number("1.5".to_string())),
        &object(vec![
            ("a", Json::Integer(1)),
            ("b", Json::Integer(2)),
            ("c", Json::Number("1.5".to_string())),
        ]),
    );
    assert_same(&Json::Bool(false).insert("a", Json::Null), &Json::Bool(false));
    assert_same(&value.clone(), &value);
}

#[test]
fn config_version_defaults_to_one() {
    assert_eq!(DEFAULT_CONFIG_VERSION, 1);
    assert_eq!(ConfigService::get_config_version(&object(vec![("version", Json::Integer(7))])), 7);
    assert_eq!(ConfigService::get_config_version(&object(vec![])), 1);
    assert_eq!(
        ConfigService::get_config_version(&object(vec![("version", text("7"))])),
        1
    );
    assert_eq!(
        ConfigService::get_config_version(&object(vec![(
            "version",
            Json::Number("2.5".to_string())
        )])),
        1
    );
    assert_eq!(ConfigService::get_config_version(&Json::Null), 1);
}

#[test]
fn settings_are_upgraded_by_a_later_version_only() {
    assert!(ConfigService::needs_upgrade(1, 2));
    assert!(!ConfigService::needs_upgrade(2, 2));
    assert!(!ConfigService::needs_upgrade(3, 2));
    assert!(ConfigService::needs_upgrade(i64::MIN, i64::MAX));
}

#[test]
fn merged_items_keep_what_the_user_chose() {
    let user = list(vec![
        object(vec![
            ("name", text("putty")),
            ("path", text("D:/tools/putty.exe")),
            ("match_first", list(vec![text("ssh")])),
            ("is_set", Json::Bool(true)),
            ("comment", text("mine")),
        ]),
        object(vec![("name", text("gone")), ("is_set", Json::Bool(true))]),
        object(vec![("name", text("xshell")), ("path", text(""))]),
        object(vec![("path", text("/nameless"))]),
    ]);
    let template = list(vec![
        entry("xshell", "C:/xshell.exe", vec!["telnet"]),
        object(vec![
            ("name", text("putty")),
            ("path", text("C:/putty.exe")),
            ("match_first", list(vec![])),
            ("is_set", Json::Bool(false)),
            ("arg_format", text("{host}")),
        ]),
        entry("securecrt", "", vec![]),
    ]);
    let merged = ConfigService::merge_app_items(&user, &template);
    assert_same(
        &merged,
        &list(vec![
            entry("xshell", "C:/xshell.exe", vec!["telnet"]),
            object(vec![
                ("name", text("putty")),
                ("path", text("D:/tools/putty.exe")),
                ("match_first", list(vec![text("ssh")])),
                ("is_set", Json::Bool(true)),
                ("arg_format", text("{host}")),
            ]),
            entry("securecrt", "", vec![]),
        ]),
    );
}

#[test]
fn merged_items_keep_the_template_path_where_the_user_has_the_same_or_none() {
    let template = list(vec![entry("putty", "C:/putty.exe", vec![])]);
    let same_path = list(vec![object(vec![("name", text("putty")), ("path", text("C:/putty.exe"))])]);
    assert_same(&ConfigService::merge_app_items(&same_path, &template), &template);
    let no_text = list(vec![object(vec![("name", text("putty")), ("path", Json::Integer(3))])]);
    assert_same(&ConfigService::merge_app_items(&no_text, &template), &template);
    let new_member = list(vec![object(vec![("name", text("putty")), ("is_set", Json::Bool(true))])]);
    assert_same(
        &ConfigService::merge_app_items(&new_member, &template),
        &list(vec![object(vec![
            ("name", text("putty")),
            ("path", text("C:/putty.exe")),
            ("match_first", list(vec![])),
            ("is_set", Json::Bool(true)),
        ])]),
    );
}

#[test]
fn merged_items_change_only_the_first_entry_of_a_name() {
    let template = list(vec![entry("a", "1", vec![]), entry("a", "2", vec![])]);
    let user = list(vec![object(vec![("name", text("a")), ("path", text("9"))])]);
    assert_same(
        &ConfigService::merge_app_items(&user, &template),
        &list(vec![entry("a", "9", vec![]), entry("a", "2", vec![])]),
    );
}

#[test]
fn merged_items_are_the_template_where_one_side_is_no_list() {
    let template = list(vec![entry("a", "1", vec![])]);
    assert_same(&ConfigService::merge_app_items(&Json::Null, &template), &template);
    assert_same(&ConfigService::merge_app_items(&template, &text("x")), &text("x"));
}

fn section(terminal: Json) -> Json {
    object(vec![("terminal", terminal), ("extra", Json::Integer(1))])
}

#[test]
fn merged_section_merges_the_lists_that_both_sides_have() {
    let user = object(vec![
        ("terminal", list(vec![object(vec![("name", text("a")), ("is_set", Json::Bool(true))])])),
        ("databases", list(vec![entry("old", "", vec![])])),
    ]);
    let template = object(vec![
        ("terminal", list(vec![object(vec![("name", text("a"))])])),
        ("remotedesktop", list(vec![entry("rdp", "", vec![])])),
        ("note", text("kept")),
    ]);
    assert_same(
        &ConfigService::merge_os_config(&user, &template),
        &object(vec![
            (
                "terminal",
                list(vec![object(vec![("name", text("a")), ("is_set", Json::Bool(true))])]),
            ),
            ("remotedesktop", list(vec![entry("rdp", "", vec![])])),
            ("note", text("kept")),
        ]),
    );
    assert_same(&ConfigService::merge_os_config(&Json::Null, &template), &template);
    assert_same(&ConfigService::merge_os_config(&user, &list(vec![])), &list(vec![]));
}

#[test]
fn merged_settings_take_the_template_and_state_its_version() {
    let user = object(vec![
        ("version", Json::Integer(1)),
        ("filename", text("old.json")),
        (
            "linux",
            section(list(vec![object(vec![("name", text("a")), ("is_set", Json::Bool(true))])])),
        ),
        ("windows", text("broken")),
        ("obsolete", Json::Bool(true)),
    ]);
    let template = object(vec![
        ("filename", text("config.json")),
        ("windowBounds", object(vec![("width", Json::Number("1280.5".to_string()))])),
        ("linux", section(list(vec![object(vec![("name", text("a"))])]))),
        ("windows", section(list(vec![]))),
        ("macos", section(list(vec![]))),
    ]);
    assert_same(
        &ConfigService::merge_configs(&user, &template),
        &object(vec![
            ("filename", text("config.json")),
            ("windowBounds", object(vec![("width", Json::Number("1280.5".to_string()))])),
            (
                "linux",
                section(list(vec![object(vec![
                    ("name", text("a")),
                    ("is_set", Json::Bool(true)),
                ])])),
            ),
            ("windows", section(list(vec![]))),
            ("macos", section(list(vec![]))),
            ("version", Json::Integer(1)),
        ]),
    );
    let versioned = object(vec![("version", Json::Integer(4)), ("x", Json::Null)]);
    assert_same(&ConfigService::merge_configs(&user, &versioned), &versioned);
}

fn settings() -> Json {
    object(vec![(
        "linux",
        object(vec![
            (
                "terminal",
                list(vec![
                    entry("putty", "", vec!["ssh", "telnet"]),
                    object(vec![("name", text("xshell"))]),
                    entry("securecrt", "/opt/scrt", vec!["ssh", "ssh"]),
                ]),
            ),
            ("databases", text("none")),
        ]),
    )])
}

fn terminal(entries: Vec<Json>) -> Json {
    object(vec![(
        "linux",
        object(vec![("terminal", list(entries)), ("databases", text("none"))]),
    )])
}

#[test]
fn selection_by_protocol_moves_the_first_choice() {
    let updated =
        ConfigService::update_selection(&settings(), "linux", "terminal", "ssh", "xshell", None)
            .unwrap();
    assert_same(
        &updated,
        &terminal(vec![
            entry("putty", "", vec!["telnet"]),
            object(vec![("name", text("xshell")), ("match_first", list(vec![text("ssh")]))]),
            entry("securecrt", "/opt/scrt", vec![]),
        ]),
    );
    let again =
        ConfigService::update_selection(&updated, "linux", "terminal", "ssh", "xshell", Some("  "))
            .unwrap();
    assert_same(&again, &updated);
}

#[test]
fn selection_with_a_path_sets_the_path_only() {
    let updated = ConfigService::update_selection(
        &settings(),
        "linux",
        "terminal",
        "ssh",
        "putty",
        Some("  /usr/bin/putty \n"),
    )
    .unwrap();
    assert_same(
        &updated,
        &terminal(vec![
            object(vec![
                ("name", text("putty")),
                ("path", text("/usr/bin/putty")),
                ("match_first", list(vec![text("ssh"), text("telnet")])),
                ("is_set", Json::Bool(true)),
            ]),
            object(vec![("name", text("xshell"))]),
            entry("securecrt", "/opt/scrt", vec!["ssh", "ssh"]),
        ]),
    );
}

#[test]
fn selection_keeps_a_match_first_that_is_no_list() {
    let config = terminal(vec![object(vec![("name", text("a")), ("match_first", text("ssh"))])]);
    let updated =
        ConfigService::update_selection(&config, "linux", "terminal", "ssh", "a", None).unwrap();
    assert_same(&updated, &config);
}

#[test]
fn selection_errors() {
    let config = settings();
    assert_eq!(
        ConfigService::update_selection(&config, "macos", "terminal", "ssh", "putty", None)
            .unwrap_err(),
        "invalid config path: macos.terminal"
    );
    assert_eq!(
        ConfigService::update_selection(&config, "linux", "databases", "ssh", "putty", None)
            .unwrap_err(),
        "invalid config path: linux.databases"
    );
    assert_eq!(
        ConfigService::update_selection(&config, "linux", "filetransfer", "ssh", "putty", None)
            .unwrap_err(),
        "invalid config path: linux.filetransfer"
    );
    assert_eq!(
        ConfigService::update_selection(&config, "linux", "terminal", "ssh", "winscp", Some("/x"))
            .unwrap_err(),
        "selected item 'winscp' not found under linux.terminal"
    );
    assert_eq!(
        ConfigService::update_selection(&config, "linux", "terminal", "ssh", "winscp", None)
            .unwrap_err(),
        "selected item 'winscp' not found under linux.terminal"
    );
}

#[test]
fn selection_safety() {
    let config = terminal(vec![text("stray"), entry("a", "", vec![])]);
    assert!(ConfigService::selection_is_safe(&config, "linux", "terminal", "a"));
    assert!(ConfigService::selection_is_safe(&config, "linux", "terminal", "missing"));
    assert!(ConfigService::selection_is_safe(&config, "macos", "terminal", ""));
    assert!(!ConfigService::selection_is_safe(&config, "linux", "terminal", ""));
    let nameless = terminal(vec![object(vec![("path", text("p"))])]);
    assert!(ConfigService::selection_is_safe(&nameless, "linux", "terminal", ""));
    let updated =
        ConfigService::update_selection(&nameless, "linux", "terminal", "rdp", "", None).unwrap();
    assert_same(
        &updated,
        &terminal(vec![object(vec![
            ("path", text("p")),
            ("match_first", list(vec![text("rdp")])),
        ])]),
    );
}

#[test]
fn listing_gets_empty_permission_lists() {
    let listing = object(vec![
        ("count", Json::Integer(2)),
        (
            "results",
            list(vec![
                object(vec![("id", text("a")), ("permedAccounts", list(vec![text("root")]))]),
                text("stray"),
                object(vec![]),
            ]),
        ),
    ]);
    assert_same(
        &add_empty_permissions(&listing),
        &object(vec![
            ("count", Json::Integer(2)),
            (
                "results",
                list(vec![
                    object(vec![
                        ("id", text("a")),
                        ("permedAccounts", list(vec![])),
                        ("permedProtocols", list(vec![])),
                    ]),
                    text("stray"),
                    object(vec![
                        ("permedAccounts", list(vec![])),
                        ("permedProtocols", list(vec![])),
                    ]),
                ]),
            ),
        ]),
    );
}

#[test]
fn listing_without_results_stays_as_it_is() {
    for listing in [
        object(vec![("detail", text("no"))]),
        object(vec![("results", text("none"))]),
        list(vec![object(vec![])]),
        Json::Null,
    ] {
        assert_same(&add_empty_permissions(&listing), &listing);
    }
}
