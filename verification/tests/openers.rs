use open_workspace::openers::{
    opener_diagnostics, render_argument, render_opener_argv, supported_placeholder_list,
    unknown_placeholders, OpenerConfig, OpenerValues,
};

fn strings(list: &[&str]) -> Vec<String> {
    list.iter().map(|item| item.to_string()).collect()
}

fn opener(id: &str, argv: &[&str]) -> OpenerConfig {
    OpenerConfig {
        id: id.to_string(),
        bins: vec!["example".to_string()],
        argv: strings(argv),
        ..OpenerConfig::default()
    }
}

fn text(entry: &toml::Table, key: &str) -> Option<String> {
    entry.get(key).and_then(toml::Value::as_str).map(str::to_string)
}

fn list(entry: &toml::Table, key: &str) -> Option<Vec<String>> {
    let items = entry.get(key)?.as_array()?;
    items.iter().map(|item| item.as_str().map(str::to_string)).collect()
}

#[test]
fn entries_parse_from_toml() {
    let document: toml::Table = toml::from_str(
        r#"
[[openers]]
id = "zed"
bin_env = "ZED_BIN"
bins = ["zed", "zedit", "zeditor"]
argv = ["{bin}", "-n", "{path}"]
argv_remote = ["{bin}", "-n", "ssh://{ssh_target}{path}"]
"#,
    )
    .unwrap();
    let entries = document.get("openers").and_then(toml::Value::as_array).unwrap();
    let openers: Vec<OpenerConfig> = entries
        .iter()
        .map(|entry| entry.as_table().unwrap())
        .map(|entry| OpenerConfig {
            id: text(entry, "id").unwrap_or_default(),
            bin_env: text(entry, "bin_env"),
            bins: list(entry, "bins").unwrap_or_default(),
            argv: list(entry, "argv").unwrap_or_default(),
            argv_remote: list(entry, "argv_remote"),
        })
        .collect();
    assert_eq!(openers.len(), 1);
    let opener = &openers[0];
    assert_eq!(opener.id, "zed");
    assert_eq!(opener.bin_env.as_deref(), Some("ZED_BIN"));
    assert_eq!(opener.bins, ["zed", "zedit", "zeditor"]);
    assert_eq!(opener.argv[1], "-n");
    assert!(opener
        .argv_remote
        .as_ref()
        .is_some_and(|argv| argv[2] == "ssh://{ssh_target}{path}"));
    assert!(opener_diagnostics(&openers).is_empty());
}

#[test]
fn renders_supported_placeholders() {
    let values = OpenerValues {
        bin: Some("/usr/bin/editor".to_string()),
        tried_bins: Vec::new(),
        path: "/repo".to_string(),
        host: "build.example".to_string(),
        user: "dev".to_string(),
        port: "2222".to_string(),
        ssh_target: "dev@build.example:2222".to_string(),
    };
    let argv = vec![
        "{bin}".to_string(),
        "-n".to_string(),
        "ssh://{ssh_target}{path}".to_string(),
    ];
    assert_eq!(
        render_opener_argv(&argv, &values).unwrap(),
        vec![
            "/usr/bin/editor".to_string(),
            "-n".to_string(),
            "ssh://dev@build.example:2222/repo".to_string()
        ]
    );
    assert_eq!(
        render_argument("{user}@{host}:{port}", &values).unwrap(),
        "dev@build.example:2222"
    );
}

#[test]
fn rendering_reports_unresolved_and_unknown_placeholders() {
    let values = OpenerValues {
        tried_bins: vec!["editor".to_string()],
        path: "/repo".to_string(),
        ..OpenerValues::default()
    };
    let unresolved = vec!["{bin}".to_string()];
    assert!(render_opener_argv(&unresolved, &values)
        .unwrap_err()
        .contains("tried editor"));
    let unknown = vec!["--open={pth}".to_string()];
    assert!(render_opener_argv(&unknown, &values)
        .unwrap_err()
        .contains("unknown placeholder"));
}

#[test]
fn unknown_placeholders_are_reported() {
    assert_eq!(
        unknown_placeholders("{bin} -n {path}"),
        Vec::<String>::new()
    );
    assert_eq!(
        unknown_placeholders("--open={pth}"),
        vec!["pth".to_string()]
    );
    assert_eq!(
        unknown_placeholders("ssh://{host}{path}"),
        Vec::<String>::new()
    );
}

#[test]
fn diagnostics_flag_duplicates_and_typos() {
    let openers = vec![
        opener("zed", &["{bin}", "-n", "{pth}"]),
        opener("zed", &["{bin}"]),
    ];
    let diagnostics = opener_diagnostics(&openers);
    assert!(diagnostics
        .iter()
        .any(|line| line.contains("unknown placeholder")));
    assert!(diagnostics
        .iter()
        .any(|line| line.contains("duplicate opener id")));
}

#[test]
fn diagnostics_flag_missing_bin_candidates() {
    let openers = vec![OpenerConfig {
        id: "editor".to_string(),
        argv: vec!["{bin}".to_string(), "{path}".to_string()],
        ..OpenerConfig::default()
    }];
    let diagnostics = opener_diagnostics(&openers);
    assert!(diagnostics
        .iter()
        .any(|line| line.contains("no bin_env or bins configured")));
}

#[test]
fn diagnostics_flag_missing_id() {
    let openers = vec![OpenerConfig {
        argv: vec!["{path}".to_string()],
        ..OpenerConfig::default()
    }];
    assert!(opener_diagnostics(&openers)[0].contains("missing opener id"));
}

#[test]
fn text_without_a_closed_placeholder_is_kept() {
    let values = OpenerValues::default();
    assert_eq!(render_argument("-n", &values).unwrap(), "-n");
    assert_eq!(render_argument("", &values).unwrap(), "");
    assert_eq!(render_argument("a}b{path", &values).unwrap(), "a}b{path");
    assert_eq!(unknown_placeholders("a}b{pth"), Vec::<String>::new());
}

#[test]
fn substituted_values_are_not_expanded_again() {
    let values = OpenerValues {
        path: "{host}}".to_string(),
        host: "h".to_string(),
        ..OpenerValues::default()
    };
    assert_eq!(render_argument("<{path}>{host}", &values).unwrap(), "<{host}}>h");
}

#[test]
fn placeholder_names_run_to_the_next_closing_brace() {
    let values = OpenerValues::default();
    assert_eq!(
        render_argument("{a{path}", &values).unwrap_err(),
        "unknown placeholder {a{path} in opener argv"
    );
    assert_eq!(unknown_placeholders("{a{path}"), vec!["a{path".to_string()]);
}

#[test]
fn characters_outside_ascii_are_kept() {
    let values = OpenerValues {
        path: "/ärger/ß".to_string(),
        ..OpenerValues::default()
    };
    assert_eq!(render_argument("ö{path}ü", &values).unwrap(), "ö/ärger/ßü");
}

#[test]
fn an_empty_placeholder_fails_to_render_but_is_not_diagnosed() {
    let values = OpenerValues {
        bin: Some("editor".to_string()),
        ..OpenerValues::default()
    };
    assert_eq!(unknown_placeholders("{}"), Vec::<String>::new());
    assert_eq!(
        render_argument("{}", &values).unwrap_err(),
        "unknown placeholder {} in opener argv"
    );
}

#[test]
fn missing_executables_are_reported_with_what_was_tried() {
    let mut values = OpenerValues::default();
    assert_eq!(
        values.missing_bin_message(),
        "no opener executable configured; set bin_env or add a bins entry"
    );
    values.tried_bins = strings(&["zed", "zedit"]);
    assert_eq!(
        render_argument("{bin}", &values).unwrap_err(),
        "no opener executable resolved; tried zed, zedit"
    );
    assert_eq!(values.placeholder("bin"), None);
    assert_eq!(values.placeholder("path"), Some(""));
    assert_eq!(values.placeholder("Path"), None);
}

#[test]
fn templates_without_a_program_are_refused() {
    let values = OpenerValues::default();
    assert_eq!(
        render_opener_argv(&[], &values).unwrap_err(),
        "opener argv is empty"
    );
    assert_eq!(
        render_opener_argv(&strings(&[" \t{path}", "x"]), &values).unwrap_err(),
        "opener argv[0] is empty"
    );
}

#[test]
fn the_first_argument_that_fails_is_reported() {
    let values = OpenerValues::default();
    assert_eq!(
        render_opener_argv(&strings(&["ok", "{one}{two}", "{three}"]), &values).unwrap_err(),
        "unknown placeholder {one} in opener argv"
    );
}

#[test]
fn every_diagnostic_names_its_opener() {
    let openers = vec![
        OpenerConfig {
            id: " \u{3000}".to_string(),
            ..OpenerConfig::default()
        },
        OpenerConfig {
            id: " zed ".to_string(),
            bin_env: Some(" ".to_string()),
            bins: strings(&["", "\t"]),
            argv: strings(&["", " "]),
            argv_remote: Some(strings(&["{bin}", "{a}{b}{path}"])),
        },
        OpenerConfig {
            id: "zed".to_string(),
            bin_env: Some("ZED_BIN".to_string()),
            bins: Vec::new(),
            argv: strings(&["{bin}"]),
            argv_remote: Some(Vec::new()),
        },
    ];
    let supported = "{bin}, {path}, {host}, {user}, {port}, {ssh_target}";
    assert_eq!(supported_placeholder_list(), supported);
    assert_eq!(
        opener_diagnostics(&openers),
        vec![
            "openers[0]: missing opener id; ignoring opener".to_string(),
            "openers[1] (zed): no bin_env or bins configured; every workspace open will fail"
                .to_string(),
            "openers[1] (zed): empty argv; this opener cannot use that endpoint kind".to_string(),
            format!(
                "openers[1] (zed): unknown placeholder {{a}} in argv_remote[1]; supported: {supported}"
            ),
            format!(
                "openers[1] (zed): unknown placeholder {{b}} in argv_remote[1]; supported: {supported}"
            ),
            "openers[2] (zed): duplicate opener id; the first definition wins".to_string(),
            "openers[2] (zed): empty argv_remote; this opener cannot use that endpoint kind"
                .to_string(),
        ]
    );
}

#[test]
fn templates_that_pass_the_diagnostics_render() {
    let openers = vec![opener("zed", &["{bin}", "--at={path}", "{user}"])];
    assert!(opener_diagnostics(&openers).is_empty());
    let values = OpenerValues {
        bin: Some("zed".to_string()),
        path: "/repo".to_string(),
        ..OpenerValues::default()
    };
    assert_eq!(
        render_opener_argv(&openers[0].argv, &values).unwrap(),
        strings(&["zed", "--at=/repo", ""])
    );
}
