use open_workspace::cli::{
    open_workspace_request, parse_open_workspace_args, plugin_invocation_token,
    report_open_workspace_response, response_is_success, usage, CommandReport,
};
use open_workspace::schema::{ClientTarget, Method};

fn strings(list: &[&str]) -> Vec<String> {
    list.iter().map(|item| item.to_string()).collect()
}

#[test]
fn parses_explicit_invocation() {
    let params = parse_open_workspace_args(
        &[
            "w1".into(),
            "--opener".into(),
            "zed".into(),
            "--invocation-id".into(),
            "invoke-1".into(),
        ],
        None,
    )
    .unwrap();
    assert_eq!(params.workspace_id, "w1");
    assert_eq!(params.opener.as_deref(), Some("zed"));
    assert_eq!(
        params.target,
        ClientTarget::Invocation {
            invocation_id: "invoke-1".into()
        }
    );
}

#[test]
fn rejects_conflicting_targets() {
    assert!(parse_open_workspace_args(
        &[
            "w1".into(),
            "--foreground".into(),
            "--invocation-id".into(),
            "invoke-1".into(),
        ],
        None,
    )
    .unwrap_err()
    .contains("cannot be combined"));
}

#[test]
fn conflicting_targets_are_refused_in_either_order() {
    let args = strings(&["w1", "--invocation-id", "a", "--opener", "zed", "--foreground"]);
    assert_eq!(
        parse_open_workspace_args(&args, None).unwrap_err(),
        "--foreground and --invocation-id cannot be combined"
    );
}

#[test]
fn the_last_value_of_an_option_counts() {
    let args = strings(&[
        "w1",
        "--opener",
        "a",
        "--invocation-id",
        "1",
        "--opener",
        "b",
        "--invocation-id",
        "2",
    ]);
    let params = parse_open_workspace_args(&args, None).unwrap();
    assert_eq!(params.opener.as_deref(), Some("b"));
    assert_eq!(
        params.target,
        ClientTarget::Invocation {
            invocation_id: "2".into()
        }
    );
}

#[test]
fn option_values_may_look_like_options() {
    let args = strings(&["--foreground", "--opener", "--foreground"]);
    let params = parse_open_workspace_args(&args, None).unwrap();
    assert_eq!(params.workspace_id, "--foreground");
    assert_eq!(params.opener.as_deref(), Some("--foreground"));
    assert_eq!(params.target, ClientTarget::Foreground);
}

#[test]
fn the_invoking_client_is_the_target_unless_options_say_otherwise() {
    let token = Some("endpoint:b:1".to_string());
    let invocation = |id: &str| ClientTarget::Invocation {
        invocation_id: id.to_string(),
    };
    let target = |args: &[&str], token: Option<String>| {
        parse_open_workspace_args(&strings(args), token).unwrap().target
    };
    assert_eq!(target(&["w1"], token.clone()), invocation("endpoint:b:1"));
    assert_eq!(
        target(&["w1", "--invocation-id", "x"], token.clone()),
        invocation("x")
    );
    assert_eq!(
        target(&["w1", "--foreground"], token),
        ClientTarget::Foreground
    );
    assert_eq!(target(&["w1"], None), ClientTarget::Foreground);
    assert_eq!(
        target(&["w1"], Some(" \n".to_string())),
        ClientTarget::Foreground
    );
    assert_eq!(plugin_invocation_token(Some("".to_string())), None);
    assert_eq!(
        plugin_invocation_token(Some(" t".to_string())).as_deref(),
        Some(" t")
    );
}

#[test]
fn help_and_mistakes_are_answered_with_a_message() {
    let help = "usage: herdr open-workspace <workspace-id> [--opener zed] [--invocation-id TOKEN|--foreground]";
    assert_eq!(usage(), help);
    let refused = |args: &[&str]| parse_open_workspace_args(&strings(args), None).unwrap_err();
    assert_eq!(refused(&[]), help);
    assert_eq!(refused(&["help", "--bogus"]), help);
    assert_eq!(refused(&["--help"]), help);
    assert_eq!(refused(&["-h"]), help);
    assert_eq!(refused(&["w1", "--opener"]), "missing value for --opener");
    assert_eq!(
        refused(&["w1", "--invocation-id"]),
        "missing value for --invocation-id"
    );
    assert_eq!(
        refused(&["w1", "--bogus"]),
        format!("unknown option: --bogus\n{help}")
    );
}

#[test]
fn the_command_sends_one_request_or_reports_why_not() {
    let request = open_workspace_request(&strings(&["w1"]), None).unwrap();
    assert_eq!(request.id, "cli:open-workspace");
    assert!(matches!(request.method, Method::ClientOpenWorkspace(params) if params.workspace_id == "w1"));
    assert_eq!(
        open_workspace_request(&strings(&["w1", "--opener"]), None).unwrap_err(),
        CommandReport {
            exit_code: 2,
            text: "missing value for --opener".to_string(),
            to_stderr: true,
        }
    );
}

fn report(json: &str) -> (i32, String, bool) {
    let value: serde_json::Value = serde_json::from_str(json).unwrap();
    let report = report_open_workspace_response(&value);
    (report.exit_code, report.text, report.to_stderr)
}

#[test]
fn responses_are_reported_by_their_outcome() {
    assert_eq!(
        report(r#"{ "result": { "opened": true } }"#),
        (0, r#"{"result":{"opened":true}}"#.to_string(), false)
    );
    assert_eq!(
        report(r#"{"result":{"opened":false}}"#),
        (1, r#"{"result":{"opened":false}}"#.to_string(), true)
    );
    assert_eq!(
        report(r#"{"result":{"opened":"true"}}"#),
        (1, r#"{"result":{"opened":"true"}}"#.to_string(), true)
    );
    assert_eq!(
        report(r#"{"error":null,"result":{"opened":true}}"#),
        (1, r#"{"error":null,"result":{"opened":true}}"#.to_string(), true)
    );
    assert_eq!(report("[1, 2]"), (1, "[1,2]".to_string(), true));
}

#[test]
fn a_response_succeeds_only_when_opened_without_error() {
    assert!(response_is_success(false, Some(true)));
    assert!(!response_is_success(true, Some(true)));
    assert!(!response_is_success(false, Some(false)));
    assert!(!response_is_success(false, None));
}
