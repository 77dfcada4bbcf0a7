use open_workspace::client::{
    launch_failure, open_path_argv, open_workspace_argv, open_workspace_argv_with_remote_target,
    remote_ssh_uri, standalone_remote_target, ClientEndpointId, EndpointCatalog, SshProfile,
};
use open_workspace::paths::OpenPath;
use open_workspace::schema::ClientOpenWorkspaceReason;

fn catalog() -> (EndpointCatalog, ClientEndpointId) {
    let catalog = EndpointCatalog {
        profiles: vec![SshProfile {
            id: "build".to_string(),
            target: "dev@build.example:2222".to_string(),
        }],
    };
    (catalog, ClientEndpointId::Ssh("build".to_string()))
}

#[test]
fn local_workspace_uses_the_local_path() {
    let argv = open_workspace_argv_with_remote_target(
        &ClientEndpointId::Local,
        &catalog().0,
        "/repo",
        None,
        None,
        None,
    )
    .unwrap();
    assert_eq!(argv[1..], ["-n", "/repo"]);
}

#[test]
fn standalone_remote_workspace_uses_the_attach_target() {
    let argv = open_workspace_argv_with_remote_target(
        &ClientEndpointId::Local,
        &catalog().0,
        "/repo",
        None,
        Some("workbox"),
        None,
    )
    .unwrap();
    assert_eq!(argv[1..], ["-n", "ssh://workbox/repo"]);
}

#[test]
fn remote_workspace_uses_the_saved_ssh_target() {
    let (catalog, endpoint_id) = catalog();
    let argv = open_workspace_argv(
        &endpoint_id,
        &catalog,
        "/home/me/project",
        Some("zed"),
        None,
        None,
    )
    .unwrap();
    assert_eq!(
        argv[1..],
        ["-n", "ssh://dev@build.example:2222/home/me/project"]
    );
}

#[test]
fn relative_paths_and_unknown_openers_are_rejected() {
    assert_eq!(
        open_workspace_argv(
            &ClientEndpointId::Local,
            &catalog().0,
            "repo",
            None,
            None,
            None
        )
        .unwrap_err()
        .0,
        ClientOpenWorkspaceReason::InvalidPath
    );
    assert_eq!(
        open_workspace_argv(
            &ClientEndpointId::Local,
            &catalog().0,
            "/repo",
            Some("unknown"),
            None,
            None,
        )
        .unwrap_err()
        .0,
        ClientOpenWorkspaceReason::UnsupportedOpener
    );
}

#[test]
fn the_editor_comes_from_the_environment_unless_blank() {
    let program = |zed_bin: Option<&str>| {
        open_workspace_argv(
            &ClientEndpointId::Local,
            &catalog().0,
            "/repo",
            None,
            None,
            zed_bin.map(str::to_string),
        )
        .unwrap()[0]
            .clone()
    };
    assert_eq!(program(None), "zed");
    assert_eq!(program(Some(" \t")), "zed");
    assert_eq!(program(Some("/opt/zed")), "/opt/zed");
}

#[test]
fn a_blank_attach_target_counts_for_nothing() {
    let location = |target: &str| {
        open_workspace_argv(
            &ClientEndpointId::Local,
            &catalog().0,
            "/repo",
            None,
            Some(target.to_string()),
            None,
        )
        .unwrap()[2]
            .clone()
    };
    assert_eq!(location("  "), "/repo");
    assert_eq!(location("workbox"), "ssh://workbox/repo");
    assert_eq!(standalone_remote_target(Some(" ".to_string())), None);
    assert_eq!(standalone_remote_target(None), None);
}

#[test]
fn refusals_come_with_their_message() {
    let (catalog, endpoint_id) = catalog();
    let unknown = ClientEndpointId::Ssh("gone".to_string());
    let refused = |endpoint: &ClientEndpointId, path: &str, opener: Option<&str>| {
        open_path_argv(endpoint, &catalog, &OpenPath::new(path), opener, None, None).unwrap_err()
    };
    assert_eq!(
        refused(&endpoint_id, "repo", Some("vim")),
        (
            ClientOpenWorkspaceReason::InvalidPath,
            "workspace path is not absolute: repo".to_string()
        )
    );
    assert_eq!(
        refused(&unknown, "/repo", Some("vim")),
        (
            ClientOpenWorkspaceReason::UnsupportedOpener,
            "unsupported workspace opener: vim".to_string()
        )
    );
    assert_eq!(
        refused(&unknown, "/repo", Some("zed")),
        (
            ClientOpenWorkspaceReason::LaunchFailed,
            "saved SSH target is unavailable for the active endpoint".to_string()
        )
    );
    assert_eq!(
        launch_failure("zed", "not found"),
        (
            ClientOpenWorkspaceReason::LaunchFailed,
            "failed to launch zed: not found".to_string()
        )
    );
}

#[test]
fn ssh_uris_have_one_slash_before_the_path() {
    assert_eq!(remote_ssh_uri("host", "/a/b"), "ssh://host/a/b");
    assert_eq!(remote_ssh_uri("ssh://host", "/a"), "ssh://host/a");
    assert_eq!(remote_ssh_uri("host//", "/a"), "ssh://host/a");
    assert_eq!(remote_ssh_uri("ssh://host/", "a"), "ssh://host/a");
    assert_eq!(remote_ssh_uri("ssh://ssh://x", "/a"), "ssh://ssh://x/a");
    assert_eq!(remote_ssh_uri("ssh:/", "/a"), "ssh://ssh:/a");
    assert_eq!(remote_ssh_uri("ssh://", "/a"), "ssh:///a");
    assert_eq!(remote_ssh_uri("", ""), "ssh:///");
}

#[test]
fn the_first_profile_with_an_identifier_counts() {
    let (mut catalog, endpoint_id) = catalog();
    catalog.profiles.push(SshProfile {
        id: "build".to_string(),
        target: "other".to_string(),
    });
    assert_eq!(
        catalog.target_for_endpoint(&endpoint_id),
        Some("dev@build.example:2222")
    );
    assert_eq!(catalog.target_for_endpoint(&ClientEndpointId::Local), None);
}

#[test]
fn absolute_paths_are_those_of_the_platform() {
    for text in ["", "repo", "repo/sub", "./repo", "/repo", "/", "\\repo", "\\\\host\\repo", "c:\\repo", "1:/repo"] {
        let path = OpenPath::new(text);
        assert_eq!(path.as_str(), text);
        assert_eq!(path.is_absolute(), std::path::Path::new(text).is_absolute());
        assert_eq!(path.clone(), path);
    }
}
