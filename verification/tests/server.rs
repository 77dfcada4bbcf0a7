use open_workspace::paths::OpenPath;
use open_workspace::pending::{
    open_workspace_response, ApiReply, OpenWorkspaceResponder, PendingClientOpenWorkspace,
    SettledOpenWorkspace,
};
use open_workspace::protocol::{
    EndpointOpenWorkspaceResult, CLIENT_OPEN_WORKSPACE_CAPABILITY,
    CLIENT_OPEN_WORKSPACE_REQUEST_KIND,
};
use open_workspace::schema::{
    ClientOpenWorkspaceParams, ClientOpenWorkspaceReason, ClientTarget, Method, Request,
    ResponseResult, SuccessResponse,
};
use open_workspace::server::{
    refusal_reply, ApiOutcome, ApiRequestMessage, ClientConnection, ClientConnectionMode,
    ClientMessage, HeadlessServer, OpenWorkspaceIntent, OutgoingClientOpenWorkspace, Refusal,
    ResultOutcome, TargetedIntent, Workspace, CLIENT_OPEN_WORKSPACE_TIMEOUT,
};

type Server = HeadlessServer<u32>;

fn workspace(id: &str, path: Option<&str>) -> Workspace {
    Workspace {
        id: id.to_string(),
        checkout_path: None,
        identity_cwd: path.map(OpenPath::new),
    }
}

fn shell() -> ClientConnection {
    ClientConnection {
        mode: ClientConnectionMode::ClientShell,
        endpoint_capabilities: vec!["other".to_string(), CLIENT_OPEN_WORKSPACE_CAPABILITY.into()],
        has_writer: true,
    }
}

fn server() -> Server {
    let mut server = HeadlessServer::new("boot".to_string());
    server.workspaces = vec![workspace("project", Some("/repo"))];
    server.clients.insert(7, shell());
    server.foreground_client_id = Some(7);
    server
}

fn message(id: &str, workspace_id: &str, target: ClientTarget) -> ApiRequestMessage<u32> {
    ApiRequestMessage {
        request: Request {
            id: id.into(),
            method: Method::ClientOpenWorkspace(ClientOpenWorkspaceParams {
                workspace_id: workspace_id.to_string(),
                opener: Some("zed".into()),
                target,
            }),
        },
        respond_to: 1,
    }
}

fn outgoing(server: &mut Server, id: &str) -> OutgoingClientOpenWorkspace<u32> {
    match server.handle_client_open_workspace_api(message(id, "project", ClientTarget::Foreground)) {
        ApiOutcome::Outgoing(outgoing) => outgoing,
        other => panic!("expected endpoint control request, got {other:?}"),
    }
}

/// Asks the client in the foreground to open the workspace at the time `now`.
fn ask(server: &mut Server, id: &str, now: u64) -> ClientMessage {
    let outgoing = outgoing(server, id);
    let send = server
        .register_client_open_workspace(outgoing, Ok("data".to_string()), now)
        .unwrap();
    assert_eq!(
        server.confirm_client_open_workspace(&send.request_id, true),
        Ok(())
    );
    send
}

fn opened(request_id: &str) -> EndpointOpenWorkspaceResult {
    EndpointOpenWorkspaceResult {
        request_id: request_id.to_string(),
        opened: true,
        reason: ClientOpenWorkspaceReason::Opened,
        message: None,
    }
}

fn reply(id: &str, opened: bool, reason: ClientOpenWorkspaceReason, message: Option<&str>) -> ApiReply<u32> {
    ApiReply {
        respond_to: 1,
        response: SuccessResponse {
            id: id.to_string(),
            result: ResponseResult::ClientOpenWorkspace {
                opened,
                reason,
                message: message.map(str::to_string),
            },
        },
    }
}

#[test]
fn open_workspace_api_waits_for_the_target_client() {
    let mut server = server();
    let outgoing = outgoing(&mut server, "open-workspace");
    let request = outgoing.request.clone();
    assert_eq!(request.opener.as_deref(), Some("zed"));
    assert!(std::path::Path::new(&request.path).is_absolute());

    let send = server
        .register_client_open_workspace(outgoing, Ok("encoded".to_string()), 0)
        .unwrap();
    assert_eq!(send.client_id, 7);
    assert_eq!(send.message.kind, CLIENT_OPEN_WORKSPACE_REQUEST_KIND);
    assert_eq!(send.message.data, "encoded");
    assert!(server
        .confirm_client_open_workspace(&send.request_id, true)
        .is_ok());

    let outcome = server.handle_client_open_workspace_result(
        7,
        EndpointOpenWorkspaceResult {
            request_id: request.request_id,
            opened: true,
            reason: ClientOpenWorkspaceReason::Opened,
            message: None,
        },
    );
    let response = match outcome {
        ResultOutcome::Settled(Some(reply)) => reply.response,
        other => panic!("expected a reply, got {other:?}"),
    };
    assert_eq!(response.id, "open-workspace");
    assert!(matches!(
        response.result,
        ResponseResult::ClientOpenWorkspace {
            opened: true,
            reason: ClientOpenWorkspaceReason::Opened,
            ..
        }
    ));
}

#[test]
fn open_workspace_api_rejects_an_unsupported_client() {
    let mut server = server();
    server.clients.insert(
        9,
        ClientConnection {
            mode: ClientConnectionMode::Other,
            endpoint_capabilities: Vec::new(),
            has_writer: true,
        },
    );
    server.foreground_client_id = Some(9);
    let outcome = server.handle_client_open_workspace_api(message(
        "open-workspace",
        "project",
        ClientTarget::Foreground,
    ));
    let response = match outcome {
        ApiOutcome::Reply(reply) => reply.response,
        other => panic!("expected a reply, got {other:?}"),
    };
    assert!(matches!(
        response.result,
        ResponseResult::ClientOpenWorkspace {
            opened: false,
            reason: ClientOpenWorkspaceReason::UnsupportedClient,
            ..
        }
    ));
}

#[test]
fn a_message_about_something_else_is_ignored() {
    let mut server = server();
    let outcome = server.handle_client_open_workspace_api(ApiRequestMessage {
        request: Request {
            id: "x".to_string(),
            method: Method::Other,
        },
        respond_to: 1,
    });
    assert_eq!(outcome, ApiOutcome::Ignored);
}

#[test]
fn every_refusal_names_its_reason() {
    let refused = |server: &Server, workspace_id: &str, target: ClientTarget| {
        server
            .prepare_client_open_workspace(workspace_id, &target)
            .unwrap_err()
    };
    let foreground = || ClientTarget::Foreground;

    let mut s = server();
    s.workspaces.push(workspace("bare", None));
    s.workspaces.push(workspace("relative", Some("repo")));
    assert_eq!(
        refused(&s, "nope", foreground()),
        (
            ClientOpenWorkspaceReason::WorkspaceNotFound,
            "workspace not found: nope".to_string()
        )
    );
    assert_eq!(
        refused(&s, "bare", foreground()),
        (
            ClientOpenWorkspaceReason::WorkspaceNotFound,
            "workspace has no resolved directory: bare".to_string()
        )
    );
    assert_eq!(
        refused(&s, "relative", foreground()),
        (
            ClientOpenWorkspaceReason::InvalidPath,
            "workspace path is not absolute: repo".to_string()
        )
    );

    s.foreground_client_id = None;
    assert_eq!(
        refused(&s, "project", foreground()),
        (
            ClientOpenWorkspaceReason::NoTargetClient,
            "no client matches the requested open-workspace target".to_string()
        )
    );
    s.foreground_client_id = Some(12);
    assert_eq!(
        refused(&s, "project", foreground()),
        (
            ClientOpenWorkspaceReason::NoTargetClient,
            "client 12 is no longer connected".to_string()
        )
    );

    s.foreground_client_id = Some(7);
    s.clients.get_mut(&7).unwrap().has_writer = false;
    assert_eq!(
        refused(&s, "project", foreground()),
        (
            ClientOpenWorkspaceReason::NoTargetClient,
            "target client connection is closed".to_string()
        )
    );
    s.clients.get_mut(&7).unwrap().endpoint_capabilities = vec!["other".to_string()];
    assert_eq!(
        refused(&s, "project", foreground()),
        (
            ClientOpenWorkspaceReason::UnsupportedClient,
            "target client does not support client.open_workspace".to_string()
        )
    );
    s.clients.get_mut(&7).unwrap().mode = ClientConnectionMode::Other;
    assert_eq!(
        refused(&s, "project", foreground()),
        (
            ClientOpenWorkspaceReason::UnsupportedClient,
            "target client is not a client shell".to_string()
        )
    );
}

#[test]
fn the_checkout_of_a_worktree_comes_before_the_terminal_directory() {
    let mut server = server();
    server.workspaces[0].checkout_path = Some(OpenPath::new("/checkout"));
    assert_eq!(
        server.workspace_open_path(0),
        Some(OpenPath::new("/checkout"))
    );
    server.workspaces[0].checkout_path = None;
    assert_eq!(server.workspace_open_path(0), Some(OpenPath::new("/repo")));
    assert_eq!(server.workspace_open_path(1), None);
}

#[test]
fn tokens_name_connected_clients_of_this_run() {
    let mut server = server();
    server.foreground_client_id = None;
    let target = |server: &Server, token: &str| {
        server.client_open_workspace_target(&ClientTarget::Invocation {
            invocation_id: token.to_string(),
        })
    };
    assert_eq!(target(&server, "endpoint:boot:7"), Some(7));
    assert_eq!(target(&server, "endpoint:boot:7:pane:3"), Some(7));
    assert_eq!(target(&server, "endpoint:boot:+7"), Some(7));
    assert_eq!(target(&server, "endpoint:boot:8"), None);
    assert_eq!(target(&server, "endpoint:boot:x"), None);
    assert_eq!(target(&server, "endpoint:boot"), None);
    assert_eq!(target(&server, "endpoint:other:7"), None);
    assert_eq!(target(&server, "boot:7"), None);
    assert_eq!(
        server.client_open_workspace_target(&ClientTarget::Foreground),
        None
    );
    server.client_shell_boot_id = "bo:ot".to_string();
    assert_eq!(target(&server, "endpoint:bo:ot:7"), None);
}

#[test]
fn identifiers_are_numbered() {
    let mut server = server();
    assert_eq!(
        server.next_client_open_workspace_request_id(),
        "client-open-workspace-1"
    );
    assert_eq!(
        outgoing(&mut server, "a").request.request_id,
        "client-open-workspace-2"
    );
    let outgoing = outgoing(&mut server, "b");
    assert_eq!(outgoing.request.request_id, "client-open-workspace-3");
    assert_eq!(outgoing.request.endpoint_boot_id, "boot");
    assert_eq!(outgoing.request.path, "/repo");
}

#[test]
fn a_request_that_cannot_be_encoded_is_answered_at_once() {
    let mut server = server();
    let outgoing = outgoing(&mut server, "a");
    let refusal: Refusal<u32> = server
        .register_client_open_workspace(outgoing, Err("too deep".to_string()), 0)
        .unwrap_err();
    assert_eq!(
        refusal_reply(refusal),
        Some(reply(
            "a",
            false,
            ClientOpenWorkspaceReason::LaunchFailed,
            Some("failed to encode open-workspace request: too deep")
        ))
    );
    assert_eq!(
        server.handle_client_open_workspace_result(7, opened("client-open-workspace-1")),
        ResultOutcome::Stale
    );
}

#[test]
fn a_request_that_cannot_be_sent_leaves_nothing_behind() {
    let mut server = server();
    let first = ask(&mut server, "first", 0);
    let outgoing = outgoing(&mut server, "second");
    let send = server
        .register_client_open_workspace(outgoing, Ok("data".to_string()), 0)
        .unwrap();
    let refusal = server
        .confirm_client_open_workspace(&send.request_id, false)
        .unwrap_err();
    assert_eq!(
        refusal_reply(refusal),
        Some(reply(
            "second",
            false,
            ClientOpenWorkspaceReason::NoTargetClient,
            Some("client connection is closed")
        ))
    );
    assert_eq!(
        server.confirm_client_open_workspace(&send.request_id, false),
        Ok(())
    );
    assert_eq!(
        server.handle_client_open_workspace_result(7, opened(&send.request_id)),
        ResultOutcome::Stale
    );
    assert_eq!(
        server.handle_client_open_workspace_result(7, opened(&first.request_id)),
        ResultOutcome::Settled(Some(reply(
            "first",
            true,
            ClientOpenWorkspaceReason::Opened,
            None
        )))
    );
}

#[test]
fn only_the_asked_client_settles_a_request_and_only_once() {
    let mut server = server();
    let send = ask(&mut server, "a", 0);
    assert_eq!(
        server.handle_client_open_workspace_result(8, opened(&send.request_id)),
        ResultOutcome::WrongClient
    );
    let failed = EndpointOpenWorkspaceResult {
        request_id: send.request_id.clone(),
        opened: false,
        reason: ClientOpenWorkspaceReason::EndpointMismatch,
        message: Some("elsewhere".to_string()),
    };
    assert_eq!(
        server.handle_client_open_workspace_result(7, failed),
        ResultOutcome::Settled(Some(reply(
            "a",
            false,
            ClientOpenWorkspaceReason::EndpointMismatch,
            Some("elsewhere")
        )))
    );
    assert_eq!(
        server.handle_client_open_workspace_result(7, opened(&send.request_id)),
        ResultOutcome::Stale
    );
}

#[test]
fn requests_expire_when_their_time_is_over() {
    let mut server = server();
    let first = ask(&mut server, "first", 10);
    let second = ask(&mut server, "second", 20);
    assert_eq!(CLIENT_OPEN_WORKSPACE_TIMEOUT, 15_000_000_000);
    assert_eq!(
        server.expire_client_open_workspace_requests(15_000_000_009),
        Vec::new()
    );
    assert_eq!(
        server.expire_client_open_workspace_requests(15_000_000_010),
        vec![SettledOpenWorkspace {
            request_id: first.request_id,
            reply: Some(reply(
                "first",
                false,
                ClientOpenWorkspaceReason::TimedOut,
                Some("the target client did not answer in time")
            )),
        }]
    );
    assert!(matches!(
        server.handle_client_open_workspace_result(7, opened(&second.request_id)),
        ResultOutcome::Settled(Some(_))
    ));
    assert_eq!(
        server.expire_client_open_workspace_requests(u64::MAX),
        Vec::new()
    );
}

#[test]
fn a_disconnect_settles_the_requests_of_that_client() {
    let mut server = server();
    server.clients.insert(8, shell());
    let first = ask(&mut server, "first", 0);
    server.foreground_client_id = Some(8);
    let other = ask(&mut server, "other", 0);
    server.foreground_client_id = Some(7);
    let keybinding = server
        .request_client_open_workspace(
            "project",
            None,
            &ClientTarget::Foreground,
            OpenWorkspaceResponder::Keybind,
        )
        .unwrap();
    let keybinding = server
        .register_client_open_workspace(keybinding, Ok("data".to_string()), 0)
        .unwrap();
    assert_eq!(
        server.fail_client_open_workspaces_for_disconnected_client(7),
        vec![
            SettledOpenWorkspace {
                request_id: first.request_id,
                reply: Some(reply(
                    "first",
                    false,
                    ClientOpenWorkspaceReason::NoTargetClient,
                    Some("the target client disconnected before answering")
                )),
            },
            SettledOpenWorkspace {
                request_id: keybinding.request_id,
                reply: None,
            },
        ]
    );
    assert!(matches!(
        server.handle_client_open_workspace_result(8, opened(&other.request_id)),
        ResultOutcome::Settled(Some(_))
    ));
}

#[test]
fn keybindings_are_taken_up_with_their_target() {
    let mut server = server();
    let intent = |token: Option<&str>| OpenWorkspaceIntent {
        workspace_id: "project".to_string(),
        opener: "zed".to_string(),
        invoking_client_token: token.map(str::to_string),
    };
    let targeted = |target: ClientTarget| TargetedIntent {
        workspace_id: "project".to_string(),
        opener: "zed".to_string(),
        target,
    };
    server.pending_client_open_workspace =
        vec![intent(Some("endpoint:boot:7")), intent(Some("pane:1")), intent(None)];
    assert_eq!(
        server.drain_client_open_workspace_intents(),
        vec![
            targeted(ClientTarget::Invocation {
                invocation_id: "endpoint:boot:7".to_string()
            }),
            targeted(ClientTarget::Foreground),
            targeted(ClientTarget::Foreground),
        ]
    );
    assert_eq!(server.drain_client_open_workspace_intents(), Vec::new());
}

#[test]
fn keybindings_are_requested_in_order_and_answer_nobody() {
    let mut server = server();
    let intent = |workspace_id: &str, opener: &str| OpenWorkspaceIntent {
        workspace_id: workspace_id.to_string(),
        opener: opener.to_string(),
        invoking_client_token: None,
    };
    server.pending_client_open_workspace =
        vec![intent("project", "first"), intent("nope", "second"), intent("project", "third")];
    let mut intents = server.drain_client_open_workspace_intents();

    let (intent, result) = server.request_next_intent(&mut intents).unwrap();
    assert_eq!(intent.opener, "first");
    let first = result.unwrap();
    assert_eq!(first.request.opener.as_deref(), Some("first"));
    assert_eq!(first.responder, OpenWorkspaceResponder::Keybind);

    let (intent, result) = server.request_next_intent(&mut intents).unwrap();
    assert_eq!(intent.opener, "second");
    let (reason, message, responder) = result.unwrap_err();
    assert_eq!(reason, ClientOpenWorkspaceReason::WorkspaceNotFound);
    assert_eq!(message, "workspace not found: nope");
    assert_eq!(responder, OpenWorkspaceResponder::Keybind);

    let (intent, result) = server.request_next_intent(&mut intents).unwrap();
    assert_eq!(intent.opener, "third");
    assert_eq!(result.unwrap().request.request_id, "client-open-workspace-2");
    assert_eq!(server.request_next_intent(&mut intents), None);

    let send = server
        .register_client_open_workspace(first, Ok("data".to_string()), 0)
        .unwrap();
    assert_eq!(
        server.handle_client_open_workspace_result(7, opened(&send.request_id)),
        ResultOutcome::Settled(None)
    );
}

#[test]
fn a_targeted_intent_is_requested_with_its_opener() {
    let mut server = server();
    let intent = TargetedIntent {
        workspace_id: "project".to_string(),
        opener: "zed".to_string(),
        target: ClientTarget::Foreground,
    };
    let outgoing = server.request_targeted_intent(&intent).unwrap();
    assert_eq!(outgoing.client_id, 7);
    assert_eq!(outgoing.request.opener.as_deref(), Some("zed"));
    assert_eq!(outgoing.responder, OpenWorkspaceResponder::Keybind);
}

#[test]
fn a_refused_keybinding_has_nobody_to_answer() {
    let mut server = server();
    let refusal = server
        .request_client_open_workspace(
            "nope",
            Some("zed"),
            &ClientTarget::Foreground,
            OpenWorkspaceResponder::Keybind,
        )
        .unwrap_err();
    assert_eq!(refusal.0, ClientOpenWorkspaceReason::WorkspaceNotFound);
    assert_eq!(refusal_reply(refusal), None);
}

#[test]
fn the_responder_of_a_pending_request_is_its_caller() {
    let pending = |api_id: Option<&str>, respond_to: Option<u32>| PendingClientOpenWorkspace {
        client_id: 7,
        api_id: api_id.map(str::to_string),
        respond_to,
        deadline: 0,
    };
    assert_eq!(
        pending(Some("a"), Some(1)).into_responder(),
        OpenWorkspaceResponder::Api {
            id: "a".to_string(),
            respond_to: 1
        }
    );
    assert_eq!(
        pending(None, None).into_responder(),
        OpenWorkspaceResponder::Keybind
    );
    assert_eq!(
        pending(Some("a"), None).into_responder(),
        OpenWorkspaceResponder::Keybind
    );
}

#[test]
fn responses_carry_the_outcome_and_a_request_names_the_foreground_by_default() {
    assert_eq!(
        open_workspace_response(
            "a".to_string(),
            true,
            ClientOpenWorkspaceReason::Opened,
            Some("m".to_string())
        ),
        reply("a", true, ClientOpenWorkspaceReason::Opened, Some("m")).response
    );
    assert_eq!(ClientTarget::default(), ClientTarget::Foreground);
}
