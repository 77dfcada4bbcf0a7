//! The requests and responses of the `client.open_workspace` API.

use vstd::prelude::*;

use crate::text::option_view;

verus! {

/// What a caller asks for: a workspace to open, how, and on which client.
#[derive(Debug, Clone, PartialEq, Eq)]
pub struct ClientOpenWorkspaceParams {
    pub workspace_id: String,
    pub opener: Option<String>,
    pub target: ClientTarget,
}

/// The client that a request is meant for.
#[derive(Debug, Clone, PartialEq, Eq)]
pub enum ClientTarget {
    /// The client in the foreground.
    Foreground,
    /// The client from which a command was invoked.
    Invocation { invocation_id: String },
}

/// How a request ended.
#[derive(Debug, Clone, Copy, PartialEq, Eq, Structural)]
pub enum ClientOpenWorkspaceReason {
    Opened,
    NoTargetClient,
    UnsupportedClient,
    EndpointMismatch,
    WorkspaceNotFound,
    InvalidPath,
    UnsupportedOpener,
    LaunchFailed,
    TimedOut,
}

/// What a request asks the server to do.
#[derive(Debug, Clone, PartialEq, Eq)]
pub enum Method {
    /// Open a workspace on a client.
    ClientOpenWorkspace(ClientOpenWorkspaceParams),
    /// Anything else.
    Other,
}

/// A request to the server's API.
#[derive(Debug, Clone, PartialEq, Eq)]
pub struct Request {
    pub id: String,
    pub method: Method,
}

/// What a successful call returns.
#[derive(Debug, Clone, PartialEq, Eq)]
pub enum ResponseResult {
    /// The outcome of opening a workspace on a client.
    ClientOpenWorkspace {
        opened: bool,
        reason: ClientOpenWorkspaceReason,
        message: Option<String>,
    },
}

/// The answer to the request with the same `id`.
#[derive(Debug, Clone, PartialEq, Eq)]
pub struct SuccessResponse {
    pub id: String,
    pub result: ResponseResult,
}

/// The model of [`ClientTarget`].
pub enum ClientTargetView {
    Foreground,
    Invocation { invocation_id: Seq<char> },
}

/// The model of [`ClientOpenWorkspaceParams`].
pub struct ClientOpenWorkspaceParamsView {
    pub workspace_id: Seq<char>,
    pub opener: Option<Seq<char>>,
    pub target: ClientTargetView,
}

/// The model of [`SuccessResponse`], of which opening a workspace is the only kind.
pub struct SuccessResponseView {
    pub id: Seq<char>,
    pub opened: bool,
    pub reason: ClientOpenWorkspaceReason,
    pub message: Option<Seq<char>>,
}

impl View for ClientTarget {
    type V = ClientTargetView;

    open spec fn view(&self) -> ClientTargetView {
        match self {
            ClientTarget::Foreground => ClientTargetView::Foreground,
            ClientTarget::Invocation { invocation_id } => ClientTargetView::Invocation {
                invocation_id: invocation_id@,
            },
        }
    }
}

impl View for ClientOpenWorkspaceParams {
    type V = ClientOpenWorkspaceParamsView;

    open spec fn view(&self) -> ClientOpenWorkspaceParamsView {
        ClientOpenWorkspaceParamsView {
            workspace_id: self.workspace_id@,
            opener: option_view(self.opener),
            target: self.target@,
        }
    }
}

impl View for SuccessResponse {
    type V = SuccessResponseView;

    open spec fn view(&self) -> SuccessResponseView {
        match self.result {
            ResponseResult::ClientOpenWorkspace { opened, reason, message } => SuccessResponseView {
                id: self.id@,
                opened,
                reason,
                message: option_view(message),
            },
        }
    }
}

impl Default for ClientTarget {
    /// A request that names no target is meant for the client in the foreground.
    fn default() -> (r: Self)
        ensures
            r@ == ClientTargetView::Foreground,
    {
        ClientTarget::Foreground
    }
}

} // verus!
