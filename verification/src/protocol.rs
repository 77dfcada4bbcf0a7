//! The messages between the server and a client about opening a workspace.

use vstd::prelude::*;

use crate::schema::ClientOpenWorkspaceReason;
use crate::text::option_view;

verus! {

/// The capability of a client that can open workspaces.
pub const CLIENT_OPEN_WORKSPACE_CAPABILITY: &'static str = "client.open_workspace";

/// The kind of a control message that asks a client to open a workspace.
pub const CLIENT_OPEN_WORKSPACE_REQUEST_KIND: &'static str = "client.open_workspace.request";

/// Asks a client to open a workspace.
#[derive(Debug, Clone, PartialEq, Eq)]
pub struct EndpointOpenWorkspaceRequest {
    pub request_id: String,
    pub endpoint_boot_id: String,
    pub path: String,
    pub opener: Option<String>,
}

/// A client's answer to the request with the same `request_id`.
#[derive(Debug, Clone, PartialEq, Eq)]
pub struct EndpointOpenWorkspaceResult {
    pub request_id: String,
    pub opened: bool,
    pub reason: ClientOpenWorkspaceReason,
    pub message: Option<String>,
}

/// A control message to a client.
#[derive(Debug, Clone, PartialEq, Eq)]
pub struct EndpointControl {
    pub kind: String,
    pub data: String,
}

/// The model of [`EndpointOpenWorkspaceRequest`].
pub struct EndpointOpenWorkspaceRequestView {
    pub request_id: Seq<char>,
    pub endpoint_boot_id: Seq<char>,
    pub path: Seq<char>,
    pub opener: Option<Seq<char>>,
}

impl View for EndpointOpenWorkspaceRequest {
    type V = EndpointOpenWorkspaceRequestView;

    open spec fn view(&self) -> EndpointOpenWorkspaceRequestView {
        EndpointOpenWorkspaceRequestView {
            request_id: self.request_id@,
            endpoint_boot_id: self.endpoint_boot_id@,
            path: self.path@,
            opener: option_view(self.opener),
        }
    }
}

} // verus!
