//! The server's part in opening a workspace: it finds the client that a request
//! is meant for, asks it, and sees to it that the caller gets an answer.
//!
//! The server decides and its surroundings act. [`HeadlessServer::request_client_open_workspace`]
//! yields a request to encode; [`HeadlessServer::register_client_open_workspace`] takes the
//! encoded request and yields a message to send; and
//! [`HeadlessServer::confirm_client_open_workspace`] takes whether it could be sent. Times are
//! nanoseconds on a clock that never goes back.

use std::collections::HashMap;

use vstd::prelude::*;

use crate::paths::{begins_absolute, OpenPath};
use crate::pending::{
    all_given_up, api_id_of, give_up, inserted, lookup, next_after, remaining, removed,
    reply_view, request_id, respond_to_of, responder_of, selected, settled_views, told, was_issued,
    ApiReply,
    OpenWorkspaceResponder, PendingClientOpenWorkspace, PendingRequests, PendingView,
    ResponderView, Selection, SettledOpenWorkspace,
};
use crate::pending_laws::{
    disconnect_concerns_the_requests_of_its_client, expiry_concerns_the_requests_that_are_due,
    only_due_requests_are_given_up, only_the_disconnected_client_gives_up,
};
use crate::protocol::{
    EndpointControl, EndpointOpenWorkspaceRequest, EndpointOpenWorkspaceRequestView,
    EndpointOpenWorkspaceResult, CLIENT_OPEN_WORKSPACE_CAPABILITY,
    CLIENT_OPEN_WORKSPACE_REQUEST_KIND,
};
use crate::schema::{
    ClientOpenWorkspaceReason, ClientTarget, ClientTargetView, Method, Request,
};
use crate::text::{
    chars, decimal, find, find_char, option_str_view, option_view, parse_u64, parsed_u64, same,
    starts_with, strip_prefix, to_decimal, without_prefix,
};

verus! {

broadcast use vstd::std_specs::hash::group_hash_axioms;

/// How long a client may take to answer, in nanoseconds.
pub const CLIENT_OPEN_WORKSPACE_TIMEOUT: u64 = 15_000_000_000;

/// A workspace, as far as opening it on a client is concerned.
#[derive(Debug, Clone, PartialEq, Eq)]
pub struct Workspace {
    /// The identifier that callers name it by.
    pub id: String,
    /// Where its worktree is checked out.
    pub checkout_path: Option<OpenPath>,
    /// The directory that its terminals resolve to.
    pub identity_cwd: Option<OpenPath>,
}

/// What kind of connection a client has.
#[derive(Debug, Clone, Copy, PartialEq, Eq, Structural)]
pub enum ClientConnectionMode {
    /// A shell that runs on the client and can act there.
    ClientShell,
    /// Any other kind.
    Other,
}

/// A client, as far as opening a workspace on it is concerned.
#[derive(Debug, Clone, PartialEq, Eq)]
pub struct ClientConnection {
    pub mode: ClientConnectionMode,
    pub endpoint_capabilities: Vec<String>,
    /// Whether messages can still be written to the client.
    pub has_writer: bool,
}

/// A keybinding's wish to open a workspace.
#[derive(Debug, Clone, PartialEq, Eq)]
pub struct OpenWorkspaceIntent {
    pub workspace_id: String,
    pub opener: String,
    pub invoking_client_token: Option<String>,
}

/// A keybinding's wish together with the client it is meant for.
#[derive(Debug, Clone, PartialEq, Eq)]
pub struct TargetedIntent {
    pub workspace_id: String,
    pub opener: String,
    pub target: ClientTarget,
}

/// A request of the API and the way back to its caller.
#[derive(Debug, Clone, PartialEq, Eq)]
pub struct ApiRequestMessage<R> {
    pub request: Request,
    pub respond_to: R,
}

/// The client that is to open a path.
#[derive(Debug, Clone, PartialEq, Eq)]
pub struct PreparedClientOpenWorkspace {
    pub client_id: u64,
    pub path: OpenPath,
}

/// A request that has an identifier and is to be encoded.
#[derive(Debug, Clone, PartialEq, Eq)]
pub struct OutgoingClientOpenWorkspace<R> {
    pub client_id: u64,
    pub request: EndpointOpenWorkspaceRequest,
    pub responder: OpenWorkspaceResponder<R>,
}

/// A message that is to be sent to a client.
#[derive(Debug, Clone, PartialEq, Eq)]
pub struct ClientMessage {
    pub client_id: u64,
    pub request_id: String,
    pub message: EndpointControl,
}

/// What a message of the API leads to.
#[derive(Debug, Clone, PartialEq, Eq)]
pub enum ApiOutcome<R> {
    /// It is not about opening a workspace.
    Ignored,
    /// A request is to be encoded for a client.
    Outgoing(OutgoingClientOpenWorkspace<R>),
    /// The caller is answered at once.
    Reply(ApiReply<R>),
}

/// What a client's answer leads to.
#[derive(Debug, Clone, PartialEq, Eq)]
pub enum ResultOutcome<R> {
    /// No request waits under this identifier.
    Stale,
    /// The request waits for another client.
    WrongClient,
    /// The request is settled, and its caller is answered if it has one.
    Settled(Option<ApiReply<R>>),
}

/// Why a request was not carried out, and who is to be told.
pub type Refusal<R> = (ClientOpenWorkspaceReason, String, OpenWorkspaceResponder<R>);

/// The model of [`Refusal`].
pub type RefusalView<R> = (ClientOpenWorkspaceReason, Seq<char>, ResponderView<R>);

/// The model of a refusal.
pub open spec fn refusal_view<R>(refusal: Refusal<R>) -> RefusalView<R> {
    (refusal.0, refusal.1@, refusal.2@)
}

/// The server, as far as opening workspaces on clients is concerned.
#[derive(Debug)]
pub struct HeadlessServer<R> {
    pub workspaces: Vec<Workspace>,
    pub clients: HashMap<u64, ClientConnection>,
    pub foreground_client_id: Option<u64>,
    /// Identifies this run of the server to its clients.
    pub client_shell_boot_id: String,
    /// What keybindings have asked for since the last time it was taken up.
    pub pending_client_open_workspace: Vec<OpenWorkspaceIntent>,
    /// The requests that clients have been asked and have not answered yet.
    pub pending_client_open_workspaces: PendingRequests<R>,
}

/// The client that a token names: `endpoint:`, the server's boot identifier, a colon
/// and the number of the client, and whatever follows behind a further colon.
pub open spec fn token_client(token: Seq<char>, boot_id: Seq<char>) -> Option<u64> {
    match without_prefix(token, "endpoint:"@) {
        Some(rest) => match find(rest, ':', 0) {
            Some(i) => if rest.take(i) == boot_id {
                let tail = rest.skip(i + 1);
                parsed_u64(
                    match find(tail, ':', 0) {
                        Some(j) => tail.take(j),
                        None => tail,
                    },
                )
            } else {
                None
            },
            None => None,
        },
        None => None,
    }
}

/// Reads the client that a token names.
fn client_of_token(token: &str, boot_id: &str) -> (r: Option<u64>)
    ensures
        r == token_client(token@, boot_id@),
{
    let rest = match strip_prefix(token, "endpoint:") {
        Some(rest) => rest,
        None => return None,
    };
    let v = chars(rest);
    let i = match find_char(&v, ':', 0) {
        Some(i) => i,
        None => return None,
    };
    assert(rest@.subrange(0, i as int) =~= rest@.take(i as int));
    if !same(rest.substring_char(0, i), boot_id) {
        return None;
    }
    assert(rest@.subrange(i + 1, rest@.len() as int) =~= rest@.skip(i + 1));
    let tail = rest.substring_char(i + 1, v.len());
    let w = chars(tail);
    match find_char(&w, ':', 0) {
        Some(j) => {
            assert(tail@.subrange(0, j as int) =~= tail@.take(j as int));
            parse_u64(tail.substring_char(0, j))
        },
        None => parse_u64(tail),
    }
}

/// The client that a keybinding is meant for: the one that `token` names as an
/// endpoint, else the one in the foreground.
pub open spec fn intent_target(token: Option<Seq<char>>) -> ClientTargetView {
    match token {
        Some(token) => if "endpoint:"@.is_prefix_of(token) {
            ClientTargetView::Invocation { invocation_id: token }
        } else {
            ClientTargetView::Foreground
        },
        None => ClientTargetView::Foreground,
    }
}

/// Whether `targeted` is what becomes of `intent`.
pub open spec fn is_targeted(intent: OpenWorkspaceIntent, targeted: TargetedIntent) -> bool {
    &&& targeted.workspace_id@ == intent.workspace_id@
    &&& targeted.opener@ == intent.opener@
    &&& targeted.target@ == intent_target(option_view(intent.invoking_client_token))
}

/// The first position from `from` on of a workspace with the identifier `id`.
pub open spec fn workspace_position(
    workspaces: Seq<Workspace>,
    id: Seq<char>,
    from: int,
) -> Option<int>
    decreases workspaces.len() - from,
{
    if from < 0 || from >= workspaces.len() {
        None
    } else if workspaces[from].id@ == id {
        Some(from)
    } else {
        workspace_position(workspaces, id, from + 1)
    }
}

/// The path of the workspace at `index`: where its worktree is checked out, else
/// the directory that its terminals resolve to.
pub open spec fn open_path(workspaces: Seq<Workspace>, index: int) -> Option<OpenPath> {
    if 0 <= index < workspaces.len() {
        match workspaces[index].checkout_path {
            Some(path) => Some(path),
            None => workspaces[index].identity_cwd,
        }
    } else {
        None
    }
}

/// Whether the client has the capability `capability`.
pub open spec fn has_capability(client: ClientConnection, capability: Seq<char>) -> bool {
    exists|i: int|
        0 <= i < client.endpoint_capabilities@.len() && (
        #[trigger] client.endpoint_capabilities@[i])@ == capability
}

impl ClientConnection {
    /// Whether the client has the capability `capability`.
    pub fn supports_endpoint_capability(&self, capability: &str) -> (r: bool)
        ensures
            r == has_capability(*self, capability@),
    {
        let mut i: usize = 0;
        while i < self.endpoint_capabilities.len()
            invariant
                i <= self.endpoint_capabilities.len(),
                forall|j: int|
                    0 <= j < i ==> (#[trigger] self.endpoint_capabilities@[j])@ != capability@,
            decreases self.endpoint_capabilities.len() - i,
        {
            if same(self.endpoint_capabilities[i].as_str(), capability) {
                assert(self.endpoint_capabilities@[i as int]@ == capability@);
                return true;
            }
            i += 1;
        }
        false
    }
}

/// Why a client cannot be asked to open a workspace, if it cannot.
pub open spec fn client_refusal(client: ClientConnection) -> Option<
    (ClientOpenWorkspaceReason, Seq<char>),
> {
    if client.mode != ClientConnectionMode::ClientShell {
        Some(
            (
                ClientOpenWorkspaceReason::UnsupportedClient,
                "target client is not a client shell"@,
            ),
        )
    } else if !has_capability(client, CLIENT_OPEN_WORKSPACE_CAPABILITY@) {
        Some(
            (
                ClientOpenWorkspaceReason::UnsupportedClient,
                "target client does not support client.open_workspace"@,
            ),
        )
    } else if !client.has_writer {
        Some((ClientOpenWorkspaceReason::NoTargetClient, "target client connection is closed"@))
    } else {
        None
    }
}

impl<R> HeadlessServer<R> {
    /// The requests that wait for a client's answer.
    pub open spec fn pending(&self) -> Seq<PendingView<R>> {
        self.pending_client_open_workspaces.requests()
    }

    /// The number of the next request.
    pub open spec fn next_number(&self) -> u64 {
        self.pending_client_open_workspaces.next_number()
    }

    /// Whether the pending requests have identifiers of their own that were given out.
    pub open spec fn wf(&self) -> bool {
        self.pending_client_open_workspaces.wf()
    }

    /// Whether nothing but the bookkeeping of requests differs between the two servers.
    pub open spec fn same_surroundings(&self, other: &Self) -> bool {
        &&& self.workspaces == other.workspaces
        &&& self.clients == other.clients
        &&& self.foreground_client_id == other.foreground_client_id
        &&& self.client_shell_boot_id == other.client_shell_boot_id
    }

    /// The client that a target stands for, if there is one.
    pub open spec fn target_client(&self, target: ClientTargetView) -> Option<u64> {
        match target {
            ClientTargetView::Foreground => self.foreground_client_id,
            ClientTargetView::Invocation { invocation_id } => match token_client(
                invocation_id,
                self.client_shell_boot_id@,
            ) {
                Some(client_id) => if self.clients@.contains_key(client_id) {
                    Some(client_id)
                } else {
                    None
                },
                None => None,
            },
        }
    }

    /// The client that is to open a workspace and the path of the workspace, or why
    /// there is none.
    pub open spec fn prepared(&self, workspace_id: Seq<char>, target: ClientTargetView) -> Result<
        (u64, OpenPath),
        (ClientOpenWorkspaceReason, Seq<char>),
    > {
        match workspace_position(self.workspaces@, workspace_id, 0) {
            None => Err(
                (
                    ClientOpenWorkspaceReason::WorkspaceNotFound,
                    "workspace not found: "@ + workspace_id,
                ),
            ),
            Some(index) => match open_path(self.workspaces@, index) {
                None => Err(
                    (
                        ClientOpenWorkspaceReason::WorkspaceNotFound,
                        "workspace has no resolved directory: "@ + workspace_id,
                    ),
                ),
                Some(path) => if !path.absolute() {
                    Err(
                        (
                            ClientOpenWorkspaceReason::InvalidPath,
                            "workspace path is not absolute: "@ + path.text(),
                        ),
                    )
                } else {
                    match self.target_client(target) {
                        None => Err(
                            (
                                ClientOpenWorkspaceReason::NoTargetClient,
                                "no client matches the requested open-workspace target"@,
                            ),
                        ),
                        Some(client_id) => if !self.clients@.contains_key(client_id) {
                            Err(
                                (
                                    ClientOpenWorkspaceReason::NoTargetClient,
                                    "client "@ + decimal(client_id as nat)
                                        + " is no longer connected"@,
                                ),
                            )
                        } else {
                            match client_refusal(self.clients@[client_id]) {
                                Some(refusal) => Err(refusal),
                                None => Ok((client_id, path)),
                            }
                        },
                    }
                },
            },
        }
    }

    /// A server without workspaces, clients and requests.
    pub fn new(client_shell_boot_id: String) -> (r: Self)
        ensures
            r.wf(),
            r.workspaces@.len() == 0,
            r.clients@ == Map::<u64, ClientConnection>::empty(),
            r.foreground_client_id is None,
            r.client_shell_boot_id == client_shell_boot_id,
            r.pending_client_open_workspace@.len() == 0,
            r.pending() == Seq::<PendingView<R>>::empty(),
            r.next_number() == 1,
    {
        HeadlessServer {
            workspaces: Vec::new(),
            clients: HashMap::new(),
            foreground_client_id: None,
            client_shell_boot_id,
            pending_client_open_workspace: Vec::new(),
            pending_client_open_workspaces: PendingRequests::new(),
        }
    }

    /// The position of the workspace with the identifier `workspace_id`.
    pub fn parse_workspace_id(&self, workspace_id: &str) -> (r: Option<usize>)
        ensures
            match r {
                Some(i) => workspace_position(self.workspaces@, workspace_id@, 0) == Some(i as int)
                    && i < self.workspaces@.len(),
                None => workspace_position(self.workspaces@, workspace_id@, 0) is None,
            },
            match r {
                Some(i) => {
                    &&& self.workspaces@[i as int].id@ == workspace_id@
                    &&& forall|j: int|
                        0 <= j < i ==> (#[trigger] self.workspaces@[j]).id@ != workspace_id@
                },
                None => forall|j: int|
                    0 <= j < self.workspaces@.len() ==> (#[trigger] self.workspaces@[j]).id@
                        != workspace_id@,
            },
    {
        let mut i: usize = 0;
        while i < self.workspaces.len()
            invariant
                i <= self.workspaces.len(),
                forall|j: int|
                    0 <= j < i ==> (#[trigger] self.workspaces@[j]).id@ != workspace_id@,
                workspace_position(self.workspaces@, workspace_id@, i as int)
                    == workspace_position(self.workspaces@, workspace_id@, 0),
            decreases self.workspaces.len() - i,
        {
            if same(self.workspaces[i].id.as_str(), workspace_id) {
                return Some(i);
            }
            i += 1;
        }
        None
    }

    /// The path of the workspace at `workspace_index`.
    pub fn workspace_open_path(&self, workspace_index: usize) -> (r: Option<OpenPath>)
        ensures
            r == open_path(self.workspaces@, workspace_index as int),
            workspace_index >= self.workspaces@.len() ==> r is None,
            workspace_index < self.workspaces@.len() ==> {
                let workspace = self.workspaces@[workspace_index as int];
                match (workspace.checkout_path, workspace.identity_cwd) {
                    (Some(checkout), _) => r matches Some(path) && path.text() == checkout.text()
                        && path.absolute() == checkout.absolute(),
                    (None, Some(directory)) => r matches Some(path) && path.text()
                        == directory.text() && path.absolute() == directory.absolute(),
                    (None, None) => r is None,
                }
            },
    {
        if workspace_index >= self.workspaces.len() {
            return None;
        }
        let workspace = &self.workspaces[workspace_index];
        match &workspace.checkout_path {
            Some(path) => Some(path.clone()),
            None => match &workspace.identity_cwd {
                Some(path) => Some(path.clone()),
                None => None,
            },
        }
    }

    /// The client that a target stands for, if there is one.
    pub fn client_open_workspace_target(&self, target: &ClientTarget) -> (r: Option<u64>)
        ensures
            r == self.target_client(target@),
    {
        match target {
            ClientTarget::Foreground => self.foreground_client_id,
            ClientTarget::Invocation { invocation_id } => match client_of_token(
                invocation_id.as_str(),
                self.client_shell_boot_id.as_str(),
            ) {
                Some(client_id) => if self.clients.contains_key(&client_id) {
                    Some(client_id)
                } else {
                    None
                },
                None => None,
            },
        }
    }

    /// Gives out the identifier of the next request.
    pub fn next_client_open_workspace_request_id(&mut self) -> (r: String)
        requires
            old(self).wf(),
        ensures
            r@ == request_id(old(self).next_number()),
            final(self).next_number() == next_after(old(self).next_number()),
            final(self).pending() == old(self).pending(),
            final(self).pending_client_open_workspace == old(self).pending_client_open_workspace,
            final(self).same_surroundings(old(self)),
            final(self).wf(),
            was_issued(r@, final(self).next_number()),
    {
        self.pending_client_open_workspaces.issue_id()
    }

    /// Finds the client that is to open a workspace and the path of the workspace.
    pub fn prepare_client_open_workspace(&self, workspace_id: &str, target: &ClientTarget) -> (r:
        Result<PreparedClientOpenWorkspace, (ClientOpenWorkspaceReason, String)>)
        ensures
            match (r, self.prepared(workspace_id@, target@)) {
                (Ok(prepared), Ok((client_id, path))) => prepared.client_id == client_id
                    && prepared.path == path,
                (Err((reason, message)), Err(expected)) => (reason, message@) == expected,
                _ => false,
            },
            r matches Ok(prepared) ==> begins_absolute(prepared.path.text()),
            r matches Ok(prepared) ==> exists|i: int|
                {
                    &&& 0 <= i < self.workspaces@.len()
                    &&& (#[trigger] self.workspaces@[i]).id@ == workspace_id@
                    &&& forall|j: int|
                        0 <= j < i ==> (#[trigger] self.workspaces@[j]).id@ != workspace_id@
                    &&& match self.workspaces@[i].checkout_path {
                        Some(checkout) => prepared.path.text() == checkout.text(),
                        None => self.workspaces@[i].identity_cwd matches Some(directory)
                            && prepared.path.text() == directory.text(),
                    }
                },
            r matches Ok(prepared) ==> {
                &&& self.clients@.contains_key(prepared.client_id)
                &&& self.clients@[prepared.client_id].mode == ClientConnectionMode::ClientShell
                &&& self.clients@[prepared.client_id].has_writer
            },
    {
        let workspace_index = match self.parse_workspace_id(workspace_id) {
            Some(index) => index,
            None => {
                let mut message = "workspace not found: ".to_owned();
                message.append(workspace_id);
                return Err((ClientOpenWorkspaceReason::WorkspaceNotFound, message));
            },
        };
        let path = match self.workspace_open_path(workspace_index) {
            Some(path) => path,
            None => {
                let mut message = "workspace has no resolved directory: ".to_owned();
                message.append(workspace_id);
                return Err((ClientOpenWorkspaceReason::WorkspaceNotFound, message));
            },
        };
        if !path.is_absolute() {
            let mut message = "workspace path is not absolute: ".to_owned();
            message.append(path.as_str());
            return Err((ClientOpenWorkspaceReason::InvalidPath, message));
        }
        let client_id = match self.client_open_workspace_target(target) {
            Some(client_id) => client_id,
            None => {
                return Err(
                    (
                        ClientOpenWorkspaceReason::NoTargetClient,
                        "no client matches the requested open-workspace target".to_owned(),
                    ),
                );
            },
        };
        let client = match self.clients.get(&client_id) {
            Some(client) => client,
            None => {
                let mut message = "client ".to_owned();
                message.append(to_decimal(client_id).as_str());
                message.append(" is no longer connected");
                return Err((ClientOpenWorkspaceReason::NoTargetClient, message));
            },
        };
        if client.mode != ClientConnectionMode::ClientShell {
            return Err(
                (
                    ClientOpenWorkspaceReason::UnsupportedClient,
                    "target client is not a client shell".to_owned(),
                ),
            );
        }
        if !client.supports_endpoint_capability(CLIENT_OPEN_WORKSPACE_CAPABILITY) {
            return Err(
                (
                    ClientOpenWorkspaceReason::UnsupportedClient,
                    "target client does not support client.open_workspace".to_owned(),
                ),
            );
        }
        if !client.has_writer {
            return Err(
                (
                    ClientOpenWorkspaceReason::NoTargetClient,
                    "target client connection is closed".to_owned(),
                ),
            );
        }
        Ok(PreparedClientOpenWorkspace { client_id, path })
    }

    /// Whether `outgoing` asks a client to open `path` under the identifier with the
    /// number `n`.
    pub open spec fn asks(
        &self,
        outgoing: OutgoingClientOpenWorkspace<R>,
        n: u64,
        client_id: u64,
        path: OpenPath,
        opener: Option<Seq<char>>,
        responder: ResponderView<R>,
    ) -> bool {
        &&& outgoing.client_id == client_id
        &&& outgoing.request@ == EndpointOpenWorkspaceRequestView {
            request_id: request_id(n),
            endpoint_boot_id: self.client_shell_boot_id@,
            path: path.text(),
            opener,
        }
        &&& outgoing.responder@ == responder
        &&& was_issued(outgoing.request.request_id@, self.next_number())
    }

    /// Whether nothing but the number of the next request differs from `before`, and
    /// that only by one step.
    pub open spec fn only_issued_an_id(&self, before: &Self) -> bool {
        &&& self.next_number() == next_after(before.next_number())
        &&& self.pending() == before.pending()
        &&& self.pending_client_open_workspace == before.pending_client_open_workspace
        &&& self.same_surroundings(before)
    }

    /// Whether nothing but the pending requests differs from `before`.
    pub open spec fn only_pending_differs(&self, before: &Self) -> bool {
        &&& self.next_number() == before.next_number()
        &&& self.pending_client_open_workspace == before.pending_client_open_workspace
        &&& self.same_surroundings(before)
    }

    /// Gives a request an identifier. It is then to be encoded and handed to
    /// [`HeadlessServer::register_client_open_workspace`].
    pub fn dispatch_client_open_workspace(
        &mut self,
        prepared: PreparedClientOpenWorkspace,
        opener: Option<String>,
        responder: OpenWorkspaceResponder<R>,
    ) -> (r: OutgoingClientOpenWorkspace<R>)
        requires
            old(self).wf(),
        ensures
            final(self).asks(
                r,
                old(self).next_number(),
                prepared.client_id,
                prepared.path,
                option_view(opener),
                responder@,
            ),
            final(self).only_issued_an_id(old(self)),
            final(self).wf(),
    {
        let request_id = self.next_client_open_workspace_request_id();
        OutgoingClientOpenWorkspace {
            client_id: prepared.client_id,
            request: EndpointOpenWorkspaceRequest {
                request_id,
                endpoint_boot_id: self.client_shell_boot_id.clone(),
                path: prepared.path.as_str().to_owned(),
                opener,
            },
            responder,
        }
    }

    /// Prepares a request and gives it an identifier, or says why it cannot be made.
    pub fn request_client_open_workspace(
        &mut self,
        workspace_id: &str,
        opener: Option<&str>,
        target: &ClientTarget,
        responder: OpenWorkspaceResponder<R>,
    ) -> (r: Result<OutgoingClientOpenWorkspace<R>, Refusal<R>>)
        requires
            old(self).wf(),
        ensures
            match (r, old(self).prepared(workspace_id@, target@)) {
                (Ok(outgoing), Ok((client_id, path))) => {
                    &&& begins_absolute(path.text())
                    &&& final(self).asks(
                        outgoing,
                        old(self).next_number(),
                        client_id,
                        path,
                        option_str_view(opener),
                        responder@,
                    )
                    &&& final(self).only_issued_an_id(old(self))
                },
                (Err(refusal), Err((reason, message))) => {
                    &&& refusal_view(refusal) == (reason, message, responder@)
                    &&& *final(self) == *old(self)
                },
                _ => false,
            },
            r matches Ok(outgoing) ==> exists|i: int|
                {
                    &&& 0 <= i < old(self).workspaces@.len()
                    &&& (#[trigger] old(self).workspaces@[i]).id@ == workspace_id@
                    &&& forall|j: int|
                        0 <= j < i ==> (#[trigger] old(self).workspaces@[j]).id@ != workspace_id@
                    &&& match old(self).workspaces@[i].checkout_path {
                        Some(checkout) => outgoing.request.path@ == checkout.text(),
                        None => old(self).workspaces@[i].identity_cwd matches Some(directory)
                            && outgoing.request.path@ == directory.text(),
                    }
                },
            final(self).wf(),
    {
        match self.prepare_client_open_workspace(workspace_id, target) {
            Ok(prepared) => {
                let opener = match opener {
                    Some(opener) => Some(opener.to_owned()),
                    None => None,
                };
                Ok(self.dispatch_client_open_workspace(prepared, opener, responder))
            },
            Err((reason, message)) => Err((reason, message, responder)),
        }
    }

    /// Takes the encoded form of a request, or the error of encoding it. From now on
    /// the request waits for its client, to which the message is to be sent; whether it
    /// could be is to be handed to [`HeadlessServer::confirm_client_open_workspace`].
    pub fn register_client_open_workspace(
        &mut self,
        outgoing: OutgoingClientOpenWorkspace<R>,
        encoded: Result<String, String>,
        now: u64,
    ) -> (r: Result<ClientMessage, Refusal<R>>)
        requires
            old(self).wf(),
            was_issued(outgoing.request.request_id@, old(self).next_number()),
            encoded is Ok ==> now + CLIENT_OPEN_WORKSPACE_TIMEOUT <= u64::MAX,
        ensures
            match (r, encoded) {
                (Ok(send), Ok(data)) => {
                    &&& send.client_id == outgoing.client_id
                    &&& send.request_id@ == outgoing.request.request_id@
                    &&& send.message.kind@ == CLIENT_OPEN_WORKSPACE_REQUEST_KIND@
                    &&& send.message.data@ == data@
                    &&& final(self).pending() == inserted(
                        old(self).pending(),
                        PendingView {
                            request_id: outgoing.request.request_id@,
                            client_id: outgoing.client_id,
                            api_id: api_id_of(outgoing.responder@),
                            respond_to: respond_to_of(outgoing.responder@),
                            deadline: (now + CLIENT_OPEN_WORKSPACE_TIMEOUT) as u64,
                        },
                    )
                    &&& final(self).only_pending_differs(old(self))
                },
                (Err(refusal), Err(error)) => {
                    &&& refusal_view(refusal) == (
                        ClientOpenWorkspaceReason::LaunchFailed,
                        "failed to encode open-workspace request: "@ + error@,
                        outgoing.responder@,
                    )
                    &&& *final(self) == *old(self)
                },
                _ => false,
            },
            final(self).wf(),
    {
        let data = match encoded {
            Ok(data) => data,
            Err(error) => {
                let mut message = "failed to encode open-workspace request: ".to_owned();
                message.append(error.as_str());
                return Err(
                    (ClientOpenWorkspaceReason::LaunchFailed, message, outgoing.responder),
                );
            },
        };
        let (api_id, respond_to) = match outgoing.responder {
            OpenWorkspaceResponder::Api { id, respond_to } => (Some(id), Some(respond_to)),
            OpenWorkspaceResponder::Keybind => (None, None),
        };
        let request_id = outgoing.request.request_id;
        let send = ClientMessage {
            client_id: outgoing.client_id,
            request_id: request_id.clone(),
            message: EndpointControl { kind: CLIENT_OPEN_WORKSPACE_REQUEST_KIND.to_owned(), data },
        };
        self.pending_client_open_workspaces.insert(
            request_id,
            PendingClientOpenWorkspace {
                client_id: outgoing.client_id,
                api_id,
                respond_to,
                deadline: now + CLIENT_OPEN_WORKSPACE_TIMEOUT,
            },
        );
        Ok(send)
    }

    /// Takes whether the message of a request could be sent. If not, the request waits
    /// no longer.
    pub fn confirm_client_open_workspace(&mut self, request_id: &str, sent: bool) -> (r: Result<
        (),
        Refusal<R>,
    >)
        requires
            old(self).wf(),
        ensures
            match lookup(old(self).pending(), request_id@) {
                Some(pending) if !sent => {
                    &&& r matches Err(refusal) && refusal_view(refusal) == (
                        ClientOpenWorkspaceReason::NoTargetClient,
                        "client connection is closed"@,
                        responder_of(pending.api_id, pending.respond_to),
                    )
                    &&& final(self).pending() == removed(old(self).pending(), request_id@)
                },
                _ => r is Ok && final(self).pending() == old(self).pending(),
            },
            final(self).only_pending_differs(old(self)),
            final(self).wf(),
    {
        if !sent {
            if let Some(entry) = self.pending_client_open_workspaces.remove(request_id) {
                return Err(
                    (
                        ClientOpenWorkspaceReason::NoTargetClient,
                        "client connection is closed".to_owned(),
                        entry.pending.into_responder(),
                    ),
                );
            }
        }
        Ok(())
    }

    /// Takes up a message of the API.
    pub fn handle_client_open_workspace_api(&mut self, msg: ApiRequestMessage<R>) -> (r: ApiOutcome<
        R,
    >)
        requires
            old(self).wf(),
        ensures
            match msg.request.method {
                Method::ClientOpenWorkspace(params) => {
                    let caller = ResponderView::Api {
                        id: msg.request.id@,
                        respond_to: msg.respond_to,
                    };
                    match old(self).prepared(params.workspace_id@, params.target@) {
                        Ok((client_id, path)) => {
                            &&& begins_absolute(path.text())
                            &&& r matches ApiOutcome::Outgoing(outgoing) && final(self).asks(
                                outgoing,
                                old(self).next_number(),
                                client_id,
                                path,
                                option_view(params.opener),
                                caller,
                            )
                            &&& final(self).only_issued_an_id(old(self))
                        },
                        Err((reason, message)) => {
                            &&& r matches ApiOutcome::Reply(reply) && Some(reply@) == told(
                                caller,
                                false,
                                reason,
                                Some(message),
                            )
                            &&& *final(self) == *old(self)
                        },
                    }
                },
                Method::Other => r is Ignored && *final(self) == *old(self),
            },
            final(self).wf(),
    {
        let params = match msg.request.method {
            Method::ClientOpenWorkspace(params) => params,
            Method::Other => return ApiOutcome::Ignored,
        };
        let responder = OpenWorkspaceResponder::Api {
            id: msg.request.id,
            respond_to: msg.respond_to,
        };
        let opener = match &params.opener {
            Some(opener) => Some(opener.as_str()),
            None => None,
        };
        match self.request_client_open_workspace(
            params.workspace_id.as_str(),
            opener,
            &params.target,
            responder,
        ) {
            Ok(outgoing) => ApiOutcome::Outgoing(outgoing),
            Err((reason, message, responder)) => match responder.tell(
                false,
                reason,
                Some(message),
            ) {
                Some(reply) => ApiOutcome::Reply(reply),
                None => ApiOutcome::Ignored,
            },
        }
    }

    /// Whether `r` is what the server, as it was `before`, makes of a keybinding's wish:
    /// a request with the keybinding's opener that answers no caller of the API, or why
    /// there is none.
    pub open spec fn requested_for_keybinding(
        &self,
        before: &Self,
        intent: TargetedIntent,
        r: Result<OutgoingClientOpenWorkspace<R>, Refusal<R>>,
    ) -> bool {
        match (r, before.prepared(intent.workspace_id@, intent.target@)) {
            (Ok(outgoing), Ok((client_id, path))) => {
                &&& begins_absolute(path.text())
                &&& self.asks(
                    outgoing,
                    before.next_number(),
                    client_id,
                    path,
                    Some(intent.opener@),
                    ResponderView::Keybind,
                )
                &&& self.only_issued_an_id(before)
            },
            (Err(refusal), Err((reason, message))) => {
                &&& refusal_view(refusal) == (reason, message, ResponderView::<R>::Keybind)
                &&& *self == *before
            },
            _ => false,
        }
    }

    /// Prepares the request for a keybinding's wish and gives it an identifier, or says
    /// why it cannot be made.
    pub fn request_targeted_intent(&mut self, intent: &TargetedIntent) -> (r: Result<
        OutgoingClientOpenWorkspace<R>,
        Refusal<R>,
    >)
        requires
            old(self).wf(),
        ensures
            final(self).requested_for_keybinding(old(self), *intent, r),
            final(self).wf(),
    {
        self.request_client_open_workspace(
            intent.workspace_id.as_str(),
            Some(intent.opener.as_str()),
            &intent.target,
            OpenWorkspaceResponder::Keybind,
        )
    }

    /// Takes the first of `intents` and requests it. Whether the request can be made or
    /// not, the intents behind it are left to be requested next, in their order.
    pub fn request_next_intent(&mut self, intents: &mut Vec<TargetedIntent>) -> (r: Option<
        (TargetedIntent, Result<OutgoingClientOpenWorkspace<R>, Refusal<R>>),
    >)
        requires
            old(self).wf(),
        ensures
            match r {
                Some((intent, result)) => {
                    &&& old(intents)@.len() > 0
                    &&& intent == old(intents)@[0]
                    &&& final(intents)@ == old(intents)@.skip(1)
                    &&& final(self).requested_for_keybinding(old(self), intent, result)
                },
                None => {
                    &&& old(intents)@.len() == 0
                    &&& final(intents)@ == old(intents)@
                    &&& *final(self) == *old(self)
                },
            },
            final(self).wf(),
    {
        if intents.len() == 0 {
            return None;
        }
        let intent = intents.remove(0);
        assert(intents@ =~= old(intents)@.skip(1));
        let result = self.request_targeted_intent(&intent);
        Some((intent, result))
    }

    /// Takes what keybindings have asked for, each with the client it is meant for.
    /// They are then to be requested one by one, with [`HeadlessServer::request_next_intent`].
    pub fn drain_client_open_workspace_intents(&mut self) -> (r: Vec<TargetedIntent>)
        ensures
            r@.len() == old(self).pending_client_open_workspace@.len(),
            forall|i: int|
                0 <= i < r@.len() ==> is_targeted(
                    old(self).pending_client_open_workspace@[i],
                    #[trigger] r@[i],
                ),
            final(self).pending_client_open_workspace@.len() == 0,
            final(self).pending_client_open_workspaces == old(self).pending_client_open_workspaces,
            final(self).same_surroundings(old(self)),
    {
        let mut intents: Vec<OpenWorkspaceIntent> = Vec::new();
        std::mem::swap(&mut intents, &mut self.pending_client_open_workspace);
        let ghost all = intents@;
        let mut targeted: Vec<TargetedIntent> = Vec::new();
        for intent in it: intents
            invariant
                it.seq() == all,
                targeted@.len() == it.index(),
                forall|i: int| 0 <= i < targeted@.len() ==> is_targeted(all[i], #[trigger] targeted@[i]),
        {
            let target = match intent.invoking_client_token {
                Some(token) => if starts_with(token.as_str(), "endpoint:") {
                    ClientTarget::Invocation { invocation_id: token }
                } else {
                    ClientTarget::Foreground
                },
                None => ClientTarget::Foreground,
            };
            targeted.push(
                TargetedIntent { workspace_id: intent.workspace_id, opener: intent.opener, target },
            );
        }
        targeted
    }

    /// Takes a client's answer to a request.
    pub fn handle_client_open_workspace_result(
        &mut self,
        client_id: u64,
        result: EndpointOpenWorkspaceResult,
    ) -> (r: ResultOutcome<R>)
        requires
            old(self).wf(),
        ensures
            match lookup(old(self).pending(), result.request_id@) {
                None => r is Stale && final(self).pending() == old(self).pending(),
                Some(pending) => if pending.client_id != client_id {
                    r is WrongClient && final(self).pending() == old(self).pending()
                } else {
                    &&& r matches ResultOutcome::Settled(reply) && reply_view(reply) == told(
                        responder_of(pending.api_id, pending.respond_to),
                        result.opened,
                        result.reason,
                        option_view(result.message),
                    )
                    &&& final(self).pending() == removed(old(self).pending(), result.request_id@)
                },
            },
            final(self).only_pending_differs(old(self)),
            final(self).wf(),
    {
        match self.pending_client_open_workspaces.client_of(result.request_id.as_str()) {
            None => return ResultOutcome::Stale,
            Some(expected) => if expected != client_id {
                return ResultOutcome::WrongClient;
            },
        }
        match self.pending_client_open_workspaces.remove(result.request_id.as_str()) {
            Some(entry) => ResultOutcome::Settled(
                entry.pending.into_responder().tell(result.opened, result.reason, result.message),
            ),
            None => ResultOutcome::Stale,
        }
    }

    /// Gives up the requests that have waited until `now` or longer than they may.
    pub fn expire_client_open_workspace_requests(&mut self, now: u64) -> (r: Vec<
        SettledOpenWorkspace<R>,
    >)
        requires
            old(self).wf(),
        ensures
            final(self).pending() == remaining(old(self).pending(), Selection::DueAt(now)),
            settled_views(r@) == all_given_up(
                selected(old(self).pending(), Selection::DueAt(now)),
                ClientOpenWorkspaceReason::TimedOut,
                "the target client did not answer in time"@,
            ),
            forall|p: PendingView<R>| #[trigger]
                final(self).pending().contains(p) <==> old(self).pending().contains(p) && p.deadline
                    > now,
            forall|k: int, i: int|
                0 <= k < old(self).pending().len() && old(self).pending()[k].deadline > now && 0
                    <= i < r@.len() ==> (#[trigger] r@[i]).request_id@ != (
                #[trigger] old(self).pending()[k]).request_id,
            final(self).only_pending_differs(old(self)),
            final(self).wf(),
    {
        let expired = self.pending_client_open_workspaces.take(Selection::DueAt(now));
        let settled = give_up(
            expired,
            ClientOpenWorkspaceReason::TimedOut,
            "the target client did not answer in time",
        );
        proof {
            let before = old(self).pending();
            assert forall|p: PendingView<R>| #[trigger]
                self.pending().contains(p) <==> before.contains(p) && p.deadline > now by {
                expiry_concerns_the_requests_that_are_due(before, now, p);
            }
            assert forall|k: int, i: int|
                0 <= k < before.len() && before[k].deadline > now && 0 <= i
                    < settled@.len() implies (#[trigger] settled@[i]).request_id@ != (
            #[trigger] before[k]).request_id by {
                only_due_requests_are_given_up(
                    before,
                    now,
                    ClientOpenWorkspaceReason::TimedOut,
                    "the target client did not answer in time"@,
                    k,
                );
                assert(settled_views(settled@)[i].request_id == settled@[i].request_id@);
            }
        }
        settled
    }

    /// Gives up the requests that wait for a client that has disconnected.
    pub fn fail_client_open_workspaces_for_disconnected_client(&mut self, client_id: u64) -> (r: Vec<
        SettledOpenWorkspace<R>,
    >)
        requires
            old(self).wf(),
        ensures
            final(self).pending() == remaining(
                old(self).pending(),
                Selection::OfClient(client_id),
            ),
            settled_views(r@) == all_given_up(
                selected(old(self).pending(), Selection::OfClient(client_id)),
                ClientOpenWorkspaceReason::NoTargetClient,
                "the target client disconnected before answering"@,
            ),
            forall|p: PendingView<R>| #[trigger]
                final(self).pending().contains(p) <==> old(self).pending().contains(p)
                    && p.client_id != client_id,
            forall|k: int, i: int|
                0 <= k < old(self).pending().len() && old(self).pending()[k].client_id != client_id
                    && 0 <= i < r@.len() ==> (#[trigger] r@[i]).request_id@ != (
                #[trigger] old(self).pending()[k]).request_id,
            final(self).only_pending_differs(old(self)),
            final(self).wf(),
    {
        let abandoned = self.pending_client_open_workspaces.take(Selection::OfClient(client_id));
        let settled = give_up(
            abandoned,
            ClientOpenWorkspaceReason::NoTargetClient,
            "the target client disconnected before answering",
        );
        proof {
            let before = old(self).pending();
            assert forall|p: PendingView<R>| #[trigger]
                self.pending().contains(p) <==> before.contains(p) && p.client_id != client_id by {
                disconnect_concerns_the_requests_of_its_client(before, client_id, p);
            }
            assert forall|k: int, i: int|
                0 <= k < before.len() && before[k].client_id != client_id && 0 <= i
                    < settled@.len() implies (#[trigger] settled@[i]).request_id@ != (
            #[trigger] before[k]).request_id by {
                only_the_disconnected_client_gives_up(
                    before,
                    client_id,
                    ClientOpenWorkspaceReason::NoTargetClient,
                    "the target client disconnected before answering"@,
                    k,
                );
                assert(settled_views(settled@)[i].request_id == settled@[i].request_id@);
            }
        }
        settled
    }
}

/// The answer to the caller of a request that was not carried out. A keybinding has
/// no caller.
pub fn refusal_reply<R>(refusal: Refusal<R>) -> (r: Option<ApiReply<R>>)
    ensures
        reply_view(r) == told(
            refusal_view(refusal).2,
            false,
            refusal.0,
            Some(refusal_view(refusal).1),
        ),
{
    let (reason, message, responder) = refusal;
    responder.tell(false, reason, Some(message))
}

} // verus!
