//! How a client opens a workspace in an editor.

use vstd::prelude::*;

use crate::paths::{begins_absolute, OpenPath};
use crate::schema::ClientOpenWorkspaceReason;
use crate::text::{
    keep_non_blank, non_blank, option_str_view, option_view, same, starts_with, strip_prefix,
    trim_end_matches, views, without_prefix, without_trailing,
};

verus! {

/// The endpoint that a client is attached to.
#[derive(Debug, Clone, PartialEq, Eq)]
pub enum ClientEndpointId {
    /// The machine that the client runs on.
    Local,
    /// The SSH profile with this identifier.
    Ssh(String),
}

/// A saved SSH endpoint.
#[derive(Debug, Clone, PartialEq, Eq)]
pub struct SshProfile {
    pub id: String,
    /// Where to connect: `[user@]host[:port]`.
    pub target: String,
}

/// The endpoints that a client knows.
#[derive(Debug, Clone, PartialEq, Eq)]
pub struct EndpointCatalog {
    pub profiles: Vec<SshProfile>,
}

/// The model of [`ClientEndpointId`].
pub enum ClientEndpointIdView {
    Local,
    Ssh(Seq<char>),
}

impl View for ClientEndpointId {
    type V = ClientEndpointIdView;

    open spec fn view(&self) -> ClientEndpointIdView {
        match self {
            ClientEndpointId::Local => ClientEndpointIdView::Local,
            ClientEndpointId::Ssh(id) => ClientEndpointIdView::Ssh(id@),
        }
    }
}

/// The model of [`SshProfile`].
pub struct SshProfileView {
    pub id: Seq<char>,
    pub target: Seq<char>,
}

impl View for EndpointCatalog {
    type V = Seq<SshProfileView>;

    open spec fn view(&self) -> Seq<SshProfileView> {
        self.profiles@.map_values(
            |profile: SshProfile| SshProfileView { id: profile.id@, target: profile.target@ },
        )
    }
}

/// The target of the first profile from `from` on with the identifier `id`.
pub open spec fn saved_target(catalog: Seq<SshProfileView>, id: Seq<char>, from: int) -> Option<
    Seq<char>,
>
    decreases catalog.len() - from,
{
    if from < 0 || from >= catalog.len() {
        None
    } else if catalog[from].id == id {
        Some(catalog[from].target)
    } else {
        saved_target(catalog, id, from + 1)
    }
}

/// The SSH target saved for an endpoint.
pub open spec fn endpoint_target(
    catalog: Seq<SshProfileView>,
    endpoint_id: ClientEndpointIdView,
) -> Option<Seq<char>> {
    match endpoint_id {
        ClientEndpointIdView::Local => None,
        ClientEndpointIdView::Ssh(id) => saved_target(catalog, id, 0),
    }
}

impl EndpointCatalog {
    /// The SSH target saved for an endpoint.
    pub fn target_for_endpoint(&self, endpoint_id: &ClientEndpointId) -> (r: Option<&str>)
        ensures
            option_str_view(r) == endpoint_target(self@, endpoint_id@),
            match *endpoint_id {
                ClientEndpointId::Local => r is None,
                ClientEndpointId::Ssh(id) => match r {
                    Some(target) => exists|i: int|
                        {
                            &&& 0 <= i < self.profiles@.len()
                            &&& (#[trigger] self.profiles@[i]).id@ == id@
                            &&& self.profiles@[i].target@ == target@
                            &&& forall|j: int|
                                0 <= j < i ==> (#[trigger] self.profiles@[j]).id@ != id@
                        },
                    None => forall|j: int|
                        0 <= j < self.profiles@.len() ==> (#[trigger] self.profiles@[j]).id@
                            != id@,
                },
            },
    {
        let id = match endpoint_id {
            ClientEndpointId::Local => return None,
            ClientEndpointId::Ssh(id) => id,
        };
        let mut i: usize = 0;
        while i < self.profiles.len()
            invariant
                i <= self.profiles.len(),
                *endpoint_id == ClientEndpointId::Ssh(*id),
                endpoint_target(self@, endpoint_id@) == saved_target(self@, id@, i as int),
                forall|j: int| 0 <= j < i ==> (#[trigger] self.profiles@[j]).id@ != id@,
            decreases self.profiles.len() - i,
        {
            assert(self@[i as int].id == self.profiles[i as int].id@);
            if same(self.profiles[i].id.as_str(), id.as_str()) {
                assert(self.profiles@[i as int].id@ == id@);
                return Some(self.profiles[i].target.as_str());
            }
            i += 1;
        }
        None
    }
}

/// The URI of `path` on the SSH target `target`, with one slash between the two.
pub open spec fn ssh_uri(target: Seq<char>, path: Seq<char>) -> Seq<char> {
    let host = match without_prefix(target, "ssh://"@) {
        Some(rest) => rest,
        None => target,
    };
    "ssh://"@ + without_trailing(host, '/') + if "/"@.is_prefix_of(path) {
        path
    } else {
        "/"@ + path
    }
}

/// Returns the URI of `path` on the SSH target `target`.
pub fn remote_ssh_uri(target: &str, path: &str) -> (r: String)
    ensures
        r@ == ssh_uri(target@, path@),
{
    let host = match strip_prefix(target, "ssh://") {
        Some(rest) => rest,
        None => target,
    };
    let mut r = "ssh://".to_owned();
    r.append(trim_end_matches(host, '/'));
    if !starts_with(path, "/") {
        r.append("/");
    }
    r.append(path);
    proof {
        let root = "ssh://"@ + without_trailing(
            match without_prefix(target@, "ssh://"@) {
                Some(rest) => rest,
                None => target@,
            },
            '/',
        );
        assert(root + "/"@ + path@ =~= root + ("/"@ + path@));
    }
    r
}

/// The SSH target that a client was attached to from outside, given the value of
/// the environment variable that holds it.
pub fn standalone_remote_target(value: Option<String>) -> (r: Option<String>)
    ensures
        option_view(r) == non_blank(option_view(value)),
{
    keep_non_blank(value)
}

/// The program that opens a workspace, given the value of `ZED_BIN`.
pub open spec fn editor_program(zed_bin: Option<Seq<char>>) -> Seq<char> {
    match non_blank(zed_bin) {
        Some(program) => program,
        None => "zed"@,
    }
}

/// Whether the workspace lies on another machine than the client.
pub open spec fn is_remote(
    endpoint_id: ClientEndpointIdView,
    standalone_remote_target: Option<Seq<char>>,
) -> bool {
    endpoint_id is Ssh || standalone_remote_target is Some
}

/// What the editor is given to open, or `None` where the SSH target is unknown.
pub open spec fn location(
    endpoint_id: ClientEndpointIdView,
    catalog: Seq<SshProfileView>,
    path: Seq<char>,
    standalone_remote_target: Option<Seq<char>>,
) -> Option<Seq<char>> {
    match endpoint_id {
        ClientEndpointIdView::Local => match standalone_remote_target {
            Some(target) => Some(ssh_uri(target, path)),
            None => Some(path),
        },
        ClientEndpointIdView::Ssh(_) => match endpoint_target(catalog, endpoint_id) {
            Some(target) => Some(ssh_uri(target, path)),
            None => None,
        },
    }
}

/// The command that opens the workspace at `path`, or why there is none.
/// `absolute` says whether the path is absolute on the client's machine.
pub open spec fn open_argv(
    endpoint_id: ClientEndpointIdView,
    catalog: Seq<SshProfileView>,
    path: Seq<char>,
    absolute: bool,
    opener: Option<Seq<char>>,
    standalone_remote_target: Option<Seq<char>>,
    zed_bin: Option<Seq<char>>,
) -> Result<Seq<Seq<char>>, (ClientOpenWorkspaceReason, Seq<char>)> {
    let rooted = if is_remote(endpoint_id, standalone_remote_target) {
        "/"@.is_prefix_of(path)
    } else {
        absolute
    };
    if !rooted {
        Err(
            (
                ClientOpenWorkspaceReason::InvalidPath,
                "workspace path is not absolute: "@ + path,
            ),
        )
    } else if opener is Some && opener->0 != "zed"@ {
        Err(
            (
                ClientOpenWorkspaceReason::UnsupportedOpener,
                "unsupported workspace opener: "@ + opener->0,
            ),
        )
    } else {
        match location(endpoint_id, catalog, path, standalone_remote_target) {
            Some(location) => Ok(seq![editor_program(zed_bin), "-n"@, location]),
            None => Err(
                (
                    ClientOpenWorkspaceReason::LaunchFailed,
                    "saved SSH target is unavailable for the active endpoint"@,
                ),
            ),
        }
    }
}

/// The outcome of building a command, as a value of the model.
pub open spec fn argv_outcome(
    r: Result<Vec<String>, (ClientOpenWorkspaceReason, String)>,
) -> Result<Seq<Seq<char>>, (ClientOpenWorkspaceReason, Seq<char>)> {
    match r {
        Ok(argv) => Ok(views(argv@)),
        Err((reason, message)) => Err((reason, message@)),
    }
}

/// Builds the command that opens the workspace at `path`, a path of which it is
/// known whether it is absolute on the client's machine.
pub fn open_path_argv(
    endpoint_id: &ClientEndpointId,
    catalog: &EndpointCatalog,
    path: &OpenPath,
    opener: Option<&str>,
    standalone_remote_target: Option<&str>,
    zed_bin: Option<String>,
) -> (r: Result<Vec<String>, (ClientOpenWorkspaceReason, String)>)
    ensures
        argv_outcome(r) == open_argv(
            endpoint_id@,
            catalog@,
            path.text(),
            path.absolute(),
            option_str_view(opener),
            option_str_view(standalone_remote_target),
            option_view(zed_bin),
        ),
{
    let remote = match endpoint_id {
        ClientEndpointId::Ssh(_) => true,
        ClientEndpointId::Local => standalone_remote_target.is_some(),
    };
    let rooted = if remote {
        starts_with(path.as_str(), "/")
    } else {
        path.is_absolute()
    };
    if !rooted {
        let mut message = "workspace path is not absolute: ".to_owned();
        message.append(path.as_str());
        return Err((ClientOpenWorkspaceReason::InvalidPath, message));
    }
    match opener {
        Some(opener) => {
            if !same(opener, "zed") {
                let mut message = "unsupported workspace opener: ".to_owned();
                message.append(opener);
                return Err((ClientOpenWorkspaceReason::UnsupportedOpener, message));
            }
        },
        None => {},
    }
    let location = match endpoint_id {
        ClientEndpointId::Local => match standalone_remote_target {
            Some(target) => remote_ssh_uri(target, path.as_str()),
            None => path.as_str().to_owned(),
        },
        ClientEndpointId::Ssh(_) => match catalog.target_for_endpoint(endpoint_id) {
            Some(target) => remote_ssh_uri(target, path.as_str()),
            None => {
                return Err(
                    (
                        ClientOpenWorkspaceReason::LaunchFailed,
                        "saved SSH target is unavailable for the active endpoint".to_owned(),
                    ),
                );
            },
        },
    };
    let program = match keep_non_blank(zed_bin) {
        Some(program) => program,
        None => "zed".to_owned(),
    };
    let mut argv: Vec<String> = Vec::new();
    argv.push(program);
    argv.push("-n".to_owned());
    argv.push(location);
    assert(views(argv@) =~= seq![editor_program(option_view(zed_bin)), "-n"@, location@]);
    Ok(argv)
}

/// Builds the command that opens the workspace at `path`. `zed_bin` is the value
/// of the environment variable `ZED_BIN`.
pub fn open_workspace_argv_with_remote_target(
    endpoint_id: &ClientEndpointId,
    catalog: &EndpointCatalog,
    path: &str,
    opener: Option<&str>,
    standalone_remote_target: Option<&str>,
    zed_bin: Option<String>,
) -> (r: Result<Vec<String>, (ClientOpenWorkspaceReason, String)>)
    ensures
        exists|absolute: bool|
            (absolute ==> begins_absolute(path@)) && argv_outcome(r) == #[trigger] open_argv(
                endpoint_id@,
                catalog@,
                path@,
                absolute,
                option_str_view(opener),
                option_str_view(standalone_remote_target),
                option_view(zed_bin),
            ),
{
    open_path_argv(
        endpoint_id,
        catalog,
        &OpenPath::new(path),
        opener,
        standalone_remote_target,
        zed_bin,
    )
}

/// Builds the command that opens the workspace at `path`, given the values of the
/// environment variables that name the SSH target and the editor.
pub fn open_workspace_argv(
    endpoint_id: &ClientEndpointId,
    catalog: &EndpointCatalog,
    path: &str,
    opener: Option<&str>,
    remote_target: Option<String>,
    zed_bin: Option<String>,
) -> (r: Result<Vec<String>, (ClientOpenWorkspaceReason, String)>)
    ensures
        exists|absolute: bool|
            (absolute ==> begins_absolute(path@)) && argv_outcome(r) == #[trigger] open_argv(
                endpoint_id@,
                catalog@,
                path@,
                absolute,
                option_str_view(opener),
                non_blank(option_view(remote_target)),
                option_view(zed_bin),
            ),
{
    let target = standalone_remote_target(remote_target);
    let target = match &target {
        Some(target) => Some(target.as_str()),
        None => None,
    };
    open_workspace_argv_with_remote_target(endpoint_id, catalog, path, opener, target, zed_bin)
}

/// Why a workspace was not opened when the editor `program` failed to start with `error`.
pub fn launch_failure(program: &str, error: &str) -> (r: (ClientOpenWorkspaceReason, String))
    ensures
        r.0 == ClientOpenWorkspaceReason::LaunchFailed,
        r.1@ == "failed to launch "@ + program@ + ": "@ + error@,
{
    let mut message = "failed to launch ".to_owned();
    message.append(program);
    message.append(": ");
    message.append(error);
    (ClientOpenWorkspaceReason::LaunchFailed, message)
}

} // verus!
