//! What holds of opening a workspace on a client as a whole.

use vstd::prelude::*;

use crate::client::{
    endpoint_target, is_remote, location, open_argv, saved_target, ssh_uri, ClientEndpointIdView,
    SshProfileView,
};
use crate::schema::ClientOpenWorkspaceReason;
use crate::text::{blank, non_blank, white_space, without_prefix, without_trailing};
use crate::text_laws::{prefix_comes_off_its_text, trailing_characters_come_off};

verus! {

/// A target means the same with `ssh://` in front and without.
pub proof fn scheme_of_target_is_optional(target: Seq<char>, path: Seq<char>)
    requires
        !"ssh://"@.is_prefix_of(target),
    ensures
        ssh_uri("ssh://"@ + target, path) == ssh_uri(target, path),
{
    let full = "ssh://"@ + target;
    assert(full.subrange(0, "ssh://"@.len() as int) =~= "ssh://"@);
    assert(full.skip("ssh://"@.len() as int) =~= target);
}

/// A target means the same with a slash behind it and without, except where the
/// slash completes `ssh://`.
pub proof fn slash_behind_target_is_optional(target: Seq<char>, path: Seq<char>)
    requires
        target + "/"@ != "ssh://"@,
    ensures
        ssh_uri(target + "/"@, path) == ssh_uri(target, path),
{
    reveal_strlit("/");
    reveal_strlit("ssh://");
    let longer = target + "/"@;
    let scheme = "ssh://"@;
    assert(longer.take(longer.len() - 1) =~= target);
    if scheme.is_prefix_of(longer) {
        assert(longer.len() > scheme.len()) by {
            if longer.len() == scheme.len() {
                assert(longer.subrange(0, scheme.len() as int) =~= longer);
            }
        }
        assert(target.subrange(0, scheme.len() as int) =~= longer.subrange(
            0,
            scheme.len() as int,
        ));
        let host = target.skip(scheme.len() as int);
        let longer_host = longer.skip(scheme.len() as int);
        assert(longer_host.take(longer_host.len() - 1) =~= host);
        assert(longer_host[longer_host.len() - 1] == '/');
    } else {
        if scheme.is_prefix_of(target) {
            assert(longer.subrange(0, scheme.len() as int) =~= target.subrange(
                0,
                scheme.len() as int,
            ));
        }
        assert(longer[longer.len() - 1] == '/');
    }
}

proof fn lemma_no_trailing(s: Seq<char>, c: char)
    ensures
        ({
            let r = without_trailing(s, c);
            r.len() == 0 || r[r.len() - 1] != c
        }),
    decreases s.len(),
{
    if s.len() > 0 && s[s.len() - 1] == c {
        lemma_no_trailing(s.take(s.len() - 1), c);
    }
}

/// An SSH URI of an absolute path is the scheme, a host that does not end in a
/// slash, and the path as it stands.
pub proof fn ssh_uri_keeps_the_path(target: Seq<char>, path: Seq<char>)
    requires
        "/"@.is_prefix_of(path),
    ensures
        exists|host: Seq<char>|
            ssh_uri(target, path) == #[trigger] ("ssh://"@ + host) + path && (host.len() == 0
                || host[host.len() - 1] != '/'),
{
    let host = match without_prefix(target, "ssh://"@) {
        Some(rest) => rest,
        None => target,
    };
    lemma_no_trailing(host, '/');
    let host = without_trailing(host, '/');
    assert(ssh_uri(target, path) == ("ssh://"@ + host) + path);
}

/// A path without a slash in front is placed under the root of the target.
pub proof fn ssh_uri_roots_the_path(target: Seq<char>, path: Seq<char>)
    requires
        !"/"@.is_prefix_of(path),
    ensures
        ssh_uri(target, path) == ssh_uri(target, "/"@ + path),
{
    let rooted = "/"@ + path;
    assert(rooted.subrange(0, "/"@.len() as int) =~= "/"@);
}

/// A command consists of a program that is not blank, `-n` and the location, and
/// the location of a workspace on another machine is an SSH URI.
pub proof fn command_opens_the_location(
    endpoint_id: ClientEndpointIdView,
    catalog: Seq<SshProfileView>,
    path: Seq<char>,
    absolute: bool,
    opener: Option<Seq<char>>,
    standalone_remote_target: Option<Seq<char>>,
    zed_bin: Option<Seq<char>>,
)
    ensures
        open_argv(
            endpoint_id,
            catalog,
            path,
            absolute,
            opener,
            standalone_remote_target,
            zed_bin,
        ) matches Ok(argv) ==> {
            &&& argv.len() == 3
            &&& !blank(argv[0])
            &&& argv[1] == "-n"@
            &&& Some(argv[2]) == location(endpoint_id, catalog, path, standalone_remote_target)
            &&& is_remote(endpoint_id, standalone_remote_target) ==> exists|target: Seq<char>|
                argv[2] == ssh_uri(target, path)
            &&& !is_remote(endpoint_id, standalone_remote_target) ==> argv[2] == path
        },
{
    reveal_strlit("zed");
    assert(!white_space("zed"@[0]));
    if non_blank(zed_bin) is None {
        assert(!blank("zed"@));
    }
}

/// A path that is not absolute where the workspace lies is refused as such,
/// whatever else is asked for.
pub proof fn relative_paths_are_refused(
    endpoint_id: ClientEndpointIdView,
    catalog: Seq<SshProfileView>,
    path: Seq<char>,
    absolute: bool,
    opener: Option<Seq<char>>,
    standalone_remote_target: Option<Seq<char>>,
    zed_bin: Option<Seq<char>>,
)
    requires
        if is_remote(endpoint_id, standalone_remote_target) {
            !"/"@.is_prefix_of(path)
        } else {
            !absolute
        },
    ensures
        open_argv(
            endpoint_id,
            catalog,
            path,
            absolute,
            opener,
            standalone_remote_target,
            zed_bin,
        ) == Err::<Seq<Seq<char>>, (ClientOpenWorkspaceReason, Seq<char>)>(
            (
                ClientOpenWorkspaceReason::InvalidPath,
                "workspace path is not absolute: "@ + path,
            ),
        ),
{
}

/// Whether a path begins at the root.
pub open spec fn is_rooted(path: Seq<char>) -> bool {
    path.len() > 0 && path[0] == '/'
}

proof fn lemma_rooted(path: Seq<char>)
    ensures
        "/"@.is_prefix_of(path) <==> is_rooted(path),
{
    reveal_strlit("/");
    if is_rooted(path) {
        assert(path.subrange(0, 1) =~= "/"@);
    }
    if "/"@.is_prefix_of(path) {
        assert(path.subrange(0, 1)[0] == "/"@[0]);
    }
}

/// The URI is `ssh://`, the host and the path. The host is the target without a scheme
/// in front and without the slashes behind it; the path gets a slash in front where it
/// has none.
pub proof fn ssh_uri_is_scheme_host_and_path(
    host: Seq<char>,
    slashes: Seq<char>,
    path: Seq<char>,
)
    requires
        host.len() > 0 ==> host[host.len() - 1] != '/',
        forall|i: int| 0 <= i < slashes.len() ==> #[trigger] slashes[i] == '/',
    ensures
        ssh_uri("ssh://"@ + (host + slashes), path) == if is_rooted(path) {
            "ssh://"@ + host + path
        } else {
            "ssh://"@ + host + "/"@ + path
        },
        (forall|rest: Seq<char>| host + slashes != #[trigger] ("ssh://"@ + rest)) ==> ssh_uri(
            host + slashes,
            path,
        ) == if is_rooted(path) {
            "ssh://"@ + host + path
        } else {
            "ssh://"@ + host + "/"@ + path
        },
{
    lemma_rooted(path);
    let bare = host + slashes;
    trailing_characters_come_off(host, '/', slashes);
    prefix_comes_off_its_text("ssh://"@ + bare, "ssh://"@, bare);
    prefix_comes_off_its_text(bare, "ssh://"@, bare);
    assert("ssh://"@ + host + ("/"@ + path) =~= "ssh://"@ + host + "/"@ + path);
}

/// The program of a command is the value of `ZED_BIN`, or `zed` where that is not set
/// or holds nothing but white space.
pub proof fn program_is_the_configured_one(
    endpoint_id: ClientEndpointIdView,
    catalog: Seq<SshProfileView>,
    path: Seq<char>,
    absolute: bool,
    opener: Option<Seq<char>>,
    standalone_remote_target: Option<Seq<char>>,
    zed_bin: Option<Seq<char>>,
)
    ensures
        open_argv(
            endpoint_id,
            catalog,
            path,
            absolute,
            opener,
            standalone_remote_target,
            zed_bin,
        ) matches Ok(argv) ==> argv.len() == 3 && argv[1] == "-n"@ && argv[0] == match zed_bin {
            Some(value) => if forall|k: int|
                0 <= k < value.len() ==> white_space(#[trigger] value[k]) {
                "zed"@
            } else {
                value
            },
            None => "zed"@,
        },
{
}

proof fn lemma_saved_target(catalog: Seq<SshProfileView>, id: Seq<char>, from: int)
    requires
        0 <= from <= catalog.len(),
    ensures
        match saved_target(catalog, id, from) {
            Some(target) => exists|i: int|
                {
                    &&& from <= i < catalog.len()
                    &&& (#[trigger] catalog[i]).id == id
                    &&& catalog[i].target == target
                    &&& forall|j: int| from <= j < i ==> (#[trigger] catalog[j]).id != id
                },
            None => forall|j: int| from <= j < catalog.len() ==> (#[trigger] catalog[j]).id != id,
        },
    decreases catalog.len() - from,
{
    if from < catalog.len() {
        if catalog[from].id == id {
            assert(catalog[from].id == id);
        } else {
            lemma_saved_target(catalog, id, from + 1);
            if let Some(target) = saved_target(catalog, id, from) {
                let i = choose|i: int|
                    {
                        &&& from + 1 <= i < catalog.len()
                        &&& (#[trigger] catalog[i]).id == id
                        &&& catalog[i].target == target
                        &&& forall|j: int| from + 1 <= j < i ==> (#[trigger] catalog[j]).id != id
                    };
                assert(catalog[i].id == id);
            }
        }
    }
}

/// The target saved for an SSH endpoint is that of the first profile with its
/// identifier, and there is none where no profile has it. The local endpoint has none.
pub proof fn target_is_that_of_the_first_such_profile(
    catalog: Seq<SshProfileView>,
    id: Seq<char>,
    target: Seq<char>,
)
    ensures
        endpoint_target(catalog, ClientEndpointIdView::Local) is None,
        endpoint_target(catalog, ClientEndpointIdView::Ssh(id)) == Some(target) <==> exists|i: int|
            {
                &&& 0 <= i < catalog.len()
                &&& (#[trigger] catalog[i]).id == id
                &&& catalog[i].target == target
                &&& forall|j: int| 0 <= j < i ==> (#[trigger] catalog[j]).id != id
            },
        endpoint_target(catalog, ClientEndpointIdView::Ssh(id)) is None <==> forall|j: int|
            0 <= j < catalog.len() ==> (#[trigger] catalog[j]).id != id,
{
    lemma_saved_target(catalog, id, 0);
}

/// A command for an SSH endpoint goes to the first profile in the catalog that has the
/// endpoint's identifier, and to the target of that same profile.
pub proof fn ssh_command_goes_to_the_profile_of_its_endpoint(
    id: Seq<char>,
    catalog: Seq<SshProfileView>,
    path: Seq<char>,
    absolute: bool,
    opener: Option<Seq<char>>,
    standalone_remote_target: Option<Seq<char>>,
    zed_bin: Option<Seq<char>>,
)
    ensures
        open_argv(
            ClientEndpointIdView::Ssh(id),
            catalog,
            path,
            absolute,
            opener,
            standalone_remote_target,
            zed_bin,
        ) matches Ok(argv) ==> exists|i: int|
            {
                &&& 0 <= i < catalog.len()
                &&& (#[trigger] catalog[i]).id == id
                &&& forall|j: int| 0 <= j < i ==> (#[trigger] catalog[j]).id != id
                &&& argv[2] == ssh_uri(catalog[i].target, path)
            },
        (forall|j: int| 0 <= j < catalog.len() ==> (#[trigger] catalog[j]).id != id) ==> open_argv(
            ClientEndpointIdView::Ssh(id),
            catalog,
            path,
            absolute,
            opener,
            standalone_remote_target,
            zed_bin,
        ) is Err,
{
    lemma_saved_target(catalog, id, 0);
}

/// For an SSH endpoint a rooted path and an opener that is left out or `zed` give a
/// command exactly where a profile has the endpoint's identifier. What the local
/// machine takes for absolute and a target from outside make no difference.
pub proof fn ssh_endpoint_needs_a_profile(
    id: Seq<char>,
    catalog: Seq<SshProfileView>,
    path: Seq<char>,
    absolute: bool,
    opener: Option<Seq<char>>,
    standalone_remote_target: Option<Seq<char>>,
    zed_bin: Option<Seq<char>>,
)
    ensures
        ({
            let r = open_argv(
                ClientEndpointIdView::Ssh(id),
                catalog,
                path,
                absolute,
                opener,
                standalone_remote_target,
                zed_bin,
            );
            if !is_rooted(path) {
                r == Err::<Seq<Seq<char>>, (ClientOpenWorkspaceReason, Seq<char>)>(
                    (
                        ClientOpenWorkspaceReason::InvalidPath,
                        "workspace path is not absolute: "@ + path,
                    ),
                )
            } else if opener is Some && opener->0 != "zed"@ {
                r == Err::<Seq<Seq<char>>, (ClientOpenWorkspaceReason, Seq<char>)>(
                    (
                        ClientOpenWorkspaceReason::UnsupportedOpener,
                        "unsupported workspace opener: "@ + opener->0,
                    ),
                )
            } else if exists|i: int| 0 <= i < catalog.len() && (#[trigger] catalog[i]).id == id {
                r is Ok
            } else {
                r == Err::<Seq<Seq<char>>, (ClientOpenWorkspaceReason, Seq<char>)>(
                    (
                        ClientOpenWorkspaceReason::LaunchFailed,
                        "saved SSH target is unavailable for the active endpoint"@,
                    ),
                )
            }
        }),
{
    lemma_rooted(path);
    lemma_saved_target(catalog, id, 0);
}

/// For the local endpoint the catalog makes no difference. With a target from outside
/// the location is the path on that target, which has to be rooted; without one it is
/// the path itself, which has to be absolute.
pub proof fn local_endpoint_needs_no_profile(
    catalog: Seq<SshProfileView>,
    path: Seq<char>,
    absolute: bool,
    opener: Option<Seq<char>>,
    standalone_remote_target: Option<Seq<char>>,
    zed_bin: Option<Seq<char>>,
)
    ensures
        ({
            let r = open_argv(
                ClientEndpointIdView::Local,
                catalog,
                path,
                absolute,
                opener,
                standalone_remote_target,
                zed_bin,
            );
            let accepted = match standalone_remote_target {
                Some(_) => is_rooted(path),
                None => absolute,
            };
            if !accepted {
                r == Err::<Seq<Seq<char>>, (ClientOpenWorkspaceReason, Seq<char>)>(
                    (
                        ClientOpenWorkspaceReason::InvalidPath,
                        "workspace path is not absolute: "@ + path,
                    ),
                )
            } else if opener is Some && opener->0 != "zed"@ {
                r == Err::<Seq<Seq<char>>, (ClientOpenWorkspaceReason, Seq<char>)>(
                    (
                        ClientOpenWorkspaceReason::UnsupportedOpener,
                        "unsupported workspace opener: "@ + opener->0,
                    ),
                )
            } else {
                r matches Ok(argv) && argv.len() == 3 && argv[2] == match standalone_remote_target {
                    Some(target) => ssh_uri(target, path),
                    None => path,
                }
            }
        }),
{
    lemma_rooted(path);
}

} // verus!
