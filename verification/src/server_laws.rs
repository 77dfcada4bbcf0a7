//! What holds of the server's bookkeeping as a whole.

use vstd::prelude::*;

use crate::paths::{begins_absolute, OpenPath};
use crate::pending::{
    all_given_up, api_id_of, given_up, inserted, lemma_position, lookup, next_id_is_new, position,
    remaining, removed, request_id, respond_to_of, responder_of, selected, told, was_issued,
    well_formed, PendingView, ResponderView, Selection,
};
use crate::protocol::{CLIENT_OPEN_WORKSPACE_CAPABILITY, CLIENT_OPEN_WORKSPACE_REQUEST_KIND};
use crate::schema::{ClientOpenWorkspaceReason, ClientTargetView};
use crate::server::{
    has_capability, intent_target, is_targeted, open_path, refusal_view, token_client,
    workspace_position, ClientConnection, ClientConnectionMode, HeadlessServer,
    OpenWorkspaceIntent, OutgoingClientOpenWorkspace, Refusal, TargetedIntent, Workspace,
    CLIENT_OPEN_WORKSPACE_TIMEOUT,
};
use crate::text::{
    decimal, decimal_reads_back, find, lemma_find, option_view, parsed_u64, views,
};

verus! {

/// Adding a request under an identifier that no pending request has puts it behind
/// the others, and taking it out again leaves them as they were.
pub proof fn added_request_comes_out_again<R>(
    pending: Seq<PendingView<R>>,
    entry: PendingView<R>,
)
    requires
        lookup(pending, entry.request_id) is None,
    ensures
        inserted(pending, entry) == pending.push(entry),
        lookup(inserted(pending, entry), entry.request_id) == Some(entry),
        removed(inserted(pending, entry), entry.request_id) == pending,
{
    let id = entry.request_id;
    lemma_position(pending, id, 0);
    let more = pending.push(entry);
    lemma_position(more, id, 0);
    assert(more[pending.len() as int].request_id == id);
    let i = position(more, id, 0)->0;
    if i < pending.len() {
        assert(more[i] == pending[i]);
    }
    assert(more.remove(pending.len() as int) =~= pending);
}

/// The identifier that is given out next belongs to no pending request, as long as
/// the numbers last.
pub proof fn next_request_disturbs_no_other<R>(pending: Seq<PendingView<R>>, next: u64)
    requires
        well_formed(pending, next),
        next < u64::MAX,
    ensures
        lookup(pending, request_id(next)) is None,
{
    lemma_position(pending, request_id(next), 0);
    next_id_is_new(next);
}

/// Adding or taking out one request leaves what is known under other identifiers.
pub proof fn other_requests_are_left_alone<R>(
    pending: Seq<PendingView<R>>,
    entry: PendingView<R>,
    id: Seq<char>,
    next: u64,
)
    requires
        well_formed(pending, next),
        id != entry.request_id,
    ensures
        lookup(inserted(pending, entry), id) == lookup(pending, id),
        lookup(removed(pending, entry.request_id), id) == lookup(pending, id),
{
    lemma_lookup_is_unique(pending, next);
    let more = inserted(pending, entry);
    let fewer = removed(pending, entry.request_id);
    lemma_position(pending, entry.request_id, 0);
    lemma_position(pending, id, 0);
    lemma_position(more, id, 0);
    lemma_position(fewer, id, 0);
    match position(pending, id, 0) {
        Some(k) => {
            assert(more[k] == pending[k]);
            let m = position(more, id, 0)->0;
            assert(position(more, id, 0) is Some);
            assert(more[m].request_id == id);
            if m != k {
                assert(more[m] == pending[m]);
            }
            match position(pending, entry.request_id, 0) {
                Some(i) => {
                    let k2 = if k < i {
                        k
                    } else {
                        k - 1
                    };
                    assert(fewer[k2] == pending[k]);
                    let f = position(fewer, id, 0)->0;
                    assert(position(fewer, id, 0) is Some);
                    let f2 = if f < i {
                        f
                    } else {
                        f + 1
                    };
                    assert(fewer[f] == pending[f2]);
                },
                None => {},
            }
        },
        None => {
            if let Some(m) = position(more, id, 0) {
                assert(more[m].request_id == id);
                if m < pending.len() {
                    if more[m] == pending[m] {
                        assert(pending[m].request_id == id);
                    }
                }
            }
            if let Some(f) = position(fewer, id, 0) {
                match position(pending, entry.request_id, 0) {
                    Some(i) => {
                        let f2 = if f < i {
                            f
                        } else {
                            f + 1
                        };
                        assert(fewer[f] == pending[f2]);
                    },
                    None => {},
                }
            }
        },
    }
}

proof fn lemma_lookup_is_unique<R>(pending: Seq<PendingView<R>>, next: u64)
    requires
        well_formed(pending, next),
    ensures
        forall|i: int|
            0 <= i < pending.len() ==> lookup(pending, (#[trigger] pending[i]).request_id) == Some(
                pending[i],
            ),
{
    assert forall|i: int| 0 <= i < pending.len() implies lookup(
        pending,
        (#[trigger] pending[i]).request_id,
    ) == Some(pending[i]) by {
        lemma_position(pending, pending[i].request_id, 0);
    }
}

/// A request that was taken out is not found again, so that no caller is answered twice.
pub proof fn settled_request_is_gone<R>(
    pending: Seq<PendingView<R>>,
    id: Seq<char>,
    next: u64,
)
    requires
        well_formed(pending, next),
    ensures
        lookup(removed(pending, id), id) is None,
{
    lemma_position(pending, id, 0);
    let fewer = removed(pending, id);
    lemma_position(fewer, id, 0);
    if let Some(f) = position(fewer, id, 0) {
        match position(pending, id, 0) {
            Some(i) => {
                let f2 = if f < i {
                    f
                } else {
                    f + 1
                };
                assert(fewer[f] == pending[f2]);
                assert(pending[f2].request_id == pending[i].request_id);
            },
            None => {},
        }
    }
}

/// Who is to be told about a request is not lost while it waits.
pub proof fn responder_survives_the_wait<R>(responder: ResponderView<R>)
    ensures
        responder_of(api_id_of(responder), respond_to_of(responder)) == responder,
{
}

/// A request for a keybinding waits without a caller and a way back, and nobody is
/// told about it: not what the client said, nor that it was given up or refused.
pub proof fn keybinding_is_told_nothing<R>(
    pending: PendingView<R>,
    opened: bool,
    reason: ClientOpenWorkspaceReason,
    said: Option<Seq<char>>,
    message: Seq<char>,
)
    requires
        pending.api_id == api_id_of(ResponderView::<R>::Keybind),
        pending.respond_to == respond_to_of(ResponderView::<R>::Keybind),
    ensures
        pending.api_id is None,
        pending.respond_to is None,
        told(responder_of(pending.api_id, pending.respond_to), opened, reason, said) is None,
        given_up(pending, reason, message).reply is None,
        told(ResponderView::<R>::Keybind, false, reason, Some(message)) is None,
{
}

/// When a client answers a request that was registered under a new identifier, the
/// caller is told what the client said, and the other requests are as they were.
pub proof fn caller_is_told_what_the_client_said<R>(
    pending: Seq<PendingView<R>>,
    next: u64,
    client_id: u64,
    deadline: u64,
    responder: ResponderView<R>,
    opened: bool,
    reason: ClientOpenWorkspaceReason,
    message: Option<Seq<char>>,
)
    requires
        well_formed(pending, next),
        next < u64::MAX,
    ensures
        ({
            let entry = PendingView {
                request_id: request_id(next),
                client_id,
                api_id: api_id_of(responder),
                respond_to: respond_to_of(responder),
                deadline,
            };
            let waiting = inserted(pending, entry);
            &&& lookup(waiting, request_id(next)) == Some(entry)
            &&& told(responder_of(entry.api_id, entry.respond_to), opened, reason, message)
                == told(responder, opened, reason, message)
            &&& removed(waiting, request_id(next)) == pending
        }),
{
    let entry = PendingView {
        request_id: request_id(next),
        client_id,
        api_id: api_id_of(responder),
        respond_to: respond_to_of(responder),
        deadline,
    };
    next_request_disturbs_no_other(pending, next);
    added_request_comes_out_again(pending, entry);
}

/// When requests are given up, a selected one is settled and no longer waits, and
/// any other one waits on as before.
pub proof fn each_request_is_given_up_or_waits_on<R>(
    pending: Seq<PendingView<R>>,
    selection: Selection,
    next: u64,
    id: Seq<char>,
    reason: ClientOpenWorkspaceReason,
    message: Seq<char>,
)
    requires
        well_formed(pending, next),
    ensures
        match lookup(pending, id) {
            Some(entry) => if selection.has(entry) {
                &&& lookup(remaining(pending, selection), id) is None
                &&& all_given_up(selected(pending, selection), reason, message).contains(
                    given_up(entry, reason, message),
                )
            } else {
                lookup(remaining(pending, selection), id) == Some(entry)
            },
            None => lookup(remaining(pending, selection), id) is None,
        },
{
    let keep = |p: PendingView<R>| !selection.has(p);
    let drop = |p: PendingView<R>| selection.has(p);
    let kept = remaining(pending, selection);
    lemma_position(pending, id, 0);
    lemma_position(kept, id, 0);
    if let Some(k) = position(kept, id, 0) {
        pending.lemma_filter_pred(keep, k);
        pending.lemma_filter_contains_rev(keep, kept[k]);
        let j = choose|j: int| 0 <= j < pending.len() && pending[j] == kept[k];
        assert(pending[j].request_id == id);
        let i = position(pending, id, 0)->0;
        assert(position(pending, id, 0) is Some);
        if i != j {
            assert(pending[i].request_id != pending[j].request_id);
        }
    }
    if let Some(i) = position(pending, id, 0) {
        if selection.has(pending[i]) {
            pending.lemma_filter_contains(drop, i);
            let out = selected(pending, selection);
            let k = choose|k: int| 0 <= k < out.len() && out[k] == pending[i];
            assert(all_given_up(out, reason, message)[k] == given_up(pending[i], reason, message));
        } else {
            pending.lemma_filter_contains(keep, i);
            let k = choose|k: int| 0 <= k < kept.len() && kept[k] == pending[i];
            assert(kept[k].request_id == id);
        }
    }
}

/// Giving up requests settles each of them once: what is settled and what waits on
/// are together what has been waiting.
pub proof fn no_request_is_lost_or_doubled<R>(
    pending: Seq<PendingView<R>>,
    selection: Selection,
)
    ensures
        selected(pending, selection).to_multiset().add(
            remaining(pending, selection).to_multiset(),
        ) =~= pending.to_multiset(),
        selected(pending, selection).len() + remaining(pending, selection).len() == pending.len(),
    decreases pending.len(),
{
    broadcast use vstd::seq_lib::group_to_multiset_ensures;

    reveal(Seq::filter);
    if pending.len() > 0 {
        let shorter = pending.drop_last();
        let last = pending.last();
        no_request_is_lost_or_doubled(shorter, selection);
        assert(pending =~= shorter.push(last));
        assert(pending.to_multiset() =~= shorter.to_multiset().insert(last));
        if selection.has(last) {
            assert(selected(pending, selection) =~= selected(shorter, selection).push(last));
            assert(remaining(pending, selection) =~= remaining(shorter, selection));
        } else {
            assert(selected(pending, selection) =~= selected(shorter, selection));
            assert(remaining(pending, selection) =~= remaining(shorter, selection).push(last));
        }
    }
}

/// No request waits on among those that were given up, so giving up the same ones
/// again settles nothing.
pub proof fn giving_up_again_settles_nothing<R>(
    pending: Seq<PendingView<R>>,
    selection: Selection,
)
    ensures
        forall|i: int|
            0 <= i < remaining(pending, selection).len() ==> !selection.has(
                #[trigger] remaining(pending, selection)[i],
            ),
        selected(remaining(pending, selection), selection) == Seq::<PendingView<R>>::empty(),
{
    let keep = |p: PendingView<R>| !selection.has(p);
    let drop = |p: PendingView<R>| selection.has(p);
    let kept = remaining(pending, selection);
    assert forall|i: int| 0 <= i < kept.len() implies !selection.has(#[trigger] kept[i]) by {
        pending.lemma_filter_pred(keep, i);
    }
    let again = selected(kept, selection);
    if again.len() > 0 {
        kept.lemma_filter_pred(drop, 0);
        assert(again.contains(again[0]));
        kept.lemma_filter_contains_rev(drop, again[0]);
    }
}

/// A request that was registered at `now` is given up from the end of the time that
/// its client may take, and not before.
pub proof fn request_expires_on_time<R>(entry: PendingView<R>, now: u64, later: u64)
    requires
        now + CLIENT_OPEN_WORKSPACE_TIMEOUT <= u64::MAX,
        entry.deadline == now + CLIENT_OPEN_WORKSPACE_TIMEOUT,
    ensures
        Selection::DueAt(later).has(entry) <==> later >= now + CLIENT_OPEN_WORKSPACE_TIMEOUT,
{
}

/// A client that is asked to open a workspace is connected as a client shell, can
/// open workspaces and can be written to, and the path is the workspace's and absolute.
pub proof fn asked_client_can_open_the_path<R>(
    server: HeadlessServer<R>,
    workspace_id: Seq<char>,
    target: ClientTargetView,
)
    ensures
        server.prepared(workspace_id, target) matches Ok((client_id, path)) ==> {
            &&& server.target_client(target) == Some(client_id)
            &&& server.clients@.contains_key(client_id)
            &&& server.clients@[client_id].mode == ClientConnectionMode::ClientShell
            &&& has_capability(server.clients@[client_id], CLIENT_OPEN_WORKSPACE_CAPABILITY@)
            &&& server.clients@[client_id].has_writer
            &&& path.absolute()
            &&& workspace_position(server.workspaces@, workspace_id, 0) matches Some(index)
                && open_path(server.workspaces@, index) == Some(path)
        },
{
}

/// A request that reaches a client which is no client shell or cannot open workspaces
/// is refused for that reason.
pub proof fn unsupported_client_is_refused_as_such<R>(
    server: HeadlessServer<R>,
    workspace_id: Seq<char>,
    target: ClientTargetView,
    index: int,
    path: OpenPath,
    client_id: u64,
)
    requires
        workspace_position(server.workspaces@, workspace_id, 0) == Some(index),
        open_path(server.workspaces@, index) == Some(path),
        path.absolute(),
        server.target_client(target) == Some(client_id),
        server.clients@.contains_key(client_id),
        server.clients@[client_id].mode != ClientConnectionMode::ClientShell || !has_capability(
            server.clients@[client_id],
            CLIENT_OPEN_WORKSPACE_CAPABILITY@,
        ),
    ensures
        server.prepared(workspace_id, target) matches Err((reason, _)) && reason
            == ClientOpenWorkspaceReason::UnsupportedClient,
{
}

proof fn lemma_find_first(a: Seq<char>, c: char, b: Seq<char>)
    requires
        !a.contains(c),
    ensures
        find(a + seq![c] + b, c, 0) == Some(a.len() as int),
{
    let s = a + seq![c] + b;
    lemma_find(s, c, 0);
    assert(s[a.len() as int] == c);
    let i = find(s, c, 0)->0;
    assert(find(s, c, 0) is Some);
    if i < a.len() {
        assert(a[i] == c);
    }
}

proof fn lemma_decimal_has_no_colon(n: nat)
    ensures
        !decimal(n).contains(':'),
    decreases n,
{
    let s = decimal(n);
    if n >= 10 {
        lemma_decimal_has_no_colon(n / 10);
        let shorter = decimal(n / 10);
        assert forall|i: int| 0 <= i < s.len() implies s[i] != ':' by {
            if i < shorter.len() {
                assert(s[i] == shorter[i]);
                assert(shorter.contains(shorter[i]));
            }
        }
    }
}

/// A token of this run of the server names its client, with and without something
/// behind the client's number.
pub proof fn token_names_its_client(boot_id: Seq<char>, client_id: u64, rest: Seq<char>)
    requires
        !boot_id.contains(':'),
    ensures
        token_client("endpoint:"@ + boot_id + seq![':'] + decimal(client_id as nat), boot_id)
            == Some(client_id),
        token_client(
            "endpoint:"@ + boot_id + seq![':'] + decimal(client_id as nat) + seq![':'] + rest,
            boot_id,
        ) == Some(client_id),
{
    let prefix = "endpoint:"@;
    let number = decimal(client_id as nat);
    decimal_reads_back(client_id);
    lemma_decimal_has_no_colon(client_id as nat);

    let short = prefix + boot_id + seq![':'] + number;
    assert(short.subrange(0, prefix.len() as int) =~= prefix);
    let short_rest = boot_id + seq![':'] + number;
    assert(short.skip(prefix.len() as int) =~= short_rest);
    lemma_find_first(boot_id, ':', number);
    assert(short_rest.take(boot_id.len() as int) =~= boot_id);
    assert(short_rest.skip(boot_id.len() as int + 1) =~= number);
    lemma_find(number, ':', 0);
    if let Some(i) = find(number, ':', 0) {
        assert(number[i] == ':');
    }

    let tail = number + seq![':'] + rest;
    let long = prefix + boot_id + seq![':'] + number + seq![':'] + rest;
    assert(long.subrange(0, prefix.len() as int) =~= prefix);
    let long_rest = boot_id + seq![':'] + tail;
    assert(long.skip(prefix.len() as int) =~= long_rest);
    lemma_find_first(boot_id, ':', tail);
    assert(long_rest.take(boot_id.len() as int) =~= boot_id);
    assert(long_rest.skip(boot_id.len() as int + 1) =~= tail);
    lemma_find_first(number, ':', rest);
    assert(tail.take(number.len() as int) =~= number);
}

/// A token of another run of the server names nobody.
pub proof fn token_of_another_run_names_nobody(
    boot_id: Seq<char>,
    other: Seq<char>,
    rest: Seq<char>,
)
    requires
        !other.contains(':'),
        other != boot_id,
    ensures
        token_client("endpoint:"@ + other + seq![':'] + rest, boot_id) is None,
{
    let prefix = "endpoint:"@;
    let token = prefix + other + seq![':'] + rest;
    assert(token.subrange(0, prefix.len() as int) =~= prefix);
    let behind = other + seq![':'] + rest;
    assert(token.skip(prefix.len() as int) =~= behind);
    lemma_find_first(other, ':', rest);
    assert(behind.take(other.len() as int) =~= other);
}

/// A request for an invoking client reaches a connected client or none.
pub proof fn invoking_client_is_connected<R>(server: HeadlessServer<R>, invocation_id: Seq<char>)
    ensures
        server.target_client(ClientTargetView::Invocation { invocation_id }) matches Some(client_id)
            ==> server.clients@.contains_key(client_id),
{
}

proof fn lemma_workspace_position(workspaces: Seq<Workspace>, id: Seq<char>, from: int)
    requires
        0 <= from,
    ensures
        match workspace_position(workspaces, id, from) {
            Some(i) => from <= i < workspaces.len() && workspaces[i].id@ == id && forall|j: int|
                from <= j < i ==> (#[trigger] workspaces[j]).id@ != id,
            None => forall|j: int|
                from <= j < workspaces.len() ==> (#[trigger] workspaces[j]).id@ != id,
        },
    decreases workspaces.len() - from,
{
    if from < workspaces.len() && workspaces[from].id@ != id {
        lemma_workspace_position(workspaces, id, from + 1);
    }
}

/// Whether the workspace at `i` is the first one with the identifier `id`.
pub open spec fn is_the_first_named(workspaces: Seq<Workspace>, id: Seq<char>, i: int) -> bool {
    &&& 0 <= i < workspaces.len()
    &&& workspaces[i].id@ == id
    &&& forall|j: int| 0 <= j < i ==> (#[trigger] workspaces[j]).id@ != id
}

/// A workspace is found under its identifier, the first one where there are several,
/// and none is found exactly where none has the identifier.
pub proof fn first_workspace_of_an_identifier_is_found(
    workspaces: Seq<Workspace>,
    id: Seq<char>,
    i: int,
)
    ensures
        workspace_position(workspaces, id, 0) == Some(i) <==> is_the_first_named(
            workspaces,
            id,
            i,
        ),
        workspace_position(workspaces, id, 0) is None <==> forall|j: int|
            0 <= j < workspaces.len() ==> (#[trigger] workspaces[j]).id@ != id,
{
    lemma_workspace_position(workspaces, id, 0);
    if let Some(k) = workspace_position(workspaces, id, 0) {
        assert(workspaces[k].id@ == id);
    }
}

/// A workspace with a worktree checkout is opened at the checkout, whatever directory
/// its terminals resolve to. That directory is opened only where there is no checkout.
pub proof fn checkout_goes_before_the_terminals_directory(workspaces: Seq<Workspace>, i: int)
    ensures
        0 <= i < workspaces.len() && workspaces[i].checkout_path is Some ==> {
            &&& open_path(workspaces, i) matches Some(path)
            &&& path.text() == workspaces[i].checkout_path->0.text()
            &&& path.absolute() == workspaces[i].checkout_path->0.absolute()
        },
        0 <= i < workspaces.len() && workspaces[i].checkout_path is None
            && workspaces[i].identity_cwd is Some ==> {
            &&& open_path(workspaces, i) matches Some(path)
            &&& path.text() == workspaces[i].identity_cwd->0.text()
            &&& path.absolute() == workspaces[i].identity_cwd->0.absolute()
        },
        0 <= i < workspaces.len() && workspaces[i].checkout_path is None
            && workspaces[i].identity_cwd is None ==> open_path(workspaces, i) is None,
        !(0 <= i < workspaces.len()) ==> open_path(workspaces, i) is None,
{
}

/// The path that is sent to a client is the text of the workspace's checkout path where
/// it has one, whatever directory its terminals resolve to, and the text of that
/// directory where it has none.
pub proof fn checkout_path_is_sent_to_the_client<R>(
    before: HeadlessServer<R>,
    after: HeadlessServer<R>,
    workspace_id: Seq<char>,
    target: ClientTargetView,
    i: int,
    client_id: u64,
    path: OpenPath,
    outgoing: OutgoingClientOpenWorkspace<R>,
    n: u64,
    opener: Option<Seq<char>>,
    responder: ResponderView<R>,
)
    requires
        is_the_first_named(before.workspaces@, workspace_id, i),
        before.prepared(workspace_id, target) == Ok::<
            (u64, OpenPath),
            (ClientOpenWorkspaceReason, Seq<char>),
        >((client_id, path)),
        after.asks(outgoing, n, client_id, path, opener, responder),
    ensures
        before.workspaces@[i].checkout_path matches Some(checkout) ==> outgoing.request.path@
            == checkout.text(),
        before.workspaces@[i].checkout_path is None ==> {
            &&& before.workspaces@[i].identity_cwd matches Some(directory)
            &&& outgoing.request.path@ == directory.text()
        },
{
    first_workspace_of_an_identifier_is_found(before.workspaces@, workspace_id, i);
}

/// Two servers whose workspaces differ in the directories of their terminals alone ask
/// for the same path of a workspace that has a checkout.
pub proof fn terminals_do_not_move_a_checkout(
    a: Seq<Workspace>,
    b: Seq<Workspace>,
    i: int,
)
    requires
        0 <= i < a.len(),
        i < b.len(),
        a[i].checkout_path is Some,
        a[i].checkout_path == b[i].checkout_path,
    ensures
        open_path(a, i) == open_path(b, i),
{
}

/// A request to a client says to whom it goes, under which identifier, from which run of
/// the server, what is to be opened and with what, and who is told.
pub proof fn request_holds_what_was_asked_for<R>(
    server: HeadlessServer<R>,
    outgoing: OutgoingClientOpenWorkspace<R>,
    n: u64,
    client_id: u64,
    path: OpenPath,
    opener: Option<Seq<char>>,
    responder: ResponderView<R>,
)
    requires
        server.asks(outgoing, n, client_id, path, opener, responder),
    ensures
        outgoing.client_id == client_id,
        outgoing.request.request_id@ == "client-open-workspace-"@ + decimal(n as nat),
        outgoing.request.endpoint_boot_id@ == server.client_shell_boot_id@,
        outgoing.request.path@ == path.text(),
        match outgoing.request.opener {
            Some(text) => opener == Some(text@),
            None => opener is None,
        },
        outgoing.responder@ == responder,
        was_issued(outgoing.request.request_id@, server.next_number()),
{
    assert(outgoing.request@.request_id == outgoing.request.request_id@);
    assert(outgoing.request@.opener == option_view(outgoing.request.opener));
}

/// What stays the same when an identifier is given out and when the pending requests
/// change: the workspaces, the clients, the client in the foreground, the server's boot
/// identifier and the wishes of keybindings.
pub proof fn bookkeeping_leaves_the_rest<R>(after: HeadlessServer<R>, before: HeadlessServer<R>)
    ensures
        after.only_issued_an_id(&before) || after.only_pending_differs(&before) ==> {
            &&& after.workspaces == before.workspaces
            &&& after.clients == before.clients
            &&& after.foreground_client_id == before.foreground_client_id
            &&& after.client_shell_boot_id == before.client_shell_boot_id
            &&& after.pending_client_open_workspace == before.pending_client_open_workspace
        },
        after.same_surroundings(&before) ==> {
            &&& after.workspaces == before.workspaces
            &&& after.clients == before.clients
            &&& after.foreground_client_id == before.foreground_client_id
            &&& after.client_shell_boot_id == before.client_shell_boot_id
        },
        after.only_issued_an_id(&before) ==> after.pending() == before.pending() && (
        before.next_number() < u64::MAX ==> after.next_number() == before.next_number() + 1),
        after.only_pending_differs(&before) ==> after.next_number() == before.next_number(),
{
}

/// A refusal is modelled by its reason, the text of its message and who is to be told.
pub proof fn refusal_is_modelled_by_its_parts<R>(refusal: Refusal<R>)
    ensures
        refusal_view(refusal).0 == refusal.0,
        refusal_view(refusal).1 == refusal.1@,
        refusal_view(refusal).2 == refusal.2@,
{
}

/// A client has a capability exactly where it is one of those that it lists.
pub proof fn capability_is_one_of_those_listed(client: ClientConnection, capability: Seq<char>)
    ensures
        has_capability(client, capability) <==> views(client.endpoint_capabilities@).contains(
            capability,
        ),
{
    let list = client.endpoint_capabilities@;
    if has_capability(client, capability) {
        let i = choose|i: int| 0 <= i < list.len() && (#[trigger] list[i])@ == capability;
        assert(views(list)[i] == capability);
    }
    if views(list).contains(capability) {
        let i = choose|i: int| 0 <= i < views(list).len() && views(list)[i] == capability;
        assert(list[i]@ == capability);
    }
}

/// The names that a client and the server agree on, and the time a client may take.
pub proof fn agreed_names_and_time()
    ensures
        CLIENT_OPEN_WORKSPACE_CAPABILITY@ == "client.open_workspace"@,
        CLIENT_OPEN_WORKSPACE_REQUEST_KIND@ == "client.open_workspace.request"@,
        CLIENT_OPEN_WORKSPACE_TIMEOUT == 15 * 1_000_000_000,
{
}

/// A target stands for the client in the foreground, connected or not, or for the
/// client that a token names, if that client is connected.
pub proof fn target_stands_for_its_client<R>(
    server: HeadlessServer<R>,
    invocation_id: Seq<char>,
    client_id: u64,
)
    ensures
        server.target_client(ClientTargetView::Foreground) == server.foreground_client_id,
        server.target_client(ClientTargetView::Invocation { invocation_id }) == Some(client_id)
            <==> token_client(invocation_id, server.client_shell_boot_id@) == Some(client_id)
            && server.clients@.contains_key(client_id),
{
}

/// A workspace is sought first. Where no workspace has the identifier, or the one that
/// has it has neither a checkout nor a directory, that is said, whatever the target.
pub proof fn missing_workspace_is_refused<R>(
    server: HeadlessServer<R>,
    workspace_id: Seq<char>,
    target: ClientTargetView,
    i: int,
)
    ensures
        (forall|j: int|
            0 <= j < server.workspaces@.len() ==> (#[trigger] server.workspaces@[j]).id@
                != workspace_id) ==> server.prepared(workspace_id, target) == Err::<
            (u64, OpenPath),
            (ClientOpenWorkspaceReason, Seq<char>),
        >(
            (
                ClientOpenWorkspaceReason::WorkspaceNotFound,
                "workspace not found: "@ + workspace_id,
            ),
        ),
        is_the_first_named(server.workspaces@, workspace_id, i)
            && server.workspaces@[i].checkout_path is None
            && server.workspaces@[i].identity_cwd is None ==> server.prepared(workspace_id, target) == Err::<
            (u64, OpenPath),
            (ClientOpenWorkspaceReason, Seq<char>),
        >(
            (
                ClientOpenWorkspaceReason::WorkspaceNotFound,
                "workspace has no resolved directory: "@ + workspace_id,
            ),
        ),
{
    first_workspace_of_an_identifier_is_found(server.workspaces@, workspace_id, i);
}

/// Whether `path` is where the workspace at `i` is opened.
pub open spec fn is_opened_at(workspaces: Seq<Workspace>, i: int, path: OpenPath) -> bool {
    workspaces[i].checkout_path == Some(path) || (workspaces[i].checkout_path is None
        && workspaces[i].identity_cwd == Some(path))
}

/// A path that is not absolute is refused before any client is sought, and a target that
/// stands for no client is refused after that.
pub proof fn path_is_checked_before_the_client<R>(
    server: HeadlessServer<R>,
    workspace_id: Seq<char>,
    target: ClientTargetView,
    i: int,
    path: OpenPath,
)
    requires
        is_the_first_named(server.workspaces@, workspace_id, i),
        is_opened_at(server.workspaces@, i, path),
    ensures
        !path.absolute() ==> server.prepared(workspace_id, target) == Err::<
            (u64, OpenPath),
            (ClientOpenWorkspaceReason, Seq<char>),
        >(
            (
                ClientOpenWorkspaceReason::InvalidPath,
                "workspace path is not absolute: "@ + path.text(),
            ),
        ),
        path.absolute() && server.target_client(target) is None ==> server.prepared(
            workspace_id,
            target,
        ) == Err::<(u64, OpenPath), (ClientOpenWorkspaceReason, Seq<char>)>(
            (
                ClientOpenWorkspaceReason::NoTargetClient,
                "no client matches the requested open-workspace target"@,
            ),
        ),
{
    first_workspace_of_an_identifier_is_found(server.workspaces@, workspace_id, i);
}

/// The client that a target stands for is asked to open the workspace where it is
/// connected as a client shell, lists the capability and can be written to. Otherwise
/// what is missing is said, in this order.
pub proof fn client_is_asked_or_refused<R>(
    server: HeadlessServer<R>,
    workspace_id: Seq<char>,
    target: ClientTargetView,
    i: int,
    path: OpenPath,
    client_id: u64,
)
    requires
        is_the_first_named(server.workspaces@, workspace_id, i),
        is_opened_at(server.workspaces@, i, path),
        path.absolute(),
        server.target_client(target) == Some(client_id),
    ensures
        server.prepared(workspace_id, target) == if !server.clients@.contains_key(client_id) {
            Err::<(u64, OpenPath), (ClientOpenWorkspaceReason, Seq<char>)>(
                (
                    ClientOpenWorkspaceReason::NoTargetClient,
                    "client "@ + decimal(client_id as nat) + " is no longer connected"@,
                ),
            )
        } else if server.clients@[client_id].mode is Other {
            Err(
                (
                    ClientOpenWorkspaceReason::UnsupportedClient,
                    "target client is not a client shell"@,
                ),
            )
        } else if !views(server.clients@[client_id].endpoint_capabilities@).contains(
            "client.open_workspace"@,
        ) {
            Err(
                (
                    ClientOpenWorkspaceReason::UnsupportedClient,
                    "target client does not support client.open_workspace"@,
                ),
            )
        } else if !server.clients@[client_id].has_writer {
            Err((ClientOpenWorkspaceReason::NoTargetClient, "target client connection is closed"@))
        } else {
            Ok((client_id, path))
        },
{
    first_workspace_of_an_identifier_is_found(server.workspaces@, workspace_id, i);
    agreed_names_and_time();
    capability_is_one_of_those_listed(
        server.clients@[client_id],
        CLIENT_OPEN_WORKSPACE_CAPABILITY@,
    );
}

proof fn lemma_token(boot_id: Seq<char>, tail: Seq<char>)
    requires
        !boot_id.contains(':'),
    ensures
        token_client("endpoint:"@ + boot_id + seq![':'] + tail, boot_id) == parsed_u64(
            match find(tail, ':', 0) {
                Some(j) => tail.take(j),
                None => tail,
            },
        ),
{
    let prefix = "endpoint:"@;
    let token = prefix + boot_id + seq![':'] + tail;
    let rest = boot_id + seq![':'] + tail;
    assert(token.subrange(0, prefix.len() as int) =~= prefix);
    assert(token.skip(prefix.len() as int) =~= rest);
    lemma_find_first(boot_id, ':', tail);
    assert(rest.take(boot_id.len() as int) =~= boot_id);
    assert(rest.skip(boot_id.len() as int + 1) =~= tail);
}

/// A token of this run of the server names the client whose number stands between the
/// boot identifier and the next colon or the end, and nobody where no number stands there.
pub proof fn token_is_read_as_a_number(boot_id: Seq<char>, number: Seq<char>, behind: Seq<char>)
    requires
        !boot_id.contains(':'),
        !number.contains(':'),
    ensures
        token_client("endpoint:"@ + boot_id + seq![':'] + number, boot_id) == parsed_u64(number),
        token_client(
            "endpoint:"@ + boot_id + seq![':'] + (number + seq![':'] + behind),
            boot_id,
        ) == parsed_u64(number),
{
    lemma_token(boot_id, number);
    lemma_find(number, ':', 0);
    if let Some(i) = find(number, ':', 0) {
        assert(number[i] == ':');
    }
    let tail = number + seq![':'] + behind;
    lemma_token(boot_id, tail);
    lemma_find_first(number, ':', behind);
    assert(tail.take(number.len() as int) =~= number);
}

/// A token that names a client begins with `endpoint:`, the boot identifier of this run
/// and a colon, and the boot identifier holds no colon.
pub proof fn token_that_names_a_client_is_of_this_run(token: Seq<char>, boot_id: Seq<char>)
    ensures
        token_client(token, boot_id) is Some ==> !boot_id.contains(':') && exists|tail: Seq<char>|
            token == #[trigger] ("endpoint:"@ + boot_id + seq![':'] + tail),
{
    if token_client(token, boot_id) is Some {
        let prefix = "endpoint:"@;
        let rest = token.skip(prefix.len() as int);
        assert(token =~= prefix + rest);
        lemma_find(rest, ':', 0);
        let i = find(rest, ':', 0)->0;
        if boot_id.contains(':') {
            let k = choose|k: int| 0 <= k < boot_id.len() && boot_id[k] == ':';
            assert(rest.take(i)[k] == ':');
        }
        let tail = rest.skip(i + 1);
        assert(token =~= "endpoint:"@ + boot_id + seq![':'] + tail);
    }
}

/// A keybinding is meant for the client that its token names as an endpoint, by the whole
/// token, and for the client in the foreground where the token is missing or of another
/// kind.
pub proof fn keybinding_is_meant_for_its_client(token: Seq<char>, rest: Seq<char>)
    ensures
        intent_target(None) == ClientTargetView::Foreground,
        intent_target(Some("endpoint:"@ + rest)) == (ClientTargetView::Invocation {
            invocation_id: "endpoint:"@ + rest,
        }),
        (forall|r: Seq<char>| token != #[trigger] ("endpoint:"@ + r)) ==> intent_target(Some(token))
            == ClientTargetView::Foreground,
{
    let prefix = "endpoint:"@;
    let whole = prefix + rest;
    assert(whole.subrange(0, prefix.len() as int) =~= prefix);
    if prefix.is_prefix_of(token) {
        assert(token =~= prefix + token.skip(prefix.len() as int));
    }
}

/// What becomes of a keybinding's wish keeps its workspace and its opener.
pub proof fn wish_keeps_its_workspace_and_opener(
    intent: OpenWorkspaceIntent,
    targeted: TargetedIntent,
)
    requires
        is_targeted(intent, targeted),
    ensures
        targeted.workspace_id@ == intent.workspace_id@,
        targeted.opener@ == intent.opener@,
        intent.invoking_client_token is None ==> targeted.target is Foreground,
        intent.invoking_client_token matches Some(token) ==> targeted.target@ == intent_target(
            Some(token@),
        ),
{
}

/// A keybinding's wish is requested of the client that it is meant for, with its own
/// opener and without a caller to answer, or it is refused for the reason why there is no
/// client or no path, and the server is as it was.
pub proof fn keybinding_is_requested_or_refused<R>(
    after: HeadlessServer<R>,
    before: HeadlessServer<R>,
    intent: TargetedIntent,
    r: Result<OutgoingClientOpenWorkspace<R>, Refusal<R>>,
)
    requires
        after.requested_for_keybinding(&before, intent, r),
    ensures
        r is Ok <==> before.prepared(intent.workspace_id@, intent.target@) is Ok,
        r matches Ok(outgoing) ==> {
            let (client_id, path) = before.prepared(intent.workspace_id@, intent.target@)->Ok_0;
            &&& outgoing.client_id == client_id
            &&& outgoing.request.path@ == path.text()
            &&& outgoing.request.opener is Some
            &&& outgoing.request.opener->0@ == intent.opener@
            &&& outgoing.request.request_id@ == "client-open-workspace-"@ + decimal(
                before.next_number() as nat,
            )
            &&& outgoing.responder is Keybind
            &&& begins_absolute(outgoing.request.path@)
            &&& after.pending() == before.pending()
            &&& after.workspaces == before.workspaces
            &&& after.clients == before.clients
        },
        r matches Err(refusal) ==> {
            &&& before.prepared(intent.workspace_id@, intent.target@) == Err::<
                (u64, OpenPath),
                (ClientOpenWorkspaceReason, Seq<char>),
            >((refusal.0, refusal.1@))
            &&& refusal.2 is Keybind
            &&& after == before
        },
{
    if let Ok(outgoing) = r {
        let (client_id, path) = before.prepared(intent.workspace_id@, intent.target@)->Ok_0;
        request_holds_what_was_asked_for(
            after,
            outgoing,
            before.next_number(),
            client_id,
            path,
            Some(intent.opener@),
            ResponderView::Keybind,
        );
    }
}

/// What the server holds of its pending requests is what its bookkeeping holds, and it is
/// in order exactly where that is well formed.
pub proof fn server_holds_its_pending_requests<R>(server: HeadlessServer<R>)
    ensures
        server.pending() == server.pending_client_open_workspaces.requests(),
        server.next_number() == server.pending_client_open_workspaces.next_number(),
        server.wf() <==> well_formed(server.pending(), server.next_number()),
{
}

} // verus!
