//! What holds of the requests that wait for a client's answer.

use vstd::prelude::*;

use crate::pending::{
    all_given_up, api_id_of, given_up, inserted, lemma_position, lookup, next_after, position,
    remaining, removed, request_id, respond_to_of, responder_of, selected, told, was_issued,
    well_formed, PendingView, ResponderView, Selection,
};
use crate::schema::ClientOpenWorkspaceReason;
use crate::text::{decimal, decimal_is_injective};

verus! {

/// The request that is found under an identifier is the first one that has it, and
/// none is found exactly where none has it.
pub proof fn first_request_of_an_identifier_is_found<R>(
    pending: Seq<PendingView<R>>,
    id: Seq<char>,
    entry: PendingView<R>,
)
    ensures
        lookup(pending, id) == Some(entry) <==> exists|i: int|
            {
                &&& 0 <= i < pending.len()
                &&& #[trigger] pending[i] == entry
                &&& entry.request_id == id
                &&& forall|j: int| 0 <= j < i ==> (#[trigger] pending[j]).request_id != id
            },
        lookup(pending, id) is None <==> forall|j: int|
            0 <= j < pending.len() ==> (#[trigger] pending[j]).request_id != id,
{
    lemma_position(pending, id, 0);
    if let Some(i) = position(pending, id, 0) {
        assert(pending[i].request_id == id);
    }
}

proof fn lemma_position_in_the_middle<R>(
    front: Seq<PendingView<R>>,
    entry: PendingView<R>,
    back: Seq<PendingView<R>>,
)
    requires
        forall|j: int|
            0 <= j < front.len() ==> (#[trigger] front[j]).request_id != entry.request_id,
    ensures
        position(front + seq![entry] + back, entry.request_id, 0) == Some(front.len() as int),
{
    let all = front + seq![entry] + back;
    lemma_position(all, entry.request_id, 0);
    assert(all[front.len() as int] == entry);
    assert(position(all, entry.request_id, 0) is Some);
    let i = position(all, entry.request_id, 0)->0;
    if i < front.len() {
        assert(all[i] == front[i]);
    }
}

/// A request takes the place of the first one that has its identifier, and the others
/// stay where they are. Where none has it, it is put behind the others.
pub proof fn request_takes_the_place_of_its_like<R>(
    front: Seq<PendingView<R>>,
    replaced: PendingView<R>,
    back: Seq<PendingView<R>>,
    entry: PendingView<R>,
)
    requires
        forall|j: int|
            0 <= j < front.len() ==> (#[trigger] front[j]).request_id != entry.request_id,
    ensures
        inserted(front, entry) == front.push(entry),
        replaced.request_id == entry.request_id ==> inserted(front + seq![replaced] + back, entry)
            == front + seq![entry] + back,
{
    lemma_position(front, entry.request_id, 0);
    if replaced.request_id == entry.request_id {
        lemma_position_in_the_middle(front, replaced, back);
        assert((front + seq![replaced] + back).update(front.len() as int, entry) =~= front + seq![
            entry,
        ] + back);
    }
}

/// Taking out a request takes out the first one that has its identifier and leaves the
/// others in their order. Where none has it, all stay.
pub proof fn only_the_named_request_is_taken_out<R>(
    front: Seq<PendingView<R>>,
    entry: PendingView<R>,
    back: Seq<PendingView<R>>,
)
    requires
        forall|j: int|
            0 <= j < front.len() ==> (#[trigger] front[j]).request_id != entry.request_id,
    ensures
        removed(front, entry.request_id) == front,
        removed(front + seq![entry] + back, entry.request_id) == front + back,
{
    lemma_position(front, entry.request_id, 0);
    lemma_position_in_the_middle(front, entry, back);
    assert((front + seq![entry] + back).remove(front.len() as int) =~= front + back);
}

/// When a client has disconnected, the requests that were sent to that client are given
/// up, and the requests of all other clients wait on.
pub proof fn disconnect_concerns_the_requests_of_its_client<R>(
    pending: Seq<PendingView<R>>,
    client_id: u64,
    entry: PendingView<R>,
)
    ensures
        selected(pending, Selection::OfClient(client_id)).contains(entry) <==> pending.contains(
            entry,
        ) && entry.client_id == client_id,
        remaining(pending, Selection::OfClient(client_id)).contains(entry) <==> pending.contains(
            entry,
        ) && entry.client_id != client_id,
{
    lemma_split(pending, Selection::OfClient(client_id), entry);
}

/// At any time, the requests whose deadline has come are given up, and the requests whose
/// deadline is still ahead wait on.
pub proof fn expiry_concerns_the_requests_that_are_due<R>(
    pending: Seq<PendingView<R>>,
    now: u64,
    entry: PendingView<R>,
)
    ensures
        selected(pending, Selection::DueAt(now)).contains(entry) <==> pending.contains(entry)
            && entry.deadline <= now,
        remaining(pending, Selection::DueAt(now)).contains(entry) <==> pending.contains(entry)
            && entry.deadline > now,
{
    lemma_split(pending, Selection::DueAt(now), entry);
}

proof fn lemma_split<R>(
    pending: Seq<PendingView<R>>,
    selection: Selection,
    entry: PendingView<R>,
)
    ensures
        selected(pending, selection).contains(entry) <==> pending.contains(entry)
            && selection.has(entry),
        remaining(pending, selection).contains(entry) <==> pending.contains(entry)
            && !selection.has(entry),
{
    lemma_filter(pending, |p: PendingView<R>| selection.has(p), entry);
    lemma_filter(pending, |p: PendingView<R>| !selection.has(p), entry);
}

proof fn lemma_filter<R>(
    pending: Seq<PendingView<R>>,
    keep: spec_fn(PendingView<R>) -> bool,
    entry: PendingView<R>,
)
    ensures
        pending.filter(keep).contains(entry) <==> pending.contains(entry) && keep(entry),
{
    let kept = pending.filter(keep);
    if kept.contains(entry) {
        let k = choose|k: int| 0 <= k < kept.len() && kept[k] == entry;
        pending.lemma_filter_pred(keep, k);
        pending.lemma_filter_contains_rev(keep, entry);
    }
    if pending.contains(entry) && keep(entry) {
        let i = choose|i: int| 0 <= i < pending.len() && pending[i] == entry;
        pending.lemma_filter_contains(keep, i);
    }
}

/// The requests of a disconnected client and those of the others are kept apart one by
/// one, each in the order in which clients were asked.
pub proof fn disconnect_keeps_the_order<R>(
    pending: Seq<PendingView<R>>,
    client_id: u64,
    entry: PendingView<R>,
)
    ensures
        selected(Seq::<PendingView<R>>::empty(), Selection::OfClient(client_id)).len() == 0,
        remaining(Seq::<PendingView<R>>::empty(), Selection::OfClient(client_id)).len() == 0,
        entry.client_id == client_id ==> {
            &&& selected(pending.push(entry), Selection::OfClient(client_id)) == selected(
                pending,
                Selection::OfClient(client_id),
            ).push(entry)
            &&& remaining(pending.push(entry), Selection::OfClient(client_id)) == remaining(
                pending,
                Selection::OfClient(client_id),
            )
        },
        entry.client_id != client_id ==> {
            &&& selected(pending.push(entry), Selection::OfClient(client_id)) == selected(
                pending,
                Selection::OfClient(client_id),
            )
            &&& remaining(pending.push(entry), Selection::OfClient(client_id)) == remaining(
                pending,
                Selection::OfClient(client_id),
            ).push(entry)
        },
{
    reveal(Seq::filter);
    assert(pending.push(entry).drop_last() =~= pending);
}

/// The requests that are due and those that are not are kept apart one by one, each in
/// the order in which clients were asked.
pub proof fn expiry_keeps_the_order<R>(
    pending: Seq<PendingView<R>>,
    now: u64,
    entry: PendingView<R>,
)
    ensures
        selected(Seq::<PendingView<R>>::empty(), Selection::DueAt(now)).len() == 0,
        remaining(Seq::<PendingView<R>>::empty(), Selection::DueAt(now)).len() == 0,
        entry.deadline <= now ==> {
            &&& selected(pending.push(entry), Selection::DueAt(now)) == selected(
                pending,
                Selection::DueAt(now),
            ).push(entry)
            &&& remaining(pending.push(entry), Selection::DueAt(now)) == remaining(
                pending,
                Selection::DueAt(now),
            )
        },
        entry.deadline > now ==> {
            &&& selected(pending.push(entry), Selection::DueAt(now)) == selected(
                pending,
                Selection::DueAt(now),
            )
            &&& remaining(pending.push(entry), Selection::DueAt(now)) == remaining(
                pending,
                Selection::DueAt(now),
            ).push(entry)
        },
{
    reveal(Seq::filter);
    assert(pending.push(entry).drop_last() =~= pending);
}

proof fn lemma_split_of_own_identifiers<R>(
    pending: Seq<PendingView<R>>,
    selection: Selection,
    reason: ClientOpenWorkspaceReason,
    message: Seq<char>,
    i: int,
)
    requires
        0 <= i < pending.len(),
        forall|a: int, b: int|
            0 <= a < b < pending.len() ==> (#[trigger] pending[a]).request_id != (
            #[trigger] pending[b]).request_id,
    ensures
        ({
            let kept = remaining(pending, selection);
            let settled = all_given_up(selected(pending, selection), reason, message);
            if selection.has(pending[i]) {
                &&& lookup(kept, pending[i].request_id) is None
                &&& exists|k: int|
                    0 <= k < settled.len() && (#[trigger] settled[k]).request_id
                        == pending[i].request_id
            } else {
                &&& lookup(kept, pending[i].request_id) == Some(pending[i])
                &&& forall|k: int|
                    0 <= k < settled.len() ==> (#[trigger] settled[k]).request_id
                        != pending[i].request_id
            }
        }),
{
    let entry = pending[i];
    let kept = remaining(pending, selection);
    let out = selected(pending, selection);
    let settled = all_given_up(out, reason, message);
    lemma_split(pending, selection, entry);
    assert(pending.contains(entry));
    lemma_position(kept, entry.request_id, 0);
    if let Some(k) = position(kept, entry.request_id, 0) {
        lemma_split(pending, selection, kept[k]);
        assert(kept.contains(kept[k]));
        let m = choose|m: int| 0 <= m < pending.len() && pending[m] == kept[k];
        assert(m == i) by {
            if m < i {
                assert(pending[m].request_id != pending[i].request_id);
            }
            if i < m {
                assert(pending[i].request_id != pending[m].request_id);
            }
        }
    }
    if selection.has(entry) {
        let k = choose|k: int| 0 <= k < out.len() && out[k] == entry;
        assert(settled[k].request_id == entry.request_id);
    } else {
        let k = choose|k: int| 0 <= k < kept.len() && kept[k] == entry;
        assert(kept[k].request_id == entry.request_id);
        assert forall|k: int| 0 <= k < settled.len() implies (#[trigger] settled[k]).request_id
            != entry.request_id by {
            lemma_split(pending, selection, out[k]);
            assert(out.contains(out[k]));
            let m = choose|m: int| 0 <= m < pending.len() && pending[m] == out[k];
            if m < i {
                assert(pending[m].request_id != pending[i].request_id);
            }
            if i < m {
                assert(pending[i].request_id != pending[m].request_id);
            }
        }
    }
}

/// When a client disconnects, a request is given up if and only if the client it was sent
/// to is that client. The request of any other client is still found as it was, and no
/// reply is made for it.
pub proof fn only_the_disconnected_client_gives_up<R>(
    pending: Seq<PendingView<R>>,
    client_id: u64,
    reason: ClientOpenWorkspaceReason,
    message: Seq<char>,
    i: int,
)
    requires
        0 <= i < pending.len(),
        forall|a: int, b: int|
            0 <= a < b < pending.len() ==> (#[trigger] pending[a]).request_id != (
            #[trigger] pending[b]).request_id,
    ensures
        ({
            let kept = remaining(pending, Selection::OfClient(client_id));
            let settled = all_given_up(
                selected(pending, Selection::OfClient(client_id)),
                reason,
                message,
            );
            if pending[i].client_id == client_id {
                &&& lookup(kept, pending[i].request_id) is None
                &&& exists|k: int|
                    0 <= k < settled.len() && (#[trigger] settled[k]).request_id
                        == pending[i].request_id
            } else {
                &&& lookup(kept, pending[i].request_id) == Some(pending[i])
                &&& forall|k: int|
                    0 <= k < settled.len() ==> (#[trigger] settled[k]).request_id
                        != pending[i].request_id
            }
        }),
{
    lemma_split_of_own_identifiers(pending, Selection::OfClient(client_id), reason, message, i);
}

/// At the time `now` a request is given up if and only if its deadline is `now` or before.
/// Any other request is still found as it was, and no reply is made for it.
pub proof fn only_due_requests_are_given_up<R>(
    pending: Seq<PendingView<R>>,
    now: u64,
    reason: ClientOpenWorkspaceReason,
    message: Seq<char>,
    i: int,
)
    requires
        0 <= i < pending.len(),
        forall|a: int, b: int|
            0 <= a < b < pending.len() ==> (#[trigger] pending[a]).request_id != (
            #[trigger] pending[b]).request_id,
    ensures
        ({
            let kept = remaining(pending, Selection::DueAt(now));
            let settled = all_given_up(selected(pending, Selection::DueAt(now)), reason, message);
            if pending[i].deadline <= now {
                &&& lookup(kept, pending[i].request_id) is None
                &&& exists|k: int|
                    0 <= k < settled.len() && (#[trigger] settled[k]).request_id
                        == pending[i].request_id
            } else {
                &&& lookup(kept, pending[i].request_id) == Some(pending[i])
                &&& forall|k: int|
                    0 <= k < settled.len() ==> (#[trigger] settled[k]).request_id
                        != pending[i].request_id
            }
        }),
{
    lemma_split_of_own_identifiers(pending, Selection::DueAt(now), reason, message, i);
}

/// A caller of the API is told the outcome under its own identifier and by its own way
/// back, with the reason and the message as they are. Nobody else is told anything.
pub proof fn caller_is_told_the_outcome<R>(
    id: Seq<char>,
    respond_to: R,
    opened: bool,
    reason: ClientOpenWorkspaceReason,
    message: Option<Seq<char>>,
)
    ensures
        told(ResponderView::Api { id, respond_to }, opened, reason, message) matches Some(reply)
            && reply.respond_to == respond_to && reply.response.id == id && reply.response.opened
            == opened && reply.response.reason == reason && reply.response.message == message,
        told(ResponderView::<R>::Keybind, opened, reason, message) is None,
{
}

/// A request remembers the identifier and the way back of its caller, and is taken for
/// that of a keybinding only where one of the two is missing.
pub proof fn caller_is_remembered<R>(id: Seq<char>, respond_to: R, other: Option<Seq<char>>)
    ensures
        api_id_of(ResponderView::Api { id, respond_to }) == Some(id),
        respond_to_of(ResponderView::Api { id, respond_to }) == Some(respond_to),
        api_id_of(ResponderView::<R>::Keybind) is None,
        respond_to_of(ResponderView::<R>::Keybind) is None,
        responder_of(Some(id), Some(respond_to)) == (ResponderView::Api { id, respond_to }),
        responder_of(None, Some(respond_to)) == ResponderView::<R>::Keybind,
        responder_of(other, None::<R>) == ResponderView::<R>::Keybind,
{
}

/// The caller of a request that is given up is told so, under its own identifier and by
/// its own way back: nothing was opened, for this reason and with this message.
pub proof fn caller_is_told_of_giving_up<R>(
    pending: Seq<PendingView<R>>,
    reason: ClientOpenWorkspaceReason,
    message: Seq<char>,
    i: int,
)
    requires
        0 <= i < pending.len(),
    ensures
        all_given_up(pending, reason, message).len() == pending.len(),
        all_given_up(pending, reason, message)[i] == given_up(pending[i], reason, message),
        given_up(pending[i], reason, message).request_id == pending[i].request_id,
        match (pending[i].api_id, pending[i].respond_to) {
            (Some(id), Some(respond_to)) => {
                &&& given_up(pending[i], reason, message).reply matches Some(reply)
                &&& reply.respond_to == respond_to
                &&& reply.response.id == id
                &&& !reply.response.opened
                &&& reply.response.reason == reason
                &&& reply.response.message == Some(message)
            },
            _ => given_up(pending[i], reason, message).reply is None,
        },
{
}

/// Requests are numbered upwards one by one as long as the numbers last, and requests
/// with different numbers have different identifiers.
pub proof fn numbers_make_identifiers(n: u64, m: u64)
    ensures
        request_id(n) == "client-open-workspace-"@ + decimal(n as nat),
        n != m ==> request_id(n) != request_id(m),
        n < u64::MAX ==> next_after(n) == n + 1,
        next_after(u64::MAX) == u64::MAX,
        n < m ==> was_issued(request_id(n), m),
        m <= n && m < u64::MAX ==> !was_issued(request_id(n), m),
{
    let prefix = "client-open-workspace-"@;
    if request_id(n) == request_id(m) {
        assert(request_id(n).skip(prefix.len() as int) =~= decimal(n as nat));
        assert(request_id(m).skip(prefix.len() as int) =~= decimal(m as nat));
        decimal_is_injective(n as nat, m as nat);
    }
    if m <= n && m < u64::MAX && was_issued(request_id(n), m) {
        let k = choose|k: u64|
            request_id(n) == #[trigger] request_id(k) && (k < m || m == u64::MAX);
        assert(request_id(k).skip(prefix.len() as int) =~= decimal(k as nat));
        assert(request_id(n).skip(prefix.len() as int) =~= decimal(n as nat));
        decimal_is_injective(n as nat, k as nat);
    }
}

/// Whether `id` is the identifier of a request with a number below `next`.
pub open spec fn is_numbered_below(id: Seq<char>, next: u64) -> bool {
    exists|n: u64| n < next && id == "client-open-workspace-"@ + #[trigger] decimal(n as nat)
}

/// Requests are well formed exactly where no two have the same identifier and every
/// identifier is that of an earlier request.
pub proof fn well_formed_requests_have_identifiers_of_their_own<R>(
    pending: Seq<PendingView<R>>,
    next: u64,
)
    requires
        next < u64::MAX,
    ensures
        well_formed(pending, next) <==> {
            &&& forall|i: int, j: int|
                0 <= i < pending.len() && 0 <= j < pending.len() && (
                #[trigger] pending[i]).request_id == (#[trigger] pending[j]).request_id ==> i == j
            &&& forall|i: int|
                0 <= i < pending.len() ==> is_numbered_below(
                    (#[trigger] pending[i]).request_id,
                    next,
                )
        },
{
    assert forall|i: int| 0 <= i < pending.len() implies is_numbered_below(
        (#[trigger] pending[i]).request_id,
        next,
    ) == was_issued(pending[i].request_id, next) by {
        let id = pending[i].request_id;
        if was_issued(id, next) {
            let n = choose|n: u64| id == #[trigger] request_id(n) && (n < next || next == u64::MAX);
            assert(id == "client-open-workspace-"@ + decimal(n as nat));
        }
        if is_numbered_below(id, next) {
            let n = choose|n: u64|
                n < next && id == "client-open-workspace-"@ + #[trigger] decimal(n as nat);
            assert(id == request_id(n));
        }
    }
    if well_formed(pending, next) {
        assert forall|i: int, j: int|
            0 <= i < pending.len() && 0 <= j < pending.len() && (#[trigger] pending[i]).request_id
                == (#[trigger] pending[j]).request_id implies i == j by {
            if i < j {
                assert(pending[i].request_id != pending[j].request_id);
            }
            if j < i {
                assert(pending[j].request_id != pending[i].request_id);
            }
        }
    }
}

} // verus!
