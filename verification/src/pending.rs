//! Requests that wait for a client's answer.

use vstd::prelude::*;

use crate::schema::{
    ClientOpenWorkspaceReason, ResponseResult, SuccessResponse, SuccessResponseView,
};
use crate::text::{decimal, decimal_is_injective, option_view, same, to_decimal};

verus! {

/// A request that a client has not answered yet. `R` is the way back to the
/// caller of the API.
#[derive(Debug)]
pub struct PendingClientOpenWorkspace<R> {
    pub client_id: u64,
    pub api_id: Option<String>,
    pub respond_to: Option<R>,
    /// When the request expires, in nanoseconds.
    pub deadline: u64,
}

/// A pending request and the identifier it was sent under.
#[derive(Debug)]
pub struct PendingEntry<R> {
    pub request_id: String,
    pub pending: PendingClientOpenWorkspace<R>,
}

/// Who is told about the outcome of a request.
#[derive(Debug, Clone, PartialEq, Eq)]
pub enum OpenWorkspaceResponder<R> {
    /// Answer an API caller with the client's result.
    Api { id: String, respond_to: R },
    /// A keybinding requested the open; only failures are logged.
    Keybind,
}

/// An answer on its way back to the caller of the API.
#[derive(Debug, Clone, PartialEq, Eq)]
pub struct ApiReply<R> {
    pub respond_to: R,
    pub response: SuccessResponse,
}

/// A request that waits no longer, and the answer to its caller if it has one.
#[derive(Debug, Clone, PartialEq, Eq)]
pub struct SettledOpenWorkspace<R> {
    pub request_id: String,
    pub reply: Option<ApiReply<R>>,
}

/// The model of [`PendingEntry`].
pub struct PendingView<R> {
    pub request_id: Seq<char>,
    pub client_id: u64,
    pub api_id: Option<Seq<char>>,
    pub respond_to: Option<R>,
    pub deadline: u64,
}

/// The model of [`OpenWorkspaceResponder`].
pub enum ResponderView<R> {
    Api { id: Seq<char>, respond_to: R },
    Keybind,
}

/// The model of [`ApiReply`].
pub struct ApiReplyView<R> {
    pub respond_to: R,
    pub response: SuccessResponseView,
}

/// The model of [`SettledOpenWorkspace`].
pub struct SettledView<R> {
    pub request_id: Seq<char>,
    pub reply: Option<ApiReplyView<R>>,
}

impl<R> View for PendingEntry<R> {
    type V = PendingView<R>;

    open spec fn view(&self) -> PendingView<R> {
        PendingView {
            request_id: self.request_id@,
            client_id: self.pending.client_id,
            api_id: option_view(self.pending.api_id),
            respond_to: self.pending.respond_to,
            deadline: self.pending.deadline,
        }
    }
}

impl<R> View for OpenWorkspaceResponder<R> {
    type V = ResponderView<R>;

    open spec fn view(&self) -> ResponderView<R> {
        match *self {
            OpenWorkspaceResponder::Api { id, respond_to } => ResponderView::Api {
                id: id@,
                respond_to,
            },
            OpenWorkspaceResponder::Keybind => ResponderView::Keybind,
        }
    }
}

impl<R> View for ApiReply<R> {
    type V = ApiReplyView<R>;

    open spec fn view(&self) -> ApiReplyView<R> {
        ApiReplyView { respond_to: self.respond_to, response: self.response@ }
    }
}

/// The view of an optional reply.
pub open spec fn reply_view<R>(reply: Option<ApiReply<R>>) -> Option<ApiReplyView<R>> {
    match reply {
        Some(reply) => Some(reply@),
        None => None,
    }
}

impl<R> View for SettledOpenWorkspace<R> {
    type V = SettledView<R>;

    open spec fn view(&self) -> SettledView<R> {
        SettledView { request_id: self.request_id@, reply: reply_view(self.reply) }
    }
}

/// The models of a list of pending requests.
pub open spec fn pending_views<R>(entries: Seq<PendingEntry<R>>) -> Seq<PendingView<R>> {
    entries.map_values(|entry: PendingEntry<R>| entry@)
}

/// The models of a list of settled requests.
pub open spec fn settled_views<R>(settled: Seq<SettledOpenWorkspace<R>>) -> Seq<SettledView<R>> {
    settled.map_values(|settled: SettledOpenWorkspace<R>| settled@)
}

/// Who is told about a request with this identifier of the caller and way back.
pub open spec fn responder_of<R>(
    api_id: Option<Seq<char>>,
    respond_to: Option<R>,
) -> ResponderView<R> {
    match (api_id, respond_to) {
        (Some(id), Some(respond_to)) => ResponderView::Api { id, respond_to },
        _ => ResponderView::Keybind,
    }
}

/// The caller's identifier for a request.
pub open spec fn api_id_of<R>(responder: ResponderView<R>) -> Option<Seq<char>> {
    match responder {
        ResponderView::Api { id, respond_to } => Some(id),
        ResponderView::Keybind => None,
    }
}

/// The way back to the caller of a request.
pub open spec fn respond_to_of<R>(responder: ResponderView<R>) -> Option<R> {
    match responder {
        ResponderView::Api { id, respond_to } => Some(respond_to),
        ResponderView::Keybind => None,
    }
}

/// What `responder` is told about the outcome of a request. A keybinding is told nothing.
pub open spec fn told<R>(
    responder: ResponderView<R>,
    opened: bool,
    reason: ClientOpenWorkspaceReason,
    message: Option<Seq<char>>,
) -> Option<ApiReplyView<R>> {
    match responder {
        ResponderView::Api { id, respond_to } => Some(
            ApiReplyView {
                respond_to,
                response: SuccessResponseView { id, opened, reason, message },
            },
        ),
        ResponderView::Keybind => None,
    }
}

/// The answer to the request `id`.
pub fn open_workspace_response(
    id: String,
    opened: bool,
    reason: ClientOpenWorkspaceReason,
    message: Option<String>,
) -> (r: SuccessResponse)
    ensures
        r@ == (SuccessResponseView { id: id@, opened, reason, message: option_view(message) }),
{
    SuccessResponse { id, result: ResponseResult::ClientOpenWorkspace { opened, reason, message } }
}

impl<R> OpenWorkspaceResponder<R> {
    /// The answer that tells the responder about the outcome of a request.
    pub fn tell(
        self,
        opened: bool,
        reason: ClientOpenWorkspaceReason,
        message: Option<String>,
    ) -> (r: Option<ApiReply<R>>)
        ensures
            reply_view(r) == told(self@, opened, reason, option_view(message)),
    {
        match self {
            OpenWorkspaceResponder::Api { id, respond_to } => Some(
                ApiReply {
                    respond_to,
                    response: open_workspace_response(id, opened, reason, message),
                },
            ),
            OpenWorkspaceResponder::Keybind => None,
        }
    }
}

impl<R> PendingClientOpenWorkspace<R> {
    /// Who is told about the outcome of the request.
    pub fn into_responder(self) -> (r: OpenWorkspaceResponder<R>)
        ensures
            r@ == responder_of(option_view(self.api_id), self.respond_to),
    {
        match (self.api_id, self.respond_to) {
            (Some(id), Some(respond_to)) => OpenWorkspaceResponder::Api { id, respond_to },
            _ => OpenWorkspaceResponder::Keybind,
        }
    }
}

/// The first position from `from` on of a request with the identifier `id`.
pub open spec fn position<R>(pending: Seq<PendingView<R>>, id: Seq<char>, from: int) -> Option<int>
    decreases pending.len() - from,
{
    if from < 0 || from >= pending.len() {
        None
    } else if pending[from].request_id == id {
        Some(from)
    } else {
        position(pending, id, from + 1)
    }
}

/// The request with the identifier `id`.
pub open spec fn lookup<R>(pending: Seq<PendingView<R>>, id: Seq<char>) -> Option<PendingView<R>> {
    match position(pending, id, 0) {
        Some(i) => Some(pending[i]),
        None => None,
    }
}

/// `pending` with `entry` in it, in place of one with the same identifier.
pub open spec fn inserted<R>(pending: Seq<PendingView<R>>, entry: PendingView<R>) -> Seq<
    PendingView<R>,
> {
    match position(pending, entry.request_id, 0) {
        Some(i) => pending.update(i, entry),
        None => pending.push(entry),
    }
}

/// `pending` without the request with the identifier `id`.
pub open spec fn removed<R>(pending: Seq<PendingView<R>>, id: Seq<char>) -> Seq<PendingView<R>> {
    match position(pending, id, 0) {
        Some(i) => pending.remove(i),
        None => pending,
    }
}

/// Where `position` stops, and what it has passed over.
pub proof fn lemma_position<R>(pending: Seq<PendingView<R>>, id: Seq<char>, from: int)
    requires
        0 <= from,
    ensures
        match position(pending, id, from) {
            Some(i) => from <= i < pending.len() && pending[i].request_id == id && forall|j: int|
                from <= j < i ==> (#[trigger] pending[j]).request_id != id,
            None => forall|j: int|
                from <= j < pending.len() ==> (#[trigger] pending[j]).request_id != id,
        },
    decreases pending.len() - from,
{
    if from < pending.len() && pending[from].request_id != id {
        lemma_position(pending, id, from + 1);
    }
}

/// Finds the request with the identifier `id`.
pub(crate) fn find_request<R>(entries: &Vec<PendingEntry<R>>, id: &str) -> (r: Option<usize>)
    ensures
        match r {
            Some(i) => i < entries.len() && position(pending_views(entries@), id@, 0) == Some(
                i as int,
            ),
            None => position(pending_views(entries@), id@, 0) is None,
        },
{
    let mut i: usize = 0;
    while i < entries.len()
        invariant
            i <= entries.len(),
            position(pending_views(entries@), id@, i as int) == position(
                pending_views(entries@),
                id@,
                0,
            ),
        decreases entries.len() - i,
    {
        assert(pending_views(entries@)[i as int].request_id == entries[i as int].request_id@);
        if same(entries[i].request_id.as_str(), id) {
            return Some(i);
        }
        i += 1;
    }
    None
}

/// Adds `entry`, in place of one with the same identifier.
pub(crate) fn insert_request<R>(entries: &mut Vec<PendingEntry<R>>, entry: PendingEntry<R>)
    ensures
        pending_views(final(entries)@) == inserted(pending_views(old(entries)@), entry@),
{
    let ghost before = pending_views(entries@);
    match find_request(entries, entry.request_id.as_str()) {
        Some(i) => {
            entries.set(i, entry);
            assert(pending_views(entries@) =~= before.update(i as int, entry@));
        },
        None => {
            entries.push(entry);
            assert(pending_views(entries@) =~= before.push(entry@));
        },
    }
}

/// Takes out the request with the identifier `id`.
pub(crate) fn remove_request<R>(entries: &mut Vec<PendingEntry<R>>, id: &str) -> (r: Option<
    PendingEntry<R>,
>)
    ensures
        pending_views(final(entries)@) == removed(pending_views(old(entries)@), id@),
        match r {
            Some(entry) => lookup(pending_views(old(entries)@), id@) == Some(entry@),
            None => lookup(pending_views(old(entries)@), id@) is None,
        },
{
    let ghost before = pending_views(entries@);
    match find_request(entries, id) {
        Some(i) => {
            let entry = entries.remove(i);
            assert(pending_views(entries@) =~= before.remove(i as int));
            Some(entry)
        },
        None => None,
    }
}

/// Some of the pending requests.
pub enum Selection {
    /// Those that expire at this time or before it.
    DueAt(u64),
    /// Those that wait for this client.
    OfClient(u64),
}

impl Selection {
    /// Whether `pending` is one of the requests.
    pub open spec fn has<R>(self, pending: PendingView<R>) -> bool {
        match self {
            Selection::DueAt(now) => pending.deadline <= now,
            Selection::OfClient(client_id) => pending.client_id == client_id,
        }
    }
}

/// The requests of `pending` that are selected, in order.
pub open spec fn selected<R>(pending: Seq<PendingView<R>>, selection: Selection) -> Seq<
    PendingView<R>,
> {
    pending.filter(|p: PendingView<R>| selection.has(p))
}

/// The requests of `pending` that are not selected, in order.
pub open spec fn remaining<R>(pending: Seq<PendingView<R>>, selection: Selection) -> Seq<
    PendingView<R>,
> {
    pending.filter(|p: PendingView<R>| !selection.has(p))
}

/// Takes the selected requests out of `entries`.
pub(crate) fn take_selected<R>(entries: &mut Vec<PendingEntry<R>>, selection: Selection) -> (r: Vec<
    PendingEntry<R>,
>)
    ensures
        pending_views(final(entries)@) == remaining(pending_views(old(entries)@), selection),
        pending_views(r@) == selected(pending_views(old(entries)@), selection),
{
    let ghost all = pending_views(entries@);
    let mut taken: Vec<PendingEntry<R>> = Vec::new();
    let mut i: usize = 0;
    let ghost mut seen: int = 0;
    proof {
        reveal(Seq::filter);
        assert(all.take(0) =~= Seq::<PendingView<R>>::empty());
        assert(pending_views(taken@) =~= Seq::<PendingView<R>>::empty());
        assert(pending_views(entries@).take(0) =~= Seq::<PendingView<R>>::empty());
        assert(pending_views(entries@).skip(0) =~= all.skip(0));
    }
    while i < entries.len()
        invariant
            i <= entries.len(),
            0 <= seen <= all.len(),
            pending_views(entries@).take(i as int) == remaining(all.take(seen), selection),
            pending_views(entries@).skip(i as int) == all.skip(seen),
            pending_views(taken@) == selected(all.take(seen), selection),
        decreases entries.len() - i,
    {
        let ghost before = pending_views(entries@);
        let ghost taken_before = pending_views(taken@);
        proof {
            assert(before.skip(i as int)[0] == before[i as int]);
            assert(all.skip(seen).len() > 0);
            assert(all.skip(seen)[0] == all[seen]);
            assert(before[i as int] == all[seen]);
            assert(all.take(seen + 1).drop_last() =~= all.take(seen));
            assert(all.take(seen + 1).last() == all[seen]);
            reveal(Seq::filter);
        }
        let chosen = match &selection {
            Selection::DueAt(now) => entries[i].pending.deadline <= *now,
            Selection::OfClient(client_id) => entries[i].pending.client_id == *client_id,
        };
        if chosen {
            let entry = entries.remove(i);
            taken.push(entry);
            assert(pending_views(entries@) =~= before.remove(i as int));
            assert(before.remove(i as int).take(i as int) =~= before.take(i as int));
            assert(before.remove(i as int).skip(i as int) =~= before.skip(i as int).skip(1));
            assert(pending_views(taken@) =~= taken_before.push(entry@));
        } else {
            assert(before.take(i + 1) =~= before.take(i as int).push(before[i as int]));
            assert(before.skip(i + 1) =~= before.skip(i as int).skip(1));
            i += 1;
        }
        assert(all.skip(seen).skip(1) =~= all.skip(seen + 1));
        proof {
            seen = seen + 1;
        }
    }
    proof {
        assert(pending_views(entries@).skip(i as int).len() == 0);
        assert(seen == all.len());
        assert(all.take(seen) =~= all);
        assert(pending_views(entries@).take(i as int) =~= pending_views(entries@));
    }
    taken
}

/// The identifier of the request with the number `n`.
pub open spec fn request_id(n: u64) -> Seq<char> {
    "client-open-workspace-"@ + decimal(n as nat)
}

/// Whether `id` is the identifier of a request from before the one with the number
/// `next`. Numbers stop at the largest one, which is then given out again.
pub open spec fn was_issued(id: Seq<char>, next: u64) -> bool {
    exists|n: u64| id == #[trigger] request_id(n) && (n < next || next == u64::MAX)
}

/// Whether no two of `pending` have the same identifier, and the identifiers were
/// given out before the number `next`.
pub open spec fn well_formed<R>(pending: Seq<PendingView<R>>, next: u64) -> bool {
    &&& forall|i: int, j: int|
        0 <= i < j < pending.len() ==> (#[trigger] pending[i]).request_id != (
        #[trigger] pending[j]).request_id
    &&& forall|i: int|
        0 <= i < pending.len() ==> was_issued((#[trigger] pending[i]).request_id, next)
}

/// The number after `n`, or `n` itself where it is the largest one.
pub open spec fn next_after(n: u64) -> u64 {
    if n == u64::MAX {
        n
    } else {
        (n + 1) as u64
    }
}

/// An identifier that was given out stays so when further ones are given out.
pub proof fn issued_id_stays_issued(id: Seq<char>, next: u64)
    requires
        was_issued(id, next),
    ensures
        was_issued(id, next_after(next)),
{
    let n = choose|n: u64| id == #[trigger] request_id(n) && (n < next || next == u64::MAX);
    assert(id == request_id(n));
}

/// The next identifier has not been given out, as long as the numbers last.
pub proof fn next_id_is_new(next: u64)
    requires
        next < u64::MAX,
    ensures
        !was_issued(request_id(next), next),
{
    if was_issued(request_id(next), next) {
        let n = choose|n: u64|
            request_id(next) == #[trigger] request_id(n) && (n < next || next == u64::MAX);
        let prefix = "client-open-workspace-"@;
        assert(request_id(n).skip(prefix.len() as int) =~= decimal(n as nat));
        assert(request_id(next).skip(prefix.len() as int) =~= decimal(next as nat));
        decimal_is_injective(n as nat, next as nat);
    }
}

/// The requests that clients have been asked and have not answered yet, in the
/// order in which they were asked.
#[derive(Debug)]
pub struct PendingRequests<R> {
    entries: Vec<PendingEntry<R>>,
    next_number: u64,
}

impl<R> PendingRequests<R> {
    /// The requests, in the order in which clients were asked.
    pub closed spec fn requests(&self) -> Seq<PendingView<R>> {
        pending_views(self.entries@)
    }

    /// The number of the next request.
    pub closed spec fn next_number(&self) -> u64 {
        self.next_number
    }

    /// Whether the requests have identifiers of their own that were given out.
    pub open spec fn wf(&self) -> bool {
        well_formed(self.requests(), self.next_number())
    }

    /// No request at all.
    pub fn new() -> (r: Self)
        ensures
            r.wf(),
            r.requests() == Seq::<PendingView<R>>::empty(),
            r.next_number() == 1,
    {
        let r = PendingRequests { entries: Vec::new(), next_number: 1 };
        assert(r.requests() =~= Seq::<PendingView<R>>::empty());
        r
    }

    /// Gives out the identifier of the next request.
    pub(crate) fn issue_id(&mut self) -> (r: String)
        requires
            old(self).wf(),
        ensures
            r@ == request_id(old(self).next_number()),
            was_issued(r@, final(self).next_number()),
            final(self).next_number() == next_after(old(self).next_number()),
            final(self).requests() == old(self).requests(),
            final(self).wf(),
    {
        let n: u64 = self.next_number;
        self.next_number = n.saturating_add(1);
        let mut r = "client-open-workspace-".to_owned();
        r.append(to_decimal(n).as_str());
        proof {
            assert(r@ == request_id(n));
            assert forall|i: int| 0 <= i < self.requests().len() implies was_issued(
                (#[trigger] self.requests()[i]).request_id,
                self.next_number(),
            ) by {
                issued_id_stays_issued(old(self).requests()[i].request_id, n);
            }
        }
        r
    }

    /// Adds a request under an identifier that was given out.
    pub(crate) fn insert(&mut self, request_id: String, pending: PendingClientOpenWorkspace<R>)
        requires
            old(self).wf(),
            was_issued(request_id@, old(self).next_number()),
        ensures
            final(self).requests() == inserted(old(self).requests(), (PendingEntry { request_id, pending })@),
            final(self).next_number() == old(self).next_number(),
            final(self).wf(),
    {
        let ghost before = self.requests();
        proof {
            lemma_position(before, request_id@, 0);
        }
        insert_request(&mut self.entries, PendingEntry { request_id, pending });
    }

    /// Takes out the request with the identifier `id`.
    pub(crate) fn remove(&mut self, id: &str) -> (r: Option<PendingEntry<R>>)
        requires
            old(self).wf(),
        ensures
            final(self).requests() == removed(old(self).requests(), id@),
            match r {
                Some(entry) => lookup(old(self).requests(), id@) == Some(entry@),
                None => lookup(old(self).requests(), id@) is None,
            },
            final(self).next_number() == old(self).next_number(),
            final(self).wf(),
    {
        let ghost before = self.requests();
        proof {
            lemma_position(before, id@, 0);
        }
        remove_request(&mut self.entries, id)
    }

    /// The client that the request with the identifier `id` waits for.
    pub(crate) fn client_of(&self, id: &str) -> (r: Option<u64>)
        ensures
            r == match lookup(self.requests(), id@) {
                Some(pending) => Some(pending.client_id),
                None => None,
            },
    {
        match find_request(&self.entries, id) {
            Some(i) => Some(self.entries[i].pending.client_id),
            None => None,
        }
    }

    /// Takes out the selected requests.
    pub(crate) fn take(&mut self, selection: Selection) -> (r: Vec<PendingEntry<R>>)
        requires
            old(self).wf(),
        ensures
            final(self).requests() == remaining(old(self).requests(), selection),
            pending_views(r@) == selected(old(self).requests(), selection),
            final(self).next_number() == old(self).next_number(),
            final(self).wf(),
    {
        let ghost before = self.requests();
        proof {
            lemma_filter_keeps_wf(
                before,
                |p: PendingView<R>| !selection.has(p),
                self.next_number(),
            );
        }
        take_selected(&mut self.entries, selection)
    }
}

/// Leaving out requests keeps the rest well formed.
proof fn lemma_filter_keeps_wf<R>(
    pending: Seq<PendingView<R>>,
    keep: spec_fn(PendingView<R>) -> bool,
    next: u64,
)
    requires
        well_formed(pending, next),
    ensures
        well_formed(pending.filter(keep), next),
    decreases pending.len(),
{
    reveal(Seq::filter);
    if pending.len() > 0 {
        let shorter = pending.drop_last();
        let last = pending.last();
        assert forall|i: int, j: int| 0 <= i < j < shorter.len() implies (
        #[trigger] shorter[i]).request_id != (#[trigger] shorter[j]).request_id by {
            assert(pending[i].request_id != pending[j].request_id);
        }
        assert forall|i: int| 0 <= i < shorter.len() implies was_issued(
            (#[trigger] shorter[i]).request_id,
            next,
        ) by {
            assert(was_issued(pending[i].request_id, next));
        }
        lemma_filter_keeps_wf(shorter, keep, next);
        let rest = shorter.filter(keep);
        assert forall|i: int| 0 <= i < rest.len() implies (#[trigger] rest[i]).request_id
            != last.request_id by {
            shorter.lemma_filter_contains_rev(keep, rest[i]);
            let k = choose|k: int| 0 <= k < shorter.len() && shorter[k] == rest[i];
            assert(pending[k] == rest[i]);
        }
        assert(was_issued(pending[pending.len() - 1].request_id, next));
    }
}

/// What becomes of `pending` when the client will not answer it any more.
pub open spec fn given_up<R>(
    pending: PendingView<R>,
    reason: ClientOpenWorkspaceReason,
    message: Seq<char>,
) -> SettledView<R> {
    SettledView {
        request_id: pending.request_id,
        reply: told(
            responder_of(pending.api_id, pending.respond_to),
            false,
            reason,
            Some(message),
        ),
    }
}

/// What becomes of each of `pending` when its client will not answer it any more.
pub open spec fn all_given_up<R>(
    pending: Seq<PendingView<R>>,
    reason: ClientOpenWorkspaceReason,
    message: Seq<char>,
) -> Seq<SettledView<R>> {
    pending.map_values(|p: PendingView<R>| given_up(p, reason, message))
}

/// Gives up the requests `entries`, each for the same reason.
pub(crate) fn give_up<R>(
    entries: Vec<PendingEntry<R>>,
    reason: ClientOpenWorkspaceReason,
    message: &str,
) -> (r: Vec<SettledOpenWorkspace<R>>)
    ensures
        settled_views(r@) == all_given_up(pending_views(entries@), reason, message@),
{
    let ghost all = pending_views(entries@);
    let mut settled: Vec<SettledOpenWorkspace<R>> = Vec::new();
    for entry in it: entries
        invariant
            it.seq() == entries@,
            all == pending_views(entries@),
            settled_views(settled@) == all_given_up(all.take(it.index() as int), reason, message@),
    {
        let ghost before = settled_views(settled@);
        let ghost n = it.index() as int;
        let reply = entry.pending.into_responder().tell(false, reason, Some(message.to_owned()));
        settled.push(SettledOpenWorkspace { request_id: entry.request_id, reply });
        assert(all[n] == entry@);
        assert(settled_views(settled@) =~= before.push(given_up(all[n], reason, message@)));
        assert(all_given_up(all.take(n + 1), reason, message@) =~= before.push(
            given_up(all[n], reason, message@),
        ));
    }
    assert(all.take(all.len() as int) =~= all);
    settled
}

} // verus!
