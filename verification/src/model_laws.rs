//! What the models hold of the values that they stand for.

use vstd::prelude::*;

use crate::cli::params_view;
use crate::client::{
    argv_outcome, ClientEndpointId, ClientEndpointIdView, EndpointCatalog,
};
use crate::openers::{argv_view, config_views, OpenerConfig, OpenerValues};
use crate::pending::{
    pending_views, reply_view, settled_views, ApiReply, OpenWorkspaceResponder, PendingEntry,
    ResponderView, SettledOpenWorkspace,
};
use crate::protocol::EndpointOpenWorkspaceRequest;
use crate::schema::{
    ClientOpenWorkspaceParams, ClientOpenWorkspaceReason, ClientTarget, ClientTargetView,
    ResponseResult, SuccessResponse,
};

verus! {

/// The model of an opener holds the text of each of its fields.
pub proof fn opener_is_modelled_by_its_fields(opener: OpenerConfig, i: int)
    ensures
        opener@.id == opener.id@,
        match opener.bin_env {
            Some(variable) => opener@.bin_env == Some(variable@),
            None => opener@.bin_env is None,
        },
        opener@.bins.len() == opener.bins@.len(),
        0 <= i < opener.bins@.len() ==> opener@.bins[i] == opener.bins@[i]@,
        opener@.argv.len() == opener.argv@.len(),
        0 <= i < opener.argv@.len() ==> opener@.argv[i] == opener.argv@[i]@,
        match opener.argv_remote {
            Some(argv) => {
                &&& opener@.argv_remote is Some
                &&& opener@.argv_remote->0.len() == argv@.len()
                &&& 0 <= i < argv@.len() ==> opener@.argv_remote->0[i] == argv@[i]@
            },
            None => opener@.argv_remote is None,
        },
{
}

/// The model of a list of openers holds the models of the openers, in their order.
pub proof fn openers_are_modelled_one_by_one(openers: Seq<OpenerConfig>, i: int)
    ensures
        config_views(openers).len() == openers.len(),
        0 <= i < openers.len() ==> config_views(openers)[i] == openers[i]@,
{
}

/// The model of the values for a template holds the text of each of its fields.
pub proof fn values_are_modelled_by_their_fields(values: OpenerValues, i: int)
    ensures
        match values.bin {
            Some(bin) => values@.bin == Some(bin@),
            None => values@.bin is None,
        },
        values@.tried_bins.len() == values.tried_bins@.len(),
        0 <= i < values.tried_bins@.len() ==> values@.tried_bins[i] == values.tried_bins@[i]@,
        values@.path == values.path@,
        values@.host == values.host@,
        values@.user == values.user@,
        values@.port == values.port@,
        values@.ssh_target == values.ssh_target@,
{
}

/// The model of the outcome of a rendering or of building a command holds the text of each
/// argument, in their order, or the reason and the text of the message.
pub proof fn outcomes_are_modelled_by_their_parts(
    argv: Vec<String>,
    reason: ClientOpenWorkspaceReason,
    message: String,
    i: int,
)
    ensures
        argv_view(Ok(argv)) is Ok,
        argv_view(Ok(argv))->Ok_0.len() == argv@.len(),
        0 <= i < argv@.len() ==> argv_view(Ok(argv))->Ok_0[i] == argv@[i]@,
        argv_view(Err(message)) == Err::<Seq<Seq<char>>, Seq<char>>(message@),
        argv_outcome(Ok(argv)) is Ok,
        argv_outcome(Ok(argv))->Ok_0.len() == argv@.len(),
        0 <= i < argv@.len() ==> argv_outcome(Ok(argv))->Ok_0[i] == argv@[i]@,
        argv_outcome(Err((reason, message))) == Err::<
            Seq<Seq<char>>,
            (ClientOpenWorkspaceReason, Seq<char>),
        >((reason, message@)),
{
}

/// The model of an endpoint holds the identifier of its profile, and the model of a catalog
/// the identifier and the target of each profile, in their order.
pub proof fn endpoints_are_modelled_by_their_fields(
    id: String,
    catalog: EndpointCatalog,
    i: int,
)
    ensures
        ClientEndpointId::Local@ == ClientEndpointIdView::Local,
        ClientEndpointId::Ssh(id)@ == ClientEndpointIdView::Ssh(id@),
        catalog@.len() == catalog.profiles@.len(),
        0 <= i < catalog.profiles@.len() ==> catalog@[i].id == catalog.profiles@[i].id@
            && catalog@[i].target == catalog.profiles@[i].target@,
{
}

/// The model of what a caller asks for holds the text of each of its fields.
pub proof fn params_are_modelled_by_their_fields(
    params: ClientOpenWorkspaceParams,
    invocation_id: String,
    message: String,
)
    ensures
        params@.workspace_id == params.workspace_id@,
        match params.opener {
            Some(opener) => params@.opener == Some(opener@),
            None => params@.opener is None,
        },
        params@.target == params.target@,
        ClientTarget::Foreground@ == ClientTargetView::Foreground,
        (ClientTarget::Invocation { invocation_id })@ == (ClientTargetView::Invocation {
            invocation_id: invocation_id@,
        }),
        params_view(Ok(params)) is Ok,
        params_view(Ok(params))->Ok_0 == params@,
        params_view(Err(message)) is Err,
        params_view(Err(message))->Err_0 == message@,
{
}

/// The model of a request to a client holds the text of each of its fields.
pub proof fn request_is_modelled_by_its_fields(request: EndpointOpenWorkspaceRequest)
    ensures
        request@.request_id == request.request_id@,
        request@.endpoint_boot_id == request.endpoint_boot_id@,
        request@.path == request.path@,
        match request.opener {
            Some(opener) => request@.opener == Some(opener@),
            None => request@.opener is None,
        },
{
}

/// The model of an answer holds the identifier of the request, whether the workspace was
/// opened, the reason and the text of the message.
pub proof fn response_is_modelled_by_its_fields(
    id: String,
    opened: bool,
    reason: ClientOpenWorkspaceReason,
    message: Option<String>,
)
    ensures
        ({
            let response = SuccessResponse {
                id,
                result: ResponseResult::ClientOpenWorkspace { opened, reason, message },
            };
            &&& response@.id == id@
            &&& response@.opened == opened
            &&& response@.reason == reason
            &&& match message {
                Some(text) => response@.message == Some(text@),
                None => response@.message is None,
            }
        }),
{
}

/// The model of a pending request holds each of its fields, and the model of a list of
/// them holds their models in their order.
pub proof fn pending_request_is_modelled_by_its_fields<R>(
    entry: PendingEntry<R>,
    entries: Seq<PendingEntry<R>>,
    i: int,
)
    ensures
        entry@.request_id == entry.request_id@,
        entry@.client_id == entry.pending.client_id,
        match entry.pending.api_id {
            Some(id) => entry@.api_id == Some(id@),
            None => entry@.api_id is None,
        },
        entry@.respond_to == entry.pending.respond_to,
        entry@.deadline == entry.pending.deadline,
        pending_views(entries).len() == entries.len(),
        0 <= i < entries.len() ==> pending_views(entries)[i] == entries[i]@,
{
}

/// The models of who is told and of what is told hold each of their fields.
pub proof fn replies_are_modelled_by_their_fields<R>(
    id: String,
    respond_to: R,
    reply: ApiReply<R>,
    settled: Seq<SettledOpenWorkspace<R>>,
    i: int,
)
    ensures
        (OpenWorkspaceResponder::Api { id, respond_to })@ == (ResponderView::Api {
            id: id@,
            respond_to,
        }),
        OpenWorkspaceResponder::<R>::Keybind@ == ResponderView::<R>::Keybind,
        reply@.respond_to == reply.respond_to,
        reply@.response == reply.response@,
        reply_view(Some(reply)) == Some(reply@),
        reply_view(None::<ApiReply<R>>) is None,
        settled_views(settled).len() == settled.len(),
        0 <= i < settled.len() ==> settled_views(settled)[i].request_id == settled[i].request_id@
            && settled_views(settled)[i].reply is Some == settled[i].reply is Some,
        0 <= i < settled.len() && settled[i].reply is Some ==> settled_views(settled)[i].reply->0
            == settled[i].reply->0@,
{
}

} // verus!
