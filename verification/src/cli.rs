//! The command `herdr open-workspace`.

use vstd::prelude::*;

use crate::json::{boolean_at, has_key, to_text, value_booleans, value_keys, value_text};
use crate::schema::{
    ClientOpenWorkspaceParams, ClientOpenWorkspaceParamsView, ClientTarget, ClientTargetView,
    Method, Request,
};
use crate::text::{keep_non_blank, non_blank, option_view, same, views};

verus! {

/// How the command is called.
pub open spec fn usage_text() -> Seq<char> {
    "usage: herdr open-workspace <workspace-id> [--opener zed] [--invocation-id TOKEN|--foreground]"@
}

/// Says how the command is called.
pub fn usage() -> (r: String)
    ensures
        r@ == usage_text(),
{
    "usage: herdr open-workspace <workspace-id> [--opener zed] [--invocation-id TOKEN|--foreground]".to_owned()
}

/// The token of the client that invoked a plugin, given the value of the
/// environment variable `HERDR_PLUGIN_INVOKING_CLIENT_TOKEN`.
pub fn plugin_invocation_token(value: Option<String>) -> (r: Option<String>)
    ensures
        option_view(r) == non_blank(option_view(value)),
{
    keep_non_blank(value)
}

/// What the options on a command line amount to.
pub struct Options {
    pub opener: Option<Seq<char>>,
    pub invocation_id: Option<Seq<char>>,
    pub foreground: bool,
}

/// No option at all.
pub open spec fn no_options() -> Options {
    Options { opener: None, invocation_id: None, foreground: false }
}

/// Reads the options `args` from left to right, on top of those read `so_far`.
pub open spec fn read_options(args: Seq<Seq<char>>, so_far: Options) -> Result<Options, Seq<char>>
    decreases args.len(),
{
    if args.len() == 0 {
        Ok(so_far)
    } else if args[0] == "--opener"@ {
        if args.len() < 2 {
            Err("missing value for --opener"@)
        } else {
            read_options(args.skip(2), Options { opener: Some(args[1]), ..so_far })
        }
    } else if args[0] == "--invocation-id"@ {
        if args.len() < 2 {
            Err("missing value for --invocation-id"@)
        } else {
            read_options(args.skip(2), Options { invocation_id: Some(args[1]), ..so_far })
        }
    } else if args[0] == "--foreground"@ {
        read_options(args.skip(1), Options { foreground: true, ..so_far })
    } else {
        Err("unknown option: "@ + args[0] + "\n"@ + usage_text())
    }
}

/// The client that the options ask for. Where they do not say, it is the one
/// that invoked the plugin, and failing that the one in the foreground.
pub open spec fn chosen_target(options: Options, token: Option<Seq<char>>) -> ClientTargetView {
    if options.foreground {
        ClientTargetView::Foreground
    } else {
        match options.invocation_id {
            Some(invocation_id) => ClientTargetView::Invocation { invocation_id },
            None => match non_blank(token) {
                Some(invocation_id) => ClientTargetView::Invocation { invocation_id },
                None => ClientTargetView::Foreground,
            },
        }
    }
}

/// Whether `word` asks how the command is called.
pub open spec fn asks_for_help(word: Seq<char>) -> bool {
    word == "help"@ || word == "--help"@ || word == "-h"@
}

/// What a command line asks for, or why it is refused.
pub open spec fn parsed_args(args: Seq<Seq<char>>, token: Option<Seq<char>>) -> Result<
    ClientOpenWorkspaceParamsView,
    Seq<char>,
> {
    if args.len() == 0 || asks_for_help(args[0]) {
        Err(usage_text())
    } else {
        match read_options(args.skip(1), no_options()) {
            Ok(options) => if options.foreground && options.invocation_id is Some {
                Err("--foreground and --invocation-id cannot be combined"@)
            } else {
                Ok(
                    ClientOpenWorkspaceParamsView {
                        workspace_id: args[0],
                        opener: options.opener,
                        target: chosen_target(options, token),
                    },
                )
            },
            Err(message) => Err(message),
        }
    }
}

/// The outcome of a parse, as a value of the model.
pub open spec fn params_view(r: Result<ClientOpenWorkspaceParams, String>) -> Result<
    ClientOpenWorkspaceParamsView,
    Seq<char>,
> {
    match r {
        Ok(params) => Ok(params@),
        Err(message) => Err(message@),
    }
}

/// Parses the arguments of the command. `invoking_client_token` is the value of
/// the environment variable `HERDR_PLUGIN_INVOKING_CLIENT_TOKEN`.
pub fn parse_open_workspace_args(
    args: &[String],
    invoking_client_token: Option<String>,
) -> (r: Result<ClientOpenWorkspaceParams, String>)
    ensures
        params_view(r) == parsed_args(views(args@), option_view(invoking_client_token)),
{
    let ghost all = views(args@);
    if args.len() == 0 {
        return Err(usage());
    }
    let workspace_id = args[0].clone();
    assert(workspace_id@ == all[0]);
    if same(workspace_id.as_str(), "help") || same(workspace_id.as_str(), "--help") || same(
        workspace_id.as_str(),
        "-h",
    ) {
        return Err(usage());
    }
    let mut opener: Option<String> = None;
    let mut invocation_id: Option<String> = None;
    let mut foreground = false;
    let mut index: usize = 1;
    while index < args.len()
        invariant
            1 <= index <= args.len(),
            all == views(args@),
            all.len() > 0,
            !asks_for_help(all[0]),
            read_options(
                all.skip(index as int),
                Options {
                    opener: option_view(opener),
                    invocation_id: option_view(invocation_id),
                    foreground,
                },
            ) == read_options(all.skip(1), no_options()),
        decreases args.len() - index,
    {
        let ghost rest = all.skip(index as int);
        let word = args[index].as_str();
        assert(rest[0] == word@);
        if same(word, "--opener") {
            if args.len() - index < 2 {
                return Err("missing value for --opener".to_owned());
            }
            assert(rest.skip(2) =~= all.skip(index + 2));
            assert(rest[1] == args[index + 1]@);
            opener = Some(args[index + 1].clone());
            index += 2;
        } else if same(word, "--invocation-id") {
            if args.len() - index < 2 {
                return Err("missing value for --invocation-id".to_owned());
            }
            assert(rest.skip(2) =~= all.skip(index + 2));
            assert(rest[1] == args[index + 1]@);
            invocation_id = Some(args[index + 1].clone());
            index += 2;
        } else if same(word, "--foreground") {
            assert(rest.skip(1) =~= all.skip(index + 1));
            foreground = true;
            index += 1;
        } else {
            let mut message = "unknown option: ".to_owned();
            message.append(word);
            message.append("\n");
            message.append(usage().as_str());
            return Err(message);
        }
    }
    if foreground && invocation_id.is_some() {
        return Err("--foreground and --invocation-id cannot be combined".to_owned());
    }
    let target = if foreground {
        ClientTarget::Foreground
    } else {
        match invocation_id {
            Some(invocation_id) => ClientTarget::Invocation { invocation_id },
            None => match plugin_invocation_token(invoking_client_token) {
                Some(invocation_id) => ClientTarget::Invocation { invocation_id },
                None => ClientTarget::Foreground,
            },
        }
    };
    Ok(ClientOpenWorkspaceParams { workspace_id, opener, target })
}

/// What the command leaves behind: a line of text and an exit code.
#[derive(Debug, Clone, PartialEq, Eq)]
pub struct CommandReport {
    pub exit_code: i32,
    pub text: String,
    /// Whether `text` goes to standard error rather than to standard output.
    pub to_stderr: bool,
}

/// Turns the arguments of the command into the request it sends, or into the
/// report of a command line that is refused.
pub fn open_workspace_request(args: &[String], invoking_client_token: Option<String>) -> (r: Result<
    Request,
    CommandReport,
>)
    ensures
        match (r, parsed_args(views(args@), option_view(invoking_client_token))) {
            (Ok(request), Ok(expected)) => {
                &&& request.id@ == "cli:open-workspace"@
                &&& request.method matches Method::ClientOpenWorkspace(params) && params@
                    == expected
            },
            (Err(report), Err(message)) => {
                &&& report.exit_code == 2
                &&& report.text@ == message
                &&& report.to_stderr
            },
            _ => false,
        },
{
    match parse_open_workspace_args(args, invoking_client_token) {
        Ok(params) => Ok(
            Request {
                id: "cli:open-workspace".to_owned(),
                method: Method::ClientOpenWorkspace(params),
            },
        ),
        Err(message) => Err(CommandReport { exit_code: 2, text: message, to_stderr: true }),
    }
}

/// Whether a response says that the workspace was opened: it has no `error`, and
/// `opened` is true in its result.
pub fn response_is_success(has_error: bool, opened: Option<bool>) -> (r: bool)
    ensures
        r == (!has_error && opened == Some(true)),
{
    match opened {
        Some(opened) => !has_error && opened,
        None => false,
    }
}

/// Reports the server's response to the request of the command.
pub fn report_open_workspace_response(response: &serde_json::Value) -> (r: CommandReport)
    ensures
        ({
            let success = !value_keys(*response).contains("error"@) && value_booleans(
                *response,
            ).contains_pair("/result/opened"@, true);
            &&& r.text@ == value_text(*response)
            &&& r.exit_code == if success {
                0i32
            } else {
                1i32
            }
            &&& r.to_stderr == !success
        }),
{
    let success = response_is_success(
        has_key(response, "error"),
        boolean_at(response, "/result/opened"),
    );
    CommandReport {
        exit_code: if success {
            0
        } else {
            1
        },
        text: to_text(response),
        to_stderr: !success,
    }
}

} // verus!
