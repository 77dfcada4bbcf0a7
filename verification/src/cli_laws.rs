//! What holds of the command line as a whole.

use vstd::prelude::*;

use crate::cli::{
    asks_for_help, chosen_target, no_options, parsed_args, read_options, usage_text, Options,
};
use crate::schema::{ClientOpenWorkspaceParamsView, ClientTargetView};
use crate::text::{non_blank, white_space};

verus! {

/// One option of the command.
pub enum CliOption {
    Opener(Seq<char>),
    InvocationId(Seq<char>),
    Foreground,
}

/// The words of `options` on a command line.
pub open spec fn written(options: Seq<CliOption>) -> Seq<Seq<char>>
    decreases options.len(),
{
    if options.len() == 0 {
        Seq::empty()
    } else {
        (match options[0] {
            CliOption::Opener(value) => seq!["--opener"@, value],
            CliOption::InvocationId(value) => seq!["--invocation-id"@, value],
            CliOption::Foreground => seq!["--foreground"@],
        }) + written(options.skip(1))
    }
}

/// What `options` amount to on top of `so_far`: a later value replaces an earlier one.
pub open spec fn applied(options: Seq<CliOption>, so_far: Options) -> Options
    decreases options.len(),
{
    if options.len() == 0 {
        so_far
    } else {
        applied(
            options.skip(1),
            match options[0] {
                CliOption::Opener(value) => Options { opener: Some(value), ..so_far },
                CliOption::InvocationId(value) => Options { invocation_id: Some(value), ..so_far },
                CliOption::Foreground => Options { foreground: true, ..so_far },
            },
        )
    }
}

proof fn lemma_option_names_differ()
    ensures
        "--opener"@ != "--invocation-id"@,
        "--opener"@ != "--foreground"@,
        "--invocation-id"@ != "--foreground"@,
{
    reveal_strlit("--opener");
    reveal_strlit("--invocation-id");
    reveal_strlit("--foreground");
    assert("--opener"@.len() == 8);
    assert("--invocation-id"@.len() == 15);
    assert("--foreground"@.len() == 12);
}

/// Options that are written out are read back, whatever their values are and in
/// whatever order they stand.
pub proof fn written_options_read_back(options: Seq<CliOption>, so_far: Options)
    ensures
        read_options(written(options), so_far) == Ok::<Options, Seq<char>>(
            applied(options, so_far),
        ),
    decreases options.len(),
{
    if options.len() > 0 {
        lemma_option_names_differ();
        let words = written(options);
        let rest = written(options.skip(1));
        match options[0] {
            CliOption::Opener(value) => {
                assert(words.skip(2) =~= rest);
                written_options_read_back(
                    options.skip(1),
                    Options { opener: Some(value), ..so_far },
                );
            },
            CliOption::InvocationId(value) => {
                assert(words.skip(2) =~= rest);
                written_options_read_back(
                    options.skip(1),
                    Options { invocation_id: Some(value), ..so_far },
                );
            },
            CliOption::Foreground => {
                assert(words.skip(1) =~= rest);
                written_options_read_back(
                    options.skip(1),
                    Options { foreground: true, ..so_far },
                );
            },
        }
    }
}

proof fn lemma_applied_targets(options: Seq<CliOption>, so_far: Options)
    ensures
        applied(options, so_far).foreground == (so_far.foreground || options.contains(
            CliOption::Foreground,
        )),
        applied(options, so_far).invocation_id is Some == (so_far.invocation_id is Some || exists|
            i: int,
        |
            0 <= i < options.len() && (#[trigger] options[i]) is InvocationId),
    decreases options.len(),
{
    if options.len() > 0 {
        let rest = options.skip(1);
        let next = match options[0] {
            CliOption::Opener(value) => Options { opener: Some(value), ..so_far },
            CliOption::InvocationId(value) => Options { invocation_id: Some(value), ..so_far },
            CliOption::Foreground => Options { foreground: true, ..so_far },
        };
        lemma_applied_targets(rest, next);
        if rest.contains(CliOption::Foreground) {
            let i = choose|i: int| 0 <= i < rest.len() && rest[i] == CliOption::Foreground;
            assert(options[i + 1] == CliOption::Foreground);
        }
        if options.contains(CliOption::Foreground) && !(options[0] is Foreground) {
            let i = choose|i: int| 0 <= i < options.len() && options[i] == CliOption::Foreground;
            assert(rest[i - 1] == CliOption::Foreground);
        }
        if exists|i: int| 0 <= i < rest.len() && (#[trigger] rest[i]) is InvocationId {
            let i = choose|i: int| 0 <= i < rest.len() && (#[trigger] rest[i]) is InvocationId;
            assert(options[i + 1] is InvocationId);
        }
        if !(options[0] is InvocationId) && exists|i: int|
            0 <= i < options.len() && (#[trigger] options[i]) is InvocationId {
            let i = choose|i: int|
                0 <= i < options.len() && (#[trigger] options[i]) is InvocationId;
            assert(rest[i - 1] is InvocationId);
        }
    }
}

/// A command line of a workspace and options is accepted, unless it names two
/// kinds of target; then it is refused wherever the two stand.
pub proof fn only_conflicting_targets_are_refused(
    workspace_id: Seq<char>,
    options: Seq<CliOption>,
    token: Option<Seq<char>>,
)
    requires
        !asks_for_help(workspace_id),
    ensures
        ({
            let result = parsed_args(seq![workspace_id] + written(options), token);
            if options.contains(CliOption::Foreground) && exists|i: int|
                0 <= i < options.len() && (#[trigger] options[i]) is InvocationId {
                result == Err::<ClientOpenWorkspaceParamsView, Seq<char>>(
                    "--foreground and --invocation-id cannot be combined"@,
                )
            } else {
                let read = applied(options, no_options());
                result == Ok::<ClientOpenWorkspaceParamsView, Seq<char>>(
                    ClientOpenWorkspaceParamsView {
                        workspace_id,
                        opener: read.opener,
                        target: chosen_target(read, token),
                    },
                )
            }
        }),
{
    let args = seq![workspace_id] + written(options);
    assert(args.skip(1) =~= written(options));
    written_options_read_back(options, no_options());
    lemma_applied_targets(options, no_options());
}

/// An option replaces what an earlier option of its kind has set.
pub proof fn last_option_wins(options: Seq<CliOption>, so_far: Options)
    requires
        options.len() > 0,
    ensures
        match options[options.len() - 1] {
            CliOption::Opener(value) => applied(options, so_far).opener == Some(value),
            CliOption::InvocationId(value) => applied(options, so_far).invocation_id == Some(value),
            CliOption::Foreground => applied(options, so_far).foreground,
        },
    decreases options.len(),
{
    let next = match options[0] {
        CliOption::Opener(value) => Options { opener: Some(value), ..so_far },
        CliOption::InvocationId(value) => Options { invocation_id: Some(value), ..so_far },
        CliOption::Foreground => Options { foreground: true, ..so_far },
    };
    if options.len() == 1 {
        assert(applied(options.skip(1), next) == next);
    } else {
        let rest = options.skip(1);
        last_option_wins(rest, next);
        assert(rest[rest.len() - 1] == options[options.len() - 1]);
    }
}

/// The token of the invoking client counts only where no option names a target,
/// and a blank token counts for nothing.
pub proof fn token_counts_only_without_a_target(options: Options, token: Option<Seq<char>>)
    ensures
        options.foreground || options.invocation_id is Some ==> chosen_target(options, token)
            == chosen_target(options, None),
        non_blank(token) is None ==> chosen_target(options, token) == chosen_target(options, None),
        !options.foreground && options.invocation_id is None && non_blank(token) is Some
            ==> chosen_target(options, token) == (ClientTargetView::Invocation {
            invocation_id: token->0,
        }),
{
}

/// Without a workspace, or where help is asked for in its place, the command
/// says how it is called, whatever follows.
pub proof fn help_is_given_whatever_follows(args: Seq<Seq<char>>, token: Option<Seq<char>>)
    requires
        args.len() == 0 || asks_for_help(args[0]),
    ensures
        parsed_args(args, token) == Err::<ClientOpenWorkspaceParamsView, Seq<char>>(usage_text()),
{
}

/// Options are written one behind the other: the name, and behind it the value where
/// there is one.
pub proof fn options_are_written_one_behind_the_other(options: Seq<CliOption>, value: Seq<char>)
    ensures
        written(Seq::<CliOption>::empty()).len() == 0,
        written(options.push(CliOption::Opener(value))) == written(options) + seq![
            "--opener"@,
            value,
        ],
        written(options.push(CliOption::InvocationId(value))) == written(options) + seq![
            "--invocation-id"@,
            value,
        ],
        written(options.push(CliOption::Foreground)) == written(options) + seq!["--foreground"@],
{
    lemma_written_push(options, CliOption::Opener(value));
    lemma_written_push(options, CliOption::InvocationId(value));
    lemma_written_push(options, CliOption::Foreground);
}

proof fn lemma_written_push(options: Seq<CliOption>, option: CliOption)
    ensures
        written(options.push(option)) == written(options) + written(seq![option]),
        written(seq![option]) == match option {
            CliOption::Opener(value) => seq!["--opener"@, value],
            CliOption::InvocationId(value) => seq!["--invocation-id"@, value],
            CliOption::Foreground => seq!["--foreground"@],
        },
    decreases options.len(),
{
    let one = seq![option];
    assert(one.skip(1) =~= Seq::<CliOption>::empty());
    assert(written(one.skip(1)) =~= Seq::<Seq<char>>::empty());
    let more = options.push(option);
    if options.len() == 0 {
        assert(more =~= one);
        assert(written(options) + written(one) =~= written(one));
    } else {
        lemma_written_push(options.skip(1), option);
        assert(more.skip(1) =~= options.skip(1).push(option));
        assert(written(more) =~= written(options) + written(one));
    }
}

proof fn lemma_read_behind(options: Seq<CliOption>, tail: Seq<Seq<char>>, so_far: Options)
    ensures
        read_options(written(options) + tail, so_far) == read_options(
            tail,
            applied(options, so_far),
        ),
    decreases options.len(),
{
    let words = written(options) + tail;
    if options.len() == 0 {
        assert(words =~= tail);
    } else {
        lemma_option_names_differ();
        let rest = written(options.skip(1)) + tail;
        match options[0] {
            CliOption::Opener(value) => {
                assert(words.skip(2) =~= rest);
                lemma_read_behind(
                    options.skip(1),
                    tail,
                    Options { opener: Some(value), ..so_far },
                );
            },
            CliOption::InvocationId(value) => {
                assert(words.skip(2) =~= rest);
                lemma_read_behind(
                    options.skip(1),
                    tail,
                    Options { invocation_id: Some(value), ..so_far },
                );
            },
            CliOption::Foreground => {
                assert(words.skip(1) =~= rest);
                lemma_read_behind(options.skip(1), tail, Options { foreground: true, ..so_far });
            },
        }
    }
}

proof fn lemma_applied_push(options: Seq<CliOption>, option: CliOption, so_far: Options)
    ensures
        ({
            let before = applied(options, so_far);
            let after = applied(options.push(option), so_far);
            match option {
                CliOption::Opener(value) => after == (Options { opener: Some(value), ..before }),
                CliOption::InvocationId(value) => after == (Options {
                    invocation_id: Some(value),
                    ..before
                }),
                CliOption::Foreground => after == (Options { foreground: true, ..before }),
            }
        }),
    decreases options.len(),
{
    let more = options.push(option);
    let next = match more[0] {
        CliOption::Opener(value) => Options { opener: Some(value), ..so_far },
        CliOption::InvocationId(value) => Options { invocation_id: Some(value), ..so_far },
        CliOption::Foreground => Options { foreground: true, ..so_far },
    };
    if options.len() == 0 {
        assert(applied(more.skip(1), next) == next);
    } else {
        assert(more.skip(1) =~= options.skip(1).push(option));
        lemma_applied_push(options.skip(1), option, next);
    }
}

proof fn lemma_last_value_applies(options: Seq<CliOption>, i: int, so_far: Options)
    requires
        0 <= i < options.len(),
    ensures
        options[i] matches CliOption::Opener(value) ==> (forall|j: int|
            i < j < options.len() ==> !((#[trigger] options[j]) is Opener)) ==> applied(
            options,
            so_far,
        ).opener == Some(value),
        options[i] matches CliOption::InvocationId(value) ==> (forall|j: int|
            i < j < options.len() ==> !((#[trigger] options[j]) is InvocationId)) ==> applied(
            options,
            so_far,
        ).invocation_id == Some(value),
    decreases options.len(),
{
    let shorter = options.drop_last();
    let last = options.last();
    assert(options =~= shorter.push(last));
    lemma_applied_push(shorter, last, so_far);
    if i < shorter.len() {
        assert forall|j: int| i < j < shorter.len() implies shorter[j] == options[j] by {}
        assert(options[options.len() - 1] == last);
        lemma_last_value_applies(shorter, i, so_far);
    }
}

proof fn lemma_no_opener_applies(options: Seq<CliOption>, so_far: Options)
    requires
        forall|j: int| 0 <= j < options.len() ==> !((#[trigger] options[j]) is Opener),
    ensures
        applied(options, so_far).opener == so_far.opener,
    decreases options.len(),
{
    if options.len() > 0 {
        let rest = options.skip(1);
        assert forall|j: int| 0 <= j < rest.len() implies !((#[trigger] rest[j]) is Opener) by {
            assert(!(options[j + 1] is Opener));
        }
        assert(!(options[0] is Opener));
        let next = match options[0] {
            CliOption::Opener(value) => Options { opener: Some(value), ..so_far },
            CliOption::InvocationId(value) => Options { invocation_id: Some(value), ..so_far },
            CliOption::Foreground => Options { foreground: true, ..so_far },
        };
        lemma_no_opener_applies(rest, next);
    }
}

/// A command line asks for the workspace that it names first. The opener is the last one
/// that is given, and there is none where none is given.
pub proof fn last_opener_is_asked_for(
    workspace_id: Seq<char>,
    options: Seq<CliOption>,
    token: Option<Seq<char>>,
    i: int,
)
    ensures
        parsed_args(seq![workspace_id] + written(options), token) matches Ok(params) ==> {
            &&& params.workspace_id == workspace_id
            &&& 0 <= i < options.len() && options[i] is Opener && (forall|j: int|
                i < j < options.len() ==> !((#[trigger] options[j]) is Opener)) ==> params.opener
                == Some(options[i]->Opener_0)
            &&& (forall|j: int| 0 <= j < options.len() ==> !((#[trigger] options[j]) is Opener))
                ==> params.opener is None
        },
{
    let args = seq![workspace_id] + written(options);
    assert(args.skip(1) =~= written(options));
    written_options_read_back(options, no_options());
    if 0 <= i < options.len() {
        lemma_last_value_applies(options, i, no_options());
    }
    if forall|j: int| 0 <= j < options.len() ==> !((#[trigger] options[j]) is Opener) {
        lemma_no_opener_applies(options, no_options());
    }
}

/// A command line is meant for the client in the foreground where it says so, for the
/// client of the last token that it gives where it gives one, and otherwise for the client
/// that invoked it, unless that is unknown: then it is meant for the one in the foreground.
pub proof fn target_is_the_one_asked_for(
    workspace_id: Seq<char>,
    options: Seq<CliOption>,
    token: Option<Seq<char>>,
    i: int,
)
    ensures
        parsed_args(seq![workspace_id] + written(options), token) matches Ok(params) ==> {
            &&& options.contains(CliOption::Foreground) ==> params.target
                == ClientTargetView::Foreground
            &&& 0 <= i < options.len() && options[i] is InvocationId && (forall|j: int|
                i < j < options.len() ==> !((#[trigger] options[j]) is InvocationId))
                ==> params.target == (ClientTargetView::Invocation {
                invocation_id: options[i]->InvocationId_0,
            })
            &&& !options.contains(CliOption::Foreground) && (forall|j: int|
                0 <= j < options.len() ==> !((#[trigger] options[j]) is InvocationId))
                ==> params.target == match token {
                Some(text) => if forall|k: int|
                    0 <= k < text.len() ==> white_space(#[trigger] text[k]) {
                    ClientTargetView::Foreground
                } else {
                    ClientTargetView::Invocation { invocation_id: text }
                },
                None => ClientTargetView::Foreground,
            }
        },
{
    let args = seq![workspace_id] + written(options);
    assert(args.skip(1) =~= written(options));
    written_options_read_back(options, no_options());
    lemma_applied_targets(options, no_options());
    if 0 <= i < options.len() {
        lemma_last_value_applies(options, i, no_options());
    }
}

/// Any words are options, up to the end or to the first fault: an option at the end that
/// lacks its value, or a word that is no option.
pub proof fn words_are_options_up_to_a_fault(words: Seq<Seq<char>>) -> (r: (
    Seq<CliOption>,
    Seq<Seq<char>>,
))
    ensures
        words == written(r.0) + r.1,
        ({
            ||| r.1.len() == 0
            ||| r.1 == seq!["--opener"@]
            ||| r.1 == seq!["--invocation-id"@]
            ||| r.1[0] != "--opener"@ && r.1[0] != "--invocation-id"@ && r.1[0] != "--foreground"@
        }),
    decreases words.len(),
{
    let none = Seq::<CliOption>::empty();
    if words.len() == 0 {
        (none, words)
    } else if words[0] == "--foreground"@ {
        let (options, fault) = words_are_options_up_to_a_fault(words.skip(1));
        let all = seq![CliOption::Foreground] + options;
        assert(all.skip(1) =~= options);
        assert(written(all) == seq!["--foreground"@] + written(options));
        assert(words =~= seq!["--foreground"@] + words.skip(1));
        assert(words =~= written(all) + fault);
        (all, fault)
    } else if (words[0] == "--opener"@ || words[0] == "--invocation-id"@) && words.len() > 1 {
        let (options, fault) = words_are_options_up_to_a_fault(words.skip(2));
        let first = if words[0] == "--opener"@ {
            CliOption::Opener(words[1])
        } else {
            CliOption::InvocationId(words[1])
        };
        let all = seq![first] + options;
        assert(all.skip(1) =~= options);
        assert(written(all) == seq![words[0], words[1]] + written(options));
        assert(words =~= seq![words[0], words[1]] + words.skip(2));
        assert(words =~= written(all) + fault);
        (all, fault)
    } else {
        assert(words =~= written(none) + words);
        if words[0] == "--opener"@ {
            assert(words =~= seq!["--opener"@]);
        }
        if words[0] == "--invocation-id"@ {
            assert(words =~= seq!["--invocation-id"@]);
        }
        (none, words)
    }
}

/// A command line is accepted unless it has no workspace, asks for help in its place, names
/// two kinds of target, lacks a value or holds an unknown word. Each is refused with its
/// own message; of the last two the one that stands first counts, and it counts before
/// the targets.
pub proof fn command_line_is_refused_for_a_reason(
    workspace_id: Seq<char>,
    options: Seq<CliOption>,
    word: Seq<char>,
    rest: Seq<Seq<char>>,
    token: Option<Seq<char>>,
)
    ensures
        ({
            let usage =
                "usage: herdr open-workspace <workspace-id> [--opener zed] [--invocation-id TOKEN|--foreground]"@;
            let line = seq![workspace_id] + written(options);
            &&& parsed_args(Seq::<Seq<char>>::empty(), token) == Err::<
                ClientOpenWorkspaceParamsView,
                Seq<char>,
            >(usage)
            &&& parsed_args(seq!["help"@] + rest, token) == Err::<
                ClientOpenWorkspaceParamsView,
                Seq<char>,
            >(usage)
            &&& parsed_args(seq!["--help"@] + rest, token) == Err::<
                ClientOpenWorkspaceParamsView,
                Seq<char>,
            >(usage)
            &&& parsed_args(seq!["-h"@] + rest, token) == Err::<
                ClientOpenWorkspaceParamsView,
                Seq<char>,
            >(usage)
            &&& workspace_id != "help"@ && workspace_id != "--help"@ && workspace_id != "-h"@ ==> {
                &&& parsed_args(line, token) is Err <==> options.contains(CliOption::Foreground)
                    && exists|i: int|
                    0 <= i < options.len() && (#[trigger] options[i]) is InvocationId
                &&& parsed_args(line, token) matches Err(message) ==> message
                    == "--foreground and --invocation-id cannot be combined"@
                &&& parsed_args(line + seq!["--opener"@], token) == Err::<
                    ClientOpenWorkspaceParamsView,
                    Seq<char>,
                >("missing value for --opener"@)
                &&& parsed_args(line + seq!["--invocation-id"@], token) == Err::<
                    ClientOpenWorkspaceParamsView,
                    Seq<char>,
                >("missing value for --invocation-id"@)
                &&& word != "--opener"@ && word != "--invocation-id"@ && word != "--foreground"@
                    ==> parsed_args(line + seq![word] + rest, token) == Err::<
                    ClientOpenWorkspaceParamsView,
                    Seq<char>,
                >("unknown option: "@ + word + "\n"@ + usage)
            }
        }),
{
    lemma_option_names_differ();
    let line = seq![workspace_id] + written(options);
    assert(line.skip(1) =~= written(options));
    written_options_read_back(options, no_options());
    lemma_applied_targets(options, no_options());
    assert((line + seq!["--opener"@]).skip(1) =~= written(options) + seq!["--opener"@]);
    assert((line + seq!["--invocation-id"@]).skip(1) =~= written(options) + seq![
        "--invocation-id"@,
    ]);
    assert((line + seq![word] + rest).skip(1) =~= written(options) + (seq![word] + rest));
    lemma_read_behind(options, seq!["--opener"@], no_options());
    lemma_read_behind(options, seq!["--invocation-id"@], no_options());
    lemma_read_behind(options, seq![word] + rest, no_options());
    assert((seq![word] + rest)[0] == word);
}

} // verus!
