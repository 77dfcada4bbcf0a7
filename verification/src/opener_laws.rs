//! What holds of opener templates and their diagnostics as a whole.

use vstd::prelude::*;

use crate::openers::{
    after, all_blank, argument_lines, arguments_lines, diagnostic_head, diagnostics,
    diagnostics_upto, filled, is_duplicate, lacks_bin, next_slot, opener_lines, pieces,
    pieces_from, placeholder_names, rendered_argument, rendered_arguments, rendered_argv,
    supported_placeholders, template_lines, unknown_names, OpenerConfigView, OpenerValuesView, Piece,
};
use crate::text::{blank, decimal, find, joined, lemma_find, trimmed, white_space};

verus! {

/// The text that `pieces` were taken from.
pub open spec fn spelled(pieces: Seq<Piece>) -> Seq<char>
    decreases pieces.len(),
{
    if pieces.len() == 0 {
        Seq::empty()
    } else {
        let rest = spelled(pieces.skip(1));
        match pieces[0] {
            Piece::Text(text) => text + rest,
            Piece::Slot(name) => seq!['{'] + name + seq!['}'] + rest,
        }
    }
}

proof fn lemma_pieces_spell(s: Seq<char>, from: int)
    requires
        0 <= from <= s.len(),
    ensures
        spelled(pieces_from(s, from)) == s.skip(from),
    decreases s.len() - from,
{
    let all = pieces_from(s, from);
    match next_slot(s, from) {
        Some((open, close)) => {
            lemma_find(s, '{', from);
            lemma_find(s, '}', open + 1);
            lemma_pieces_spell(s, close + 1);
            let rest = pieces_from(s, close + 1);
            assert(all.skip(1).skip(1) =~= rest);
            assert(all.skip(1)[0] == Piece::Slot(s.subrange(open + 1, close)));
            reveal_with_fuel(spelled, 3);
            assert(s.subrange(from, open) + (seq!['{'] + s.subrange(open + 1, close) + seq!['}']
                + s.skip(close + 1)) =~= s.skip(from));
        },
        None => {
            assert(all.skip(1) =~= Seq::<Piece>::empty());
            reveal_with_fuel(spelled, 2);
            assert(s.skip(from) + Seq::<char>::empty() =~= s.skip(from));
        },
    }
}

/// Taking an argument apart loses nothing: its pieces spell it.
pub proof fn pieces_spell_their_argument(argument: Seq<char>)
    ensures
        spelled(pieces(argument)) == argument,
{
    lemma_pieces_spell(argument, 0);
    assert(argument.skip(0) =~= argument);
}

/// An argument without a placeholder, be it that it has no `{` or that none is
/// closed, is rendered as it stands and has no unknown placeholder.
pub proof fn plain_text_is_kept(argument: Seq<char>, values: OpenerValuesView)
    requires
        next_slot(argument, 0) is None,
    ensures
        rendered_argument(argument, values) == Ok::<Seq<char>, Seq<char>>(argument),
        unknown_names(pieces(argument)) == Seq::<Seq<char>>::empty(),
{
    let all = pieces(argument);
    assert(all.skip(1) =~= Seq::<Piece>::empty());
    assert(argument.skip(0) + Seq::<char>::empty() =~= argument);
    reveal_with_fuel(filled, 2);
    reveal_with_fuel(unknown_names, 2);
}

proof fn lemma_find_shift(s: Seq<char>, t: Seq<char>, c: char, from: int, n: int)
    requires
        0 <= n <= from,
        n <= s.len(),
        t == s.skip(n),
    ensures
        find(s, c, from) == match find(t, c, from - n) {
            Some(i) => Some(i + n),
            None => None,
        },
    decreases s.len() - from,
{
    if from < s.len() && s[from] != c {
        lemma_find_shift(s, t, c, from + 1, n);
    }
}

proof fn lemma_pieces_shift(s: Seq<char>, t: Seq<char>, from: int, n: int)
    requires
        0 <= n <= from <= s.len(),
        t == s.skip(n),
    ensures
        pieces_from(s, from) == pieces_from(t, from - n),
    decreases s.len() - from,
{
    lemma_find_shift(s, t, '{', from, n);
    match find(t, '{', from - n) {
        Some(open) => {
            lemma_find(t, '{', from - n);
            lemma_find_shift(s, t, '}', open + n + 1, n);
            match find(t, '}', open + 1) {
                Some(close) => {
                    lemma_find(t, '}', open + 1);
                    lemma_pieces_shift(s, t, close + n + 1, n);
                    assert(s.subrange(from, open + n) =~= t.subrange(from - n, open));
                    assert(s.subrange(open + n + 1, close + n) =~= t.subrange(open + 1, close));
                },
                None => {
                    assert(s.skip(from) =~= t.skip(from - n));
                },
            }
        },
        None => {
            assert(s.skip(from) =~= t.skip(from - n));
        },
    }
}

/// The first placeholder of an argument is replaced by its value as it stands,
/// whatever braces the value holds, and what follows is rendered by itself.
pub proof fn first_placeholder_is_replaced(
    text: Seq<char>,
    name: Seq<char>,
    rest: Seq<char>,
    values: OpenerValuesView,
)
    requires
        !text.contains('{'),
        !name.contains('}'),
    ensures
        rendered_argument(text + seq!['{'] + name + seq!['}'] + rest, values)
            == match values.value_of(name) {
            Some(value) => after(text, after(value, rendered_argument(rest, values))),
            None => Err(values.unresolved(name)),
        },
{
    let s = text + seq!['{'] + name + seq!['}'] + rest;
    let open = text.len() as int;
    let close = open + 1 + name.len();
    lemma_find(s, '{', 0);
    assert(s[open] == '{');
    assert(find(s, '{', 0) == Some(open)) by {
        let i = find(s, '{', 0)->0;
        assert(find(s, '{', 0) is Some);
        if i < open {
            assert(text[i] == '{');
            assert(text.contains('{'));
        }
    }
    lemma_find(s, '}', open + 1);
    assert(s[close] == '}');
    assert(find(s, '}', open + 1) == Some(close)) by {
        let i = find(s, '}', open + 1)->0;
        assert(find(s, '}', open + 1) is Some);
        if i < close {
            assert(name[i - open - 1] == '}');
            assert(name.contains('}'));
        }
    }
    assert(s.subrange(0, open) =~= text);
    assert(s.subrange(open + 1, close) =~= name);
    assert(s.skip(close + 1) =~= rest);
    lemma_pieces_shift(s, rest, close + 1, close + 1);
    let all = pieces(s);
    assert(all.skip(1).skip(1) =~= pieces(rest));
    assert(all.skip(1)[0] == Piece::Slot(name));
    reveal_with_fuel(filled, 3);
}

/// A template that renders yields one argument for each of its own, each
/// rendered by itself, and the first one is not blank.
pub proof fn rendered_argv_is_argument_by_argument(
    template: Seq<Seq<char>>,
    values: OpenerValuesView,
)
    ensures
        rendered_argv(template, values) matches Ok(argv) ==> {
            &&& argv.len() == template.len()
            &&& !blank(argv[0])
            &&& forall|i: int|
                0 <= i < template.len() ==> rendered_argument(#[trigger] template[i], values)
                    == Ok::<Seq<char>, Seq<char>>(argv[i])
        },
{
    lemma_rendered_arguments(template, values);
}

proof fn lemma_rendered_arguments(template: Seq<Seq<char>>, values: OpenerValuesView)
    ensures
        match rendered_arguments(template, values) {
            Ok(argv) => {
                &&& argv.len() == template.len()
                &&& forall|i: int|
                    0 <= i < template.len() ==> rendered_argument(#[trigger] template[i], values)
                        == Ok::<Seq<char>, Seq<char>>(argv[i])
            },
            Err(message) => exists|i: int|
                0 <= i < template.len() && rendered_argument(#[trigger] template[i], values)
                    == Err::<Seq<char>, Seq<char>>(message) && forall|j: int|
                    0 <= j < i ==> rendered_argument(#[trigger] template[j], values) is Ok,
        },
    decreases template.len(),
{
    if template.len() > 0 {
        let n = template.len() - 1;
        let shorter = template.take(n);
        lemma_rendered_arguments(shorter, values);
        match rendered_arguments(shorter, values) {
            Ok(argv) => {
                assert forall|i: int| 0 <= i < n implies rendered_argument(
                    #[trigger] template[i],
                    values,
                ) == Ok::<Seq<char>, Seq<char>>(argv[i]) by {
                    assert(shorter[i] == template[i]);
                }
                match rendered_argument(template[n], values) {
                    Ok(argument) => {},
                    Err(message) => {
                        assert(rendered_arguments(template, values) == Err::<
                            Seq<Seq<char>>,
                            Seq<char>,
                        >(message));
                    },
                }
            },
            Err(message) => {
                let i = choose|i: int|
                    0 <= i < shorter.len() && rendered_argument(#[trigger] shorter[i], values)
                        == Err::<Seq<char>, Seq<char>>(message) && forall|j: int|
                        0 <= j < i ==> rendered_argument(#[trigger] shorter[j], values) is Ok;
                assert(template[i] == shorter[i]);
                assert forall|j: int| 0 <= j < i implies rendered_argument(
                    #[trigger] template[j],
                    values,
                ) is Ok by {
                    assert(shorter[j] == template[j]);
                }
            },
        }
    }
}

/// A template is refused if and only if it is empty, an argument cannot be
/// rendered or the first argument comes out blank; the first argument that
/// cannot be rendered gives the message.
pub proof fn rendered_argv_is_refused_for_a_reason(
    template: Seq<Seq<char>>,
    values: OpenerValuesView,
)
    ensures
        rendered_argv(template, values) is Err <==> {
            ||| template.len() == 0
            ||| exists|i: int|
                0 <= i < template.len() && rendered_argument(#[trigger] template[i], values) is Err
            ||| rendered_argument(template[0], values) matches Ok(program) && blank(program)
        },
        forall|i: int|
            #![trigger template[i]]
            0 <= i < template.len() && rendered_argument(template[i], values) is Err && (forall|
                j: int,
            |
                0 <= j < i ==> rendered_argument(#[trigger] template[j], values) is Ok)
                ==> rendered_argv(template, values) == Err::<Seq<Seq<char>>, Seq<char>>(
                rendered_argument(template[i], values)->Err_0,
            ),
{
    lemma_rendered_arguments(template, values);
    assert forall|i: int|
        #![trigger template[i]]
        0 <= i < template.len() && rendered_argument(template[i], values) is Err && (forall|
            j: int,
        |
            0 <= j < i ==> rendered_argument(#[trigger] template[j], values) is Ok) implies
        rendered_argv(template, values) == Err::<Seq<Seq<char>>, Seq<char>>(
        rendered_argument(template[i], values)->Err_0,
    ) by {
        match rendered_arguments(template, values) {
            Ok(argv) => {},
            Err(message) => {
                let k = choose|k: int|
                    0 <= k < template.len() && rendered_argument(#[trigger] template[k], values)
                        == Err::<Seq<char>, Seq<char>>(message) && forall|j: int|
                        0 <= j < k ==> rendered_argument(#[trigger] template[j], values) is Ok;
                if k < i {
                    assert(rendered_argument(template[k], values) is Ok);
                }
                if i < k {
                    assert(rendered_argument(template[i], values) is Ok);
                }
            },
        }
    }
}

proof fn lemma_names_are_valued(values: OpenerValuesView, name: Seq<char>)
    requires
        values.bin is Some,
    ensures
        values.value_of(name) is Some <==> placeholder_names().contains(name),
{
    let names = placeholder_names();
    assert(names[0] == "bin"@ && names[1] == "path"@ && names[2] == "host"@);
    assert(names[3] == "user"@ && names[4] == "port"@ && names[5] == "ssh_target"@);
}

proof fn lemma_known_pieces_fill(ps: Seq<Piece>, values: OpenerValuesView)
    requires
        values.bin is Some,
    ensures
        filled(ps, values) is Ok <==> unknown_names(ps).len() == 0 && !ps.contains(
            Piece::Slot(Seq::empty()),
        ),
    decreases ps.len(),
{
    if ps.len() > 0 {
        let rest = ps.skip(1);
        let empty_slot = Piece::Slot(Seq::<char>::empty());
        lemma_known_pieces_fill(rest, values);
        assert(ps.contains(empty_slot) <==> ps[0] == empty_slot || rest.contains(empty_slot)) by {
            if rest.contains(empty_slot) {
                let i = choose|i: int| 0 <= i < rest.len() && rest[i] == empty_slot;
                assert(ps[i + 1] == empty_slot);
            }
            if ps.contains(empty_slot) && ps[0] != empty_slot {
                let i = choose|i: int| 0 <= i < ps.len() && ps[i] == empty_slot;
                assert(rest[i - 1] == empty_slot);
            }
        }
        match ps[0] {
            Piece::Slot(name) => {
                lemma_names_are_valued(values, name);
                if name.len() == 0 {
                    assert(name =~= Seq::<char>::empty());
                    lemma_placeholders_have_names();
                }
            },
            Piece::Text(_) => {},
        }
    }
}

proof fn lemma_placeholders_have_names()
    ensures
        !placeholder_names().contains(Seq::<char>::empty()),
{
    reveal_strlit("bin");
    reveal_strlit("path");
    reveal_strlit("host");
    reveal_strlit("user");
    reveal_strlit("port");
    reveal_strlit("ssh_target");
    let names = placeholder_names();
    assert forall|i: int| 0 <= i < names.len() implies names[i].len() > 0 by {}
}

/// Once an executable is resolved, an argument renders if and only if it has no
/// unknown placeholder and no `{}`.
pub proof fn known_placeholders_render(argument: Seq<char>, values: OpenerValuesView)
    requires
        values.bin is Some,
    ensures
        rendered_argument(argument, values) is Ok <==> {
            &&& unknown_names(pieces(argument)).len() == 0
            &&& !pieces(argument).contains(Piece::Slot(Seq::empty()))
        },
{
    lemma_known_pieces_fill(pieces(argument), values);
}

/// Whether nothing is wrong with one template of an opener.
pub open spec fn template_is_sound(arguments: Seq<Seq<char>>) -> bool {
    &&& !all_blank(arguments)
    &&& forall|i: int|
        0 <= i < arguments.len() ==> unknown_names(pieces(#[trigger] arguments[i])).len() == 0
}

/// Whether nothing is wrong with the opener at `index`.
pub open spec fn opener_is_sound(openers: Seq<OpenerConfigView>, index: int) -> bool {
    &&& trimmed(openers[index].id).len() > 0
    &&& !is_duplicate(openers, index)
    &&& !lacks_bin(openers[index])
    &&& template_is_sound(openers[index].argv)
    &&& openers[index].argv_remote matches Some(arguments) ==> template_is_sound(arguments)
}

proof fn lemma_arguments_lines(
    head: Seq<char>,
    template: Seq<char>,
    arguments: Seq<Seq<char>>,
    n: int,
)
    requires
        0 <= n <= arguments.len(),
    ensures
        arguments_lines(head, template, arguments, n).len() == 0 <==> forall|i: int|
            0 <= i < n ==> unknown_names(pieces(#[trigger] arguments[i])).len() == 0,
    decreases n,
{
    if n > 0 {
        lemma_arguments_lines(head, template, arguments, n - 1);
        let last = argument_lines(head, template, n - 1, arguments[n - 1]);
        assert(last.len() == unknown_names(pieces(arguments[n - 1])).len());
    }
}

proof fn lemma_template_lines(head: Seq<char>, template: Seq<char>, arguments: Seq<Seq<char>>)
    ensures
        template_lines(head, template, arguments).len() == 0 <==> template_is_sound(arguments),
{
    lemma_arguments_lines(head, template, arguments, arguments.len() as int);
}

proof fn lemma_opener_lines(openers: Seq<OpenerConfigView>, index: int)
    ensures
        opener_lines(openers, index).len() == 0 <==> opener_is_sound(openers, index),
{
    let opener = openers[index];
    let head = diagnostic_head(index, trimmed(opener.id));
    lemma_template_lines(head, "argv"@, opener.argv);
    if let Some(arguments) = opener.argv_remote {
        lemma_template_lines(head, "argv_remote"@, arguments);
    }
}

proof fn lemma_diagnostics_upto(openers: Seq<OpenerConfigView>, n: int)
    requires
        0 <= n <= openers.len(),
    ensures
        diagnostics_upto(openers, n).len() == 0 <==> forall|i: int|
            0 <= i < n ==> #[trigger] opener_is_sound(openers, i),
    decreases n,
{
    if n > 0 {
        lemma_diagnostics_upto(openers, n - 1);
        lemma_opener_lines(openers, n - 1);
    }
}

/// A list of openers has no diagnostics if and only if every opener has an
/// identifier of its own, something to launch, and templates that are not blank
/// and know all their placeholders.
pub proof fn sound_openers_have_no_diagnostics(openers: Seq<OpenerConfigView>)
    ensures
        diagnostics(openers).len() == 0 <==> forall|i: int|
            0 <= i < openers.len() ==> #[trigger] opener_is_sound(openers, i),
{
    lemma_diagnostics_upto(openers, openers.len() as int);
}

/// A template that passes the diagnostics renders once an executable is
/// resolved, unless it holds `{}` or its first argument comes out blank.
pub proof fn sound_templates_render(template: Seq<Seq<char>>, values: OpenerValuesView)
    requires
        template_is_sound(template),
        values.bin is Some,
        forall|i: int|
            0 <= i < template.len() ==> !pieces(#[trigger] template[i]).contains(
                Piece::Slot(Seq::empty()),
            ),
        !(rendered_argument(template[0], values) matches Ok(program) && blank(program)),
    ensures
        rendered_argv(template, values) is Ok,
{
    assert forall|i: int| 0 <= i < template.len() implies rendered_argument(
        #[trigger] template[i],
        values,
    ) is Ok by {
        known_placeholders_render(template[i], values);
    }
    rendered_argv_is_refused_for_a_reason(template, values);
}

/// The opener that comes first under an identifier is never the duplicate.
pub proof fn first_definition_wins(openers: Seq<OpenerConfigView>, index: int)
    requires
        0 <= index < openers.len(),
    ensures
        is_duplicate(openers, index) ==> exists|first: int|
            0 <= first < index && trimmed(#[trigger] openers[first].id) == trimmed(
                openers[index].id,
            ) && !is_duplicate(openers, first),
    decreases index,
{
    if is_duplicate(openers, index) {
        let earlier = choose|i: int|
            0 <= i < index && trimmed(#[trigger] openers[i].id) == trimmed(openers[index].id);
        first_definition_wins(openers, earlier);
    }
}

/// The placeholders have names of their own, and none of them could end a placeholder.
pub proof fn placeholders_have_names_of_their_own()
    ensures
        "bin"@ != "path"@,
        "bin"@ != "host"@,
        "bin"@ != "user"@,
        "bin"@ != "port"@,
        "bin"@ != "ssh_target"@,
        "path"@ != "host"@,
        "path"@ != "user"@,
        "path"@ != "port"@,
        "path"@ != "ssh_target"@,
        "host"@ != "user"@,
        "host"@ != "port"@,
        "host"@ != "ssh_target"@,
        "user"@ != "port"@,
        "user"@ != "ssh_target"@,
        "port"@ != "ssh_target"@,
        !"bin"@.contains('}'),
        !"path"@.contains('}'),
        !"host"@.contains('}'),
        !"user"@.contains('}'),
        !"port"@.contains('}'),
        !"ssh_target"@.contains('}'),
{
    reveal_strlit("bin");
    reveal_strlit("path");
    reveal_strlit("host");
    reveal_strlit("user");
    reveal_strlit("port");
    reveal_strlit("ssh_target");
    assert("bin"@.len() == 3 && "path"@.len() == 4 && "ssh_target"@.len() == 10);
    assert("path"@[0] == 'p' && "host"@[0] == 'h' && "user"@[0] == 'u' && "port"@[0] == 'p');
    assert("path"@[1] == 'a' && "port"@[1] == 'o');
}

/// `name` as a placeholder.
pub open spec fn slot(name: Seq<char>) -> Seq<char> {
    seq!['{'] + name + seq!['}']
}

proof fn lemma_lone_slot(name: Seq<char>, values: OpenerValuesView)
    requires
        !name.contains('}'),
    ensures
        rendered_argument(slot(name), values) == match values.value_of(name) {
            Some(value) => Ok(value),
            None => Err(values.unresolved(name)),
        },
{
    let none = Seq::<char>::empty();
    assert(none + seq!['{'] + name + seq!['}'] + none =~= slot(name));
    first_placeholder_is_replaced(none, name, none, values);
    assert(next_slot(none, 0) is None);
    plain_text_is_kept(none, values);
    if let Some(value) = values.value_of(name) {
        assert(none + (value + none) =~= value);
    }
}

/// Each placeholder stands for the field of its name, whatever the other fields hold;
/// `{bin}` stands for it where it is resolved.
pub proof fn placeholder_stands_for_its_field(values: OpenerValuesView)
    ensures
        rendered_argument(slot("path"@), values) == Ok::<Seq<char>, Seq<char>>(values.path),
        rendered_argument(slot("host"@), values) == Ok::<Seq<char>, Seq<char>>(values.host),
        rendered_argument(slot("user"@), values) == Ok::<Seq<char>, Seq<char>>(values.user),
        rendered_argument(slot("port"@), values) == Ok::<Seq<char>, Seq<char>>(values.port),
        rendered_argument(slot("ssh_target"@), values) == Ok::<Seq<char>, Seq<char>>(
            values.ssh_target,
        ),
        values.bin matches Some(bin) ==> rendered_argument(slot("bin"@), values) == Ok::<
            Seq<char>,
            Seq<char>,
        >(bin),
{
    placeholders_have_names_of_their_own();
    lemma_lone_slot("path"@, values);
    lemma_lone_slot("host"@, values);
    lemma_lone_slot("user"@, values);
    lemma_lone_slot("port"@, values);
    lemma_lone_slot("ssh_target"@, values);
    lemma_lone_slot("bin"@, values);
}

/// Values that agree on one field render its placeholder alike.
pub proof fn placeholder_depends_on_its_field_alone(a: OpenerValuesView, b: OpenerValuesView)
    ensures
        a.path == b.path ==> rendered_argument(slot("path"@), a) == rendered_argument(
            slot("path"@),
            b,
        ),
        a.host == b.host ==> rendered_argument(slot("host"@), a) == rendered_argument(
            slot("host"@),
            b,
        ),
        a.user == b.user ==> rendered_argument(slot("user"@), a) == rendered_argument(
            slot("user"@),
            b,
        ),
        a.port == b.port ==> rendered_argument(slot("port"@), a) == rendered_argument(
            slot("port"@),
            b,
        ),
        a.ssh_target == b.ssh_target ==> rendered_argument(slot("ssh_target"@), a)
            == rendered_argument(slot("ssh_target"@), b),
        a.bin == b.bin && a.tried_bins == b.tried_bins ==> rendered_argument(slot("bin"@), a)
            == rendered_argument(slot("bin"@), b),
{
    placeholder_stands_for_its_field(a);
    placeholder_stands_for_its_field(b);
    placeholders_have_names_of_their_own();
    lemma_lone_slot("bin"@, a);
    lemma_lone_slot("bin"@, b);
}

/// `{bin}` without a resolved executable is refused with what was tried, and any name
/// that is no placeholder is refused by that name.
pub proof fn placeholder_without_a_value_is_refused(values: OpenerValuesView, name: Seq<char>)
    requires
        !name.contains('}'),
    ensures
        values.bin is None && values.tried_bins.len() == 0 ==> rendered_argument(
            slot("bin"@),
            values,
        ) == Err::<Seq<char>, Seq<char>>(
            "no opener executable configured; set bin_env or add a bins entry"@,
        ),
        values.bin is None && values.tried_bins.len() > 0 ==> rendered_argument(
            slot("bin"@),
            values,
        ) == Err::<Seq<char>, Seq<char>>(
            "no opener executable resolved; tried "@ + joined(values.tried_bins, ", "@),
        ),
        name != "bin"@ && name != "path"@ && name != "host"@ && name != "user"@ && name != "port"@
            && name != "ssh_target"@ ==> rendered_argument(slot(name), values) == Err::<
            Seq<char>,
            Seq<char>,
        >("unknown placeholder {"@ + name + "} in opener argv"@),
{
    placeholders_have_names_of_their_own();
    lemma_lone_slot("bin"@, values);
    lemma_lone_slot(name, values);
}

/// In a longer argument the first placeholder becomes what it is when it stands alone,
/// with the text in front of it kept and what is behind it rendered by itself.
pub proof fn placeholders_are_rendered_one_by_one(
    text: Seq<char>,
    name: Seq<char>,
    rest: Seq<char>,
    values: OpenerValuesView,
)
    requires
        !text.contains('{'),
        !name.contains('}'),
    ensures
        rendered_argument(text + slot(name) + rest, values) == match (
            rendered_argument(slot(name), values),
            rendered_argument(rest, values),
        ) {
            (Err(message), _) => Err::<Seq<char>, Seq<char>>(message),
            (Ok(_), Err(message)) => Err(message),
            (Ok(value), Ok(tail)) => Ok(text + value + tail),
        },
{
    lemma_lone_slot(name, values);
    first_placeholder_is_replaced(text, name, rest, values);
    assert(text + slot(name) + rest =~= text + seq!['{'] + name + seq!['}'] + rest);
    if let Some(value) = values.value_of(name) {
        if let Ok(tail) = rendered_argument(rest, values) {
            assert(text + value + tail =~= text + (value + tail));
        }
    }
}

proof fn lemma_no_slot(text: Seq<char>, tail: Seq<char>)
    requires
        !text.contains('{'),
        !tail.contains('}'),
    ensures
        next_slot(text, 0) is None,
        next_slot(text + seq!['{'] + tail, 0) is None,
{
    lemma_find(text, '{', 0);
    if let Some(i) = find(text, '{', 0) {
        assert(text[i] == '{');
    }
    let s = text + seq!['{'] + tail;
    let open = text.len() as int;
    lemma_find(s, '{', 0);
    assert(s[open] == '{');
    assert(find(s, '{', 0) == Some(open)) by {
        let i = find(s, '{', 0)->0;
        assert(find(s, '{', 0) is Some);
        if i < open {
            assert(text[i] == '{');
        }
    }
    lemma_find(s, '}', open + 1);
    if let Some(i) = find(s, '}', open + 1) {
        assert(tail[i - open - 1] == '}');
    }
}

/// Text without a `{`, and text with a `{` that no `}` follows, is kept as it stands
/// and holds no unknown placeholder.
pub proof fn text_without_placeholders_is_kept(
    text: Seq<char>,
    tail: Seq<char>,
    values: OpenerValuesView,
)
    requires
        !text.contains('{'),
        !tail.contains('}'),
    ensures
        rendered_argument(text, values) == Ok::<Seq<char>, Seq<char>>(text),
        rendered_argument(text + seq!['{'] + tail, values) == Ok::<Seq<char>, Seq<char>>(
            text + seq!['{'] + tail,
        ),
        unknown_names(pieces(text)) == Seq::<Seq<char>>::empty(),
        unknown_names(pieces(text + seq!['{'] + tail)) == Seq::<Seq<char>>::empty(),
{
    lemma_no_slot(text, tail);
    plain_text_is_kept(text, values);
    plain_text_is_kept(text + seq!['{'] + tail, values);
}

/// The unknown placeholders of an argument are its first one, if its name is neither
/// empty nor one of the six, and then those of what is behind it.
pub proof fn unknown_placeholders_are_found_one_by_one(
    text: Seq<char>,
    name: Seq<char>,
    rest: Seq<char>,
)
    requires
        !text.contains('{'),
        !name.contains('}'),
    ensures
        unknown_names(pieces(text + slot(name) + rest)) == if name.len() == 0 || name == "bin"@
            || name == "path"@ || name == "host"@ || name == "user"@ || name == "port"@ || name
            == "ssh_target"@ {
            unknown_names(pieces(rest))
        } else {
            seq![name] + unknown_names(pieces(rest))
        },
{
    let s = text + slot(name) + rest;
    let open = text.len() as int;
    let close = open + 1 + name.len();
    lemma_find(s, '{', 0);
    assert(s[open] == '{');
    assert(find(s, '{', 0) == Some(open)) by {
        let i = find(s, '{', 0)->0;
        assert(find(s, '{', 0) is Some);
        if i < open {
            assert(text[i] == '{');
        }
    }
    lemma_find(s, '}', open + 1);
    assert(s[close] == '}');
    assert(find(s, '}', open + 1) == Some(close)) by {
        let i = find(s, '}', open + 1)->0;
        assert(find(s, '}', open + 1) is Some);
        if i < close {
            assert(name[i - open - 1] == '}');
        }
    }
    assert(s.subrange(open + 1, close) =~= name);
    assert(s.skip(close + 1) =~= rest);
    lemma_pieces_shift(s, rest, close + 1, close + 1);
    let all = pieces(s);
    assert(all.skip(1).skip(1) =~= pieces(rest));
    assert(all.skip(1)[0] == Piece::Slot(name));
    reveal_with_fuel(unknown_names, 3);
    let names = placeholder_names();
    assert(names[0] == "bin"@ && names[1] == "path"@ && names[2] == "host"@);
    assert(names[3] == "user"@ && names[4] == "port"@ && names[5] == "ssh_target"@);
}

/// A template whose arguments render is accepted as they render, unless the first of
/// them holds nothing but white space. An empty template is refused.
pub proof fn template_is_rendered_or_refused_by_its_program(
    template: Seq<Seq<char>>,
    argv: Seq<Seq<char>>,
    values: OpenerValuesView,
)
    requires
        argv.len() == template.len(),
        forall|i: int|
            0 <= i < template.len() ==> rendered_argument(#[trigger] template[i], values) == Ok::<
                Seq<char>,
                Seq<char>,
            >(argv[i]),
    ensures
        template.len() == 0 ==> rendered_argv(template, values) == Err::<Seq<Seq<char>>, Seq<char>>(
            "opener argv is empty"@,
        ),
        template.len() > 0 ==> rendered_argv(template, values) == if (forall|k: int|
            0 <= k < argv[0].len() ==> white_space(#[trigger] argv[0][k])) {
            Err::<Seq<Seq<char>>, Seq<char>>("opener argv[0] is empty"@)
        } else {
            Ok(argv)
        },
{
    lemma_rendered_arguments(template, values);
    match rendered_arguments(template, values) {
        Ok(found) => {
            assert forall|i: int| 0 <= i < argv.len() implies found[i] == argv[i] by {
                assert(rendered_argument(template[i], values) is Ok);
            }
            assert(found =~= argv);
        },
        Err(message) => {
            let k = choose|k: int|
                0 <= k < template.len() && rendered_argument(#[trigger] template[k], values)
                    == Err::<Seq<char>, Seq<char>>(message) && forall|j: int|
                    0 <= j < k ==> rendered_argument(#[trigger] template[j], values) is Ok;
            assert(rendered_argument(template[k], values) is Ok);
        },
    }
}

/// How a diagnostic of the opener at `index` with the identifier `id` begins.
pub open spec fn said_of(index: nat, id: Seq<char>) -> Seq<char> {
    "openers["@ + decimal(index) + "]"@ + " ("@ + id + "): "@
}

/// Whether `list` holds nothing but white space.
pub open spec fn holds_only_white_space(list: Seq<Seq<char>>) -> bool {
    forall|i: int, k: int|
        0 <= i < list.len() && 0 <= k < list[i].len() ==> white_space(#[trigger] list[i][k])
}

proof fn lemma_only_white_space(list: Seq<Seq<char>>)
    ensures
        all_blank(list) <==> holds_only_white_space(list),
{
    if all_blank(list) {
        assert forall|i: int, k: int| 0 <= i < list.len() && 0 <= k < list[i].len() implies
            white_space(#[trigger] list[i][k]) by {
            assert(blank(list[i]));
        }
    }
    if holds_only_white_space(list) {
        assert forall|i: int| 0 <= i < list.len() implies blank(#[trigger] list[i]) by {
            assert forall|k: int| 0 <= k < list[i].len() implies white_space(
                #[trigger] list[i][k],
            ) by {}
        }
    }
}

proof fn lemma_opener_lines_keep(openers: Seq<OpenerConfigView>, opener: OpenerConfigView, i: int)
    requires
        0 <= i < openers.len(),
    ensures
        opener_lines(openers.push(opener), i) == opener_lines(openers, i),
{
    let more = openers.push(opener);
    assert(more[i] == openers[i]);
    assert(is_duplicate(more, i) == is_duplicate(openers, i)) by {
        if is_duplicate(more, i) {
            let k = choose|k: int|
                0 <= k < i && trimmed(#[trigger] more[k].id) == trimmed(more[i].id);
            assert(openers[k] == more[k]);
            assert(trimmed(openers[k].id) == trimmed(openers[i].id));
        }
        if is_duplicate(openers, i) {
            let k = choose|k: int|
                0 <= k < i && trimmed(#[trigger] openers[k].id) == trimmed(openers[i].id);
            assert(openers[k] == more[k]);
            assert(trimmed(more[k].id) == trimmed(more[i].id));
        }
    }
}

proof fn lemma_diagnostics_keep(openers: Seq<OpenerConfigView>, opener: OpenerConfigView, n: int)
    requires
        0 <= n <= openers.len(),
    ensures
        diagnostics_upto(openers.push(opener), n) == diagnostics_upto(openers, n),
    decreases n,
{
    if n > 0 {
        lemma_diagnostics_keep(openers, opener, n - 1);
        lemma_opener_lines_keep(openers, opener, n - 1);
    }
}

/// A further opener leaves the diagnostics of those before it and adds its own: that it
/// has no identifier; or that an opener before it has the same one, that it names
/// nothing to launch, and what is wrong with each of its templates.
pub proof fn further_opener_adds_its_own_diagnostics(
    openers: Seq<OpenerConfigView>,
    opener: OpenerConfigView,
)
    ensures
        ({
            let n = openers.len();
            let id = trimmed(opener.id);
            let said = said_of(n, id);
            let none = Seq::<Seq<char>>::empty();
            diagnostics(openers.push(opener)) == diagnostics(openers) + if id.len() == 0 {
                seq!["openers["@ + decimal(n) + "]"@ + ": missing opener id; ignoring opener"@]
            } else {
                (if exists|i: int| 0 <= i < n && trimmed(#[trigger] openers[i].id) == id {
                    seq![said + "duplicate opener id; the first definition wins"@]
                } else {
                    none
                }) + (if holds_only_white_space(opener.bins) && (opener.bin_env matches Some(v)
                    ==> forall|k: int| 0 <= k < v.len() ==> white_space(#[trigger] v[k])) {
                    seq![said + "no bin_env or bins configured; every workspace open will fail"@]
                } else {
                    none
                }) + template_lines(said, "argv"@, opener.argv) + (match opener.argv_remote {
                    Some(arguments) => template_lines(said, "argv_remote"@, arguments),
                    None => none,
                })
            }
        }),
{
    let n = openers.len() as int;
    let more = openers.push(opener);
    lemma_diagnostics_keep(openers, opener, n);
    lemma_only_white_space(opener.bins);
    let id = trimmed(opener.id);
    assert(is_duplicate(more, n) == exists|i: int|
        0 <= i < n && trimmed(#[trigger] openers[i].id) == id) by {
        if is_duplicate(more, n) {
            let k = choose|k: int|
                0 <= k < n && trimmed(#[trigger] more[k].id) == trimmed(more[n].id);
            assert(openers[k] == more[k]);
            assert(trimmed(openers[k].id) == id);
        }
        if exists|i: int| 0 <= i < n && trimmed(#[trigger] openers[i].id) == id {
            let k = choose|k: int| 0 <= k < n && trimmed(#[trigger] openers[k].id) == id;
            assert(openers[k] == more[k]);
            assert(trimmed(more[k].id) == trimmed(more[n].id));
        }
    }
    assert(diagnostics(more) =~= diagnostics(openers) + opener_lines(more, n));
}

/// No openers, no diagnostics.
pub proof fn no_openers_have_no_diagnostics()
    ensures
        diagnostics(Seq::<OpenerConfigView>::empty()) == Seq::<Seq<char>>::empty(),
{
}

proof fn lemma_line_is_held(openers: Seq<OpenerConfigView>, index: int, n: int, line: Seq<char>)
    requires
        0 <= index < n <= openers.len(),
        opener_lines(openers, index).contains(line),
    ensures
        diagnostics_upto(openers, n).contains(line),
    decreases n,
{
    let front = diagnostics_upto(openers, n - 1);
    let own = opener_lines(openers, n - 1);
    if index == n - 1 {
        let k = choose|k: int| 0 <= k < own.len() && own[k] == line;
        assert((front + own)[front.len() + k] == line);
    } else {
        lemma_line_is_held(openers, index, n - 1, line);
        let k = choose|k: int| 0 <= k < front.len() && front[k] == line;
        assert((front + own)[k] == line);
    }
}

/// Where two openers have the same identifier, the later one is reported as a
/// duplicate, however many stand between the two.
pub proof fn repeated_identifier_is_reported(openers: Seq<OpenerConfigView>, i: int, j: int)
    requires
        0 <= i < j < openers.len(),
        trimmed(openers[i].id) == trimmed(openers[j].id),
        trimmed(openers[j].id).len() > 0,
    ensures
        diagnostics(openers).contains(
            said_of(j as nat, trimmed(openers[j].id))
                + "duplicate opener id; the first definition wins"@,
        ),
{
    let line = said_of(j as nat, trimmed(openers[j].id))
        + "duplicate opener id; the first definition wins"@;
    assert(is_duplicate(openers, j)) by {
        assert(trimmed(openers[i].id) == trimmed(openers[j].id));
    }
    let own = opener_lines(openers, j);
    assert(own[0] == line);
    lemma_line_is_held(openers, j, openers.len() as int, line);
}

/// The openers of a list without diagnostics have identifiers, no two the same.
pub proof fn sound_openers_have_identifiers_of_their_own(openers: Seq<OpenerConfigView>)
    requires
        diagnostics(openers).len() == 0,
    ensures
        forall|j: int| 0 <= j < openers.len() ==> trimmed(#[trigger] openers[j].id).len() > 0,
        forall|i: int, j: int|
            0 <= i < j < openers.len() ==> trimmed(#[trigger] openers[i].id) != trimmed(
                #[trigger] openers[j].id,
            ),
{
    sound_openers_have_no_diagnostics(openers);
    assert forall|j: int| 0 <= j < openers.len() implies trimmed(#[trigger] openers[j].id).len()
        > 0 by {
        assert(opener_is_sound(openers, j));
    }
    assert forall|i: int, j: int| 0 <= i < j < openers.len() implies trimmed(
        #[trigger] openers[i].id,
    ) != trimmed(#[trigger] openers[j].id) by {
        assert(opener_is_sound(openers, j));
        if trimmed(openers[i].id) == trimmed(openers[j].id) {
            repeated_identifier_is_reported(openers, i, j);
        }
    }
}

/// A template that holds nothing but white space is reported as empty.
pub proof fn blank_template_is_reported(
    head: Seq<char>,
    template: Seq<char>,
    arguments: Seq<Seq<char>>,
)
    requires
        holds_only_white_space(arguments),
    ensures
        template_lines(head, template, arguments) == seq![
            head + "empty "@ + template + "; this opener cannot use that endpoint kind"@,
        ],
{
    lemma_only_white_space(arguments);
}

proof fn lemma_blank_has_no_unknown(argument: Seq<char>)
    requires
        forall|k: int| 0 <= k < argument.len() ==> white_space(#[trigger] argument[k]),
    ensures
        unknown_names(pieces(argument)).len() == 0,
{
    assert(!argument.contains('{')) by {
        if argument.contains('{') {
            let k = choose|k: int| 0 <= k < argument.len() && argument[k] == '{';
            assert(white_space(argument[k]));
        }
    }
    let values = OpenerValuesView {
        bin: None,
        tried_bins: Seq::empty(),
        path: Seq::empty(),
        host: Seq::empty(),
        user: Seq::empty(),
        port: Seq::empty(),
        ssh_target: Seq::empty(),
    };
    text_without_placeholders_is_kept(argument, Seq::empty(), values);
}

proof fn lemma_blank_arguments_have_no_lines(
    head: Seq<char>,
    template: Seq<char>,
    arguments: Seq<Seq<char>>,
    n: int,
)
    requires
        0 <= n <= arguments.len(),
        forall|i: int| 0 <= i < n ==> blank(#[trigger] arguments[i]),
    ensures
        arguments_lines(head, template, arguments, n) == Seq::<Seq<char>>::empty(),
    decreases n,
{
    if n > 0 {
        lemma_blank_arguments_have_no_lines(head, template, arguments, n - 1);
        assert(blank(arguments[n - 1]));
        lemma_blank_has_no_unknown(arguments[n - 1]);
        assert(argument_lines(head, template, n - 1, arguments[n - 1]) =~= Seq::<
            Seq<char>,
        >::empty());
    }
}

proof fn lemma_arguments_lines_keep(
    head: Seq<char>,
    template: Seq<char>,
    arguments: Seq<Seq<char>>,
    argument: Seq<char>,
    n: int,
)
    requires
        0 <= n <= arguments.len(),
    ensures
        arguments_lines(head, template, arguments.push(argument), n) == arguments_lines(
            head,
            template,
            arguments,
            n,
        ),
    decreases n,
{
    if n > 0 {
        lemma_arguments_lines_keep(head, template, arguments, argument, n - 1);
    }
}

/// A further argument that is not blank, or that follows one that is not, leaves what is
/// said of the unknown placeholders before it and adds a line for each of its own, in
/// order, with the position of the argument and the placeholders that are supported.
pub proof fn further_argument_adds_its_unknown_placeholders(
    head: Seq<char>,
    template: Seq<char>,
    arguments: Seq<Seq<char>>,
    argument: Seq<char>,
)
    requires
        !holds_only_white_space(arguments.push(argument)),
    ensures
        template_lines(head, template, arguments.push(argument)) == (if holds_only_white_space(
            arguments,
        ) {
            Seq::<Seq<char>>::empty()
        } else {
            template_lines(head, template, arguments)
        }) + Seq::new(
            unknown_names(pieces(argument)).len(),
            |k: int|
                head + "unknown placeholder {"@ + unknown_names(pieces(argument))[k] + "} in "@
                    + template + "["@ + decimal(arguments.len()) + "]; supported: "@
                    + "{bin}, {path}, {host}, {user}, {port}, {ssh_target}"@,
        ),
{
    let more = arguments.push(argument);
    let n = arguments.len() as int;
    lemma_only_white_space(more);
    lemma_only_white_space(arguments);
    lemma_arguments_lines_keep(head, template, arguments, argument, n);
    if holds_only_white_space(arguments) {
        lemma_blank_arguments_have_no_lines(head, template, arguments, n);
    }
    supported_placeholders_are_the_six();
    assert(argument_lines(head, template, n, argument) =~= Seq::new(
        unknown_names(pieces(argument)).len(),
        |k: int|
            head + "unknown placeholder {"@ + unknown_names(pieces(argument))[k] + "} in "@
                + template + "["@ + decimal(arguments.len()) + "]; supported: "@
                + "{bin}, {path}, {host}, {user}, {port}, {ssh_target}"@,
    ));
}

/// The placeholders that are supported, as they are listed.
pub proof fn supported_placeholders_are_the_six()
    ensures
        supported_placeholders() == "{bin}, {path}, {host}, {user}, {port}, {ssh_target}"@,
{
    reveal_strlit("bin");
    reveal_strlit("path");
    reveal_strlit("host");
    reveal_strlit("user");
    reveal_strlit("port");
    reveal_strlit("ssh_target");
    reveal_strlit("{");
    reveal_strlit("}");
    reveal_strlit(", ");
    reveal_strlit("{bin}, {path}, {host}, {user}, {port}, {ssh_target}");
    let list = placeholder_names().map_values(|name: Seq<char>| "{"@ + name + "}"@);
    let l5 = list.take(5);
    let l4 = l5.take(4);
    let l3 = l4.take(3);
    let l2 = l3.take(2);
    let l1 = l2.take(1);
    reveal_with_fuel(joined, 7);
    assert(joined(l1, ", "@) == list[0]);
    assert(joined(l2, ", "@) == list[0] + ", "@ + list[1]);
    assert(joined(l3, ", "@) == list[0] + ", "@ + list[1] + ", "@ + list[2]);
    assert(joined(l4, ", "@) == list[0] + ", "@ + list[1] + ", "@ + list[2] + ", "@ + list[3]);
    assert(joined(l5, ", "@) == joined(l4, ", "@) + ", "@ + list[4]);
    assert(joined(list, ", "@) == joined(l5, ", "@) + ", "@ + list[5]);
    assert(list[0] == "{"@ + "bin"@ + "}"@);
    assert(list[1] == "{"@ + "path"@ + "}"@);
    assert(list[2] == "{"@ + "host"@ + "}"@);
    assert(list[3] == "{"@ + "user"@ + "}"@);
    assert(list[4] == "{"@ + "port"@ + "}"@);
    assert(list[5] == "{"@ + "ssh_target"@ + "}"@);
    assert(supported_placeholders()
        =~= "{bin}, {path}, {host}, {user}, {port}, {ssh_target}"@);
}

} // verus!
