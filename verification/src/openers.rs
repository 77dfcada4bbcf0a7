//! Client-side opener definitions for `client.open_workspace`.
//!
//! An opener entry is not tied to any editor. It names candidate executables plus
//! argv templates, and the client substitutes a small, generic placeholder set
//! when it opens a workspace path.

use vstd::prelude::*;

use crate::opener_laws::{
    placeholders_have_names_of_their_own, repeated_identifier_is_reported,
};
use crate::text::{
    blank, chars, decimal, find, find_char, is_blank, join, joined, lemma_find, option_str_view,
    option_view, same, to_decimal, trim, trimmed, views,
};

verus! {

/// Generic placeholders accepted in opener argv templates.
pub open spec fn placeholder_names() -> Seq<Seq<char>> {
    seq!["bin"@, "path"@, "host"@, "user"@, "port"@, "ssh_target"@]
}

/// One opener definition, resolved by the client that receives the request.
#[derive(Debug, Clone, PartialEq, Eq)]
pub struct OpenerConfig {
    /// Identifier used by `herdr open-workspace --opener` and by
    /// `type = "open_workspace"` keybindings.
    pub id: String,
    /// Optional environment variable holding an explicit executable override.
    pub bin_env: Option<String>,
    /// Candidate executables, tried in order. Bare names resolve on `PATH`;
    /// absolute paths are used directly.
    pub bins: Vec<String>,
    /// argv template used for local endpoints.
    pub argv: Vec<String>,
    /// argv template used for remote endpoints.
    pub argv_remote: Option<Vec<String>>,
}

/// The model of [`OpenerConfig`].
pub struct OpenerConfigView {
    pub id: Seq<char>,
    pub bin_env: Option<Seq<char>>,
    pub bins: Seq<Seq<char>>,
    pub argv: Seq<Seq<char>>,
    pub argv_remote: Option<Seq<Seq<char>>>,
}

impl View for OpenerConfig {
    type V = OpenerConfigView;

    open spec fn view(&self) -> OpenerConfigView {
        OpenerConfigView {
            id: self.id@,
            bin_env: option_view(self.bin_env),
            bins: views(self.bins@),
            argv: views(self.argv@),
            argv_remote: match self.argv_remote {
                Some(argv) => Some(views(argv@)),
                None => None,
            },
        }
    }
}

impl Default for OpenerConfig {
    fn default() -> (r: Self)
        ensures
            r@ == (OpenerConfigView {
                id: Seq::empty(),
                bin_env: None,
                bins: Seq::empty(),
                argv: Seq::empty(),
                argv_remote: None,
            }),
    {
        let r = OpenerConfig {
            id: String::new(),
            bin_env: None,
            bins: Vec::new(),
            argv: Vec::new(),
            argv_remote: None,
        };
        assert(r@.bins =~= Seq::<Seq<char>>::empty());
        assert(r@.argv =~= Seq::<Seq<char>>::empty());
        r
    }
}

/// Values substituted into opener argv templates.
#[derive(Debug, Clone)]
pub struct OpenerValues {
    pub bin: Option<String>,
    pub tried_bins: Vec<String>,
    pub path: String,
    pub host: String,
    pub user: String,
    pub port: String,
    pub ssh_target: String,
}

/// The model of [`OpenerValues`].
pub struct OpenerValuesView {
    pub bin: Option<Seq<char>>,
    pub tried_bins: Seq<Seq<char>>,
    pub path: Seq<char>,
    pub host: Seq<char>,
    pub user: Seq<char>,
    pub port: Seq<char>,
    pub ssh_target: Seq<char>,
}

impl View for OpenerValues {
    type V = OpenerValuesView;

    open spec fn view(&self) -> OpenerValuesView {
        OpenerValuesView {
            bin: option_view(self.bin),
            tried_bins: views(self.tried_bins@),
            path: self.path@,
            host: self.host@,
            user: self.user@,
            port: self.port@,
            ssh_target: self.ssh_target@,
        }
    }
}

impl OpenerValuesView {
    /// The text that the placeholder `name` stands for.
    pub open spec fn value_of(self, name: Seq<char>) -> Option<Seq<char>> {
        if name == "bin"@ {
            self.bin
        } else if name == "path"@ {
            Some(self.path)
        } else if name == "host"@ {
            Some(self.host)
        } else if name == "user"@ {
            Some(self.user)
        } else if name == "port"@ {
            Some(self.port)
        } else if name == "ssh_target"@ {
            Some(self.ssh_target)
        } else {
            None
        }
    }

    /// The complaint about a template that needs an executable when none was found.
    pub open spec fn missing_bin(self) -> Seq<char> {
        if self.tried_bins.len() == 0 {
            "no opener executable configured; set bin_env or add a bins entry"@
        } else {
            "no opener executable resolved; tried "@ + joined(self.tried_bins, ", "@)
        }
    }

    /// The complaint about the placeholder `name`, which stands for nothing.
    pub open spec fn unresolved(self, name: Seq<char>) -> Seq<char> {
        if name == "bin"@ {
            self.missing_bin()
        } else {
            "unknown placeholder {"@ + name + "} in opener argv"@
        }
    }
}

impl Default for OpenerValues {
    fn default() -> (r: Self)
        ensures
            r@ == (OpenerValuesView {
                bin: None,
                tried_bins: Seq::empty(),
                path: Seq::empty(),
                host: Seq::empty(),
                user: Seq::empty(),
                port: Seq::empty(),
                ssh_target: Seq::empty(),
            }),
    {
        let r = OpenerValues {
            bin: None,
            tried_bins: Vec::new(),
            path: String::new(),
            host: String::new(),
            user: String::new(),
            port: String::new(),
            ssh_target: String::new(),
        };
        assert(r@.tried_bins =~= Seq::<Seq<char>>::empty());
        r
    }
}

impl OpenerValues {
    /// The text that the placeholder `name` stands for.
    pub fn placeholder(&self, name: &str) -> (r: Option<&str>)
        ensures
            match r {
                Some(value) => self@.value_of(name@) == Some(value@),
                None => self@.value_of(name@) is None,
            },
            name@ == "bin"@ ==> option_str_view(r) == option_view(self.bin),
            name@ == "path"@ ==> option_str_view(r) == Some(self.path@),
            name@ == "host"@ ==> option_str_view(r) == Some(self.host@),
            name@ == "user"@ ==> option_str_view(r) == Some(self.user@),
            name@ == "port"@ ==> option_str_view(r) == Some(self.port@),
            name@ == "ssh_target"@ ==> option_str_view(r) == Some(self.ssh_target@),
            name@ != "bin"@ && name@ != "path"@ && name@ != "host"@ && name@ != "user"@ && name@
                != "port"@ && name@ != "ssh_target"@ ==> r is None,
    {
        proof {
            placeholders_have_names_of_their_own();
        }
        if same(name, "bin") {
            match &self.bin {
                Some(bin) => Some(bin.as_str()),
                None => None,
            }
        } else if same(name, "path") {
            Some(self.path.as_str())
        } else if same(name, "host") {
            Some(self.host.as_str())
        } else if same(name, "user") {
            Some(self.user.as_str())
        } else if same(name, "port") {
            Some(self.port.as_str())
        } else if same(name, "ssh_target") {
            Some(self.ssh_target.as_str())
        } else {
            None
        }
    }

    /// The complaint about a template that needs an executable when none was found.
    pub fn missing_bin_message(&self) -> (r: String)
        ensures
            r@ == self@.missing_bin(),
    {
        if self.tried_bins.len() == 0 {
            "no opener executable configured; set bin_env or add a bins entry".to_owned()
        } else {
            let mut r = "no opener executable resolved; tried ".to_owned();
            r.append(join(&self.tried_bins, ", ").as_str());
            r
        }
    }
}

/// One stretch of a template argument.
pub enum Piece {
    /// Text that is copied as it stands.
    Text(Seq<char>),
    /// The name between a `{` and the next `}`.
    Slot(Seq<char>),
}

/// The first `{` at or after `from` and the first `}` behind it.
pub open spec fn next_slot(s: Seq<char>, from: int) -> Option<(int, int)> {
    match find(s, '{', from) {
        Some(open) => match find(s, '}', open + 1) {
            Some(close) => Some((open, close)),
            None => None,
        },
        None => None,
    }
}

/// The pieces of `s` from position `from` on.
pub open spec fn pieces_from(s: Seq<char>, from: int) -> Seq<Piece>
    decreases s.len() - from,
{
    if from < 0 {
        Seq::empty()
    } else {
        match next_slot(s, from) {
            Some((open, close)) => {
                proof {
                    lemma_find(s, '{', from);
                    lemma_find(s, '}', open + 1);
                }
                seq![Piece::Text(s.subrange(from, open)), Piece::Slot(s.subrange(open + 1, close))]
                    + pieces_from(s, close + 1)
            },
            None => seq![Piece::Text(s.skip(from))],
        }
    }
}

/// The pieces of a template argument: placeholders and the text between them.
pub open spec fn pieces(argument: Seq<char>) -> Seq<Piece> {
    pieces_from(argument, 0)
}

/// `pieces` with every slot filled in, or the complaint about the first slot
/// that stands for nothing.
pub open spec fn filled(pieces: Seq<Piece>, values: OpenerValuesView) -> Result<
    Seq<char>,
    Seq<char>,
>
    decreases pieces.len(),
{
    if pieces.len() == 0 {
        Ok(Seq::empty())
    } else {
        let rest = filled(pieces.skip(1), values);
        match pieces[0] {
            Piece::Text(text) => after(text, rest),
            Piece::Slot(name) => match values.value_of(name) {
                Some(value) => after(value, rest),
                None => Err(values.unresolved(name)),
            },
        }
    }
}

/// `rest` with `text` in front.
pub open spec fn after(text: Seq<char>, rest: Result<Seq<char>, Seq<char>>) -> Result<
    Seq<char>,
    Seq<char>,
> {
    match rest {
        Ok(rest) => Ok(text + rest),
        Err(message) => Err(message),
    }
}

/// A template argument with its placeholders filled in.
pub open spec fn rendered_argument(argument: Seq<char>, values: OpenerValuesView) -> Result<
    Seq<char>,
    Seq<char>,
> {
    filled(pieces(argument), values)
}

/// Every argument with its placeholders filled in, or the first complaint.
pub open spec fn rendered_arguments(
    template: Seq<Seq<char>>,
    values: OpenerValuesView,
) -> Result<Seq<Seq<char>>, Seq<char>>
    decreases template.len(),
{
    if template.len() == 0 {
        Ok(Seq::empty())
    } else {
        match rendered_arguments(template.take(template.len() - 1), values) {
            Ok(done) => match rendered_argument(template[template.len() - 1], values) {
                Ok(argument) => Ok(done.push(argument)),
                Err(message) => Err(message),
            },
            Err(message) => Err(message),
        }
    }
}

/// What a template turns into: its arguments with the placeholders filled in, of
/// which the first names the program.
pub open spec fn rendered_argv(template: Seq<Seq<char>>, values: OpenerValuesView) -> Result<
    Seq<Seq<char>>,
    Seq<char>,
> {
    if template.len() == 0 {
        Err("opener argv is empty"@)
    } else {
        match rendered_arguments(template, values) {
            Ok(argv) => if blank(argv[0]) {
                Err("opener argv[0] is empty"@)
            } else {
                Ok(argv)
            },
            Err(message) => Err(message),
        }
    }
}

/// The outcome of a rendering, as a value of the model.
pub open spec fn argv_view(r: Result<Vec<String>, String>) -> Result<Seq<Seq<char>>, Seq<char>> {
    match r {
        Ok(argv) => Ok(views(argv@)),
        Err(message) => Err(message@),
    }
}

/// `a + b` in front of `rest` is `a` in front of `b` in front of `rest`.
proof fn lemma_after(a: Seq<char>, b: Seq<char>, rest: Result<Seq<char>, Seq<char>>)
    ensures
        after(a + b, rest) == after(a, after(b, rest)),
{
    if let Ok(rest) = rest {
        assert(a + b + rest =~= a + (b + rest));
    }
}

/// Unfolds `filled` over the pieces from `from` on.
proof fn lemma_filled_from(s: Seq<char>, from: int, values: OpenerValuesView)
    requires
        0 <= from <= s.len(),
    ensures
        match next_slot(s, from) {
            Some((open, close)) => {
                &&& from <= open < close < s.len()
                &&& filled(pieces_from(s, from), values) == after(
                    s.subrange(from, open),
                    match values.value_of(s.subrange(open + 1, close)) {
                        Some(value) => after(value, filled(pieces_from(s, close + 1), values)),
                        None => Err(values.unresolved(s.subrange(open + 1, close))),
                    },
                )
            },
            None => filled(pieces_from(s, from), values) == Ok::<Seq<char>, Seq<char>>(
                s.skip(from),
            ),
        },
{
    let all = pieces_from(s, from);
    match next_slot(s, from) {
        Some((open, close)) => {
            lemma_find(s, '{', from);
            lemma_find(s, '}', open + 1);
            let rest = pieces_from(s, close + 1);
            assert(all.skip(1).skip(1) =~= rest);
            assert(all.skip(1)[0] == Piece::Slot(s.subrange(open + 1, close)));
            reveal_with_fuel(filled, 3);
        },
        None => {
            assert(all.skip(1) =~= Seq::<Piece>::empty());
            reveal_with_fuel(filled, 2);
            assert(s.skip(from) + Seq::<char>::empty() =~= s.skip(from));
        },
    }
}

/// Finds the first `{` at or after `from` and the first `}` behind it.
fn find_slot(v: &Vec<char>, from: usize) -> (r: Option<(usize, usize)>)
    ensures
        match r {
            Some((open, close)) => next_slot(v@, from as int) == Some((open as int, close as int))
                && from <= open < close < v.len(),
            None => next_slot(v@, from as int) is None,
        },
{
    match find_char(v, '{', from) {
        Some(open) => match find_char(v, '}', open + 1) {
            Some(close) => Some((open, close)),
            None => None,
        },
        None => None,
    }
}

/// Fills in the placeholders of one template argument.
pub fn render_argument(argument: &str, values: &OpenerValues) -> (r: Result<String, String>)
    ensures
        match r {
            Ok(text) => rendered_argument(argument@, values@) == Ok::<Seq<char>, Seq<char>>(text@),
            Err(message) => rendered_argument(argument@, values@) == Err::<Seq<char>, Seq<char>>(
                message@,
            ),
        },
{
    let v = chars(argument);
    let ghost goal = rendered_argument(argument@, values@);
    let mut output = String::new();
    let mut from: usize = 0;
    proof {
        if let Ok(text) = goal {
            assert(Seq::<char>::empty() + text =~= text);
        }
    }
    loop
        invariant
            from <= v.len(),
            v@ == argument@,
            goal == rendered_argument(argument@, values@),
            goal == after(output@, filled(pieces_from(argument@, from as int), values@)),
        ensures
            next_slot(argument@, from as int) is None,
        decreases v.len() - from,
    {
        proof {
            lemma_filled_from(argument@, from as int, values@);
        }
        let (open, close) = match find_slot(&v, from) {
            Some(slot) => slot,
            None => break,
        };
        let ghost before = output@;
        output.append(argument.substring_char(from, open));
        let name = argument.substring_char(open + 1, close);
        match values.placeholder(name) {
            Some(value) => {
                proof {
                    let rest = filled(pieces_from(argument@, close + 1), values@);
                    let text = argument@.subrange(from as int, open as int);
                    lemma_after(before, text, after(value@, rest));
                    lemma_after(before + text, value@, rest);
                }
                output.append(value);
            },
            None => {
                if same(name, "bin") {
                    return Err(values.missing_bin_message());
                }
                let mut message = "unknown placeholder {".to_owned();
                message.append(name);
                message.append("} in opener argv");
                return Err(message);
            },
        }
        from = close + 1;
    }
    proof {
        lemma_filled_from(argument@, from as int, values@);
    }
    assert(argument@.subrange(from as int, argument@.len() as int) =~= argument@.skip(from as int));
    output.append(argument.substring_char(from, v.len()));
    Ok(output)
}

/// A complaint about an argument is the complaint about the whole template.
proof fn lemma_first_complaint(template: Seq<Seq<char>>, values: OpenerValuesView, n: int)
    requires
        0 <= n <= template.len(),
        rendered_arguments(template.take(n), values) is Err,
    ensures
        rendered_arguments(template, values) == rendered_arguments(template.take(n), values),
    decreases template.len(),
{
    if n == template.len() {
        assert(template.take(n) =~= template);
    } else {
        let shorter = template.take(template.len() - 1);
        assert(shorter.take(n) =~= template.take(n));
        lemma_first_complaint(shorter, values, n);
    }
}

/// Substitutes the supported placeholders in one opener argv template.
pub fn render_opener_argv(template: &[String], values: &OpenerValues) -> (r: Result<
    Vec<String>,
    String,
>)
    ensures
        argv_view(r) == rendered_argv(views(template@), values@),
{
    if template.len() == 0 {
        return Err("opener argv is empty".to_owned());
    }
    let ghost goal = views(template@);
    let mut rendered: Vec<String> = Vec::new();
    let mut i: usize = 0;
    assert(views(rendered@) =~= Seq::<Seq<char>>::empty());
    while i < template.len()
        invariant
            i <= template.len(),
            i == rendered.len(),
            goal == views(template@),
            rendered_arguments(goal.take(i as int), values@) == Ok::<Seq<Seq<char>>, Seq<char>>(
                views(rendered@),
            ),
        decreases template.len() - i,
    {
        let ghost before = rendered@;
        let ghost next = goal.take(i + 1);
        assert(next.take(next.len() - 1) =~= goal.take(i as int));
        match render_argument(template[i].as_str(), values) {
            Ok(argument) => {
                rendered.push(argument);
                assert(views(rendered@) =~= views(before).push(argument@));
            },
            Err(message) => {
                proof {
                    lemma_first_complaint(goal, values@, i + 1);
                }
                return Err(message);
            },
        }
        i += 1;
    }
    assert(goal.take(i as int) =~= goal);
    if is_blank(rendered[0].as_str()) {
        Err("opener argv[0] is empty".to_owned())
    } else {
        Ok(rendered)
    }
}

/// The names in `pieces` that are no placeholder, in order. An empty name is
/// passed over.
pub open spec fn unknown_names(pieces: Seq<Piece>) -> Seq<Seq<char>>
    decreases pieces.len(),
{
    if pieces.len() == 0 {
        Seq::empty()
    } else {
        let rest = unknown_names(pieces.skip(1));
        match pieces[0] {
            Piece::Slot(name) => if name.len() > 0 && !placeholder_names().contains(name) {
                seq![name] + rest
            } else {
                rest
            },
            Piece::Text(_) => rest,
        }
    }
}

/// Unfolds `unknown_names` over the pieces from `from` on.
proof fn lemma_unknown_from(s: Seq<char>, from: int)
    requires
        0 <= from <= s.len(),
    ensures
        match next_slot(s, from) {
            Some((open, close)) => {
                let name = s.subrange(open + 1, close);
                let rest = unknown_names(pieces_from(s, close + 1));
                &&& from <= open < close < s.len()
                &&& unknown_names(pieces_from(s, from)) == if name.len() > 0
                    && !placeholder_names().contains(name) {
                    seq![name] + rest
                } else {
                    rest
                }
            },
            None => unknown_names(pieces_from(s, from)) == Seq::<Seq<char>>::empty(),
        },
{
    let all = pieces_from(s, from);
    match next_slot(s, from) {
        Some((open, close)) => {
            lemma_find(s, '{', from);
            lemma_find(s, '}', open + 1);
            let rest = pieces_from(s, close + 1);
            assert(all.skip(1).skip(1) =~= rest);
            assert(all.skip(1)[0] == Piece::Slot(s.subrange(open + 1, close)));
            reveal_with_fuel(unknown_names, 3);
        },
        None => {
            assert(all.skip(1) =~= Seq::<Piece>::empty());
            reveal_with_fuel(unknown_names, 2);
        },
    }
}

/// Whether `name` is one of the placeholders accepted in templates.
fn is_placeholder(name: &str) -> (r: bool)
    ensures
        r == placeholder_names().contains(name@),
{
    let r = same(name, "bin") || same(name, "path") || same(name, "host") || same(name, "user")
        || same(name, "port") || same(name, "ssh_target");
    proof {
        let names = placeholder_names();
        assert(names[0] == "bin"@ && names[1] == "path"@ && names[2] == "host"@);
        assert(names[3] == "user"@ && names[4] == "port"@ && names[5] == "ssh_target"@);
    }
    r
}

/// The names in `argument` that are no placeholder, in order.
pub fn unknown_placeholders(argument: &str) -> (r: Vec<String>)
    ensures
        views(r@) == unknown_names(pieces(argument@)),
{
    let v = chars(argument);
    let ghost goal = unknown_names(pieces(argument@));
    let mut unknown: Vec<String> = Vec::new();
    let mut from: usize = 0;
    assert(views(unknown@) + goal =~= goal);
    loop
        invariant
            from <= v.len(),
            v@ == argument@,
            goal == views(unknown@) + unknown_names(pieces_from(argument@, from as int)),
        ensures
            next_slot(argument@, from as int) is None,
        decreases v.len() - from,
    {
        proof {
            lemma_unknown_from(argument@, from as int);
        }
        let (open, close) = match find_slot(&v, from) {
            Some(slot) => slot,
            None => break,
        };
        let name = argument.substring_char(open + 1, close);
        if !name.is_empty() && !is_placeholder(name) {
            let ghost before = unknown@;
            unknown.push(name.to_owned());
            proof {
                let rest = unknown_names(pieces_from(argument@, close + 1));
                assert(views(unknown@) =~= views(before).push(name@));
                assert(views(before) + (seq![name@] + rest) =~= views(before).push(name@) + rest);
            }
        }
        from = close + 1;
    }
    proof {
        lemma_unknown_from(argument@, from as int);
        assert(views(unknown@) + Seq::<Seq<char>>::empty() =~= views(unknown@));
    }
    unknown
}

/// The placeholders accepted in templates, as they are written there.
pub open spec fn supported_placeholders() -> Seq<char> {
    joined(placeholder_names().map_values(|name: Seq<char>| "{"@ + name + "}"@), ", "@)
}

/// Returns the placeholder `name` as it is written in a template.
fn braced(name: &str) -> (r: String)
    ensures
        r@ == "{"@ + name@ + "}"@,
{
    let mut r = "{".to_owned();
    r.append(name);
    r.append("}");
    r
}

/// Lists the placeholders accepted in templates.
pub fn supported_placeholder_list() -> (r: String)
    ensures
        r@ == supported_placeholders(),
{
    let mut list: Vec<String> = Vec::new();
    list.push(braced("bin"));
    list.push(braced("path"));
    list.push(braced("host"));
    list.push(braced("user"));
    list.push(braced("port"));
    list.push(braced("ssh_target"));
    assert(views(list@) =~= placeholder_names().map_values(
        |name: Seq<char>| "{"@ + name + "}"@,
    ));
    join(&list, ", ")
}

/// The models of a list of openers.
pub open spec fn config_views(openers: Seq<OpenerConfig>) -> Seq<OpenerConfigView> {
    openers.map_values(|opener: OpenerConfig| opener@)
}

/// Whether every item of `list` is blank.
pub open spec fn all_blank(list: Seq<Seq<char>>) -> bool {
    forall|i: int| 0 <= i < list.len() ==> blank(#[trigger] list[i])
}

/// Whether an earlier opener than the one at `index` has the same identifier.
pub open spec fn is_duplicate(openers: Seq<OpenerConfigView>, index: int) -> bool {
    exists|i: int| 0 <= i < index && trimmed(#[trigger] openers[i].id) == trimmed(openers[index].id)
}

/// Whether `opener` names nothing that could be launched.
pub open spec fn lacks_bin(opener: OpenerConfigView) -> bool {
    &&& all_blank(opener.bins)
    &&& match opener.bin_env {
        Some(variable) => blank(variable),
        None => true,
    }
}

/// How a diagnostic refers to the opener at `index`.
pub open spec fn field_name(index: int) -> Seq<char> {
    "openers["@ + decimal(index as nat) + "]"@
}

/// How a diagnostic of an opener with an identifier begins.
pub open spec fn diagnostic_head(index: int, id: Seq<char>) -> Seq<char> {
    field_name(index) + " ("@ + id + "): "@
}

/// The diagnostic for the unknown placeholder `name` in an argument.
pub open spec fn unknown_line(
    head: Seq<char>,
    template: Seq<char>,
    position: int,
    name: Seq<char>,
) -> Seq<char> {
    head + "unknown placeholder {"@ + name + "} in "@ + template + "["@ + decimal(position as nat)
        + "]; supported: "@ + supported_placeholders()
}

/// The diagnostics for the unknown placeholders of one argument.
pub open spec fn argument_lines(
    head: Seq<char>,
    template: Seq<char>,
    position: int,
    argument: Seq<char>,
) -> Seq<Seq<char>> {
    unknown_names(pieces(argument)).map_values(
        |name: Seq<char>| unknown_line(head, template, position, name),
    )
}

/// The diagnostics for the unknown placeholders of the first `n` arguments.
pub open spec fn arguments_lines(
    head: Seq<char>,
    template: Seq<char>,
    arguments: Seq<Seq<char>>,
    n: int,
) -> Seq<Seq<char>>
    decreases n,
{
    if n <= 0 {
        Seq::empty()
    } else {
        arguments_lines(head, template, arguments, n - 1) + argument_lines(
            head,
            template,
            n - 1,
            arguments[n - 1],
        )
    }
}

/// The diagnostics for one template of an opener.
pub open spec fn template_lines(
    head: Seq<char>,
    template: Seq<char>,
    arguments: Seq<Seq<char>>,
) -> Seq<Seq<char>> {
    if all_blank(arguments) {
        seq![
            head + "empty "@ + template + "; this opener cannot use that endpoint kind"@,
        ]
    } else {
        arguments_lines(head, template, arguments, arguments.len() as int)
    }
}

/// `line` alone where `flag` holds, nothing otherwise.
pub open spec fn line_if(flag: bool, line: Seq<char>) -> Seq<Seq<char>> {
    if flag {
        seq![line]
    } else {
        Seq::empty()
    }
}

/// The diagnostics for the opener at `index`.
pub open spec fn opener_lines(openers: Seq<OpenerConfigView>, index: int) -> Seq<Seq<char>> {
    let opener = openers[index];
    let id = trimmed(opener.id);
    let head = diagnostic_head(index, id);
    if id.len() == 0 {
        seq![field_name(index) + ": missing opener id; ignoring opener"@]
    } else {
        line_if(
            is_duplicate(openers, index),
            head + "duplicate opener id; the first definition wins"@,
        ) + line_if(
            lacks_bin(opener),
            head + "no bin_env or bins configured; every workspace open will fail"@,
        ) + template_lines(head, "argv"@, opener.argv) + match opener.argv_remote {
            Some(arguments) => template_lines(head, "argv_remote"@, arguments),
            None => Seq::empty(),
        }
    }
}

/// The diagnostics for the first `n` openers.
pub open spec fn diagnostics_upto(openers: Seq<OpenerConfigView>, n: int) -> Seq<Seq<char>>
    decreases n,
{
    if n <= 0 {
        Seq::empty()
    } else {
        diagnostics_upto(openers, n - 1) + opener_lines(openers, n - 1)
    }
}

/// The diagnostics for a list of openers, in the order of the list.
pub open spec fn diagnostics(openers: Seq<OpenerConfigView>) -> Seq<Seq<char>> {
    diagnostics_upto(openers, openers.len() as int)
}

/// Whether every string of `list` is blank.
fn are_all_blank(list: &Vec<String>) -> (r: bool)
    ensures
        r == all_blank(views(list@)),
{
    let mut i: usize = 0;
    while i < list.len()
        invariant
            i <= list.len(),
            forall|j: int| 0 <= j < i ==> blank(#[trigger] views(list@)[j]),
        decreases list.len() - i,
    {
        if !is_blank(list[i].as_str()) {
            assert(!blank(views(list@)[i as int]));
            return false;
        }
        i += 1;
    }
    true
}

/// Whether an earlier opener than the one at `index` has the same identifier.
fn repeats_earlier_id(openers: &[OpenerConfig], index: usize) -> (r: bool)
    requires
        index < openers.len(),
    ensures
        r == is_duplicate(config_views(openers@), index as int),
{
    let id = trim(openers[index].id.as_str());
    let ghost all = config_views(openers@);
    let mut i: usize = 0;
    while i < index
        invariant
            i <= index < openers.len(),
            all == config_views(openers@),
            id@ == trimmed(all[index as int].id),
            forall|j: int| 0 <= j < i ==> trimmed(#[trigger] all[j].id) != id@,
        decreases index - i,
    {
        if same(trim(openers[i].id.as_str()), id) {
            assert(trimmed(all[i as int].id) == id@);
            return true;
        }
        i += 1;
    }
    false
}

/// Whether `opener` names nothing that could be launched.
fn has_no_bin(opener: &OpenerConfig) -> (r: bool)
    ensures
        r == lacks_bin(opener@),
{
    are_all_blank(&opener.bins) && match &opener.bin_env {
        Some(variable) => is_blank(variable.as_str()),
        None => true,
    }
}

/// Adds the diagnostics for one template to `lines`.
fn diagnose_template(
    lines: &mut Vec<String>,
    head: &str,
    template: &str,
    arguments: &Vec<String>,
)
    ensures
        views(final(lines)@) == views(old(lines)@) + template_lines(
            head@,
            template@,
            views(arguments@),
        ),
{
    if are_all_blank(arguments) {
        let mut line = head.to_owned();
        line.append("empty ");
        line.append(template);
        line.append("; this opener cannot use that endpoint kind");
        lines.push(line);
        assert(views(lines@) =~= views(old(lines)@) + seq![line@]);
        return;
    }
    let ghost start = views(lines@);
    let ghost all = views(arguments@);
    let mut position: usize = 0;
    assert(start + Seq::<Seq<char>>::empty() =~= start);
    while position < arguments.len()
        invariant
            position <= arguments.len(),
            all == views(arguments@),
            views(lines@) == start + arguments_lines(head@, template@, all, position as int),
        decreases arguments.len() - position,
    {
        let unknown = unknown_placeholders(arguments[position].as_str());
        let ghost before = views(lines@);
        let ghost added = argument_lines(
            head@,
            template@,
            position as int,
            all[position as int],
        );
        let mut i: usize = 0;
        assert(before + added.take(0) =~= before);
        while i < unknown.len()
            invariant
                i <= unknown.len(),
                added == views(unknown@).map_values(
                    |name: Seq<char>| unknown_line(head@, template@, position as int, name),
                ),
                views(lines@) == before + added.take(i as int),
            decreases unknown.len() - i,
        {
            let ghost so_far = views(lines@);
            let mut line = head.to_owned();
            line.append("unknown placeholder {");
            line.append(unknown[i].as_str());
            line.append("} in ");
            line.append(template);
            line.append("[");
            line.append(to_decimal(position as u64).as_str());
            line.append("]; supported: ");
            line.append(supported_placeholder_list().as_str());
            assert(line@ == added[i as int]);
            lines.push(line);
            assert(views(lines@) =~= so_far.push(line@));
            assert(before + added.take(i + 1) =~= so_far.push(line@));
            i += 1;
        }
        assert(added.take(i as int) =~= added);
        assert(start + arguments_lines(head@, template@, all, position + 1) =~= before + added);
        position += 1;
    }
}

/// Checks a list of openers and returns one line for each thing that is wrong
/// with it, in the order of the list.
pub fn opener_diagnostics(openers: &[OpenerConfig]) -> (r: Vec<String>)
    ensures
        views(r@) == diagnostics(config_views(openers@)),
        forall|i: int, j: int|
            0 <= i < j < openers@.len() && trimmed((#[trigger] openers@[i]).id@) == trimmed(
                (#[trigger] openers@[j]).id@,
            ) && trimmed(openers@[j].id@).len() > 0 ==> views(r@).contains(
                "openers["@ + decimal(j as nat) + "]"@ + " ("@ + trimmed(openers@[j].id@) + "): "@
                    + "duplicate opener id; the first definition wins"@,
            ),
{
    let ghost all = config_views(openers@);
    let mut lines: Vec<String> = Vec::new();
    let mut index: usize = 0;
    assert(views(lines@) =~= Seq::<Seq<char>>::empty());
    while index < openers.len()
        invariant
            index <= openers.len(),
            all == config_views(openers@),
            views(lines@) == diagnostics_upto(all, index as int),
        decreases openers.len() - index,
    {
        let opener = &openers[index];
        let ghost start = views(lines@);
        assert(opener@ == all[index as int]);
        let mut field = "openers[".to_owned();
        field.append(to_decimal(index as u64).as_str());
        field.append("]");
        let id = trim(opener.id.as_str());
        if id.is_empty() {
            field.append(": missing opener id; ignoring opener");
            lines.push(field);
            assert(views(lines@) =~= start + seq![field@]);
        } else {
            let mut head = field;
            head.append(" (");
            head.append(id);
            head.append("): ");
            if repeats_earlier_id(openers, index) {
                let mut line = head.clone();
                line.append("duplicate opener id; the first definition wins");
                lines.push(line);
            }
            let ghost duplicates = line_if(
                is_duplicate(all, index as int),
                head@ + "duplicate opener id; the first definition wins"@,
            );
            assert(views(lines@) =~= start + duplicates);
            if has_no_bin(opener) {
                let mut line = head.clone();
                line.append("no bin_env or bins configured; every workspace open will fail");
                lines.push(line);
            }
            let ghost bins = line_if(
                lacks_bin(opener@),
                head@ + "no bin_env or bins configured; every workspace open will fail"@,
            );
            assert(views(lines@) =~= start + duplicates + bins);
            diagnose_template(&mut lines, head.as_str(), "argv", &opener.argv);
            match &opener.argv_remote {
                Some(arguments) => {
                    diagnose_template(&mut lines, head.as_str(), "argv_remote", arguments);
                },
                None => {},
            }
            assert(views(lines@) =~= start + opener_lines(all, index as int));
        }
        index += 1;
    }
    proof {
        assert forall|i: int, j: int|
            0 <= i < j < openers@.len() && trimmed((#[trigger] openers@[i]).id@) == trimmed(
                (#[trigger] openers@[j]).id@,
            ) && trimmed(openers@[j].id@).len() > 0 implies views(lines@).contains(
            "openers["@ + decimal(j as nat) + "]"@ + " ("@ + trimmed(openers@[j].id@) + "): "@
                + "duplicate opener id; the first definition wins"@,
        ) by {
            assert(all[i].id == openers@[i].id@ && all[j].id == openers@[j].id@);
            repeated_identifier_is_reported(all, i, j);
        }
    }
    lines
}

} // verus!
