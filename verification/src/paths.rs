//! Paths of workspaces.

use vstd::prelude::*;

verus! {

/// Whether `c` separates the parts of a path on some machine.
pub open spec fn is_separator(c: char) -> bool {
    c == '/' || c == '\\'
}

/// Whether `c` names a drive.
pub open spec fn is_drive(c: char) -> bool {
    'a' <= c <= 'z' || 'A' <= c <= 'Z'
}

/// Whether `text` begins as an absolute path does on some machine: with a slash, with
/// two separators, or with a drive, a colon and a separator.
pub open spec fn begins_absolute(text: Seq<char>) -> bool {
    ||| text.len() >= 1 && text[0] == '/'
    ||| text.len() >= 2 && is_separator(text[0]) && is_separator(text[1])
    ||| text.len() >= 3 && is_drive(text[0]) && text[1] == ':' && is_separator(text[2])
}

/// A path that begins as an absolute one does begins with a slash, with two separators, or
/// with a letter, a colon and a separator, and what stands behind makes no difference.
pub proof fn beginning_decides(rest: Seq<char>, drive: char, text: Seq<char>)
    ensures
        begins_absolute(seq!['/'] + rest),
        begins_absolute(seq!['\\', '\\'] + rest),
        begins_absolute(seq!['\\', '/'] + rest),
        ('a' <= drive <= 'z' || 'A' <= drive <= 'Z') ==> begins_absolute(
            seq![drive, ':', '\\'] + rest,
        ) && begins_absolute(seq![drive, ':', '/'] + rest),
        begins_absolute(text) ==> text.len() > 0 && (text[0] == '/' || (text.len() > 1 && text[0]
            == '\\' && (text[1] == '/' || text[1] == '\\')) || (text.len() > 2 && ('a' <= text[0]
            <= 'z' || 'A' <= text[0] <= 'Z') && text[1] == ':' && (text[2] == '/' || text[2]
            == '\\'))),
{
}

/// Whether `path` is absolute on the machine that runs this.
///
/// Calls `std::path::Path::is_absolute`. On Unix it asks for a root in front. On
/// Windows it asks for a prefix and a root, and a prefix is a letter and a colon or begins with
/// two separators. A path that begins otherwise is therefore not absolute on either.
/// Which of the other paths are differs between machines and is left open here.
#[verifier::external_body]
fn path_is_absolute(path: &str) -> (r: bool)
    ensures
        r ==> begins_absolute(path@),
{
    std::path::Path::new(path).is_absolute()
}

/// A path together with whether it is absolute on the machine that runs this.
#[derive(Debug, PartialEq, Eq)]
pub struct OpenPath {
    text: String,
    absolute: bool,
}

impl OpenPath {
    /// The path as text.
    pub closed spec fn text(&self) -> Seq<char> {
        self.text@
    }

    /// Whether the path is absolute.
    pub closed spec fn absolute(&self) -> bool {
        self.absolute
    }

    #[verifier::type_invariant]
    spec fn absolute_as_it_begins(self) -> bool {
        self.absolute ==> begins_absolute(self.text@)
    }

    /// Takes up the path `text`.
    pub fn new(text: &str) -> (r: Self)
        ensures
            r.text() == text@,
            r.absolute() ==> begins_absolute(text@),
    {
        OpenPath { text: text.to_owned(), absolute: path_is_absolute(text) }
    }

    /// The path as text.
    pub fn as_str(&self) -> (r: &str)
        ensures
            r@ == self.text(),
    {
        self.text.as_str()
    }

    /// Whether the path is absolute.
    pub fn is_absolute(&self) -> (r: bool)
        ensures
            r == self.absolute(),
            r ==> begins_absolute(self.text()),
    {
        proof {
            use_type_invariant(self);
        }
        self.absolute
    }
}

impl Clone for OpenPath {
    fn clone(&self) -> (r: Self)
        ensures
            r == *self,
    {
        proof {
            use_type_invariant(self);
        }
        OpenPath { text: self.text.clone(), absolute: self.absolute }
    }
}

} // verus!
