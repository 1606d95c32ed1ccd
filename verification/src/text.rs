//! Strings as sequences of characters, and the few std string functions the
//! interpreter relies on.

use vstd::prelude::*;

verus! {

/// `String::push` appends one character to the end of the string.
pub assume_specification[ String::push ](s: &mut String, c: char)
    ensures
        final(s)@ == old(s)@.push(c),
;

/// `str` equality holds exactly when the two strings have the same characters.
pub assume_specification[ <str as PartialEq>::eq ](a: &str, b: &str) -> (same: bool)
    ensures
        same == (a@ == b@),
;

/// What `str::trim` leaves of a line: the line without its leading and
/// trailing Unicode white space.
pub uninterp spec fn trimmed(line: Seq<char>) -> Seq<char>;

/// `str::trim`: the slice of `line` between its leading and trailing runs of
/// characters with the Unicode `White_Space` property.
#[verifier::external_body]
pub(crate) fn trim(line: &str) -> (inner: &str)
    ensures
        inner@ == trimmed(line@),
{
    line.trim()
}

/// What `Path::file_name` makes of a path: its final component, where it has
/// one that is the name of a file or directory.
pub uninterp spec fn file_name(path: Seq<char>) -> Option<Seq<char>>;

/// `Path::file_name` on the path that `path` spells: the final component of
/// the path, or nothing where the path ends in `..` or has no component.
#[verifier::external_body]
pub(crate) fn path_file_name(path: &str) -> (name: Option<&str>)
    ensures
        match name {
            Some(n) => file_name(path@) == Some(n@),
            None => file_name(path@) is None,
        },
{
    std::path::Path::new(path).file_name()?.to_str()
}

/// The five characters that count as ASCII white space: space, tab, line
/// feed, form feed and carriage return.
pub open spec fn is_ascii_whitespace(c: char) -> bool {
    c == ' ' || c == '\t' || c == '\n' || c == '\x0C' || c == '\r'
}

/// Whether `c` is ASCII white space.
pub fn ascii_whitespace(c: char) -> (b: bool)
    ensures
        b == is_ascii_whitespace(c),
{
    c == ' ' || c == '\t' || c == '\n' || c == '\x0C' || c == '\r'
}

} // verus!
