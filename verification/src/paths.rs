//! File system paths as text, and what the path library says of them.
//!
//! The library holds paths as strings. Comparing and joining them by
//! components is left to `std::path` and to `pathdiff`; their results are
//! functions of the texts alone and are named here.

use vstd::prelude::*;
use vstd::string::*;
use crate::lexer::characters;

verus! {

/// What `pathdiff::diff_paths` makes of `path` relative to `base`.
pub uninterp spec fn relative_path(path: Seq<char>, base: Seq<char>) -> Option<Seq<char>>;

/// Whether the components of `path` start with all the components of
/// `prefix`, as `std::path::Path::starts_with` tells.
pub uninterp spec fn path_has_prefix(path: Seq<char>, prefix: Seq<char>) -> bool;

/// What `std::path::PathBuf::push` makes of `base` when `path` is pushed.
pub uninterp spec fn joined_path(base: Seq<char>, path: Seq<char>) -> Seq<char>;

/// Calls `pathdiff::diff_paths(path, base)`, which compares the two paths
/// component by component and reads nothing from the file system. The
/// relative path comes back as text; it is made of components of the two
/// arguments, so no character is lost in that conversion.
#[verifier::external_body]
pub(crate) fn diff_paths(path: &str, base: &str) -> (relative: Option<String>)
    ensures
        match relative {
            Some(text) => relative_path(path@, base@) == Some(text@),
            None => relative_path(path@, base@) is None,
        },
{
    pathdiff::diff_paths(path, base).map(|relative| relative.to_string_lossy().into_owned())
}

/// Calls `std::path::Path::starts_with` on the two texts.
#[verifier::external_body]
pub(crate) fn starts_with(path: &str, prefix: &str) -> (yes: bool)
    ensures
        yes == path_has_prefix(path@, prefix@),
{
    std::path::Path::new(path).starts_with(prefix)
}

/// Calls `std::path::PathBuf::push` on a copy of `base` and hands the
/// longer path back as text.
#[verifier::external_body]
pub(crate) fn join(base: &str, path: &str) -> (joined: String)
    ensures
        joined@ == joined_path(base@, path@),
{
    let mut joined = std::path::PathBuf::from(base);
    joined.push(path);
    joined.to_string_lossy().into_owned()
}

/// Collects characters into a `String` with `String::from_iter`: the string
/// holds the characters in order.
#[verifier::external_body]
pub(crate) fn string_of(chars: &Vec<char>) -> (text: String)
    ensures
        text@ == chars@,
{
    String::from_iter(chars.iter())
}

/// The text with every backslash turned into a slash.
pub open spec fn with_slashes(text: Seq<char>) -> Seq<char> {
    Seq::new(
        text.len(),
        |i: int|
            if text[i] == '\\' {
                '/'
            } else {
                text[i]
            },
    )
}

/// Writes a path with slashes as its only separators.
pub fn normalize_separators(text: &str) -> (normalized: String)
    ensures
        normalized@ == with_slashes(text@),
{
    let chars = characters(text);
    let mut normalized: Vec<char> = Vec::new();
    let mut i: usize = 0;
    while i < chars.len()
        invariant
            i <= chars.len(),
            chars@ == text@,
            normalized@ == with_slashes(text@).take(i as int),
        decreases chars.len() - i,
    {
        let c = chars[i];
        normalized.push(
            if c == '\\' {
                '/'
            } else {
                c
            },
        );
        assert(with_slashes(text@).take(i + 1) =~= with_slashes(text@).take(i as int).push(
            with_slashes(text@)[i as int],
        ));
        i += 1;
    }
    assert(with_slashes(text@).take(chars.len() as int) =~= with_slashes(text@));
    string_of(&normalized)
}

} // verus!
