//! The rules for commit messages: a message starts with the prefix of the
//! project that it changes.

use vstd::prelude::*;
use vstd::string::*;
use crate::lexer::characters;
use crate::text::{split, split_text, str_eq, texts};

verus! {

/// What `str::to_uppercase` makes of a text.
pub uninterp spec fn uppercase(text: Seq<char>) -> Seq<char>;

/// Calls `str::to_uppercase`.
#[verifier::external_body]
fn to_uppercase(text: &str) -> (upper: String)
    ensures
        upper@ == uppercase(text@),
{
    text.to_uppercase()
}

/// A word with its first character in upper case.
pub open spec fn capitalized(word: Seq<char>) -> Seq<char> {
    uppercase(word.take(1)) + word.skip(1)
}

/// The words of a name, each capitalized, with `joint` between them.
pub open spec fn capitalized_words(words: Seq<Seq<char>>, joint: Seq<char>) -> Seq<char>
    decreases words.len(),
{
    if words.len() == 0 {
        Seq::empty()
    } else if words.len() == 1 {
        capitalized(words[0])
    } else {
        capitalized_words(words.drop_last(), joint) + joint + capitalized(words.last())
    }
}

/// The prefix of a project: the kind of the project, its parts capitalized
/// and separated by slashes, a slash, and the name of the project with the
/// words between its hyphens capitalized and joined, all in brackets.
pub open spec fn project_prefix(subproject_type: Seq<char>, subproject: Seq<char>) -> Seq<char> {
    "["@ + capitalized_words(split(subproject_type, '/'), "/"@) + "/"@ + capitalized_words(
        split(subproject, '-'),
        ""@,
    ) + "]"@
}

/// Whether every entry of `words` has a first character.
pub open spec fn all_have_a_start(words: Seq<Seq<char>>) -> bool {
    forall|i: int| 0 <= i < words.len() ==> (#[trigger] words[i]).len() > 0
}

fn capitalize(word: &str) -> (text: String)
    requires
        word@.len() > 0,
    ensures
        text@ == capitalized(word@),
{
    let length = word.unicode_len();
    let mut text = to_uppercase(word.substring_char(0, 1));
    text.append(word.substring_char(1, length));
    assert(word@.subrange(0, 1) =~= word@.take(1));
    assert(word@.subrange(1, length as int) =~= word@.skip(1));
    text
}

fn capitalize_words(words: &Vec<String>, joint: &str) -> (text: String)
    requires
        all_have_a_start(texts(words@)),
    ensures
        text@ == capitalized_words(texts(words@), joint@),
{
    let ghost models = texts(words@);
    let mut text = String::new();
    let mut i: usize = 0;
    assert(models.take(0) =~= Seq::<Seq<char>>::empty());
    while i < words.len()
        invariant
            i <= words.len(),
            models == texts(words@),
            all_have_a_start(models),
            text@ == capitalized_words(models.take(i as int), joint@),
        decreases words.len() - i,
    {
        proof {
            assert(models[i as int] == words[i as int]@);
            assert(models.take(i + 1).drop_last() =~= models.take(i as int));
            assert(models.take(i + 1).last() == models[i as int]);
        }
        let word = capitalize(words[i].as_str());
        if i > 0 {
            text.append(joint);
        } else {
            assert(text@ + capitalized(models[0]) =~= capitalized(models[0]));
        }
        text.append(word.as_str());
        i += 1;
    }
    assert(models.take(words.len() as int) =~= models);
    text
}

/// Writes the prefix with which the messages of a project start. Every
/// part of the kind and every word of the name must have a first
/// character.
pub fn prefix(subproject_type: &str, subproject: &str) -> (text: String)
    requires
        all_have_a_start(split(subproject_type@, '/')),
        all_have_a_start(split(subproject@, '-')),
    ensures
        text@ == project_prefix(subproject_type@, subproject@),
{
    let kinds = split_text(subproject_type, '/');
    let words = split_text(subproject, '-');
    let mut text = String::from_str("[");
    let kind = capitalize_words(&kinds, "/");
    text.append(kind.as_str());
    text.append("/");
    let name = capitalize_words(&words, "");
    text.append(name.as_str());
    text.append("]");
    text
}

/// Whether `text` starts with `start`.
pub open spec fn has_prefix(text: Seq<char>, start: Seq<char>) -> bool {
    start.len() <= text.len() && text.take(start.len() as int) == start
}

fn starts_with(text: &Vec<char>, start: &str) -> (yes: bool)
    ensures
        yes == has_prefix(text@, start@),
{
    let letters = characters(start);
    if letters.len() > text.len() {
        return false;
    }
    let mut i: usize = 0;
    while i < letters.len()
        invariant
            i <= letters.len(),
            letters.len() <= text.len(),
            letters@ == start@,
            forall|j: int| 0 <= j < i ==> text[j] == letters[j],
        decreases letters.len() - i,
    {
        if text[i] != letters[i] {
            assert(text@.take(start@.len() as int)[i as int] != start@[i as int]);
            return false;
        }
        i += 1;
    }
    assert(text@.take(start@.len() as int) =~= start@);
    true
}

/// What the verifier says of a commit.
#[derive(Debug, Clone, Copy, PartialEq, Eq, Structural)]
pub enum Verdict {
    /// The message starts with an allowed prefix.
    Valid,
    /// The message is invalid, which is accepted of a merge commit.
    MergeCommit,
    /// The message is invalid, which is accepted of the dependency robot.
    Dependabot,
    /// The message is invalid.
    Invalid,
}

/// Whether one of the prefixes starts the message.
pub open spec fn is_allowed(message: Seq<char>, prefixes: Seq<Seq<char>>) -> bool {
    exists|i: int| 0 <= i < prefixes.len() && has_prefix(message, #[trigger] prefixes[i])
}

/// The verdict on a commit: valid by its message, or else accepted for
/// having more than one parent, or else for its author, or else invalid.
pub open spec fn verdict_of(
    message: Seq<char>,
    prefixes: Seq<Seq<char>>,
    parents: nat,
    author: Option<Seq<char>>,
) -> Verdict {
    if is_allowed(message, prefixes) {
        Verdict::Valid
    } else if parents > 1 {
        Verdict::MergeCommit
    } else if author == Some("dependabot[bot]"@) {
        Verdict::Dependabot
    } else {
        Verdict::Invalid
    }
}

/// Judges a commit by its message, the number of its parents and the name
/// of its author.
pub fn verdict(message: &str, allowed_prefixes: &Vec<String>, parent_count: usize, author: Option<&str>) -> (result:
    Verdict)
    ensures
        result == verdict_of(
            message@,
            texts(allowed_prefixes@),
            parent_count as nat,
            match author {
                Some(name) => Some(name@),
                None => None,
            },
        ),
{
    let ghost prefixes = texts(allowed_prefixes@);
    let text = characters(message);
    let mut i: usize = 0;
    while i < allowed_prefixes.len()
        invariant
            i <= allowed_prefixes.len(),
            text@ == message@,
            prefixes == texts(allowed_prefixes@),
            forall|j: int| 0 <= j < i ==> !has_prefix(message@, #[trigger] prefixes[j]),
        decreases allowed_prefixes.len() - i,
    {
        assert(prefixes[i as int] == allowed_prefixes[i as int]@);
        if starts_with(&text, allowed_prefixes[i].as_str()) {
            return Verdict::Valid;
        }
        i += 1;
    }
    if parent_count > 1 {
        Verdict::MergeCommit
    } else {
        match author {
            Some(name) => {
                if str_eq(name, "dependabot[bot]") {
                    Verdict::Dependabot
                } else {
                    Verdict::Invalid
                }
            },
            None => Verdict::Invalid,
        }
    }
}

/// The prefixes that every repository allows, before those of its
/// projects.
pub fn find_allowed_prefixes(projects: &Vec<(String, String)>) -> (prefixes: Vec<String>)
    requires
        forall|i: int|
            0 <= i < projects.len() ==> all_have_a_start(split((#[trigger] projects[i]).0@, '/'))
                && all_have_a_start(split(projects[i].1@, '-')),
    ensures
        prefixes.len() == projects.len() + 1,
        prefixes[0]@ == "[All]"@,
        forall|i: int|
            0 <= i < projects.len() ==> (#[trigger] prefixes[i + 1])@ == project_prefix(
                projects[i].0@,
                projects[i].1@,
            ),
{
    let mut prefixes: Vec<String> = Vec::new();
    prefixes.push(String::from_str("[All]"));
    let mut i: usize = 0;
    while i < projects.len()
        invariant
            i <= projects.len(),
            prefixes.len() == i + 1,
            prefixes[0]@ == "[All]"@,
            forall|k: int|
                0 <= k < projects.len() ==> all_have_a_start(
                    split((#[trigger] projects[k]).0@, '/'),
                ) && all_have_a_start(split(projects[k].1@, '-')),
            forall|k: int|
                0 <= k < i ==> (#[trigger] prefixes[k + 1])@ == project_prefix(
                    projects[k].0@,
                    projects[k].1@,
                ),
        decreases projects.len() - i,
    {
        let project = &projects[i];
        prefixes.push(prefix(project.0.as_str(), project.1.as_str()));
        i += 1;
    }
    prefixes
}

} // verus!
