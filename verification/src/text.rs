//! Small helpers on strings that the compilers share.

use vstd::prelude::*;
use vstd::string::*;
use crate::lexer::characters;
use crate::paths::string_of;

verus! {

/// Whether two string slices hold the same characters.
pub fn str_eq(a: &str, b: &str) -> (same: bool)
    ensures
        same == (a@ == b@),
{
    let x = a.to_owned();
    let y = b.to_owned();
    x == y
}

/// The index of the first entry of `names` that equals `name`, if any.
pub fn position_of(names: &Vec<String>, name: &str) -> (found: Option<usize>)
    ensures
        match found {
            Some(i) => i < names.len() && names[i as int]@ == name@ && forall|j: int|
                0 <= j < i ==> names[j]@ != name@,
            None => forall|j: int| 0 <= j < names.len() ==> names[j]@ != name@,
        },
{
    let mut i: usize = 0;
    while i < names.len()
        invariant
            i <= names.len(),
            forall|j: int| 0 <= j < i ==> names[j]@ != name@,
        decreases names.len() - i,
    {
        if str_eq(names[i].as_str(), name) {
            return Some(i);
        }
        i += 1;
    }
    None
}

/// The texts that a vector of strings holds, in order.
pub open spec fn texts(names: Seq<String>) -> Seq<Seq<char>> {
    Seq::new(names.len(), |i: int| names[i]@)
}

/// Pushing a string onto a vector pushes its text onto the texts.
pub proof fn lemma_texts_push(names: Seq<String>, name: String)
    ensures
        texts(names.push(name)) == texts(names).push(name@),
{
    assert(texts(names.push(name)) =~= texts(names).push(name@));
}

/// Whether `names` holds `name`.
pub fn contains_name(names: &Vec<String>, name: &str) -> (found: bool)
    ensures
        found == texts(names@).contains(name@),
{
    let at = position_of(names, name);
    proof {
        match at {
            Some(i) => {
                assert(texts(names@)[i as int] == name@);
            },
            None => {
                if texts(names@).contains(name@) {
                    let j = choose|j: int| 0 <= j < texts(names@).len() && texts(names@)[j] == name@;
                    assert(names[j]@ == name@);
                }
            },
        }
    }
    at.is_some()
}

/// The character that writes a digit.
pub open spec fn digit_char(digit: nat) -> char {
    if digit == 0 {
        '0'
    } else if digit == 1 {
        '1'
    } else if digit == 2 {
        '2'
    } else if digit == 3 {
        '3'
    } else if digit == 4 {
        '4'
    } else if digit == 5 {
        '5'
    } else if digit == 6 {
        '6'
    } else if digit == 7 {
        '7'
    } else if digit == 8 {
        '8'
    } else {
        '9'
    }
}

/// A number in decimal digits, without leading zeros.
pub open spec fn decimal_text(value: nat) -> Seq<char>
    decreases value,
{
    if value < 10 {
        seq![digit_char(value)]
    } else {
        decimal_text(value / 10).push(digit_char(value % 10))
    }
}

fn digit_text(digit: u64) -> (text: &'static str)
    requires
        digit < 10,
    ensures
        text@ == seq![digit_char(digit as nat)],
{
    proof {
        reveal_strlit("0");
        reveal_strlit("1");
        reveal_strlit("2");
        reveal_strlit("3");
        reveal_strlit("4");
        reveal_strlit("5");
        reveal_strlit("6");
        reveal_strlit("7");
        reveal_strlit("8");
        reveal_strlit("9");
    }
    let text = if digit == 0 {
        "0"
    } else if digit == 1 {
        "1"
    } else if digit == 2 {
        "2"
    } else if digit == 3 {
        "3"
    } else if digit == 4 {
        "4"
    } else if digit == 5 {
        "5"
    } else if digit == 6 {
        "6"
    } else if digit == 7 {
        "7"
    } else if digit == 8 {
        "8"
    } else {
        "9"
    };
    assert(text@ =~= seq![digit_char(digit as nat)]);
    text
}

/// Writes a number in decimal digits.
pub fn decimal(value: u64) -> (text: String)
    ensures
        text@ == decimal_text(value as nat),
    decreases value,
{
    if value < 10 {
        String::from_str(digit_text(value))
    } else {
        let mut text = decimal(value / 10);
        text.append(digit_text(value % 10));
        assert(text@ =~= decimal_text(value as nat / 10).push(digit_char(value as nat % 10)));
        text
    }
}

/// A copy of a byte vector.
pub fn copy_bytes(data: &Vec<u8>) -> (copy: Vec<u8>)
    ensures
        copy@ == data@,
{
    let mut copy: Vec<u8> = Vec::new();
    let mut i: usize = 0;
    while i < data.len()
        invariant
            i <= data.len(),
            copy@ == data@.take(i as int),
        decreases data.len() - i,
    {
        copy.push(data[i]);
        assert(data@.take(i + 1) =~= data@.take(i as int).push(data@[i as int]));
        i += 1;
    }
    assert(data@.take(data.len() as int) =~= data@);
    copy
}

/// The pieces of `text` between the occurrences of `separator`, in order.
/// A text without the separator is one piece.
pub open spec fn split(text: Seq<char>, separator: char) -> Seq<Seq<char>>
    decreases text.len(),
{
    match text.index_of_first(separator) {
        Some(at) => if 0 <= at < text.len() {
            seq![text.take(at)] + split(text.skip(at + 1), separator)
        } else {
            seq![text]
        },
        None => seq![text],
    }
}

/// Splits `text` at every occurrence of `separator`.
pub fn split_text(text: &str, separator: char) -> (pieces: Vec<String>)
    ensures
        texts(pieces@) == split(text@, separator),
{
    let chars = characters(text);
    let mut pieces: Vec<String> = Vec::new();
    let mut piece: Vec<char> = Vec::new();
    let mut start: usize = 0;
    let mut i: usize = 0;
    assert(texts(pieces@) =~= Seq::<Seq<char>>::empty());
    assert(text@.skip(0) =~= text@);
    while i < chars.len()
        invariant
            start <= i <= chars.len(),
            chars@ == text@,
            piece@ == text@.subrange(start as int, i as int),
            !piece@.contains(separator),
            split(text@, separator) == texts(pieces@) + split(text@.skip(start as int), separator),
        decreases chars.len() - i,
    {
        let c = chars[i];
        let ghost rest = text@.skip(start as int);
        if c == separator {
            proof {
                assert(rest[i - start] == separator);
                rest.index_of_first_ensures(separator);
                let at = rest.index_of_first(separator).unwrap();
                if at < i - start {
                    assert(piece@[at] == separator);
                }
                assert(at == i - start);
                assert(rest.take(at) =~= piece@);
                assert(rest.skip(at + 1) =~= text@.skip(i + 1));
            }
            let ghost before = pieces@;
            let finished = string_of(&piece);
            proof {
                lemma_texts_push(before, finished);
            }
            pieces.push(finished);
            proof {
                assert(texts(pieces@) + split(text@.skip(i + 1), separator) =~= texts(before) + (
                seq![piece@] + split(text@.skip(i + 1), separator)));
            }
            piece = Vec::new();
            start = i + 1;
            assert(piece@ =~= text@.subrange(start as int, start as int));
        } else {
            let ghost shorter = piece@;
            piece.push(c);
            assert(piece@ =~= text@.subrange(start as int, i + 1));
            assert(!piece@.contains(separator)) by {
                if piece@.contains(separator) {
                    let j = choose|j: int| 0 <= j < piece@.len() && piece@[j] == separator;
                    if j < shorter.len() {
                        assert(shorter[j] == separator);
                    }
                }
            }
        }
        i += 1;
    }
    proof {
        let rest = text@.skip(start as int);
        assert(rest =~= piece@);
        rest.index_of_first_ensures(separator);
    }
    let ghost before = pieces@;
    let last = string_of(&piece);
    proof {
        lemma_texts_push(before, last);
    }
    pieces.push(last);
    assert(texts(pieces@) =~= texts(before) + seq![piece@]);
    pieces
}

} // verus!
