//! The pieces of JSON that a frame is made of: strings, numbers without
//! sign, fraction or exponent, and arrays of byte values.
//!
//! Every piece is read from the start of a text and gives its value and the
//! text behind it. Blanks before a piece are skipped.

use vstd::prelude::*;
use vstd::string::*;

verus! {

/// The characters that may stand between tokens.
pub open spec fn is_blank(c: char) -> bool {
    c == ' ' || c == '\t' || c == '\n' || c == '\r'
}

/// The text behind its leading blanks.
pub open spec fn skip_blanks(text: Seq<char>) -> Seq<char>
    decreases text.len(),
{
    if text.len() > 0 && is_blank(text[0]) {
        skip_blanks(text.drop_first())
    } else {
        text
    }
}

/// The text behind the character `c`, where `c` is the first character
/// that is no blank.
pub open spec fn expect(text: Seq<char>, c: char) -> Option<Seq<char>> {
    let rest = skip_blanks(text);
    if rest.len() > 0 && rest[0] == c {
        Some(rest.drop_first())
    } else {
        None
    }
}

pub open spec fn is_digit(c: char) -> bool {
    '0' <= c && c <= '9'
}

pub open spec fn digit_value(c: char) -> nat {
    (c as nat - '0' as nat) as nat
}

/// The value of a digit of base sixteen, in either case.
pub open spec fn hex_value(c: char) -> Option<nat> {
    if is_digit(c) {
        Some(digit_value(c))
    } else if 'a' <= c && c <= 'f' {
        Some((c as nat - 'a' as nat + 10) as nat)
    } else if 'A' <= c && c <= 'F' {
        Some((c as nat - 'A' as nat + 10) as nat)
    } else {
        None
    }
}

/// The number that the first four characters write in base sixteen.
pub open spec fn hex4(text: Seq<char>) -> Option<nat> {
    if text.len() >= 4 && hex_value(text[0]) is Some && hex_value(text[1]) is Some && hex_value(
        text[2],
    ) is Some && hex_value(text[3]) is Some {
        Some(
            ((hex_value(text[0]).unwrap() * 16 + hex_value(text[1]).unwrap()) * 16 + hex_value(
                text[2],
            ).unwrap()) * 16 + hex_value(text[3]).unwrap(),
        )
    } else {
        None
    }
}

/// Whether a number is the code of a character.
pub open spec fn is_scalar(code: nat) -> bool {
    code < 0xD800 || (0xDFFF < code && code <= 0x10FFFF)
}

/// The character that an escape stands for and the text behind the escape.
/// `text` is what follows the backslash. The escapes are those of JSON:
/// a quote, a backslash, a slash, `b`, `f`, `n`, `r`, `t`, and `u` with the
/// code of the character in four digits of base sixteen; a character beyond
/// the first plane is written as two such codes, a high and a low surrogate.
pub open spec fn unescape(text: Seq<char>) -> Option<(char, Seq<char>)> {
    if text.len() == 0 {
        None
    } else if text[0] == '"' {
        Some(('"', text.skip(1)))
    } else if text[0] == '\\' {
        Some(('\\', text.skip(1)))
    } else if text[0] == '/' {
        Some(('/', text.skip(1)))
    } else if text[0] == 'b' {
        Some(('\u{8}', text.skip(1)))
    } else if text[0] == 'f' {
        Some(('\u{c}', text.skip(1)))
    } else if text[0] == 'n' {
        Some(('\n', text.skip(1)))
    } else if text[0] == 'r' {
        Some(('\r', text.skip(1)))
    } else if text[0] == 't' {
        Some(('\t', text.skip(1)))
    } else if text[0] == 'u' {
        match hex4(text.skip(1)) {
            None => None,
            Some(code) => if is_scalar(code) {
                Some(((code as u32) as char, text.skip(5)))
            } else if code < 0xDC00 && text.len() >= 7 && text[5] == '\\' && text[6] == 'u' {
                match hex4(text.skip(7)) {
                    Some(low) => if 0xDC00 <= low <= 0xDFFF {
                        Some(
                            (
                                ((0x10000 + (code - 0xD800) * 0x400 + (low - 0xDC00)) as u32) as char,
                                text.skip(11),
                            ),
                        )
                    } else {
                        None
                    },
                    None => None,
                }
            } else {
                None
            },
        }
    } else {
        None
    }
}

/// The rest of a string behind its opening quote: the characters up to the
/// closing quote, added to `before`, and the text behind that quote. A
/// character below the space must be escaped.
pub open spec fn string_body(text: Seq<char>, before: Seq<char>) -> Option<(Seq<char>, Seq<char>)>
    decreases text.len(),
{
    if text.len() == 0 {
        None
    } else if text[0] == '"' {
        Some((before, text.skip(1)))
    } else if text[0] == '\\' {
        match unescape(text.skip(1)) {
            Some((c, rest)) => if rest.len() < text.len() {
                string_body(rest, before.push(c))
            } else {
                None
            },
            None => None,
        }
    } else if (text[0] as u32) < 0x20 {
        None
    } else {
        string_body(text.skip(1), before.push(text[0]))
    }
}

/// A string: its characters and the text behind it.
pub open spec fn parse_string(text: Seq<char>) -> Option<(Seq<char>, Seq<char>)> {
    match expect(text, '"') {
        Some(rest) => string_body(rest, Seq::empty()),
        None => None,
    }
}

/// How many digits stand at the start of a text.
pub open spec fn digit_run(text: Seq<char>) -> nat
    decreases text.len(),
{
    if text.len() > 0 && is_digit(text[0]) {
        1 + digit_run(text.drop_first())
    } else {
        0
    }
}

/// The number that digits write in base ten.
pub open spec fn digits_value(digits: Seq<char>) -> nat
    decreases digits.len(),
{
    if digits.len() == 0 {
        0
    } else {
        digits_value(digits.drop_last()) * 10 + digit_value(digits.last())
    }
}

/// A number of at most `max`: the longest run of digits, which is not empty
/// and starts with a zero only where it is a single zero.
pub open spec fn parse_number(text: Seq<char>, max: nat) -> Option<(nat, Seq<char>)> {
    let rest = skip_blanks(text);
    let run = digit_run(rest);
    if run == 0 || (run > 1 && rest[0] == '0') || digits_value(rest.take(run as int)) > max {
        None
    } else {
        Some((digits_value(rest.take(run as int)), rest.skip(run as int)))
    }
}

/// The values of an array behind the first of them, added to `before`:
/// a value, then a comma and more values or the closing bracket.
pub open spec fn bytes_tail(text: Seq<char>, before: Seq<u8>) -> Option<(Seq<u8>, Seq<char>)>
    decreases text.len(),
{
    match parse_number(text, 255) {
        None => None,
        Some((value, rest)) => match expect(rest, ',') {
            Some(more) => if more.len() < text.len() {
                bytes_tail(more, before.push(value as u8))
            } else {
                None
            },
            None => match expect(rest, ']') {
                Some(behind) => Some((before.push(value as u8), behind)),
                None => None,
            },
        },
    }
}

/// An array of byte values: its bytes and the text behind it.
pub open spec fn parse_bytes(text: Seq<char>) -> Option<(Seq<u8>, Seq<char>)> {
    match expect(text, '[') {
        None => None,
        Some(rest) => match expect(rest, ']') {
            Some(behind) => Some((Seq::empty(), behind)),
            None => bytes_tail(rest, Seq::empty()),
        },
    }
}

fn blank(c: char) -> (yes: bool)
    ensures
        yes == is_blank(c),
{
    c == ' ' || c == '\t' || c == '\n' || c == '\r'
}

/// The place of the first character from `at` on that is no blank.
pub(crate) fn blanks(chars: &Vec<char>, at: usize) -> (next: usize)
    requires
        at <= chars.len(),
    ensures
        at <= next <= chars.len(),
        skip_blanks(chars@.skip(at as int)) == chars@.skip(next as int),
{
    let mut next = at;
    while next < chars.len() && blank(chars[next])
        invariant
            at <= next <= chars.len(),
            skip_blanks(chars@.skip(at as int)) == skip_blanks(chars@.skip(next as int)),
        decreases chars.len() - next,
    {
        assert(chars@.skip(next as int).drop_first() =~= chars@.skip(next + 1));
        next += 1;
    }
    next
}

/// Reads the character `c` behind blanks.
pub(crate) fn expected(chars: &Vec<char>, at: usize, c: char) -> (next: Option<usize>)
    requires
        at <= chars.len(),
    ensures
        match next {
            Some(behind) => at < behind <= chars.len() && expect(chars@.skip(at as int), c) == Some(
                chars@.skip(behind as int),
            ),
            None => expect(chars@.skip(at as int), c) is None,
        },
{
    let start = blanks(chars, at);
    if start < chars.len() && chars[start] == c {
        assert(chars@.skip(start as int).drop_first() =~= chars@.skip(start + 1));
        Some(start + 1)
    } else {
        None
    }
}

fn hex(c: char) -> (value: Option<u32>)
    ensures
        match value {
            Some(v) => hex_value(c) == Some(v as nat) && v < 16,
            None => hex_value(c) is None,
        },
{
    if '0' <= c && c <= '9' {
        Some(c as u32 - '0' as u32)
    } else if 'a' <= c && c <= 'f' {
        Some(c as u32 - 'a' as u32 + 10)
    } else if 'A' <= c && c <= 'F' {
        Some(c as u32 - 'A' as u32 + 10)
    } else {
        None
    }
}

fn four_hex(chars: &Vec<char>, at: usize) -> (code: Option<u32>)
    requires
        at <= chars.len(),
    ensures
        match code {
            Some(v) => at + 4 <= chars.len() && hex4(chars@.skip(at as int)) == Some(v as nat) && v
                <= 0xFFFF,
            None => hex4(chars@.skip(at as int)) is None,
        },
{
    if chars.len() - at < 4 {
        return None;
    }
    let ghost text = chars@.skip(at as int);
    assert(text[0] == chars[at as int] && text[1] == chars[at + 1] && text[2] == chars[at + 2]
        && text[3] == chars[at + 3]);
    let a = match hex(chars[at]) {
        Some(v) => v,
        None => {
            return None;
        },
    };
    let b = match hex(chars[at + 1]) {
        Some(v) => v,
        None => {
            return None;
        },
    };
    let c = match hex(chars[at + 2]) {
        Some(v) => v,
        None => {
            return None;
        },
    };
    let d = match hex(chars[at + 3]) {
        Some(v) => v,
        None => {
            return None;
        },
    };
    Some(((a * 16 + b) * 16 + c) * 16 + d)
}

/// Calls `char::from_u32`: a number that is the code of a character gives
/// that character, every other number gives none.
#[verifier::external_body]
fn char_of(code: u32) -> (c: Option<char>)
    ensures
        match c {
            Some(found) => is_scalar(code as nat) && found as u32 == code,
            None => !is_scalar(code as nat),
        },
{
    char::from_u32(code)
}

fn unescaped(chars: &Vec<char>, at: usize) -> (found: Option<(char, usize)>)
    requires
        at <= chars.len(),
    ensures
        match found {
            Some((c, next)) => at < next <= chars.len() && unescape(chars@.skip(at as int)) == Some(
                (c, chars@.skip(next as int)),
            ),
            None => unescape(chars@.skip(at as int)) is None,
        },
{
    if at >= chars.len() {
        return None;
    }
    let ghost text = chars@.skip(at as int);
    assert(text[0] == chars[at as int]);
    assert(text.skip(1) =~= chars@.skip(at + 1));
    let c = chars[at];
    if c == '"' {
        Some(('"', at + 1))
    } else if c == '\\' {
        Some(('\\', at + 1))
    } else if c == '/' {
        Some(('/', at + 1))
    } else if c == 'b' {
        Some(('\u{8}', at + 1))
    } else if c == 'f' {
        Some(('\u{c}', at + 1))
    } else if c == 'n' {
        Some(('\n', at + 1))
    } else if c == 'r' {
        Some(('\r', at + 1))
    } else if c == 't' {
        Some(('\t', at + 1))
    } else if c == 'u' {
        let code = match four_hex(chars, at + 1) {
            Some(code) => code,
            None => {
                return None;
            },
        };
        assert(text.skip(5) =~= chars@.skip(at + 5));
        match char_of(code) {
            Some(found) => {
                assert(found == code as char) by {
                    vstd::utf8::char_u32_cast(found, code);
                }
                Some((found, at + 5))
            },
            None => {
                if code < 0xDC00 && chars.len() - at >= 7 && chars[at + 5] == '\\' && chars[at + 6]
                    == 'u' {
                    assert(text[5] == chars[at + 5] && text[6] == chars[at + 6]);
                    assert(text.skip(7) =~= chars@.skip(at + 7));
                    match four_hex(chars, at + 7) {
                        Some(low) => {
                            assert(text.skip(11) =~= chars@.skip(at + 11));
                            if 0xDC00 <= low && low <= 0xDFFF {
                                assert(0xD800 <= code);
                                let joined = 0x10000 + (code - 0xD800) * 0x400 + (low - 0xDC00);
                                assert(is_scalar(joined as nat));
                                match char_of(joined) {
                                    Some(found) => {
                                        assert(found == joined as char) by {
                                            vstd::utf8::char_u32_cast(found, joined);
                                        }
                                        Some((found, at + 11))
                                    },
                                    None => None,
                                }
                            } else {
                                None
                            }
                        },
                        None => None,
                    }
                } else {
                    None
                }
            },
        }
    } else {
        None
    }
}

/// Reads a string behind blanks.
pub(crate) fn string_at(chars: &Vec<char>, at: usize) -> (found: Option<(Vec<char>, usize)>)
    requires
        at <= chars.len(),
    ensures
        match found {
            Some((text, next)) => at < next <= chars.len() && parse_string(chars@.skip(at as int))
                == Some((text@, chars@.skip(next as int))),
            None => parse_string(chars@.skip(at as int)) is None,
        },
{
    let mut cursor = match expected(chars, at, '"') {
        Some(behind) => behind,
        None => {
            return None;
        },
    };
    let ghost wanted = parse_string(chars@.skip(at as int));
    let mut text: Vec<char> = Vec::new();
    loop
        invariant
            at < cursor <= chars.len(),
            wanted == parse_string(chars@.skip(at as int)),
            wanted == string_body(chars@.skip(cursor as int), text@),
        decreases chars.len() - cursor,
    {
        if cursor >= chars.len() {
            return None;
        }
        let ghost rest = chars@.skip(cursor as int);
        assert(rest[0] == chars[cursor as int]);
        assert(rest.skip(1) =~= chars@.skip(cursor + 1));
        let c = chars[cursor];
        if c == '"' {
            return Some((text, cursor + 1));
        } else if c == '\\' {
            match unescaped(chars, cursor + 1) {
                Some((found, next)) => {
                    text.push(found);
                    cursor = next;
                },
                None => {
                    return None;
                },
            }
        } else if (c as u32) < 0x20 {
            return None;
        } else {
            text.push(c);
            cursor += 1;
        }
    }
}

/// Reads a number of at most `max` behind blanks.
pub(crate) fn number_at(chars: &Vec<char>, at: usize, max: u64) -> (found: Option<(u64, usize)>)
    requires
        at <= chars.len(),
        max >= 9,
    ensures
        match found {
            Some((value, next)) => at < next <= chars.len() && value <= max && parse_number(
                chars@.skip(at as int),
                max as nat,
            ) == Some((value as nat, chars@.skip(next as int))),
            None => parse_number(chars@.skip(at as int), max as nat) is None,
        },
{
    let start = blanks(chars, at);
    let ghost rest = chars@.skip(start as int);
    let mut cursor = start;
    let mut value: u64 = 0;
    let mut too_large = false;
    assert(rest.take(0) =~= Seq::<char>::empty());
    assert(rest.skip(0) =~= rest);
    while cursor < chars.len() && '0' <= chars[cursor] && chars[cursor] <= '9'
        invariant
            start <= cursor <= chars.len(),
            max >= 9,
            rest == chars@.skip(start as int),
            digit_run(rest) == (cursor - start) + digit_run(rest.skip(cursor - start)),
            too_large ==> digits_value(rest.take(cursor - start)) > max,
            !too_large ==> digits_value(rest.take(cursor - start)) == value && value <= max,
        decreases chars.len() - cursor,
    {
        let ghost so_far = rest.take(cursor - start);
        let ghost longer = rest.take(cursor - start + 1);
        assert(longer.drop_last() =~= so_far);
        assert(longer.last() == chars[cursor as int]);
        assert(rest.skip(cursor - start)[0] == chars[cursor as int]);
        assert(rest.skip(cursor - start).drop_first() =~= rest.skip(cursor - start + 1));
        let digit = (chars[cursor] as u32 - '0' as u32) as u64;
        if !too_large {
            if value > (max - digit) / 10 {
                too_large = true;
                assert(value * 10 + digit > max) by (nonlinear_arith)
                    requires
                        value > (max - digit) / 10,
                        digit <= max,
                        digit < 10,
                ;
            } else {
                assert(value * 10 + digit <= max) by (nonlinear_arith)
                    requires
                        value <= (max - digit) / 10,
                        digit <= max,
                ;
                value = value * 10 + digit;
            }
        } else {
            assert(digits_value(longer) > max) by (nonlinear_arith)
                requires
                    digits_value(longer) == digits_value(so_far) * 10 + digit_value(longer.last()),
                    digits_value(so_far) > max,
            ;
        }
        cursor += 1;
    }
    proof {
        let behind = rest.skip(cursor - start);
        if cursor < chars.len() {
            assert(behind[0] == chars[cursor as int]);
        }
        assert(digit_run(behind) == 0);
        assert(rest.skip(cursor - start) =~= chars@.skip(cursor as int));
        if cursor > start {
            assert(rest[0] == chars[start as int]);
        }
    }
    if cursor == start || too_large {
        return None;
    }
    if cursor - start > 1 && chars[start] == '0' {
        return None;
    }
    Some((value, cursor))
}

/// Reads an array of byte values behind blanks.
pub(crate) fn bytes_at(chars: &Vec<char>, at: usize) -> (found: Option<(Vec<u8>, usize)>)
    requires
        at <= chars.len(),
    ensures
        match found {
            Some((data, next)) => at < next <= chars.len() && parse_bytes(chars@.skip(at as int))
                == Some((data@, chars@.skip(next as int))),
            None => parse_bytes(chars@.skip(at as int)) is None,
        },
{
    let opened = match expected(chars, at, '[') {
        Some(behind) => behind,
        None => {
            return None;
        },
    };
    let mut data: Vec<u8> = Vec::new();
    match expected(chars, opened, ']') {
        Some(behind) => {
            return Some((data, behind));
        },
        None => {},
    }
    let ghost wanted = parse_bytes(chars@.skip(at as int));
    let mut cursor = opened;
    loop
        invariant
            at < cursor <= chars.len(),
            wanted == parse_bytes(chars@.skip(at as int)),
            wanted == bytes_tail(chars@.skip(cursor as int), data@),
        decreases chars.len() - cursor,
    {
        let (value, next) = match number_at(chars, cursor, 255) {
            Some(found) => found,
            None => {
                return None;
            },
        };
        data.push(value as u8);
        match expected(chars, next, ',') {
            Some(more) => {
                cursor = more;
            },
            None => {
                match expected(chars, next, ']') {
                    Some(behind) => {
                        return Some((data, behind));
                    },
                    None => {
                        return None;
                    },
                }
            },
        }
    }
}

} // verus!
