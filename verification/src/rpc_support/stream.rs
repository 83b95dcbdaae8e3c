//! The frame codec: one frame is one line.
//!
//! A line is a JSON object with one member, named after the variant of the
//! frame, whose value is an object with the fields of the frame. Identifiers
//! are numbers, the method name is a string and a payload is an array of
//! byte values:
//!
//! ```text
//! {"Request":{"id":0,"method_name":"echo","data":[123,125]}}
//! {"ResponseOk":{"request_id":0,"data":[123,125]}}
//! {"ResponseError":{"request_id":0,"data":[]}}
//! {"ResponseEndStream":{"request_id":0}}
//! ```
//!
//! The encoder writes the fields in this order and without blanks. The
//! decoder takes the fields in any order, with blanks between the tokens,
//! and with any of the escapes of JSON in strings. It refuses a line that is
//! no such object: one with a field that the variant does not have, without
//! a field that it has, or with a field twice.

use vstd::prelude::*;
use vstd::string::*;
use crate::lexer::characters;
use crate::paths::string_of;
use crate::rpc_support::json::{
    blanks, bytes_at, expect, expected, number_at, parse_bytes, parse_number, parse_string,
    skip_blanks, string_at,
};
use crate::rpc_support::wire_format::{
    Frame, FrameModel, Request, RequestId, ResponseEndStream, ResponseError, ResponseOk,
    frames_view,
};
use crate::text::{decimal, decimal_text, digit_char, str_eq};

verus! {

/// The digit of base sixteen for `value`, in lower case.
pub open spec fn hex_char(value: nat) -> char {
    if value < 10 {
        digit_char(value)
    } else if value == 10 {
        'a'
    } else if value == 11 {
        'b'
    } else if value == 12 {
        'c'
    } else if value == 13 {
        'd'
    } else if value == 14 {
        'e'
    } else {
        'f'
    }
}

/// How a character stands inside a string: quotes, backslashes and the
/// characters below the space are escaped, all others stand for themselves.
pub open spec fn escaped_char(c: char) -> Seq<char> {
    if c == '"' {
        seq!['\\', '"']
    } else if c == '\\' {
        seq!['\\', '\\']
    } else if c == '\n' {
        seq!['\\', 'n']
    } else if c == '\r' {
        seq!['\\', 'r']
    } else if c == '\t' {
        seq!['\\', 't']
    } else if c == '\u{8}' {
        seq!['\\', 'b']
    } else if c == '\u{c}' {
        seq!['\\', 'f']
    } else if (c as u32) < 0x20 {
        seq!['\\', 'u', '0', '0', hex_char(c as nat / 16), hex_char(c as nat % 16)]
    } else {
        seq![c]
    }
}

/// The characters of a text as they stand inside a string.
pub open spec fn escaped(text: Seq<char>) -> Seq<char>
    decreases text.len(),
{
    if text.len() == 0 {
        Seq::empty()
    } else {
        escaped_char(text[0]) + escaped(text.drop_first())
    }
}

/// A text as a string: escaped, between quotes.
pub open spec fn quoted(text: Seq<char>) -> Seq<char> {
    seq!['"'] + escaped(text) + seq!['"']
}

/// The values of bytes in decimal, with commas between them.
pub open spec fn bytes_items(data: Seq<u8>) -> Seq<char>
    decreases data.len(),
{
    if data.len() == 0 {
        Seq::empty()
    } else if data.len() == 1 {
        decimal_text(data[0] as nat)
    } else {
        decimal_text(data[0] as nat) + seq![','] + bytes_items(data.drop_first())
    }
}

/// A payload as an array of byte values.
pub open spec fn bytes_text(data: Seq<u8>) -> Seq<char> {
    seq!['['] + bytes_items(data) + seq![']']
}

/// The start of the object of the variant `tag`, followed by `rest`: the
/// outer brace, the tag as the name of the only member, and the inner
/// brace.
pub open spec fn open_then(tag: Seq<char>, rest: Seq<char>) -> Seq<char> {
    seq!['{'] + (quoted(tag) + (seq![':'] + (seq!['{'] + rest)))
}

/// A field that holds a number, followed by `rest`.
pub open spec fn number_field_then(name: Seq<char>, value: u64, rest: Seq<char>) -> Seq<char> {
    quoted(name) + (seq![':'] + (decimal_text(value as nat) + rest))
}

/// A field that holds a string, followed by `rest`.
pub open spec fn string_field_then(name: Seq<char>, value: Seq<char>, rest: Seq<char>) -> Seq<char> {
    quoted(name) + (seq![':'] + (quoted(value) + rest))
}

/// A field that holds a payload, followed by `rest`.
pub open spec fn bytes_field_then(name: Seq<char>, data: Seq<u8>, rest: Seq<char>) -> Seq<char> {
    quoted(name) + (seq![':'] + (bytes_text(data) + rest))
}

/// The two closing braces of a frame, followed by `tail`.
pub open spec fn close_then(tail: Seq<char>) -> Seq<char> {
    seq!['}'] + (seq!['}'] + tail)
}

/// The text of a frame, followed by `tail`.
pub open spec fn frame_text_then(frame: FrameModel, tail: Seq<char>) -> Seq<char> {
    match frame {
        FrameModel::Request { id, method_name, data } => open_then(
            "Request"@,
            number_field_then(
                "id"@,
                id,
                seq![','] + string_field_then(
                    "method_name"@,
                    method_name,
                    seq![','] + bytes_field_then("data"@, data, close_then(tail)),
                ),
            ),
        ),
        FrameModel::ResponseOk { request_id, data } => open_then(
            "ResponseOk"@,
            number_field_then(
                "request_id"@,
                request_id,
                seq![','] + bytes_field_then("data"@, data, close_then(tail)),
            ),
        ),
        FrameModel::ResponseError { request_id, data } => open_then(
            "ResponseError"@,
            number_field_then(
                "request_id"@,
                request_id,
                seq![','] + bytes_field_then("data"@, data, close_then(tail)),
            ),
        ),
        FrameModel::ResponseEndStream { request_id } => open_then(
            "ResponseEndStream"@,
            number_field_then("request_id"@, request_id, close_then(tail)),
        ),
    }
}

/// The text of a frame.
pub open spec fn frame_text(frame: FrameModel) -> Seq<char> {
    frame_text_then(frame, Seq::empty())
}

/// The line of a frame: its text and a line feed.
pub open spec fn frame_line(frame: FrameModel) -> Seq<char> {
    frame_text_then(frame, seq!['\n'])
}

pub(crate) fn push_text(out: &mut Vec<char>, text: &str)
    ensures
        final(out)@ == old(out)@ + text@,
{
    let chars = characters(text);
    let mut i: usize = 0;
    while i < chars.len()
        invariant
            i <= chars.len(),
            chars@ == text@,
            out@ == old(out)@ + text@.take(i as int),
        decreases chars.len() - i,
    {
        out.push(chars[i]);
        assert(text@.take(i + 1) =~= text@.take(i as int).push(text@[i as int]));
        assert(old(out)@ + text@.take(i + 1) =~= (old(out)@ + text@.take(i as int)).push(
            text@[i as int],
        ));
        i += 1;
    }
    assert(text@.take(chars.len() as int) =~= text@);
}

fn hex_digit(value: u32) -> (c: char)
    requires
        value < 16,
    ensures
        c == hex_char(value as nat),
{
    if value == 0 {
        '0'
    } else if value == 1 {
        '1'
    } else if value == 2 {
        '2'
    } else if value == 3 {
        '3'
    } else if value == 4 {
        '4'
    } else if value == 5 {
        '5'
    } else if value == 6 {
        '6'
    } else if value == 7 {
        '7'
    } else if value == 8 {
        '8'
    } else if value == 9 {
        '9'
    } else if value == 10 {
        'a'
    } else if value == 11 {
        'b'
    } else if value == 12 {
        'c'
    } else if value == 13 {
        'd'
    } else if value == 14 {
        'e'
    } else {
        'f'
    }
}

fn push_escaped_char(out: &mut Vec<char>, c: char)
    ensures
        final(out)@ == old(out)@ + escaped_char(c),
{
    if c == '"' {
        out.push('\\');
        out.push('"');
    } else if c == '\\' {
        out.push('\\');
        out.push('\\');
    } else if c == '\n' {
        out.push('\\');
        out.push('n');
    } else if c == '\r' {
        out.push('\\');
        out.push('r');
    } else if c == '\t' {
        out.push('\\');
        out.push('t');
    } else if c == '\u{8}' {
        out.push('\\');
        out.push('b');
    } else if c == '\u{c}' {
        out.push('\\');
        out.push('f');
    } else if (c as u32) < 0x20 {
        let code = c as u32;
        out.push('\\');
        out.push('u');
        out.push('0');
        out.push('0');
        out.push(hex_digit(code / 16));
        out.push(hex_digit(code % 16));
    } else {
        out.push(c);
    }
    assert(out@ =~= old(out)@ + escaped_char(c));
}

pub(crate) fn push_quoted(out: &mut Vec<char>, text: &str)
    ensures
        final(out)@ == old(out)@ + quoted(text@),
{
    let chars = characters(text);
    out.push('"');
    let mut i: usize = 0;
    assert(text@.skip(0) =~= text@);
    while i < chars.len()
        invariant
            i <= chars.len(),
            chars@ == text@,
            out@ + escaped(text@.skip(i as int)) == old(out)@ + seq!['"'] + escaped(text@),
        decreases chars.len() - i,
    {
        let ghost before = out@;
        let ghost rest = text@.skip(i as int);
        assert(rest.drop_first() =~= text@.skip(i + 1));
        push_escaped_char(out, chars[i]);
        assert(out@ + escaped(text@.skip(i + 1)) =~= before + (escaped_char(rest[0]) + escaped(
            rest.drop_first(),
        )));
        i += 1;
    }
    let ghost before = out@;
    assert(escaped(text@.skip(chars.len() as int)) =~= Seq::<char>::empty());
    out.push('"');
    assert(out@ =~= old(out)@ + quoted(text@)) by {
        assert(before =~= before + Seq::<char>::empty());
    }
}

pub(crate) fn push_decimal(out: &mut Vec<char>, value: u64)
    ensures
        final(out)@ == old(out)@ + decimal_text(value as nat),
{
    let text = decimal(value);
    push_text(out, text.as_str());
}

fn push_bytes(out: &mut Vec<char>, data: &Vec<u8>)
    ensures
        final(out)@ == old(out)@ + bytes_text(data@),
{
    out.push('[');
    let ghost opened = out@;
    let mut i: usize = 0;
    assert(data@.skip(0) =~= data@);
    while i < data.len()
        invariant
            i <= data.len(),
            opened == old(out)@ + seq!['['],
            out@ + bytes_items(data@.skip(i as int)) == opened + bytes_items(data@),
        decreases data.len() - i,
    {
        let ghost before = out@;
        let ghost rest = data@.skip(i as int);
        assert(rest.drop_first() =~= data@.skip(i + 1));
        assert(rest[0] == data[i as int]);
        push_decimal(out, data[i] as u64);
        if i + 1 < data.len() {
            out.push(',');
            assert(out@ + bytes_items(data@.skip(i + 1)) =~= before + (decimal_text(
                rest[0] as nat,
            ) + seq![','] + bytes_items(rest.drop_first())));
        } else {
            assert(bytes_items(data@.skip(i + 1)) =~= Seq::<char>::empty());
            assert(out@ + bytes_items(data@.skip(i + 1)) =~= before + decimal_text(rest[0] as nat));
        }
        i += 1;
    }
    let ghost before = out@;
    assert(bytes_items(data@.skip(data.len() as int)) =~= Seq::<char>::empty());
    assert(before =~= before + Seq::<char>::empty());
    out.push(']');
    assert(out@ =~= old(out)@ + bytes_text(data@));
}

fn push_char(out: &mut Vec<char>, c: char, Ghost(rest): Ghost<Seq<char>>)
    ensures
        final(out)@ + rest == old(out)@ + (seq![c] + rest),
{
    out.push(c);
    assert(out@ + rest =~= old(out)@ + (seq![c] + rest));
}

fn push_name(out: &mut Vec<char>, name: &str, Ghost(rest): Ghost<Seq<char>>)
    ensures
        final(out)@ + rest == old(out)@ + (quoted(name@) + (seq![':'] + rest)),
{
    push_quoted(out, name);
    let ghost named = out@;
    push_char(out, ':', Ghost(rest));
    assert(named + (seq![':'] + rest) =~= old(out)@ + (quoted(name@) + (seq![':'] + rest)));
}

fn open_object(tag: &str, Ghost(rest): Ghost<Seq<char>>) -> (out: Vec<char>)
    ensures
        out@ + rest == open_then(tag@, rest),
{
    let mut out: Vec<char> = Vec::new();
    let ghost inner: Seq<char> = seq!['{'] + rest;
    let ghost named: Seq<char> = quoted(tag@) + (seq![':'] + inner);
    push_char(&mut out, '{', Ghost(named));
    push_name(&mut out, tag, Ghost(inner));
    push_char(&mut out, '{', Ghost(rest));
    assert(Seq::<char>::empty() + open_then(tag@, rest) =~= open_then(tag@, rest));
    out
}

fn push_field_number(out: &mut Vec<char>, name: &str, value: u64, Ghost(rest): Ghost<Seq<char>>)
    ensures
        final(out)@ + rest == old(out)@ + number_field_then(name@, value, rest),
{
    let ghost valued: Seq<char> = decimal_text(value as nat) + rest;
    push_name(out, name, Ghost(valued));
    let ghost named = out@;
    push_decimal(out, value);
    assert(out@ + rest =~= named + (decimal_text(value as nat) + rest));
}

fn push_field_string(out: &mut Vec<char>, name: &str, value: &str, Ghost(rest): Ghost<Seq<char>>)
    ensures
        final(out)@ + rest == old(out)@ + string_field_then(name@, value@, rest),
{
    let ghost valued: Seq<char> = quoted(value@) + rest;
    push_name(out, name, Ghost(valued));
    let ghost named = out@;
    push_quoted(out, value);
    assert(out@ + rest =~= named + (quoted(value@) + rest));
}

fn push_field_bytes(out: &mut Vec<char>, name: &str, data: &Vec<u8>, Ghost(rest): Ghost<Seq<char>>)
    ensures
        final(out)@ + rest == old(out)@ + bytes_field_then(name@, data@, rest),
{
    let ghost valued: Seq<char> = bytes_text(data@) + rest;
    push_name(out, name, Ghost(valued));
    let ghost named = out@;
    push_bytes(out, data);
    assert(out@ + rest =~= named + (bytes_text(data@) + rest));
}

fn close_line(out: &mut Vec<char>)
    ensures
        final(out)@ == old(out)@ + close_then(seq!['\n']),
{
    let ghost feed: Seq<char> = seq!['\n'];
    let ghost closing: Seq<char> = seq!['}'] + feed;
    let ghost nothing: Seq<char> = Seq::empty();
    push_char(out, '}', Ghost(closing));
    push_char(out, '}', Ghost(feed));
    push_char(out, '\n', Ghost(nothing));
    assert(out@ + Seq::<char>::empty() =~= out@);
    assert(seq!['\n'] + Seq::<char>::empty() =~= seq!['\n']);
}

/// Writes a frame as one line that ends with a line feed.
pub fn encode_frame(frame: &Frame) -> (line: String)
    ensures
        line@ == frame_line(frame@),
{
    let ghost end = close_then(seq!['\n']);
    match frame {
        Frame::Request(request) => {
            let ghost data = bytes_field_then("data"@, request.data@, end);
            let ghost name = string_field_then(
                "method_name"@,
                request.method_name@,
                seq![','] + data,
            );
            let ghost more_data: Seq<char> = seq![','] + data;
            let ghost more_name: Seq<char> = seq![','] + name;
            let ghost id = number_field_then("id"@, request.id@, more_name);
            let mut out = open_object("Request", Ghost(id));
            push_field_number(&mut out, "id", request.id.0, Ghost(more_name));
            push_char(&mut out, ',', Ghost(name));
            push_field_string(
                &mut out,
                "method_name",
                request.method_name.as_str(),
                Ghost(more_data),
            );
            push_char(&mut out, ',', Ghost(data));
            push_field_bytes(&mut out, "data", &request.data, Ghost(end));
            close_line(&mut out);
            string_of(&out)
        },
        Frame::ResponseOk(response) => {
            let ghost data = bytes_field_then("data"@, response.data@, end);
            let ghost more_data: Seq<char> = seq![','] + data;
            let ghost id = number_field_then("request_id"@, response.request_id@, more_data);
            let mut out = open_object("ResponseOk", Ghost(id));
            push_field_number(&mut out, "request_id", response.request_id.0, Ghost(more_data));
            push_char(&mut out, ',', Ghost(data));
            push_field_bytes(&mut out, "data", &response.data, Ghost(end));
            close_line(&mut out);
            string_of(&out)
        },
        Frame::ResponseError(response) => {
            let ghost data = bytes_field_then("data"@, response.data@, end);
            let ghost more_data: Seq<char> = seq![','] + data;
            let ghost id = number_field_then("request_id"@, response.request_id@, more_data);
            let mut out = open_object("ResponseError", Ghost(id));
            push_field_number(&mut out, "request_id", response.request_id.0, Ghost(more_data));
            push_char(&mut out, ',', Ghost(data));
            push_field_bytes(&mut out, "data", &response.data, Ghost(end));
            close_line(&mut out);
            string_of(&out)
        },
        Frame::ResponseEndStream(response) => {
            let ghost id = number_field_then("request_id"@, response.request_id@, end);
            let mut out = open_object("ResponseEndStream", Ghost(id));
            push_field_number(&mut out, "request_id", response.request_id.0, Ghost(end));
            close_line(&mut out);
            string_of(&out)
        },
    }
}

/// Why a frame was not read.
#[derive(Debug, Clone, Copy, PartialEq, Eq, Structural)]
pub enum Error {
    /// A line is no frame.
    FrameDecode,
}

/// The fields that have been read of the object of a frame.
pub ghost struct MembersModel {
    pub id: Option<u64>,
    pub request_id: Option<u64>,
    pub method_name: Option<Seq<char>>,
    pub data: Option<Seq<u8>>,
}

pub open spec fn no_members() -> MembersModel {
    MembersModel { id: None, request_id: None, method_name: None, data: None }
}

/// One member of the object of a frame, added to the fields read so far:
/// the name of a field that has not been read yet, a colon, and a value of
/// the kind of that field.
pub open spec fn parse_member(text: Seq<char>, members: MembersModel) -> Option<
    (MembersModel, Seq<char>),
> {
    match parse_string(text) {
        None => None,
        Some((name, behind)) => match expect(behind, ':') {
            None => None,
            Some(value) => if name == "id"@ {
                match parse_number(value, u64::MAX as nat) {
                    Some((id, rest)) => if members.id is None {
                        Some((MembersModel { id: Some(id as u64), ..members }, rest))
                    } else {
                        None
                    },
                    None => None,
                }
            } else if name == "request_id"@ {
                match parse_number(value, u64::MAX as nat) {
                    Some((id, rest)) => if members.request_id is None {
                        Some((MembersModel { request_id: Some(id as u64), ..members }, rest))
                    } else {
                        None
                    },
                    None => None,
                }
            } else if name == "method_name"@ {
                match parse_string(value) {
                    Some((method_name, rest)) => if members.method_name is None {
                        Some((MembersModel { method_name: Some(method_name), ..members }, rest))
                    } else {
                        None
                    },
                    None => None,
                }
            } else if name == "data"@ {
                match parse_bytes(value) {
                    Some((data, rest)) => if members.data is None {
                        Some((MembersModel { data: Some(data), ..members }, rest))
                    } else {
                        None
                    },
                    None => None,
                }
            } else {
                None
            },
        },
    }
}

/// The members of an object behind its opening brace, added to the fields
/// read so far: a member, then a comma and more members or the closing
/// brace.
pub open spec fn parse_members(text: Seq<char>, members: MembersModel) -> Option<
    (MembersModel, Seq<char>),
>
    decreases text.len(),
{
    match parse_member(text, members) {
        None => None,
        Some((longer, rest)) => match expect(rest, ',') {
            Some(more) => if more.len() < text.len() {
                parse_members(more, longer)
            } else {
                None
            },
            None => match expect(rest, '}') {
                Some(behind) => Some((longer, behind)),
                None => None,
            },
        },
    }
}

/// The object of a frame: its fields and the text behind it.
pub open spec fn parse_object(text: Seq<char>) -> Option<(MembersModel, Seq<char>)> {
    match expect(text, '{') {
        None => None,
        Some(rest) => match expect(rest, '}') {
            Some(behind) => Some((no_members(), behind)),
            None => parse_members(rest, no_members()),
        },
    }
}

/// The frame of the variant `tag` with the given fields: the fields must be
/// exactly those of the variant.
pub open spec fn assemble(tag: Seq<char>, members: MembersModel) -> Option<FrameModel> {
    if tag == "Request"@ {
        if members.id is Some && members.method_name is Some && members.data is Some
            && members.request_id is None {
            Some(
                FrameModel::Request {
                    id: members.id.unwrap(),
                    method_name: members.method_name.unwrap(),
                    data: members.data.unwrap(),
                },
            )
        } else {
            None
        }
    } else if tag == "ResponseOk"@ {
        if members.request_id is Some && members.data is Some && members.id is None
            && members.method_name is None {
            Some(
                FrameModel::ResponseOk {
                    request_id: members.request_id.unwrap(),
                    data: members.data.unwrap(),
                },
            )
        } else {
            None
        }
    } else if tag == "ResponseError"@ {
        if members.request_id is Some && members.data is Some && members.id is None
            && members.method_name is None {
            Some(
                FrameModel::ResponseError {
                    request_id: members.request_id.unwrap(),
                    data: members.data.unwrap(),
                },
            )
        } else {
            None
        }
    } else if tag == "ResponseEndStream"@ {
        if members.request_id is Some && members.data is None && members.id is None
            && members.method_name is None {
            Some(FrameModel::ResponseEndStream { request_id: members.request_id.unwrap() })
        } else {
            None
        }
    } else {
        None
    }
}

/// The frame that a line denotes: an object with one member, the tag of the
/// variant and the object of its fields, and nothing but blanks behind it.
pub open spec fn parse_frame(line: Seq<char>) -> Option<FrameModel> {
    match expect(line, '{') {
        None => None,
        Some(inside) => match parse_string(inside) {
            None => None,
            Some((tag, behind)) => match expect(behind, ':') {
                None => None,
                Some(value) => match parse_object(value) {
                    None => None,
                    Some((members, rest)) => match expect(rest, '}') {
                        None => None,
                        Some(end) => if skip_blanks(end).len() == 0 {
                            assemble(tag, members)
                        } else {
                            None
                        },
                    },
                },
            },
        },
    }
}

/// The fields that have been read of the object of a frame.
struct Members {
    id: Option<u64>,
    request_id: Option<u64>,
    method_name: Option<String>,
    data: Option<Vec<u8>>,
}

impl View for Members {
    type V = MembersModel;

    closed spec fn view(&self) -> MembersModel {
        MembersModel {
            id: self.id,
            request_id: self.request_id,
            method_name: match self.method_name {
                Some(name) => Some(name@),
                None => None,
            },
            data: match self.data {
                Some(data) => Some(data@),
                None => None,
            },
        }
    }
}

fn member_at(chars: &Vec<char>, at: usize, members: Members) -> (found: Option<(Members, usize)>)
    requires
        at <= chars.len(),
    ensures
        match found {
            Some((longer, next)) => at < next <= chars.len() && parse_member(
                chars@.skip(at as int),
                members@,
            ) == Some((longer@, chars@.skip(next as int))),
            None => parse_member(chars@.skip(at as int), members@) is None,
        },
{
    let (name, behind) = match string_at(chars, at) {
        Some(found) => found,
        None => {
            return None;
        },
    };
    let value = match expected(chars, behind, ':') {
        Some(value) => value,
        None => {
            return None;
        },
    };
    let name = string_of(&name);
    let mut members = members;
    if str_eq(name.as_str(), "id") {
        match number_at(chars, value, u64::MAX) {
            Some((id, rest)) => {
                if members.id.is_some() {
                    return None;
                }
                members.id = Some(id);
                Some((members, rest))
            },
            None => None,
        }
    } else if str_eq(name.as_str(), "request_id") {
        match number_at(chars, value, u64::MAX) {
            Some((id, rest)) => {
                if members.request_id.is_some() {
                    return None;
                }
                members.request_id = Some(id);
                Some((members, rest))
            },
            None => None,
        }
    } else if str_eq(name.as_str(), "method_name") {
        match string_at(chars, value) {
            Some((method_name, rest)) => {
                if members.method_name.is_some() {
                    return None;
                }
                members.method_name = Some(string_of(&method_name));
                Some((members, rest))
            },
            None => None,
        }
    } else if str_eq(name.as_str(), "data") {
        match bytes_at(chars, value) {
            Some((data, rest)) => {
                if members.data.is_some() {
                    return None;
                }
                members.data = Some(data);
                Some((members, rest))
            },
            None => None,
        }
    } else {
        None
    }
}

fn object_at(chars: &Vec<char>, at: usize) -> (found: Option<(Members, usize)>)
    requires
        at <= chars.len(),
    ensures
        match found {
            Some((members, next)) => at < next <= chars.len() && parse_object(
                chars@.skip(at as int),
            ) == Some((members@, chars@.skip(next as int))),
            None => parse_object(chars@.skip(at as int)) is None,
        },
{
    let opened = match expected(chars, at, '{') {
        Some(behind) => behind,
        None => {
            return None;
        },
    };
    let mut members = Members { id: None, request_id: None, method_name: None, data: None };
    match expected(chars, opened, '}') {
        Some(behind) => {
            return Some((members, behind));
        },
        None => {},
    }
    let ghost wanted = parse_object(chars@.skip(at as int));
    let mut cursor = opened;
    loop
        invariant
            at < cursor <= chars.len(),
            wanted == parse_object(chars@.skip(at as int)),
            wanted == parse_members(chars@.skip(cursor as int), members@),
        decreases chars.len() - cursor,
    {
        let (longer, next) = match member_at(chars, cursor, members) {
            Some(found) => found,
            None => {
                return None;
            },
        };
        members = longer;
        match expected(chars, next, ',') {
            Some(more) => {
                cursor = more;
            },
            None => {
                match expected(chars, next, '}') {
                    Some(behind) => {
                        return Some((members, behind));
                    },
                    None => {
                        return None;
                    },
                }
            },
        }
    }
}

fn assembled(tag: &str, members: Members) -> (frame: Option<Frame>)
    ensures
        match frame {
            Some(found) => assemble(tag@, members@) == Some(found@),
            None => assemble(tag@, members@) is None,
        },
{
    let Members { id, request_id, method_name, data } = members;
    if str_eq(tag, "Request") {
        match (id, method_name, data, request_id) {
            (Some(id), Some(method_name), Some(data), None) => Some(
                Frame::Request(Request { id: RequestId(id), method_name, data }),
            ),
            _ => None,
        }
    } else if str_eq(tag, "ResponseOk") {
        match (request_id, data, id, method_name) {
            (Some(request_id), Some(data), None, None) => Some(
                Frame::ResponseOk(ResponseOk { request_id: RequestId(request_id), data }),
            ),
            _ => None,
        }
    } else if str_eq(tag, "ResponseError") {
        match (request_id, data, id, method_name) {
            (Some(request_id), Some(data), None, None) => Some(
                Frame::ResponseError(ResponseError { request_id: RequestId(request_id), data }),
            ),
            _ => None,
        }
    } else if str_eq(tag, "ResponseEndStream") {
        match (request_id, data, id, method_name) {
            (Some(request_id), None, None, None) => Some(
                Frame::ResponseEndStream(ResponseEndStream { request_id: RequestId(request_id) }),
            ),
            _ => None,
        }
    } else {
        None
    }
}

fn decode_chars(chars: &Vec<char>) -> (decoded: Result<Frame, Error>)
    ensures
        match decoded {
            Ok(frame) => parse_frame(chars@) == Some(frame@),
            Err(error) => error is FrameDecode && parse_frame(chars@) is None,
        },
{
    assert(chars@.skip(0) =~= chars@);
    let inside = match expected(chars, 0, '{') {
        Some(inside) => inside,
        None => {
            return Err(Error::FrameDecode);
        },
    };
    let (tag, behind) = match string_at(chars, inside) {
        Some(found) => found,
        None => {
            return Err(Error::FrameDecode);
        },
    };
    let value = match expected(chars, behind, ':') {
        Some(value) => value,
        None => {
            return Err(Error::FrameDecode);
        },
    };
    let (members, rest) = match object_at(chars, value) {
        Some(found) => found,
        None => {
            return Err(Error::FrameDecode);
        },
    };
    let end = match expected(chars, rest, '}') {
        Some(end) => end,
        None => {
            return Err(Error::FrameDecode);
        },
    };
    if blanks(chars, end) < chars.len() {
        return Err(Error::FrameDecode);
    }
    let tag = string_of(&tag);
    match assembled(tag.as_str(), members) {
        Some(frame) => Ok(frame),
        None => Err(Error::FrameDecode),
    }
}

/// Reads a frame from a line: the frame that the line denotes, or the error
/// that the line is no frame.
pub fn decode_frame(line: &str) -> (decoded: Result<Frame, Error>)
    ensures
        match decoded {
            Ok(frame) => parse_frame(line@) == Some(frame@),
            Err(error) => error is FrameDecode && parse_frame(line@) is None,
        },
{
    let chars = characters(line);
    decode_chars(&chars)
}

/// The lines of frames, one behind the other.
pub open spec fn frames_text(frames: Seq<FrameModel>) -> Seq<char>
    decreases frames.len(),
{
    if frames.len() == 0 {
        Seq::empty()
    } else {
        frame_line(frames[0]) + frames_text(frames.drop_first())
    }
}

/// What the writer puts on the wire for the frames that leave the outbound
/// queue: their lines, in the order of the queue.
pub fn write_frames(frames: &Vec<Frame>) -> (text: String)
    ensures
        text@ == frames_text(frames_view(frames@)),
{
    let ghost models = frames_view(frames@);
    let mut text = String::new();
    let mut i: usize = 0;
    assert(models.skip(0) =~= models);
    while i < frames.len()
        invariant
            i <= frames.len(),
            models == frames_view(frames@),
            text@ + frames_text(models.skip(i as int)) == frames_text(models),
        decreases frames.len() - i,
    {
        let ghost before = text@;
        let ghost rest = models.skip(i as int);
        assert(rest[0] == frames[i as int]@);
        assert(rest.drop_first() =~= models.skip(i + 1));
        let line = encode_frame(&frames[i]);
        text.append(line.as_str());
        assert(text@ + frames_text(models.skip(i + 1)) =~= before + (frame_line(rest[0])
            + frames_text(rest.drop_first())));
        i += 1;
    }
    assert(frames_text(models.skip(frames.len() as int)) =~= Seq::<char>::empty());
    assert(text@ + Seq::<char>::empty() =~= text@);
    text
}

/// The first line of a text: up to and with its first line feed, or all of
/// a text without one.
pub open spec fn first_line(text: Seq<char>) -> Seq<char> {
    match text.index_of_first('\n') {
        Some(at) => if 0 <= at < text.len() {
            text.take(at + 1)
        } else {
            text
        },
        None => text,
    }
}

/// The frames that the reader takes from what came over the wire: those of
/// the lines in order, up to the first line that is no frame or to the end
/// of the text.
pub open spec fn frames_of(text: Seq<char>) -> Seq<FrameModel>
    decreases text.len(),
{
    if text.len() == 0 {
        Seq::empty()
    } else {
        match parse_frame(first_line(text)) {
            Some(frame) => if 0 < first_line(text).len() <= text.len() {
                seq![frame] + frames_of(text.skip(first_line(text).len() as int))
            } else {
                Seq::empty()
            },
            None => Seq::empty(),
        }
    }
}

/// The writing side of a byte stream: the lines that were written and have
/// not gone out yet.
pub struct Writer {
    written: String,
}

impl Writer {
    /// What was written.
    pub closed spec fn written(&self) -> Seq<char> {
        self.written@
    }

    /// A writer behind what was written before.
    pub fn from_raw(written: String) -> (writer: Self)
        ensures
            writer.written() == written@,
    {
        Writer { written }
    }

    /// Writes the line of a frame behind what was written.
    pub fn write_frame(&mut self, frame: Frame)
        ensures
            final(self).written() == old(self).written() + frame_line(frame@),
    {
        let line = encode_frame(&frame);
        self.written.append(line.as_str());
    }

    /// What was written, to be sent.
    pub fn into_raw(self) -> (written: String)
        ensures
            written@ == self.written(),
    {
        self.written
    }
}

/// The reading side of a byte stream: what came in and has not been read
/// yet.
pub struct Reader {
    chars: Vec<char>,
    at: usize,
}

impl Reader {
    #[verifier::type_invariant]
    spec fn in_range(self) -> bool {
        self.at <= self.chars@.len()
    }

    /// What has not been read yet.
    pub closed spec fn remaining(&self) -> Seq<char> {
        self.chars@.skip(self.at as int)
    }

    /// A reader of what came in.
    pub fn from_raw(input: &str) -> (reader: Self)
        ensures
            reader.remaining() == input@,
    {
        let chars = characters(input);
        assert(chars@.skip(0) =~= input@);
        Reader { chars, at: 0 }
    }

    /// Reads the next line and the frame that it denotes. Where nothing is
    /// left to read, or the line is no frame, nothing is taken.
    pub fn read_frame(&mut self) -> (frame: Result<Frame, Error>)
        ensures
            match frame {
                Ok(found) => {
                    &&& parse_frame(first_line(old(self).remaining())) == Some(found@)
                    &&& 0 < first_line(old(self).remaining()).len() <= old(self).remaining().len()
                    &&& final(self).remaining() == old(self).remaining().skip(
                        first_line(old(self).remaining()).len() as int,
                    )
                },
                Err(error) => {
                    &&& error is FrameDecode
                    &&& old(self).remaining().len() == 0 || parse_frame(
                        first_line(old(self).remaining()),
                    ) is None
                    &&& final(self).remaining() == old(self).remaining()
                },
            },
    {
        proof {
            use_type_invariant(&*self);
        }
        let start = self.at;
        if start >= self.chars.len() {
            return Err(Error::FrameDecode);
        }
        let ghost rest = self.chars@.skip(start as int);
        let mut line: Vec<char> = Vec::new();
        let mut end: usize = start;
        while end < self.chars.len() && self.chars[end] != '\n'
            invariant
                start <= end <= self.chars.len(),
                self.at == start,
                rest == self.chars@.skip(start as int),
                line@ == rest.take(end - start),
                forall|j: int| 0 <= j < end - start ==> rest[j] != '\n',
            decreases self.chars.len() - end,
        {
            assert(rest[end - start] == self.chars[end as int]);
            line.push(self.chars[end]);
            assert(rest.take(end - start + 1) =~= rest.take(end - start).push(rest[end - start]));
            end += 1;
        }
        if end < self.chars.len() {
            assert(rest[end - start] == self.chars[end as int]);
            line.push(self.chars[end]);
            assert(rest.take(end - start + 1) =~= rest.take(end - start).push(rest[end - start]));
            end += 1;
        }
        proof {
            rest.index_of_first_ensures('\n');
            if rest[end - start - 1] == '\n' {
                assert(rest.contains('\n'));
                assert(rest.index_of_first('\n') == Some(end - start - 1));
            } else {
                assert(end == self.chars.len());
                if rest.contains('\n') {
                    let at = rest.index_of_first('\n').unwrap();
                    assert(rest[at] == '\n');
                }
                assert(rest.index_of_first('\n') is None);
                assert(rest.take(end - start) =~= rest);
            }
            assert(first_line(rest) == line@);
            assert(rest.skip(end - start) =~= self.chars@.skip(end as int));
        }
        match decode_chars(&line) {
            Ok(frame) => {
                self.at = end;
                Ok(frame)
            },
            Err(error) => Err(error),
        }
    }
}

/// Reads the frames from what came over the wire, line by line, and stops
/// at the first line that is no frame.
pub fn read_frames(input: &str) -> (frames: Vec<Frame>)
    ensures
        frames_view(frames@) == frames_of(input@),
{
    let mut reader = Reader::from_raw(input);
    let mut frames: Vec<Frame> = Vec::new();
    assert(frames_view(frames@) =~= Seq::<FrameModel>::empty());
    loop
        invariant
            frames_of(input@) == frames_view(frames@) + frames_of(reader.remaining()),
        decreases reader.remaining().len(),
    {
        let ghost before = frames_view(frames@);
        let ghost rest = reader.remaining();
        match reader.read_frame() {
            Ok(frame) => {
                let ghost model = frame@;
                frames.push(frame);
                assert(frames_view(frames@) =~= before.push(model));
                assert(frames_view(frames@) + frames_of(reader.remaining()) =~= before + (
                seq![model] + frames_of(reader.remaining())));
            },
            Err(_) => {
                assert(frames_of(rest) =~= Seq::<FrameModel>::empty());
                assert(before + Seq::<FrameModel>::empty() =~= before);
                return frames;
            },
        }
    }
}

/// Both sides of a byte stream.
pub struct Stream {
    reader: Reader,
    writer: Writer,
}

impl Stream {
    /// What has not been read yet.
    pub closed spec fn remaining(&self) -> Seq<char> {
        self.reader.remaining()
    }

    /// What was written.
    pub closed spec fn written(&self) -> Seq<char> {
        self.writer.written()
    }

    /// The stream of what came in and of what was written before.
    pub fn from_reader_writer(raw_reader: &str, raw_writer: String) -> (stream: Self)
        ensures
            stream.remaining() == raw_reader@,
            stream.written() == raw_writer@,
    {
        Stream { reader: Reader::from_raw(raw_reader), writer: Writer::from_raw(raw_writer) }
    }

    /// Moves the frames between the byte stream and the queues: the frames
    /// that came in are read, in order, up to the first line that is no
    /// frame; the frames of the outbound queue are written, in the order of
    /// the queue. The frames that were read and all that was written come
    /// back.
    pub fn run(self, write_rx: Vec<Frame>) -> (moved: (Vec<Frame>, String))
        ensures
            frames_view(moved.0@) == frames_of(self.remaining()),
            moved.1@ == self.written() + frames_text(frames_view(write_rx@)),
    {
        let Stream { reader, writer } = self;
        let mut reader = reader;
        let mut read_tx: Vec<Frame> = Vec::new();
        let ghost start = reader.remaining();
        assert(frames_view(read_tx@) =~= Seq::<FrameModel>::empty());
        loop
            invariant_except_break
                frames_of(start) == frames_view(read_tx@) + frames_of(reader.remaining()),
            ensures
                frames_view(read_tx@) == frames_of(start),
            decreases reader.remaining().len(),
        {
            let ghost before = frames_view(read_tx@);
            let ghost rest = reader.remaining();
            match reader.read_frame() {
                Ok(frame) => {
                    let ghost model = frame@;
                    read_tx.push(frame);
                    assert(frames_view(read_tx@) =~= before.push(model));
                    assert(frames_view(read_tx@) + frames_of(reader.remaining()) =~= before + (
                    seq![model] + frames_of(reader.remaining())));
                },
                Err(_) => {
                    assert(frames_of(rest) =~= Seq::<FrameModel>::empty());
                    assert(before + Seq::<FrameModel>::empty() =~= before);
                    break ;
                },
            }
        }
        let mut written = writer.into_raw();
        let lines = write_frames(&write_rx);
        written.append(lines.as_str());
        (read_tx, written)
    }
}

} // verus!
