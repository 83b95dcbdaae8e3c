//! Reading back what the frame codec wrote.

use vstd::prelude::*;
use vstd::string::*;
use crate::rpc_support::json::{
    bytes_tail, digit_run, digit_value, digits_value, expect, hex4, hex_value, is_blank, is_digit,
    is_scalar, parse_bytes, parse_number, parse_string, skip_blanks, string_body, unescape,
};
use crate::rpc_support::stream::{
    first_line, frames_of, frames_text, MembersModel, assemble, bytes_field_then, bytes_items, bytes_text, close_then, escaped,
    escaped_char, frame_line, frame_text, frame_text_then, hex_char, no_members, number_field_then,
    open_then, parse_frame, parse_member, parse_members, parse_object, quoted, string_field_then,
};
use crate::rpc_support::wire_format::FrameModel;
use crate::text::{decimal_text, digit_char};

verus! {

proof fn lemma_no_blanks(text: Seq<char>)
    requires
        text.len() == 0 || !is_blank(text[0]),
    ensures
        skip_blanks(text) == text,
{
}

proof fn lemma_expect(c: char, rest: Seq<char>)
    requires
        !is_blank(c),
    ensures
        expect(seq![c] + rest, c) == Some(rest),
{
    let text = seq![c] + rest;
    assert(text[0] == c);
    lemma_no_blanks(text);
    assert(text.drop_first() =~= rest);
}

proof fn lemma_expect_other(wanted: char, found: char, rest: Seq<char>)
    requires
        !is_blank(found),
        wanted != found,
    ensures
        expect(seq![found] + rest, wanted) is None,
{
    let text = seq![found] + rest;
    assert(text[0] == found);
    lemma_no_blanks(text);
}

proof fn lemma_hex_char(value: nat)
    requires
        value < 16,
    ensures
        hex_value(hex_char(value)) == Some(value),
{
}

/// An escape is read back as the character that it was written for.
proof fn lemma_unescape(c: char, rest: Seq<char>)
    requires
        escaped_char(c).len() > 1,
    ensures
        escaped_char(c)[0] == '\\',
        unescape(escaped_char(c).skip(1) + rest) == Some((c, rest)),
{
    let text = escaped_char(c).skip(1) + rest;
    if c == '"' || c == '\\' || c == '\n' || c == '\r' || c == '\t' || c == '\u{8}' || c == '\u{c}' {
        assert(text[0] == escaped_char(c)[1]);
        assert(text.skip(1) =~= rest);
    } else {
        assert((c as u32) < 0x20);
        let code = c as nat;
        let high = code / 16;
        let low = code % 16;
        lemma_hex_char(high);
        lemma_hex_char(low);
        lemma_hex_char(0);
        assert(text[0] == 'u');
        let digits = text.skip(1);
        assert(digits[0] == '0' && digits[1] == '0' && digits[2] == hex_char(high) && digits[3]
            == hex_char(low));
        assert(hex4(digits) == Some(code));
        assert(is_scalar(code));
        assert((code as u32) as char == c) by {
            vstd::utf8::char_u32_cast(c, code as u32);
        }
        assert(text.skip(5) =~= rest);
    }
}

/// A character that was written into a string is read back and added to
/// the characters read before it.
proof fn lemma_string_step(c: char, behind: Seq<char>, before: Seq<char>)
    ensures
        string_body(escaped_char(c) + behind, before) == string_body(behind, before.push(c)),
{
    let written = escaped_char(c) + behind;
    if escaped_char(c).len() > 1 {
        lemma_unescape(c, behind);
        assert(written[0] == '\\');
        assert(written.skip(1) =~= escaped_char(c).skip(1) + behind);
        assert(behind.len() < written.len());
    } else {
        assert(escaped_char(c) =~= seq![c]);
        assert(written[0] == c);
        assert(written.skip(1) =~= behind);
    }
}

/// The characters of a string are read back up to its closing quote.
proof fn lemma_string_body(text: Seq<char>, rest: Seq<char>, before: Seq<char>)
    ensures
        string_body(escaped(text) + (seq!['"'] + rest), before) == Some((before + text, rest)),
    decreases text.len(),
{
    let closing = seq!['"'] + rest;
    let written = escaped(text) + closing;
    if text.len() == 0 {
        assert(written =~= closing);
        assert(closing[0] == '"');
        assert(closing.skip(1) =~= rest);
        assert(before + text =~= before);
    } else {
        let c = text[0];
        let more = text.drop_first();
        let behind = escaped(more) + closing;
        assert(written =~= escaped_char(c) + behind);
        lemma_string_step(c, behind, before);
        lemma_string_body(more, rest, before.push(c));
        assert(before.push(c) + more =~= before + text);
    }
}

/// A string is read back as the text that it was written for.
pub proof fn lemma_parse_string(text: Seq<char>, rest: Seq<char>)
    ensures
        parse_string(quoted(text) + rest) == Some((text, rest)),
{
    let inside = escaped(text) + (seq!['"'] + rest);
    assert(quoted(text) + rest =~= seq!['"'] + inside);
    lemma_expect('"', inside);
    lemma_string_body(text, rest, Seq::empty());
    assert(Seq::<char>::empty() + text =~= text);
}

/// A number in decimal is made of digits, starts with a zero only where it
/// is zero, and has the value of the number.
proof fn lemma_decimal_text(value: nat)
    ensures
        decimal_text(value).len() >= 1,
        forall|i: int| 0 <= i < decimal_text(value).len() ==> is_digit(#[trigger] decimal_text(value)[i]),
        digits_value(decimal_text(value)) == value,
        value > 0 ==> decimal_text(value)[0] != '0',
        value == 0 ==> decimal_text(value).len() == 1,
    decreases value,
{
    let text = decimal_text(value);
    if value < 10 {
        assert(text.drop_last() =~= Seq::<char>::empty());
        assert(digits_value(text.drop_last()) == 0);
        assert(digit_value(digit_char(value)) == value);
    } else {
        lemma_decimal_text(value / 10);
        let shorter = decimal_text(value / 10);
        assert(text.drop_last() =~= shorter);
        assert(text.last() == digit_char(value % 10));
        assert(digit_value(digit_char(value % 10)) == value % 10);
        assert(text[0] == shorter[0]);
        assert forall|i: int| 0 <= i < text.len() implies is_digit(#[trigger] text[i]) by {
            if i < shorter.len() {
                assert(text[i] == shorter[i]);
            }
        }
    }
}

proof fn lemma_digit_run(digits: Seq<char>, rest: Seq<char>)
    requires
        forall|i: int| 0 <= i < digits.len() ==> is_digit(#[trigger] digits[i]),
        rest.len() == 0 || !is_digit(rest[0]),
    ensures
        digit_run(digits + rest) == digits.len(),
    decreases digits.len(),
{
    let text = digits + rest;
    if digits.len() == 0 {
        assert(text =~= rest);
    } else {
        assert(text[0] == digits[0]);
        assert(text.drop_first() =~= digits.drop_first() + rest);
        assert forall|i: int| 0 <= i < digits.drop_first().len() implies is_digit(
            #[trigger] digits.drop_first()[i],
        ) by {
            assert(digits.drop_first()[i] == digits[i + 1]);
        }
        lemma_digit_run(digits.drop_first(), rest);
    }
}

/// A number is read back as it was written, where no digit follows it.
pub proof fn lemma_parse_number(value: nat, max: nat, rest: Seq<char>)
    requires
        value <= max,
        rest.len() == 0 || !is_digit(rest[0]),
    ensures
        parse_number(decimal_text(value) + rest, max) == Some((value, rest)),
{
    let digits = decimal_text(value);
    let text = digits + rest;
    lemma_decimal_text(value);
    assert(is_digit(digits[0]));
    assert(text[0] == digits[0]);
    lemma_no_blanks(text);
    lemma_digit_run(digits, rest);
    assert(text.take(digits.len() as int) =~= digits);
    assert(text.skip(digits.len() as int) =~= rest);
}

proof fn lemma_bytes_tail(data: Seq<u8>, rest: Seq<char>, before: Seq<u8>)
    requires
        data.len() > 0,
    ensures
        bytes_tail(bytes_items(data) + (seq![']'] + rest), before) == Some((before + data, rest)),
    decreases data.len(),
{
    let closing = seq![']'] + rest;
    let text = bytes_items(data) + closing;
    let first = data[0] as nat;
    assert(closing[0] == ']');
    if data.len() == 1 {
        assert(text =~= decimal_text(first) + closing);
        lemma_parse_number(first, 255, closing);
        lemma_expect_other(',', ']', rest);
        lemma_expect(']', rest);
        assert(before.push(first as u8) =~= before + data);
    } else {
        let more = data.drop_first();
        let behind = bytes_items(more) + closing;
        let separated = seq![','] + behind;
        assert(separated[0] == ',');
        assert(text =~= decimal_text(first) + separated);
        lemma_parse_number(first, 255, separated);
        lemma_expect(',', behind);
        lemma_decimal_text(first);
        lemma_bytes_tail(more, rest, before.push(first as u8));
        assert(before.push(first as u8) + more =~= before + data);
    }
}

/// A payload is read back as the bytes that it was written for.
pub proof fn lemma_parse_bytes(data: Seq<u8>, rest: Seq<char>)
    ensures
        parse_bytes(bytes_text(data) + rest) == Some((data, rest)),
{
    let closing = seq![']'] + rest;
    let inside = bytes_items(data) + closing;
    assert(bytes_text(data) + rest =~= seq!['['] + inside);
    lemma_expect('[', inside);
    if data.len() == 0 {
        assert(inside =~= closing);
        lemma_expect(']', rest);
    } else {
        let first = data[0] as nat;
        lemma_decimal_text(first);
        assert(inside[0] == decimal_text(first)[0]) by {
            if data.len() == 1 {
                assert(bytes_items(data) =~= decimal_text(first));
            } else {
                assert(bytes_items(data)[0] == decimal_text(first)[0]);
            }
        }
        assert(is_digit(inside[0]));
        lemma_no_blanks(inside);
        lemma_bytes_tail(data, rest, Seq::empty());
        assert(Seq::<u8>::empty() + data =~= data);
    }
}

/// The names of the fields and the tags of the variants differ from one
/// another.
proof fn lemma_names_differ()
    ensures
        "request_id"@ != "id"@,
        "method_name"@ != "id"@,
        "method_name"@ != "request_id"@,
        "data"@ != "id"@,
        "data"@ != "request_id"@,
        "data"@ != "method_name"@,
        "ResponseOk"@ != "Request"@,
        "ResponseError"@ != "Request"@,
        "ResponseError"@ != "ResponseOk"@,
        "ResponseEndStream"@ != "Request"@,
        "ResponseEndStream"@ != "ResponseOk"@,
        "ResponseEndStream"@ != "ResponseError"@,
{
    reveal_strlit("id");
    reveal_strlit("request_id");
    reveal_strlit("method_name");
    reveal_strlit("data");
    reveal_strlit("Request");
    reveal_strlit("ResponseOk");
    reveal_strlit("ResponseError");
    reveal_strlit("ResponseEndStream");
    assert("id"@.len() == 2);
    assert("request_id"@.len() == 10);
    assert("method_name"@.len() == 11);
    assert("data"@.len() == 4);
    assert("Request"@.len() == 7);
    assert("ResponseOk"@.len() == 10);
    assert("ResponseError"@.len() == 13);
    assert("ResponseEndStream"@.len() == 17);
}

/// What stands behind a field: a comma or a closing brace.
spec fn ends_value(rest: Seq<char>) -> bool {
    rest.len() > 0 && (rest[0] == ',' || rest[0] == '}')
}

proof fn lemma_id_member(value: u64, rest: Seq<char>, members: MembersModel)
    requires
        ends_value(rest),
        members.id is None,
    ensures
        parse_member(number_field_then("id"@, value, rest), members) == Some(
            (MembersModel { id: Some(value), ..members }, rest),
        ),
{
    let valued = decimal_text(value as nat) + rest;
    assert(number_field_then("id"@, value, rest) =~= quoted("id"@) + (seq![':'] + valued));
    lemma_parse_string("id"@, seq![':'] + valued);
    lemma_expect(':', valued);
    lemma_parse_number(value as nat, u64::MAX as nat, rest);
}

proof fn lemma_request_id_member(value: u64, rest: Seq<char>, members: MembersModel)
    requires
        ends_value(rest),
        members.request_id is None,
    ensures
        parse_member(number_field_then("request_id"@, value, rest), members) == Some(
            (MembersModel { request_id: Some(value), ..members }, rest),
        ),
{
    let valued = decimal_text(value as nat) + rest;
    lemma_names_differ();
    lemma_parse_string("request_id"@, seq![':'] + valued);
    lemma_expect(':', valued);
    lemma_parse_number(value as nat, u64::MAX as nat, rest);
}

proof fn lemma_method_name_member(value: Seq<char>, rest: Seq<char>, members: MembersModel)
    requires
        members.method_name is None,
    ensures
        parse_member(string_field_then("method_name"@, value, rest), members) == Some(
            (MembersModel { method_name: Some(value), ..members }, rest),
        ),
{
    let valued = quoted(value) + rest;
    lemma_names_differ();
    lemma_parse_string("method_name"@, seq![':'] + valued);
    lemma_expect(':', valued);
    lemma_parse_string(value, rest);
}

proof fn lemma_data_member(data: Seq<u8>, rest: Seq<char>, members: MembersModel)
    requires
        members.data is None,
    ensures
        parse_member(bytes_field_then("data"@, data, rest), members) == Some(
            (MembersModel { data: Some(data), ..members }, rest),
        ),
{
    let valued = bytes_text(data) + rest;
    lemma_names_differ();
    lemma_parse_string("data"@, seq![':'] + valued);
    lemma_expect(':', valued);
    lemma_parse_bytes(data, rest);
}

/// The last member of an object is followed by the closing brace.
proof fn lemma_last_member(
    text: Seq<char>,
    members: MembersModel,
    longer: MembersModel,
    tail: Seq<char>,
)
    requires
        parse_member(text, members) == Some((longer, close_then(tail))),
    ensures
        parse_members(text, members) == Some((longer, seq!['}'] + tail)),
{
    let behind = seq!['}'] + tail;
    assert(close_then(tail) =~= seq!['}'] + behind);
    lemma_expect_other(',', '}', behind);
    lemma_expect('}', behind);
}

/// A member that is followed by a comma is followed by more members.
proof fn lemma_next_member(
    text: Seq<char>,
    members: MembersModel,
    longer: MembersModel,
    more: Seq<char>,
)
    requires
        parse_member(text, members) == Some((longer, seq![','] + more)),
        more.len() < text.len(),
    ensures
        parse_members(text, members) == parse_members(more, longer),
{
    lemma_expect(',', more);
}

/// The object of the fields is read behind its opening brace.
proof fn lemma_object(inside: Seq<char>, members: MembersModel, behind: Seq<char>)
    requires
        inside.len() > 0,
        inside[0] == '"',
        parse_members(inside, no_members()) == Some((members, behind)),
    ensures
        parse_object(seq!['{'] + inside) == Some((members, behind)),
{
    lemma_expect('{', inside);
    lemma_no_blanks(inside);
}

/// The frame is read from the tag, the object of its fields and what stands
/// behind them.
proof fn lemma_frame(tag: Seq<char>, inside: Seq<char>, members: MembersModel, tail: Seq<char>)
    requires
        parse_object(seq!['{'] + inside) == Some((members, seq!['}'] + tail)),
        skip_blanks(tail).len() == 0,
    ensures
        parse_frame(open_then(tag, inside)) == assemble(tag, members),
{
    let object = seq!['{'] + inside;
    let named = quoted(tag) + (seq![':'] + object);
    lemma_expect('{', named);
    lemma_parse_string(tag, seq![':'] + object);
    lemma_expect(':', object);
    lemma_expect('}', tail);
}

proof fn lemma_quoted_starts(text: Seq<char>, rest: Seq<char>)
    ensures
        (quoted(text) + rest).len() > 0,
        (quoted(text) + rest)[0] == '"',
{
    assert(quoted(text)[0] == '"');
}

/// A frame that is written with `tail` behind it is read back, where the
/// tail holds nothing but blanks.
pub proof fn lemma_frame_is_read_back(frame: FrameModel, tail: Seq<char>)
    requires
        skip_blanks(tail).len() == 0,
    ensures
        parse_frame(frame_text_then(frame, tail)) == Some(frame),
{
    let end = close_then(tail);
    assert(end[0] == '}');
    lemma_names_differ();
    match frame {
        FrameModel::Request { id, method_name, data } => {
            let data_field = bytes_field_then("data"@, data, end);
            let more_data = seq![','] + data_field;
            let name_field = string_field_then("method_name"@, method_name, more_data);
            let more_name = seq![','] + name_field;
            let id_field = number_field_then("id"@, id, more_name);
            let with_id = MembersModel { id: Some(id), ..no_members() };
            let with_name = MembersModel { method_name: Some(method_name), ..with_id };
            let with_data = MembersModel { data: Some(data), ..with_name };
            assert(more_name[0] == ',');
            lemma_id_member(id, more_name, no_members());
            lemma_method_name_member(method_name, more_data, with_id);
            lemma_data_member(data, end, with_name);
            lemma_last_member(data_field, with_name, with_data, tail);
            lemma_quoted_starts("data"@, seq![':'] + (bytes_text(data) + end));
            lemma_quoted_starts("method_name"@, seq![':'] + (quoted(method_name) + more_data));
            lemma_next_member(name_field, with_id, with_name, data_field);
            lemma_next_member(id_field, no_members(), with_id, name_field);
            lemma_quoted_starts("id"@, seq![':'] + (decimal_text(id as nat) + more_name));
            lemma_object(id_field, with_data, seq!['}'] + tail);
            lemma_frame("Request"@, id_field, with_data, tail);
        },
        FrameModel::ResponseOk { request_id, data } => {
            let data_field = bytes_field_then("data"@, data, end);
            let more_data = seq![','] + data_field;
            let id_field = number_field_then("request_id"@, request_id, more_data);
            let with_id = MembersModel { request_id: Some(request_id), ..no_members() };
            let with_data = MembersModel { data: Some(data), ..with_id };
            assert(more_data[0] == ',');
            lemma_request_id_member(request_id, more_data, no_members());
            lemma_data_member(data, end, with_id);
            lemma_last_member(data_field, with_id, with_data, tail);
            lemma_quoted_starts("data"@, seq![':'] + (bytes_text(data) + end));
            lemma_next_member(id_field, no_members(), with_id, data_field);
            lemma_quoted_starts(
                "request_id"@,
                seq![':'] + (decimal_text(request_id as nat) + more_data),
            );
            lemma_object(id_field, with_data, seq!['}'] + tail);
            lemma_frame("ResponseOk"@, id_field, with_data, tail);
        },
        FrameModel::ResponseError { request_id, data } => {
            let data_field = bytes_field_then("data"@, data, end);
            let more_data = seq![','] + data_field;
            let id_field = number_field_then("request_id"@, request_id, more_data);
            let with_id = MembersModel { request_id: Some(request_id), ..no_members() };
            let with_data = MembersModel { data: Some(data), ..with_id };
            assert(more_data[0] == ',');
            lemma_request_id_member(request_id, more_data, no_members());
            lemma_data_member(data, end, with_id);
            lemma_last_member(data_field, with_id, with_data, tail);
            lemma_quoted_starts("data"@, seq![':'] + (bytes_text(data) + end));
            lemma_next_member(id_field, no_members(), with_id, data_field);
            lemma_quoted_starts(
                "request_id"@,
                seq![':'] + (decimal_text(request_id as nat) + more_data),
            );
            lemma_object(id_field, with_data, seq!['}'] + tail);
            lemma_frame("ResponseError"@, id_field, with_data, tail);
        },
        FrameModel::ResponseEndStream { request_id } => {
            let id_field = number_field_then("request_id"@, request_id, end);
            let with_id = MembersModel { request_id: Some(request_id), ..no_members() };
            lemma_request_id_member(request_id, end, no_members());
            lemma_last_member(id_field, no_members(), with_id, tail);
            lemma_quoted_starts(
                "request_id"@,
                seq![':'] + (decimal_text(request_id as nat) + end),
            );
            lemma_object(id_field, with_id, seq!['}'] + tail);
            lemma_frame("ResponseEndStream"@, id_field, with_id, tail);
        },
    }
}

/// Decoding the line of a frame gives the frame back, for every frame of
/// every variant: with the line feed that ends the line and without it.
pub proof fn lemma_decoding_inverts_encoding(frame: FrameModel)
    ensures
        parse_frame(frame_line(frame)) == Some(frame),
        parse_frame(frame_text(frame)) == Some(frame),
{
    let feed = seq!['\n'];
    assert(skip_blanks(feed.drop_first()) =~= Seq::<char>::empty());
    assert(skip_blanks(feed).len() == 0);
    lemma_frame_is_read_back(frame, feed);
    lemma_frame_is_read_back(frame, Seq::empty());
}

/// Whether a text is free of line feeds.
pub open spec fn no_line_feed(text: Seq<char>) -> bool {
    forall|i: int| 0 <= i < text.len() ==> text[i] != '\n'
}

proof fn lemma_joined_no_line_feed(first: Seq<char>, second: Seq<char>)
    requires
        no_line_feed(first),
        no_line_feed(second),
    ensures
        no_line_feed(first + second),
{
    assert forall|i: int| 0 <= i < (first + second).len() implies (first + second)[i] != '\n' by {
        if i < first.len() {
            assert((first + second)[i] == first[i]);
        } else {
            assert((first + second)[i] == second[i - first.len()]);
        }
    }
}

proof fn lemma_escaped_no_line_feed(text: Seq<char>)
    ensures
        no_line_feed(escaped(text)),
        no_line_feed(quoted(text)),
    decreases text.len(),
{
    if text.len() > 0 {
        lemma_escaped_no_line_feed(text.drop_first());
        let c = text[0];
        assert(no_line_feed(escaped_char(c))) by {
            assert forall|i: int| 0 <= i < escaped_char(c).len() implies escaped_char(c)[i]
                != '\n' by {}
        }
        lemma_joined_no_line_feed(escaped_char(c), escaped(text.drop_first()));
    }
    lemma_joined_no_line_feed(seq!['"'], escaped(text));
    lemma_joined_no_line_feed(seq!['"'] + escaped(text), seq!['"']);
}

proof fn lemma_decimal_no_line_feed(value: nat)
    ensures
        no_line_feed(decimal_text(value)),
{
    lemma_decimal_text(value);
}

proof fn lemma_bytes_no_line_feed(data: Seq<u8>)
    ensures
        no_line_feed(bytes_items(data)),
        no_line_feed(bytes_text(data)),
    decreases data.len(),
{
    if data.len() > 0 {
        lemma_decimal_no_line_feed(data[0] as nat);
        if data.len() > 1 {
            lemma_bytes_no_line_feed(data.drop_first());
            lemma_joined_no_line_feed(decimal_text(data[0] as nat), seq![',']);
            lemma_joined_no_line_feed(
                decimal_text(data[0] as nat) + seq![','],
                bytes_items(data.drop_first()),
            );
        }
    }
    lemma_joined_no_line_feed(seq!['['], bytes_items(data));
    lemma_joined_no_line_feed(seq!['['] + bytes_items(data), seq![']']);
}

proof fn lemma_open_no_line_feed(tag: Seq<char>, rest: Seq<char>)
    requires
        no_line_feed(rest),
    ensures
        no_line_feed(open_then(tag, rest)),
{
    lemma_escaped_no_line_feed(tag);
    lemma_joined_no_line_feed(seq!['{'], rest);
    lemma_joined_no_line_feed(seq![':'], seq!['{'] + rest);
    lemma_joined_no_line_feed(quoted(tag), seq![':'] + (seq!['{'] + rest));
    lemma_joined_no_line_feed(seq!['{'], quoted(tag) + (seq![':'] + (seq!['{'] + rest)));
}

proof fn lemma_number_field_no_line_feed(name: Seq<char>, value: u64, rest: Seq<char>)
    requires
        no_line_feed(rest),
    ensures
        no_line_feed(number_field_then(name, value, rest)),
{
    lemma_escaped_no_line_feed(name);
    lemma_decimal_no_line_feed(value as nat);
    lemma_joined_no_line_feed(decimal_text(value as nat), rest);
    lemma_joined_no_line_feed(seq![':'], decimal_text(value as nat) + rest);
    lemma_joined_no_line_feed(quoted(name), seq![':'] + (decimal_text(value as nat) + rest));
}

proof fn lemma_string_field_no_line_feed(name: Seq<char>, value: Seq<char>, rest: Seq<char>)
    requires
        no_line_feed(rest),
    ensures
        no_line_feed(string_field_then(name, value, rest)),
{
    lemma_escaped_no_line_feed(name);
    lemma_escaped_no_line_feed(value);
    lemma_joined_no_line_feed(quoted(value), rest);
    lemma_joined_no_line_feed(seq![':'], quoted(value) + rest);
    lemma_joined_no_line_feed(quoted(name), seq![':'] + (quoted(value) + rest));
}

proof fn lemma_bytes_field_no_line_feed(name: Seq<char>, data: Seq<u8>, rest: Seq<char>)
    requires
        no_line_feed(rest),
    ensures
        no_line_feed(bytes_field_then(name, data, rest)),
{
    lemma_escaped_no_line_feed(name);
    lemma_bytes_no_line_feed(data);
    lemma_joined_no_line_feed(bytes_text(data), rest);
    lemma_joined_no_line_feed(seq![':'], bytes_text(data) + rest);
    lemma_joined_no_line_feed(quoted(name), seq![':'] + (bytes_text(data) + rest));
}

proof fn lemma_close_then(tail: Seq<char>)
    ensures
        close_then(tail) == close_then(Seq::empty()) + tail,
        no_line_feed(close_then(Seq::empty())),
{
    assert(close_then(tail) =~= close_then(Seq::empty()) + tail);
}

proof fn lemma_open_then(tag: Seq<char>, rest: Seq<char>, tail: Seq<char>)
    ensures
        open_then(tag, rest + tail) == open_then(tag, rest) + tail,
{
    assert(open_then(tag, rest + tail) =~= open_then(tag, rest) + tail);
}

proof fn lemma_number_field_then(name: Seq<char>, value: u64, rest: Seq<char>, tail: Seq<char>)
    ensures
        number_field_then(name, value, rest + tail) == number_field_then(name, value, rest) + tail,
{
    assert(number_field_then(name, value, rest + tail) =~= number_field_then(name, value, rest)
        + tail);
}

proof fn lemma_string_field_then(
    name: Seq<char>,
    value: Seq<char>,
    rest: Seq<char>,
    tail: Seq<char>,
)
    ensures
        string_field_then(name, value, rest + tail) == string_field_then(name, value, rest) + tail,
{
    assert(string_field_then(name, value, rest + tail) =~= string_field_then(name, value, rest)
        + tail);
}

proof fn lemma_bytes_field_then(name: Seq<char>, data: Seq<u8>, rest: Seq<char>, tail: Seq<char>)
    ensures
        bytes_field_then(name, data, rest + tail) == bytes_field_then(name, data, rest) + tail,
{
    assert(bytes_field_then(name, data, rest + tail) =~= bytes_field_then(name, data, rest) + tail);
}

proof fn lemma_comma_then(rest: Seq<char>, tail: Seq<char>)
    ensures
        seq![','] + (rest + tail) == (seq![','] + rest) + tail,
{
    assert(seq![','] + (rest + tail) =~= (seq![','] + rest) + tail);
}

/// The fields of a frame with a payload, behind the identifier: the payload
/// and the closing braces.
spec fn data_end(data: Seq<u8>, tail: Seq<char>) -> Seq<char> {
    seq![','] + bytes_field_then("data"@, data, close_then(tail))
}

proof fn lemma_data_end(data: Seq<u8>, tail: Seq<char>)
    ensures
        data_end(data, tail) == data_end(data, Seq::empty()) + tail,
        no_line_feed(data_end(data, Seq::empty())),
{
    let nothing = Seq::<char>::empty();
    lemma_close_then(tail);
    lemma_bytes_field_then("data"@, data, close_then(nothing), tail);
    lemma_comma_then(bytes_field_then("data"@, data, close_then(nothing)), tail);
    lemma_bytes_field_no_line_feed("data"@, data, close_then(nothing));
    lemma_joined_no_line_feed(seq![','], bytes_field_then("data"@, data, close_then(nothing)));
}

/// The fields of a request behind the identifier.
spec fn name_end(method_name: Seq<char>, data: Seq<u8>, tail: Seq<char>) -> Seq<char> {
    seq![','] + string_field_then("method_name"@, method_name, data_end(data, tail))
}

proof fn lemma_name_end(method_name: Seq<char>, data: Seq<u8>, tail: Seq<char>)
    ensures
        name_end(method_name, data, tail) == name_end(method_name, data, Seq::empty()) + tail,
        no_line_feed(name_end(method_name, data, Seq::empty())),
{
    let nothing = Seq::<char>::empty();
    lemma_data_end(data, tail);
    lemma_string_field_then("method_name"@, method_name, data_end(data, nothing), tail);
    lemma_comma_then(string_field_then("method_name"@, method_name, data_end(data, nothing)), tail);
    lemma_string_field_no_line_feed("method_name"@, method_name, data_end(data, nothing));
    lemma_joined_no_line_feed(
        seq![','],
        string_field_then("method_name"@, method_name, data_end(data, nothing)),
    );
}

proof fn lemma_numbered(tag: Seq<char>, name: Seq<char>, value: u64, rest: Seq<char>, tail: Seq<char>)
    requires
        no_line_feed(rest),
    ensures
        open_then(tag, number_field_then(name, value, rest + tail)) == open_then(
            tag,
            number_field_then(name, value, rest),
        ) + tail,
        no_line_feed(open_then(tag, number_field_then(name, value, rest))),
{
    lemma_number_field_then(name, value, rest, tail);
    lemma_open_then(tag, number_field_then(name, value, rest), tail);
    lemma_number_field_no_line_feed(name, value, rest);
    lemma_open_no_line_feed(tag, number_field_then(name, value, rest));
}

/// The text of a frame with something behind it is the text of the frame
/// and that something, and the text of a frame holds no line feed.
pub proof fn lemma_frame_text_then(frame: FrameModel, tail: Seq<char>)
    ensures
        frame_text_then(frame, tail) == frame_text(frame) + tail,
        no_line_feed(frame_text(frame)),
{
    let nothing = Seq::<char>::empty();
    match frame {
        FrameModel::Request { id, method_name, data } => {
            lemma_name_end(method_name, data, tail);
            lemma_numbered("Request"@, "id"@, id, name_end(method_name, data, nothing), tail);
            assert(frame_text_then(frame, tail) == open_then(
                "Request"@,
                number_field_then("id"@, id, name_end(method_name, data, tail)),
            ));
            assert(frame_text(frame) == open_then(
                "Request"@,
                number_field_then("id"@, id, name_end(method_name, data, nothing)),
            ));
        },
        FrameModel::ResponseOk { request_id, data } => {
            lemma_data_end(data, tail);
            lemma_numbered("ResponseOk"@, "request_id"@, request_id, data_end(data, nothing), tail);
            assert(frame_text_then(frame, tail) == open_then(
                "ResponseOk"@,
                number_field_then("request_id"@, request_id, data_end(data, tail)),
            ));
            assert(frame_text(frame) == open_then(
                "ResponseOk"@,
                number_field_then("request_id"@, request_id, data_end(data, nothing)),
            ));
        },
        FrameModel::ResponseError { request_id, data } => {
            lemma_data_end(data, tail);
            lemma_numbered(
                "ResponseError"@,
                "request_id"@,
                request_id,
                data_end(data, nothing),
                tail,
            );
            assert(frame_text_then(frame, tail) == open_then(
                "ResponseError"@,
                number_field_then("request_id"@, request_id, data_end(data, tail)),
            ));
            assert(frame_text(frame) == open_then(
                "ResponseError"@,
                number_field_then("request_id"@, request_id, data_end(data, nothing)),
            ));
        },
        FrameModel::ResponseEndStream { request_id } => {
            lemma_close_then(tail);
            lemma_numbered(
                "ResponseEndStream"@,
                "request_id"@,
                request_id,
                close_then(nothing),
                tail,
            );
        },
    }
}

/// The text of a frame holds no line feed, so that the line feed that ends
/// its line is the first of the line.
pub proof fn lemma_frame_text_is_one_line(frame: FrameModel)
    ensures
        no_line_feed(frame_text(frame)),
        frame_line(frame) == frame_text(frame) + seq!['\n'],
{
    lemma_frame_text_then(frame, seq!['\n']);
}

/// The line of a frame is the first line of every text that starts with
/// it.
proof fn lemma_first_line_is_the_frame(frame: FrameModel, rest: Seq<char>)
    ensures
        first_line(frame_line(frame) + rest) == frame_line(frame),
        frame_line(frame).len() > 0,
{
    lemma_frame_text_is_one_line(frame);
    let body = frame_text(frame);
    let line = frame_line(frame);
    let text = line + rest;
    text.index_of_first_ensures('\n');
    assert(line[body.len() as int] == '\n');
    assert(text[body.len() as int] == '\n');
    assert(text.contains('\n'));
    let at = text.index_of_first('\n').unwrap();
    if at < body.len() {
        assert(text[at] == body[at]);
    }
    assert(at == body.len());
    assert(text.take(at + 1) =~= line);
}

/// What the reader takes from the line of a frame and what follows it: the
/// frame, and what it takes from what follows.
proof fn lemma_first_frame_is_read(frame: FrameModel, rest: Seq<char>)
    ensures
        frames_of(frame_line(frame) + rest) == seq![frame] + frames_of(rest),
{
    let line = frame_line(frame);
    let text = line + rest;
    assert(first_line(text) == line && line.len() > 0) by {
        lemma_first_line_is_the_frame(frame, rest);
    }
    assert(parse_frame(line) == Some(frame)) by {
        lemma_decoding_inverts_encoding(frame);
    }
    assert(text.skip(line.len() as int) =~= rest);
}

/// Writes reach the reader in the order in which they were made: what the
/// reader takes from the lines that the writer made of a sequence of frames
/// is that sequence.
pub proof fn lemma_frames_arrive_in_order(frames: Seq<FrameModel>)
    ensures
        frames_of(frames_text(frames)) == frames,
    decreases frames.len(),
{
    if frames.len() > 0 {
        let first = frames[0];
        let more = frames.drop_first();
        lemma_first_frame_is_read(first, frames_text(more));
        lemma_frames_arrive_in_order(more);
        assert(seq![first] + more =~= frames);
    }
}

} // verus!
