//! The line protocol: a call is an envelope line, a metadata line and a
//! payload line; an answer is an envelope line and, unless the envelope
//! carries an error, a line with the response.
//!
//! Envelopes are JSON objects. The envelope of a request names the method
//! and the request; that of a response names the request, carries the error
//! of the call if there is one, and tells whether it ends a stream.

use vstd::prelude::*;
use vstd::string::*;
use dashmap::DashMap;
use crate::lexer::characters;
use crate::paths::string_of;
use crate::rpc_support::connection::{
    Pending, empty_table, table_entries, table_get, table_insert, table_new, table_remove,
};
use crate::rpc_support::json::{
    blanks, expect, expected, number_at, parse_number, parse_string, skip_blanks, string_at,
};
use crate::rpc_support::rpc_error::{RpcError, RpcErrorModel};
use crate::rpc_support::stream::{push_decimal, push_quoted, push_text, quoted};
use crate::text::{decimal_text, str_eq};

verus! {

pub ghost struct RequestEnvelopeModel {
    pub method_name: Seq<char>,
    pub request_id: u64,
}

/// The first line of a call: the method that is called and the identifier
/// of the request.
#[derive(Debug, Clone, PartialEq, Eq)]
pub struct RequestEnvelope {
    pub method_name: String,
    pub request_id: u64,
}

impl View for RequestEnvelope {
    type V = RequestEnvelopeModel;

    open spec fn view(&self) -> RequestEnvelopeModel {
        RequestEnvelopeModel { method_name: self.method_name@, request_id: self.request_id }
    }
}

pub ghost struct ResponseEnvelopeModel {
    pub request_id: u64,
    pub error: Option<RpcErrorModel>,
    pub stream_end: bool,
}

/// The first line of an answer: the request that is answered, the error of
/// the call if it failed, and whether the answer ends a stream.
#[derive(Debug, Clone, PartialEq, Eq)]
pub struct ResponseEnvelope {
    pub request_id: u64,
    pub error: Option<RpcError>,
    pub stream_end: bool,
}

pub open spec fn error_option_view(error: Option<RpcError>) -> Option<RpcErrorModel> {
    match error {
        Some(e) => Some(e@),
        None => None,
    }
}

impl View for ResponseEnvelope {
    type V = ResponseEnvelopeModel;

    open spec fn view(&self) -> ResponseEnvelopeModel {
        ResponseEnvelopeModel {
            request_id: self.request_id,
            error: error_option_view(self.error),
            stream_end: self.stream_end,
        }
    }
}

/// The name and the message of an error.
pub open spec fn error_parts(error: RpcErrorModel) -> (Seq<char>, Seq<char>) {
    match error {
        RpcErrorModel::SerializationFailed(message) => ("SerializationFailed"@, message),
        RpcErrorModel::IoError(message) => ("IoError"@, message),
        RpcErrorModel::Custom(message) => ("Custom"@, message),
    }
}

/// The error of a call as JSON: `null` where there is none, else an object
/// with the name of the error and its message.
pub open spec fn error_text(error: Option<RpcErrorModel>) -> Seq<char> {
    match error {
        None => "null"@,
        Some(e) => "{"@ + quoted(error_parts(e).0) + ":"@ + quoted(error_parts(e).1) + "}"@,
    }
}

pub open spec fn bool_text(value: bool) -> Seq<char> {
    if value {
        "true"@
    } else {
        "false"@
    }
}

/// The envelope of a request as JSON.
pub open spec fn request_envelope_text(envelope: RequestEnvelopeModel) -> Seq<char> {
    "{\"method_name\":"@ + quoted(envelope.method_name) + ",\"request_id\":"@ + decimal_text(
        envelope.request_id as nat,
    ) + "}"@
}

/// The envelope of a response as JSON.
pub open spec fn response_envelope_text(envelope: ResponseEnvelopeModel) -> Seq<char> {
    "{\"request_id\":"@ + decimal_text(envelope.request_id as nat) + ",\"error\":"@ + error_text(
        envelope.error,
    ) + ",\"stream_end\":"@ + bool_text(envelope.stream_end) + "}"@
}

/// The lines of a call: the envelope, the metadata and the payload, each
/// followed by a line feed. Metadata and payload are JSON already.
pub open spec fn request_lines(
    envelope: RequestEnvelopeModel,
    metadata: Seq<char>,
    payload: Seq<char>,
) -> Seq<char> {
    request_envelope_text(envelope) + "\n"@ + metadata + "\n"@ + payload + "\n"@
}

/// The lines of an answer: the envelope, and the response where the call
/// did not fail, each followed by a line feed. The response is JSON already.
pub open spec fn response_lines(
    response: Result<Seq<char>, RpcErrorModel>,
    request_id: u64,
    stream_end: bool,
) -> Seq<char> {
    match response {
        Ok(body) => response_envelope_text(
            ResponseEnvelopeModel { request_id, error: None, stream_end },
        ) + "\n"@ + body + "\n"@,
        Err(error) => response_envelope_text(
            ResponseEnvelopeModel { request_id, error: Some(error), stream_end },
        ) + "\n"@,
    }
}

fn push_error(out: &mut Vec<char>, error: &Option<RpcError>)
    ensures
        final(out)@ == old(out)@ + error_text(error_option_view(*error)),
{
    match error {
        None => {
            push_text(out, "null");
        },
        Some(e) => {
            let (name, message) = match e {
                RpcError::SerializationFailed(message) => ("SerializationFailed", message),
                RpcError::IoError(message) => ("IoError", message),
                RpcError::Custom(message) => ("Custom", message),
            };
            let ghost start = out@;
            push_text(out, "{");
            push_quoted(out, name);
            push_text(out, ":");
            push_quoted(out, message.as_str());
            push_text(out, "}");
            assert(out@ =~= start + ("{"@ + quoted(name@) + ":"@ + quoted(message@) + "}"@));
        },
    }
}

fn push_response_envelope(out: &mut Vec<char>, envelope: &ResponseEnvelope)
    ensures
        final(out)@ == old(out)@ + response_envelope_text(envelope@),
{
    let ghost start = out@;
    push_text(out, "{\"request_id\":");
    push_decimal(out, envelope.request_id);
    push_text(out, ",\"error\":");
    push_error(out, &envelope.error);
    push_text(out, ",\"stream_end\":");
    push_text(
        out,
        if envelope.stream_end {
            "true"
        } else {
            "false"
        },
    );
    push_text(out, "}");
    assert(out@ =~= start + response_envelope_text(envelope@));
}

/// Writes the envelope of a request as JSON.
pub fn encode_request_envelope(envelope: &RequestEnvelope) -> (text: String)
    ensures
        text@ == request_envelope_text(envelope@),
{
    let mut out: Vec<char> = Vec::new();
    push_text(&mut out, "{\"method_name\":");
    push_quoted(&mut out, envelope.method_name.as_str());
    push_text(&mut out, ",\"request_id\":");
    push_decimal(&mut out, envelope.request_id);
    push_text(&mut out, "}");
    assert(out@ =~= request_envelope_text(envelope@));
    string_of(&out)
}

/// Writes the envelope of a response as JSON.
pub fn encode_response_envelope(envelope: &ResponseEnvelope) -> (text: String)
    ensures
        text@ == response_envelope_text(envelope@),
{
    let mut out: Vec<char> = Vec::new();
    push_response_envelope(&mut out, envelope);
    assert(out@ =~= response_envelope_text(envelope@));
    string_of(&out)
}

/// Writes the three lines of a call.
pub fn send_raw_request(envelope: &RequestEnvelope, metadata: &str, request: &str) -> (lines: String)
    ensures
        lines@ == request_lines(envelope@, metadata@, request@),
{
    let mut buffer = encode_request_envelope(envelope);
    buffer.append("\n");
    buffer.append(metadata);
    buffer.append("\n");
    buffer.append(request);
    buffer.append("\n");
    buffer
}

pub open spec fn response_view(response: Result<String, RpcError>) -> Result<
    Seq<char>,
    RpcErrorModel,
> {
    match response {
        Ok(body) => Ok(body@),
        Err(error) => Err(error@),
    }
}

/// Writes the lines of an answer: the envelope and, for a call that did not
/// fail, the response.
pub fn send_response(response: Result<String, RpcError>, request_id: u64, stream_end: bool) -> (lines:
    String)
    ensures
        lines@ == response_lines(response_view(response), request_id, stream_end),
{
    match response {
        Ok(body) => {
            let mut buffer = encode_response_envelope(
                &ResponseEnvelope { request_id, error: None, stream_end },
            );
            buffer.append("\n");
            buffer.append(body.as_str());
            buffer.append("\n");
            buffer
        },
        Err(error) => {
            let mut buffer = encode_response_envelope(
                &ResponseEnvelope { request_id, error: Some(error), stream_end },
            );
            buffer.append("\n");
            buffer
        },
    }
}

pub open spec fn responses_view(items: Seq<Result<String, RpcError>>) -> Seq<
    Result<Seq<char>, RpcErrorModel>,
> {
    Seq::new(items.len(), |i: int| response_view(items[i]))
}

/// The lines of the items of a stream, in order, none of which ends the
/// stream.
pub open spec fn item_lines(items: Seq<Result<Seq<char>, RpcErrorModel>>, request_id: u64) -> Seq<
    char,
>
    decreases items.len(),
{
    if items.len() == 0 {
        Seq::empty()
    } else {
        item_lines(items.drop_last(), request_id) + response_lines(items.last(), request_id, false)
    }
}

/// The lines of the answer to a streaming call: the items of the stream and
/// an empty answer that ends it, or the error of a stream that could not be
/// made, which ends it too.
pub open spec fn stream_response_lines(
    response: Result<Seq<Result<Seq<char>, RpcErrorModel>>, RpcErrorModel>,
    request_id: u64,
) -> Seq<char> {
    match response {
        Ok(items) => item_lines(items, request_id) + response_lines(Ok("null"@), request_id, true),
        Err(error) => response_lines(Err(error), request_id, true),
    }
}

pub open spec fn stream_view(response: Result<Vec<Result<String, RpcError>>, RpcError>) -> Result<
    Seq<Result<Seq<char>, RpcErrorModel>>,
    RpcErrorModel,
> {
    match response {
        Ok(items) => Ok(responses_view(items@)),
        Err(error) => Err(error@),
    }
}

/// Writes the lines of the answer to a streaming call.
pub fn send_stream_response(
    response: Result<Vec<Result<String, RpcError>>, RpcError>,
    request_id: u64,
) -> (lines: String)
    ensures
        lines@ == stream_response_lines(stream_view(response), request_id),
{
    match response {
        Ok(items) => {
            let ghost models = responses_view(items@);
            let mut buffer = String::new();
            let mut i: usize = 0;
            assert(models.take(0) =~= Seq::<Result<Seq<char>, RpcErrorModel>>::empty());
            while i < items.len()
                invariant
                    i <= items.len(),
                    models == responses_view(items@),
                    buffer@ == item_lines(models.take(i as int), request_id),
                decreases items.len() - i,
            {
                proof {
                    assert(models.take(i + 1).drop_last() =~= models.take(i as int));
                    assert(models.take(i + 1).last() == response_view(items[i as int]));
                }
                let item = match &items[i] {
                    Ok(body) => Ok(body.clone()),
                    Err(error) => Err(error.duplicate()),
                };
                let lines = send_response(item, request_id, false);
                buffer.append(lines.as_str());
                i += 1;
            }
            assert(models.take(items.len() as int) =~= models);
            let end = send_response(Ok(String::from_str("null")), request_id, true);
            buffer.append(end.as_str());
            buffer
        },
        Err(error) => send_response(Err(error), request_id, true),
    }
}

/// The text behind the word `word`, where the word stands first behind
/// blanks.
pub open spec fn expect_word(text: Seq<char>, word: Seq<char>) -> Option<Seq<char>> {
    let rest = skip_blanks(text);
    if word.len() <= rest.len() && rest.take(word.len() as int) == word {
        Some(rest.skip(word.len() as int))
    } else {
        None
    }
}

fn word_at(chars: &Vec<char>, at: usize, word: &str) -> (next: Option<usize>)
    requires
        at <= chars.len(),
    ensures
        match next {
            Some(behind) => at <= behind <= chars.len() && expect_word(
                chars@.skip(at as int),
                word@,
            ) == Some(chars@.skip(behind as int)),
            None => expect_word(chars@.skip(at as int), word@) is None,
        },
{
    let start = blanks(chars, at);
    let letters = characters(word);
    let ghost rest = chars@.skip(start as int);
    if letters.len() > chars.len() - start {
        return None;
    }
    let mut i: usize = 0;
    while i < letters.len()
        invariant
            i <= letters.len(),
            start + letters.len() <= chars.len(),
            letters@ == word@,
            rest == chars@.skip(start as int),
            skip_blanks(chars@.skip(at as int)) == rest,
            forall|j: int| 0 <= j < i ==> rest[j] == letters[j],
        decreases letters.len() - i,
    {
        assert(rest[i as int] == chars[start + i]);
        if chars[start + i] != letters[i] {
            assert(rest.take(word@.len() as int)[i as int] != word@[i as int]);
            return None;
        }
        i += 1;
    }
    assert(rest.take(word@.len() as int) =~= word@);
    assert(rest.skip(word@.len() as int) =~= chars@.skip(start + letters.len()));
    Some(start + letters.len())
}

/// The fields that have been read of the envelope of a request.
pub ghost struct RequestMembersModel {
    pub method_name: Option<Seq<char>>,
    pub request_id: Option<u64>,
}

/// One member of the envelope of a request, added to the fields read so
/// far.
pub open spec fn parse_request_member(text: Seq<char>, members: RequestMembersModel) -> Option<
    (RequestMembersModel, Seq<char>),
> {
    match parse_string(text) {
        None => None,
        Some((name, behind)) => match expect(behind, ':') {
            None => None,
            Some(value) => if name == "method_name"@ {
                match parse_string(value) {
                    Some((method_name, rest)) => if members.method_name is None {
                        Some(
                            (
                                RequestMembersModel { method_name: Some(method_name), ..members },
                                rest,
                            ),
                        )
                    } else {
                        None
                    },
                    None => None,
                }
            } else if name == "request_id"@ {
                match parse_number(value, u64::MAX as nat) {
                    Some((id, rest)) => if members.request_id is None {
                        Some((RequestMembersModel { request_id: Some(id as u64), ..members }, rest))
                    } else {
                        None
                    },
                    None => None,
                }
            } else {
                None
            },
        },
    }
}

/// The members of the envelope of a request behind its opening brace.
pub open spec fn parse_request_members(text: Seq<char>, members: RequestMembersModel) -> Option<
    (RequestMembersModel, Seq<char>),
>
    decreases text.len(),
{
    match parse_request_member(text, members) {
        None => None,
        Some((longer, rest)) => match expect(rest, ',') {
            Some(more) => if more.len() < text.len() {
                parse_request_members(more, longer)
            } else {
                None
            },
            None => match expect(rest, '}') {
                Some(behind) => Some((longer, behind)),
                None => None,
            },
        },
    }
}

/// The envelope of a request that a line denotes: an object with the name
/// of the method and the identifier of the request, in either order, and
/// nothing but blanks behind it.
pub open spec fn parse_request_envelope(line: Seq<char>) -> Option<RequestEnvelopeModel> {
    match expect(line, '{') {
        None => None,
        Some(inside) => match parse_request_members(
            inside,
            RequestMembersModel { method_name: None, request_id: None },
        ) {
            None => None,
            Some((members, behind)) => if skip_blanks(behind).len() == 0
                && members.method_name is Some && members.request_id is Some {
                Some(
                    RequestEnvelopeModel {
                        method_name: members.method_name.unwrap(),
                        request_id: members.request_id.unwrap(),
                    },
                )
            } else {
                None
            },
        },
    }
}

/// The fields that have been read of the envelope of a request.
struct RequestMembers {
    method_name: Option<String>,
    request_id: Option<u64>,
}

impl View for RequestMembers {
    type V = RequestMembersModel;

    closed spec fn view(&self) -> RequestMembersModel {
        RequestMembersModel {
            method_name: match self.method_name {
                Some(name) => Some(name@),
                None => None,
            },
            request_id: self.request_id,
        }
    }
}

fn request_member_at(chars: &Vec<char>, at: usize, members: RequestMembers) -> (found: Option<
    (RequestMembers, usize),
>)
    requires
        at <= chars.len(),
    ensures
        match found {
            Some((longer, next)) => at < next <= chars.len() && parse_request_member(
                chars@.skip(at as int),
                members@,
            ) == Some((longer@, chars@.skip(next as int))),
            None => parse_request_member(chars@.skip(at as int), members@) is None,
        },
{
    let (name, behind) = match string_at(chars, at) {
        Some(found) => found,
        None => {
            return None;
        },
    };
    let value = match expected(chars, behind, ':') {
        Some(value) => value,
        None => {
            return None;
        },
    };
    let name = string_of(&name);
    let mut members = members;
    if str_eq(name.as_str(), "method_name") {
        match string_at(chars, value) {
            Some((method_name, rest)) => {
                if members.method_name.is_some() {
                    return None;
                }
                members.method_name = Some(string_of(&method_name));
                Some((members, rest))
            },
            None => None,
        }
    } else if str_eq(name.as_str(), "request_id") {
        match number_at(chars, value, u64::MAX) {
            Some((id, rest)) => {
                if members.request_id.is_some() {
                    return None;
                }
                members.request_id = Some(id);
                Some((members, rest))
            },
            None => None,
        }
    } else {
        None
    }
}

fn request_members_at(chars: &Vec<char>, at: usize) -> (found: Option<(RequestMembers, usize)>)
    requires
        at <= chars.len(),
    ensures
        match found {
            Some((members, next)) => at < next <= chars.len() && parse_request_members(
                chars@.skip(at as int),
                RequestMembersModel { method_name: None, request_id: None },
            ) == Some((members@, chars@.skip(next as int))),
            None => parse_request_members(
                chars@.skip(at as int),
                RequestMembersModel { method_name: None, request_id: None },
            ) is None,
        },
{
    let mut members = RequestMembers { method_name: None, request_id: None };
    let ghost wanted = parse_request_members(chars@.skip(at as int), members@);
    let mut cursor = at;
    loop
        invariant
            at <= cursor <= chars.len(),
            wanted == parse_request_members(
                chars@.skip(at as int),
                RequestMembersModel { method_name: None, request_id: None },
            ),
            wanted == parse_request_members(chars@.skip(cursor as int), members@),
        decreases chars.len() - cursor,
    {
        let (longer, next) = match request_member_at(chars, cursor, members) {
            Some(found) => found,
            None => {
                return None;
            },
        };
        members = longer;
        match expected(chars, next, ',') {
            Some(more) => {
                cursor = more;
            },
            None => {
                match expected(chars, next, '}') {
                    Some(behind) => {
                        return Some((members, behind));
                    },
                    None => {
                        return None;
                    },
                }
            },
        }
    }
}

fn no_envelope() -> (error: RpcError)
    ensures
        error@ == no_envelope_error(),
{
    RpcError::SerializationFailed(String::from_str("the line is no envelope"))
}

/// The error for a line that is no envelope: decoding failed, with a message
/// that says so.
pub open spec fn no_envelope_error() -> RpcErrorModel {
    RpcErrorModel::SerializationFailed("the line is no envelope"@)
}

/// Reads the envelope of a request from a line.
pub fn decode_request_envelope(line: &str) -> (decoded: Result<RequestEnvelope, RpcError>)
    ensures
        match decoded {
            Ok(envelope) => parse_request_envelope(line@) == Some(envelope@),
            Err(error) => error@ == no_envelope_error() && parse_request_envelope(line@) is None,
        },
{
    let chars = characters(line);
    assert(chars@.skip(0) =~= line@);
    let inside = match expected(&chars, 0, '{') {
        Some(inside) => inside,
        None => {
            return Err(no_envelope());
        },
    };
    let (members, behind) = match request_members_at(&chars, inside) {
        Some(found) => found,
        None => {
            return Err(no_envelope());
        },
    };
    if blanks(&chars, behind) < chars.len() {
        return Err(no_envelope());
    }
    let RequestMembers { method_name, request_id } = members;
    match (method_name, request_id) {
        (Some(method_name), Some(request_id)) => Ok(RequestEnvelope { method_name, request_id }),
        _ => Err(no_envelope()),
    }
}

/// Takes a call apart: the payload line as it is, the name of the method,
/// the identifier of the request and the metadata line as it is. Decoding
/// metadata and payload is left to those who know their types.
pub fn read_request(envelope_line: &str, metadata_line: String, payload_line: String) -> (request:
    Result<(String, String, u64, String), RpcError>)
    ensures
        match request {
            Ok((payload, method_name, request_id, metadata)) => parse_request_envelope(
                envelope_line@,
            ) == Some(RequestEnvelopeModel { method_name: method_name@, request_id })
                && payload@ == payload_line@ && metadata@ == metadata_line@,
            Err(error) => error@ == no_envelope_error() && parse_request_envelope(envelope_line@)
                is None,
        },
{
    match decode_request_envelope(envelope_line) {
        Ok(envelope) => Ok(
            (payload_line, envelope.method_name, envelope.request_id, metadata_line),
        ),
        Err(error) => Err(error),
    }
}

/// The error that a value denotes: none for `null`, else the error that
/// the only member of an object names, with the message that it holds.
pub open spec fn parse_error(text: Seq<char>) -> Option<(Option<RpcErrorModel>, Seq<char>)> {
    match expect_word(text, "null"@) {
        Some(rest) => Some((None, rest)),
        None => match expect(text, '{') {
            None => None,
            Some(inside) => match parse_string(inside) {
                None => None,
                Some((name, behind)) => match expect(behind, ':') {
                    None => None,
                    Some(value) => match parse_string(value) {
                        None => None,
                        Some((message, closing)) => match expect(closing, '}') {
                            None => None,
                            Some(rest) => if name == "SerializationFailed"@ {
                                Some((Some(RpcErrorModel::SerializationFailed(message)), rest))
                            } else if name == "IoError"@ {
                                Some((Some(RpcErrorModel::IoError(message)), rest))
                            } else if name == "Custom"@ {
                                Some((Some(RpcErrorModel::Custom(message)), rest))
                            } else {
                                None
                            },
                        },
                    },
                },
            },
        },
    }
}

/// The truth value that a text starts with.
pub open spec fn parse_bool(text: Seq<char>) -> Option<(bool, Seq<char>)> {
    match expect_word(text, "true"@) {
        Some(rest) => Some((true, rest)),
        None => match expect_word(text, "false"@) {
            Some(rest) => Some((false, rest)),
            None => None,
        },
    }
}

/// The fields that have been read of the envelope of a response.
pub ghost struct ResponseMembersModel {
    pub request_id: Option<u64>,
    pub error: Option<Option<RpcErrorModel>>,
    pub stream_end: Option<bool>,
}

pub open spec fn no_response_members() -> ResponseMembersModel {
    ResponseMembersModel { request_id: None, error: None, stream_end: None }
}

/// One member of the envelope of a response, added to the fields read so
/// far.
pub open spec fn parse_response_member(text: Seq<char>, members: ResponseMembersModel) -> Option<
    (ResponseMembersModel, Seq<char>),
> {
    match parse_string(text) {
        None => None,
        Some((name, behind)) => match expect(behind, ':') {
            None => None,
            Some(value) => if name == "request_id"@ {
                match parse_number(value, u64::MAX as nat) {
                    Some((id, rest)) => if members.request_id is None {
                        Some((ResponseMembersModel { request_id: Some(id as u64), ..members }, rest))
                    } else {
                        None
                    },
                    None => None,
                }
            } else if name == "error"@ {
                match parse_error(value) {
                    Some((error, rest)) => if members.error is None {
                        Some((ResponseMembersModel { error: Some(error), ..members }, rest))
                    } else {
                        None
                    },
                    None => None,
                }
            } else if name == "stream_end"@ {
                match parse_bool(value) {
                    Some((stream_end, rest)) => if members.stream_end is None {
                        Some((ResponseMembersModel { stream_end: Some(stream_end), ..members }, rest))
                    } else {
                        None
                    },
                    None => None,
                }
            } else {
                None
            },
        },
    }
}

/// The members of the envelope of a response behind its opening brace.
pub open spec fn parse_response_members(text: Seq<char>, members: ResponseMembersModel) -> Option<
    (ResponseMembersModel, Seq<char>),
>
    decreases text.len(),
{
    match parse_response_member(text, members) {
        None => None,
        Some((longer, rest)) => match expect(rest, ',') {
            Some(more) => if more.len() < text.len() {
                parse_response_members(more, longer)
            } else {
                None
            },
            None => match expect(rest, '}') {
                Some(behind) => Some((longer, behind)),
                None => None,
            },
        },
    }
}

/// The envelope of a response that a line denotes: an object with the
/// identifier of the request, whether the stream ends and, optionally, the
/// error, in any order, and nothing but blanks behind it. An envelope
/// without a member for the error carries none.
pub open spec fn parse_response_envelope(line: Seq<char>) -> Option<ResponseEnvelopeModel> {
    match expect(line, '{') {
        None => None,
        Some(inside) => match parse_response_members(inside, no_response_members()) {
            None => None,
            Some((members, behind)) => if skip_blanks(behind).len() == 0
                && members.request_id is Some && members.stream_end is Some {
                Some(
                    ResponseEnvelopeModel {
                        request_id: members.request_id.unwrap(),
                        error: match members.error {
                            Some(error) => error,
                            None => None,
                        },
                        stream_end: members.stream_end.unwrap(),
                    },
                )
            } else {
                None
            },
        },
    }
}

fn error_at(chars: &Vec<char>, at: usize) -> (found: Option<(Option<RpcError>, usize)>)
    requires
        at <= chars.len(),
    ensures
        match found {
            Some((error, next)) => at <= next <= chars.len() && parse_error(chars@.skip(at as int))
                == Some((error_option_view(error), chars@.skip(next as int))),
            None => parse_error(chars@.skip(at as int)) is None,
        },
{
    match word_at(chars, at, "null") {
        Some(rest) => {
            return Some((None, rest));
        },
        None => {},
    }
    let inside = match expected(chars, at, '{') {
        Some(inside) => inside,
        None => {
            return None;
        },
    };
    let (name, behind) = match string_at(chars, inside) {
        Some(found) => found,
        None => {
            return None;
        },
    };
    let value = match expected(chars, behind, ':') {
        Some(value) => value,
        None => {
            return None;
        },
    };
    let (message, closing) = match string_at(chars, value) {
        Some(found) => found,
        None => {
            return None;
        },
    };
    let rest = match expected(chars, closing, '}') {
        Some(rest) => rest,
        None => {
            return None;
        },
    };
    let name = string_of(&name);
    let message = string_of(&message);
    if str_eq(name.as_str(), "SerializationFailed") {
        Some((Some(RpcError::SerializationFailed(message)), rest))
    } else if str_eq(name.as_str(), "IoError") {
        Some((Some(RpcError::IoError(message)), rest))
    } else if str_eq(name.as_str(), "Custom") {
        Some((Some(RpcError::Custom(message)), rest))
    } else {
        None
    }
}

fn bool_at(chars: &Vec<char>, at: usize) -> (found: Option<(bool, usize)>)
    requires
        at <= chars.len(),
    ensures
        match found {
            Some((value, next)) => at <= next <= chars.len() && parse_bool(chars@.skip(at as int))
                == Some((value, chars@.skip(next as int))),
            None => parse_bool(chars@.skip(at as int)) is None,
        },
{
    match word_at(chars, at, "true") {
        Some(rest) => Some((true, rest)),
        None => match word_at(chars, at, "false") {
            Some(rest) => Some((false, rest)),
            None => None,
        },
    }
}

/// The fields that have been read of the envelope of a response.
struct ResponseMembers {
    request_id: Option<u64>,
    error: Option<Option<RpcError>>,
    stream_end: Option<bool>,
}

impl View for ResponseMembers {
    type V = ResponseMembersModel;

    closed spec fn view(&self) -> ResponseMembersModel {
        ResponseMembersModel {
            request_id: self.request_id,
            error: match self.error {
                Some(error) => Some(error_option_view(error)),
                None => None,
            },
            stream_end: self.stream_end,
        }
    }
}

fn response_member_at(chars: &Vec<char>, at: usize, members: ResponseMembers) -> (found: Option<
    (ResponseMembers, usize),
>)
    requires
        at <= chars.len(),
    ensures
        match found {
            Some((longer, next)) => at < next <= chars.len() && parse_response_member(
                chars@.skip(at as int),
                members@,
            ) == Some((longer@, chars@.skip(next as int))),
            None => parse_response_member(chars@.skip(at as int), members@) is None,
        },
{
    let (name, behind) = match string_at(chars, at) {
        Some(found) => found,
        None => {
            return None;
        },
    };
    let value = match expected(chars, behind, ':') {
        Some(value) => value,
        None => {
            return None;
        },
    };
    let name = string_of(&name);
    let mut members = members;
    if str_eq(name.as_str(), "request_id") {
        match number_at(chars, value, u64::MAX) {
            Some((id, rest)) => {
                if members.request_id.is_some() {
                    return None;
                }
                members.request_id = Some(id);
                Some((members, rest))
            },
            None => None,
        }
    } else if str_eq(name.as_str(), "error") {
        match error_at(chars, value) {
            Some((error, rest)) => {
                if members.error.is_some() {
                    return None;
                }
                members.error = Some(error);
                Some((members, rest))
            },
            None => None,
        }
    } else if str_eq(name.as_str(), "stream_end") {
        match bool_at(chars, value) {
            Some((stream_end, rest)) => {
                if members.stream_end.is_some() {
                    return None;
                }
                members.stream_end = Some(stream_end);
                Some((members, rest))
            },
            None => None,
        }
    } else {
        None
    }
}

fn response_members_at(chars: &Vec<char>, at: usize) -> (found: Option<(ResponseMembers, usize)>)
    requires
        at <= chars.len(),
    ensures
        match found {
            Some((members, next)) => at < next <= chars.len() && parse_response_members(
                chars@.skip(at as int),
                no_response_members(),
            ) == Some((members@, chars@.skip(next as int))),
            None => parse_response_members(chars@.skip(at as int), no_response_members()) is None,
        },
{
    let mut members = ResponseMembers { request_id: None, error: None, stream_end: None };
    let ghost wanted = parse_response_members(chars@.skip(at as int), members@);
    let mut cursor = at;
    loop
        invariant
            at <= cursor <= chars.len(),
            wanted == parse_response_members(chars@.skip(at as int), no_response_members()),
            wanted == parse_response_members(chars@.skip(cursor as int), members@),
        decreases chars.len() - cursor,
    {
        let (longer, next) = match response_member_at(chars, cursor, members) {
            Some(found) => found,
            None => {
                return None;
            },
        };
        members = longer;
        match expected(chars, next, ',') {
            Some(more) => {
                cursor = more;
            },
            None => {
                match expected(chars, next, '}') {
                    Some(behind) => {
                        return Some((members, behind));
                    },
                    None => {
                        return None;
                    },
                }
            },
        }
    }
}

/// Reads the envelope of a response from a line.
pub fn decode_response_envelope(line: &str) -> (decoded: Result<ResponseEnvelope, RpcError>)
    ensures
        match decoded {
            Ok(envelope) => parse_response_envelope(line@) == Some(envelope@),
            Err(error) => error@ == no_envelope_error() && parse_response_envelope(line@) is None,
        },
{
    let chars = characters(line);
    assert(chars@.skip(0) =~= line@);
    let inside = match expected(&chars, 0, '{') {
        Some(inside) => inside,
        None => {
            return Err(no_envelope());
        },
    };
    let (members, behind) = match response_members_at(&chars, inside) {
        Some(found) => found,
        None => {
            return Err(no_envelope());
        },
    };
    if blanks(&chars, behind) < chars.len() {
        return Err(no_envelope());
    }
    let ResponseMembers { request_id, error, stream_end } = members;
    match (request_id, stream_end) {
        (Some(request_id), Some(stream_end)) => Ok(
            ResponseEnvelope {
                request_id,
                error: match error {
                    Some(error) => error,
                    None => None,
                },
                stream_end,
            },
        ),
        _ => Err(no_envelope()),
    }
}

/// What the reader of a client does with an answer.
#[derive(Debug, Clone, Copy, PartialEq, Eq, Structural)]
pub struct Delivery {
    /// Whether a line with the response follows the envelope.
    pub reads_response: bool,
    /// Whether the answer is handed to the caller that waits for it;
    /// otherwise nobody waits and it is dropped.
    pub delivered: bool,
}

/// What is done with the envelope of an answer, and the calls that wait
/// afterwards. An envelope with an error has no response line and goes to
/// the unary call that waits for it, which then waits no longer; a stream
/// is not told of it. Every other envelope has a response line and goes to
/// the unary call, which then waits no longer, or to the stream, which
/// goes on waiting.
pub open spec fn deliver(waiting: Map<u64, Pending>, envelope: ResponseEnvelopeModel) -> (
    Map<u64, Pending>,
    Delivery,
) {
    let id = envelope.request_id;
    let unary = waiting.dom().contains(id) && !waiting[id].0;
    let reads_response = envelope.error is None;
    if unary {
        (waiting.remove(id), Delivery { reads_response, delivered: true })
    } else if reads_response && waiting.dom().contains(id) {
        (waiting.insert(id, (true, true)), Delivery { reads_response, delivered: true })
    } else {
        (waiting, Delivery { reads_response, delivered: false })
    }
}

/// The side of the line protocol that makes calls: the calls that wait for
/// an answer.
pub struct DefaultRawRpcClient {
    calls: DashMap<u64, Pending>,
}

impl DefaultRawRpcClient {
    /// The calls that wait for an answer; a streaming call is marked as
    /// such.
    pub closed spec fn waiting(&self) -> Map<u64, Pending> {
        table_entries(self.calls)
    }

    /// A client for which no call waits.
    pub fn new() -> (client: Self)
        ensures
            client.waiting() == empty_table(),
    {
        DefaultRawRpcClient { calls: table_new() }
    }

    /// Makes a unary call: the call waits for its answer, and the lines to
    /// send come back. Metadata and request are JSON already.
    pub fn send_rpc(&mut self, id: u64, method_name: &str, request: &str, metadata: &str) -> (lines:
        String)
        ensures
            final(self).waiting() == old(self).waiting().insert(id, (false, false)),
            lines@ == request_lines(
                RequestEnvelopeModel { method_name: method_name@, request_id: id },
                metadata@,
                request@,
            ),
    {
        table_insert(&mut self.calls, id, (false, false));
        send_raw_request(
            &RequestEnvelope { method_name: method_name.to_owned(), request_id: id },
            metadata,
            request,
        )
    }

    /// Makes a streaming call: the call waits for its answers, and the lines
    /// to send come back.
    pub fn send_rpc_stream_request(
        &mut self,
        id: u64,
        method_name: &str,
        request: &str,
        metadata: &str,
    ) -> (lines: String)
        ensures
            final(self).waiting() == old(self).waiting().insert(id, (true, false)),
            lines@ == request_lines(
                RequestEnvelopeModel { method_name: method_name@, request_id: id },
                metadata@,
                request@,
            ),
    {
        table_insert(&mut self.calls, id, (true, false));
        send_raw_request(
            &RequestEnvelope { method_name: method_name.to_owned(), request_id: id },
            metadata,
            request,
        )
    }

    /// Decides what to do with the envelope of an answer that came in.
    pub fn client_response_task(&mut self, envelope: &ResponseEnvelope) -> (delivery: Delivery)
        ensures
            (final(self).waiting(), delivery) == deliver(old(self).waiting(), envelope@),
    {
        let id = envelope.request_id;
        let reads_response = envelope.error.is_none();
        match table_get(&self.calls, id) {
            Some((false, _)) => {
                table_remove(&mut self.calls, id);
                Delivery { reads_response, delivered: true }
            },
            Some((true, _)) => {
                if reads_response {
                    table_insert(&mut self.calls, id, (true, true));
                    Delivery { reads_response, delivered: true }
                } else {
                    Delivery { reads_response, delivered: false }
                }
            },
            None => Delivery { reads_response, delivered: false },
        }
    }
}

/// The result of a unary call for the answer that came: the error of the
/// envelope, or the response line; an answer without either is an error.
pub open spec fn call_result(envelope: ResponseEnvelopeModel, response: Option<Seq<char>>) -> Result<
    Seq<char>,
    RpcErrorModel,
> {
    match envelope.error {
        Some(error) => Err(error),
        None => match response {
            Some(line) => Ok(line),
            None => Err(RpcErrorModel::Custom("No response"@)),
        },
    }
}

/// Turns the answer to a unary call into its result. The response is JSON
/// and is decoded by the caller.
pub fn rpc_result(envelope: ResponseEnvelope, response: Option<String>) -> (result: Result<
    String,
    RpcError,
>)
    ensures
        response_view(result) == call_result(
            envelope@,
            match response {
                Some(line) => Some(line@),
                None => None,
            },
        ),
{
    match envelope.error {
        Some(error) => Err(error),
        None => match response {
            Some(line) => Ok(line),
            None => Err(RpcError::Custom(String::from_str("No response"))),
        },
    }
}

/// What the consumer of a stream yields for an answer: nothing for the one
/// that ends the stream, else the result of the answer.
pub open spec fn stream_item(envelope: ResponseEnvelopeModel, response: Option<Seq<char>>) -> Option<
    Result<Seq<char>, RpcErrorModel>,
> {
    if envelope.stream_end {
        None
    } else {
        Some(call_result(envelope, response))
    }
}

/// Turns an answer to a streaming call into the next item of the stream;
/// `None` ends the stream.
pub fn rpc_stream_item(envelope: ResponseEnvelope, response: Option<String>) -> (item: Option<
    Result<String, RpcError>,
>)
    ensures
        match item {
            Some(result) => stream_item(
                envelope@,
                match response {
                    Some(line) => Some(line@),
                    None => None,
                },
            ) == Some(response_view(result)),
            None => envelope.stream_end,
        },
{
    if envelope.stream_end {
        None
    } else {
        Some(rpc_result(envelope, response))
    }
}

} // verus!
