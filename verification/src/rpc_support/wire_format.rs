//! The frames that two peers exchange.

use vstd::prelude::*;
use vstd::string::*;
use crate::text::{decimal, decimal_text};

verus! {

/// The identifier that ties the responses of a request to the request.
#[derive(Debug, Clone, Copy, PartialEq, Eq, Hash, Structural)]
pub struct RequestId(pub u64);

impl View for RequestId {
    type V = u64;

    open spec fn view(&self) -> u64 {
        self.0
    }
}

impl RequestId {
    #[must_use]
    pub fn new(value: u64) -> (id: Self)
        ensures
            id@ == value,
    {
        Self(value)
    }

    /// The number behind the identifier.
    #[must_use]
    pub fn value(&self) -> (value: u64)
        ensures
            value == self@,
    {
        self.0
    }

    /// The identifier as it is shown in messages: `(request 7)`.
    pub fn to_string(&self) -> (text: String)
        ensures
            text@ == "(request "@ + decimal_text(self@ as nat) + ")"@,
    {
        let mut text = String::from_str("(request ");
        let number = decimal(self.0);
        text.append(number.as_str());
        text.append(")");
        text
    }
}

/// The model of a frame: identifiers as numbers, names and payloads as
/// sequences.
pub ghost enum FrameModel {
    Request { id: u64, method_name: Seq<char>, data: Seq<u8> },
    ResponseOk { request_id: u64, data: Seq<u8> },
    ResponseError { request_id: u64, data: Seq<u8> },
    ResponseEndStream { request_id: u64 },
}

/// A call of a method with an encoded request body.
#[derive(Debug, Clone, PartialEq, Eq)]
pub struct Request {
    pub id: RequestId,
    pub method_name: String,
    pub data: Vec<u8>,
}

impl View for Request {
    type V = FrameModel;

    open spec fn view(&self) -> FrameModel {
        FrameModel::Request { id: self.id@, method_name: self.method_name@, data: self.data@ }
    }
}

/// One successful response item: the only one of a unary call, one of many
/// of a streaming call.
#[derive(Debug, Clone, PartialEq, Eq)]
pub struct ResponseOk {
    pub request_id: RequestId,
    pub data: Vec<u8>,
}

impl View for ResponseOk {
    type V = FrameModel;

    open spec fn view(&self) -> FrameModel {
        FrameModel::ResponseOk { request_id: self.request_id@, data: self.data@ }
    }
}

/// The error that ends a request.
#[derive(Debug, Clone, PartialEq, Eq)]
pub struct ResponseError {
    pub request_id: RequestId,
    pub data: Vec<u8>,
}

impl View for ResponseError {
    type V = FrameModel;

    open spec fn view(&self) -> FrameModel {
        FrameModel::ResponseError { request_id: self.request_id@, data: self.data@ }
    }
}

/// The marker that ends a streaming response.
#[derive(Debug, Clone, PartialEq, Eq)]
pub struct ResponseEndStream {
    pub request_id: RequestId,
}

impl View for ResponseEndStream {
    type V = FrameModel;

    open spec fn view(&self) -> FrameModel {
        FrameModel::ResponseEndStream { request_id: self.request_id@ }
    }
}

/// The unit on the wire.
#[derive(Debug, Clone, PartialEq, Eq)]
pub enum Frame {
    Request(Request),
    ResponseOk(ResponseOk),
    ResponseError(ResponseError),
    ResponseEndStream(ResponseEndStream),
}

impl View for Frame {
    type V = FrameModel;

    open spec fn view(&self) -> FrameModel {
        match self {
            Frame::Request(request) => request@,
            Frame::ResponseOk(response) => response@,
            Frame::ResponseError(response) => response@,
            Frame::ResponseEndStream(response) => response@,
        }
    }
}

pub open spec fn frames_view(frames: Seq<Frame>) -> Seq<FrameModel> {
    Seq::new(frames.len(), |i: int| frames[i]@)
}

} // verus!
