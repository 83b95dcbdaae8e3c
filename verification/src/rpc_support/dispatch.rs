//! The dispatcher of one direction of an interface: which method a request
//! names, and the frames that answer a request.
//!
//! A unary call is answered by one frame: a response item or an error. A
//! streaming call is answered by its items in order and an end marker; an
//! item that is an error ends the response in place of the marker, and a
//! stream that could not be made is answered by one error frame. A request
//! for a method that the interface does not have is answered by one error
//! frame that carries the generic error.

use vstd::prelude::*;
use vstd::string::*;
use crate::message_compiler::type_checking::{TypedRpcCall, TypedRpcCallModel, typed_calls_view};
use crate::rpc_support::wire_format::{
    Frame, FrameModel, Request, RequestId, ResponseEndStream, ResponseError, ResponseOk, frames_view,
};
use crate::text::{copy_bytes, str_eq};

verus! {

/// The name of a call.
pub open spec fn call_name(call: TypedRpcCallModel) -> Seq<char> {
    match call {
        TypedRpcCallModel::Stream { name, .. } => name,
        TypedRpcCallModel::Unary { name, .. } => name,
    }
}

/// Whether a call answers with a stream.
pub open spec fn call_streams(call: TypedRpcCallModel) -> bool {
    call is Stream
}

/// The first call of the interface that has the given name.
pub open spec fn find_call(calls: Seq<TypedRpcCallModel>, method_name: Seq<char>) -> Option<int> {
    if exists|i: int| 0 <= i < calls.len() && call_name(calls[i]) == method_name {
        Some(
            choose|i: int|
                0 <= i < calls.len() && call_name(calls[i]) == method_name && forall|j: int|
                    0 <= j < i ==> call_name(calls[j]) != method_name,
        )
    } else {
        None
    }
}

/// The encoded form of the error without content that answers what the
/// dispatcher cannot serve: an empty object.
pub open spec fn generic_error_bytes() -> Seq<u8> {
    seq![0x7Bu8, 0x7Du8]
}

/// The payload of the generic error.
pub fn generic_error() -> (data: Vec<u8>)
    ensures
        data@ == generic_error_bytes(),
{
    let mut data: Vec<u8> = Vec::new();
    data.push(0x7Bu8);
    data.push(0x7Du8);
    assert(data@ =~= generic_error_bytes());
    data
}

/// The frame that carries one response item.
pub fn response_ok(request_id: RequestId, data: Vec<u8>) -> (frame: Frame)
    ensures
        frame@ == (FrameModel::ResponseOk { request_id: request_id@, data: data@ }),
{
    Frame::ResponseOk(ResponseOk { request_id, data })
}

/// The frame that ends a request with an error.
pub fn response_error(request_id: RequestId, data: Vec<u8>) -> (frame: Frame)
    ensures
        frame@ == (FrameModel::ResponseError { request_id: request_id@, data: data@ }),
{
    Frame::ResponseError(ResponseError { request_id, data })
}

/// The frame that ends a streaming response.
pub fn response_end_stream(request_id: RequestId) -> (frame: Frame)
    ensures
        frame@ == (FrameModel::ResponseEndStream { request_id: request_id@ }),
{
    Frame::ResponseEndStream(ResponseEndStream { request_id })
}

/// The frame that answers a unary call.
pub open spec fn unary_frame(request_id: u64, result: Result<Seq<u8>, Seq<u8>>) -> FrameModel {
    match result {
        Ok(data) => FrameModel::ResponseOk { request_id, data },
        Err(data) => FrameModel::ResponseError { request_id, data },
    }
}

/// The frames that answer a streaming call whose stream yields `items`.
pub open spec fn stream_frames(request_id: u64, items: Seq<Result<Seq<u8>, Seq<u8>>>) -> Seq<
    FrameModel,
>
    decreases items.len(),
{
    if items.len() == 0 {
        seq![FrameModel::ResponseEndStream { request_id }]
    } else {
        match items[0] {
            Ok(data) => seq![FrameModel::ResponseOk { request_id, data }] + stream_frames(
                request_id,
                items.drop_first(),
            ),
            Err(data) => seq![FrameModel::ResponseError { request_id, data }],
        }
    }
}

/// The frames that answer a streaming call: those of its stream, or one
/// error frame where the handler could not make the stream.
pub open spec fn stream_outcome_frames(
    request_id: u64,
    outcome: Result<Seq<Result<Seq<u8>, Seq<u8>>>, Seq<u8>>,
) -> Seq<FrameModel> {
    match outcome {
        Ok(items) => stream_frames(request_id, items),
        Err(data) => seq![FrameModel::ResponseError { request_id, data }],
    }
}

pub open spec fn result_view(result: Result<Vec<u8>, Vec<u8>>) -> Result<Seq<u8>, Seq<u8>> {
    match result {
        Ok(data) => Ok(data@),
        Err(data) => Err(data@),
    }
}

pub open spec fn results_view(items: Seq<Result<Vec<u8>, Vec<u8>>>) -> Seq<Result<Seq<u8>, Seq<u8>>> {
    Seq::new(items.len(), |i: int| result_view(items[i]))
}

/// Answers a unary call with the result of its handler.
pub fn unary_response_frames(request_id: RequestId, result: Result<Vec<u8>, Vec<u8>>) -> (frames:
    Vec<Frame>)
    ensures
        frames_view(frames@) == seq![unary_frame(request_id@, result_view(result))],
{
    let mut frames: Vec<Frame> = Vec::new();
    match result {
        Ok(data) => frames.push(response_ok(request_id, data)),
        Err(data) => frames.push(response_error(request_id, data)),
    }
    assert(frames_view(frames@) =~= seq![unary_frame(request_id@, result_view(result))]);
    frames
}

/// The frame for what the stream of a streaming call has yielded next, and
/// whether the response ends with it: an item goes on, an error ends the
/// response, and so does the end of the stream.
pub open spec fn stream_step(request_id: u64, item: Option<Result<Seq<u8>, Seq<u8>>>) -> (
    FrameModel,
    bool,
) {
    match item {
        Some(Ok(data)) => (FrameModel::ResponseOk { request_id, data }, false),
        Some(Err(data)) => (FrameModel::ResponseError { request_id, data }, true),
        None => (FrameModel::ResponseEndStream { request_id }, true),
    }
}

pub open spec fn item_view(item: Option<Result<Vec<u8>, Vec<u8>>>) -> Option<
    Result<Seq<u8>, Seq<u8>>,
> {
    match item {
        Some(result) => Some(result_view(result)),
        None => None,
    }
}

/// Answers one step of a streaming call: `item` is what the stream of the
/// handler has yielded, or `None` when it has ended. The frame is to be
/// sent; where the flag is set nothing more is taken from the stream.
pub fn stream_item_frame(request_id: RequestId, item: Option<Result<Vec<u8>, Vec<u8>>>) -> (step: (
    Frame,
    bool,
))
    ensures
        step.0@ == stream_step(request_id@, item_view(item)).0,
        step.1 == stream_step(request_id@, item_view(item)).1,
        step.1 == !(item matches Some(Ok(_))),
{
    match item {
        Some(Ok(data)) => (response_ok(request_id, data), false),
        Some(Err(data)) => (response_error(request_id, data), true),
        None => (response_end_stream(request_id), true),
    }
}

/// The first item of what the stream yields, or nothing where it yields no
/// more.
pub open spec fn first_item(items: Seq<Result<Seq<u8>, Seq<u8>>>) -> Option<
    Result<Seq<u8>, Seq<u8>>,
> {
    if items.len() == 0 {
        None
    } else {
        Some(items[0])
    }
}

/// The frames of a streaming response are those of its steps: the frame of
/// the first step, and, unless that step ends the response, the frames for
/// what the stream yields after it.
pub proof fn lemma_stream_is_answered_step_by_step(
    request_id: u64,
    items: Seq<Result<Seq<u8>, Seq<u8>>>,
)
    ensures
        stream_frames(request_id, items) == if stream_step(request_id, first_item(items)).1 {
            seq![stream_step(request_id, first_item(items)).0]
        } else {
            seq![stream_step(request_id, first_item(items)).0] + stream_frames(
                request_id,
                items.drop_first(),
            )
        },
{
}

/// Answers a streaming call with the items that its stream yielded, in
/// order, up to the first one that is an error.
pub fn stream_item_frames(request_id: RequestId, items: &[Result<Vec<u8>, Vec<u8>>]) -> (frames:
    Vec<Frame>)
    ensures
        frames_view(frames@) == stream_frames(request_id@, results_view(items@)),
{
    let ghost models = results_view(items@);
    let mut frames: Vec<Frame> = Vec::new();
    let mut i: usize = 0;
    assert(frames_view(frames@) =~= Seq::<FrameModel>::empty());
    assert(models.skip(0) =~= models);
    while i < items.len()
        invariant
            i <= items.len(),
            models == results_view(items@),
            stream_frames(request_id@, models) == frames_view(frames@) + stream_frames(
                request_id@,
                models.skip(i as int),
            ),
        decreases items.len() - i,
    {
        let ghost before = frames_view(frames@);
        let ghost rest = models.skip(i as int);
        assert(rest[0] == result_view(items[i as int]));
        assert(rest.drop_first() =~= models.skip(i + 1));
        match &items[i] {
            Ok(data) => {
                frames.push(response_ok(request_id, copy_bytes(data)));
                assert(frames_view(frames@) =~= before.push(
                    FrameModel::ResponseOk { request_id: request_id@, data: data@ },
                ));
                assert(before + (seq![FrameModel::ResponseOk { request_id: request_id@, data: data@ }]
                    + stream_frames(request_id@, models.skip(i + 1))) =~= before.push(
                    FrameModel::ResponseOk { request_id: request_id@, data: data@ },
                ) + stream_frames(request_id@, models.skip(i + 1)));
            },
            Err(data) => {
                frames.push(response_error(request_id, copy_bytes(data)));
                assert(frames_view(frames@) =~= before + seq![
                    FrameModel::ResponseError { request_id: request_id@, data: data@ },
                ]);
                return frames;
            },
        }
        i += 1;
    }
    let ghost before = frames_view(frames@);
    assert(models.skip(items.len() as int).len() == 0);
    frames.push(response_end_stream(request_id));
    assert(frames_view(frames@) =~= before + seq![
        FrameModel::ResponseEndStream { request_id: request_id@ },
    ]);
    frames
}

pub open spec fn outcome_view(outcome: Result<Vec<Result<Vec<u8>, Vec<u8>>>, Vec<u8>>) -> Result<
    Seq<Result<Seq<u8>, Seq<u8>>>,
    Seq<u8>,
> {
    match outcome {
        Ok(items) => Ok(results_view(items@)),
        Err(data) => Err(data@),
    }
}

/// Answers a streaming call with what its handler returned.
pub fn stream_response_frames(
    request_id: RequestId,
    outcome: Result<Vec<Result<Vec<u8>, Vec<u8>>>, Vec<u8>>,
) -> (frames: Vec<Frame>)
    ensures
        frames_view(frames@) == stream_outcome_frames(request_id@, outcome_view(outcome)),
{
    match outcome {
        Ok(items) => stream_item_frames(request_id, items.as_slice()),
        Err(data) => {
            let ghost error = data@;
            let mut frames: Vec<Frame> = Vec::new();
            frames.push(response_error(request_id, data));
            assert(frames_view(frames@) =~= seq![
                FrameModel::ResponseError { request_id: request_id@, data: error },
            ]);
            frames
        },
    }
}

/// The model of what a dispatcher decides for a request.
pub ghost enum DispatchModel {
    Unary { call: int },
    Stream { call: int },
    Unknown { frames: Seq<FrameModel> },
}

/// What a dispatcher decides for a request.
#[derive(Debug, PartialEq, Eq)]
pub enum Dispatch {
    /// The request names the unary call at index `call`: invoke its handler
    /// and answer with [`unary_response_frames`].
    Unary { call: usize },
    /// The request names the streaming call at index `call`: invoke its
    /// handler and answer with [`stream_response_frames`].
    Stream { call: usize },
    /// The request names no call of the interface: answer with `frames`.
    Unknown { frames: Vec<Frame> },
}

impl View for Dispatch {
    type V = DispatchModel;

    open spec fn view(&self) -> DispatchModel {
        match self {
            Dispatch::Unary { call } => DispatchModel::Unary { call: *call as int },
            Dispatch::Stream { call } => DispatchModel::Stream { call: *call as int },
            Dispatch::Unknown { frames } => DispatchModel::Unknown { frames: frames_view(frames@) },
        }
    }
}

/// The decision for a request: the first call that has the name of its
/// method, or one error frame with the generic error.
pub open spec fn dispatch_decision(calls: Seq<TypedRpcCallModel>, request: FrameModel) -> DispatchModel
    recommends
        request is Request,
{
    match find_call(calls, request->method_name) {
        Some(call) => if call_streams(calls[call]) {
            DispatchModel::Stream { call }
        } else {
            DispatchModel::Unary { call }
        },
        None => DispatchModel::Unknown {
            frames: seq![
                FrameModel::ResponseError { request_id: request->id, data: generic_error_bytes() },
            ],
        },
    }
}

/// Decides what to do with a request of the peer.
pub fn dispatch(calls: &[TypedRpcCall], request: &Request) -> (decision: Dispatch)
    ensures
        decision@ == dispatch_decision(typed_calls_view(calls@), request@),
{
    let ghost models = typed_calls_view(calls@);
    let mut i: usize = 0;
    while i < calls.len()
        invariant
            i <= calls.len(),
            models == typed_calls_view(calls@),
            forall|j: int| 0 <= j < i ==> call_name(models[j]) != request.method_name@,
        decreases calls.len() - i,
    {
        assert(models[i as int] == calls[i as int]@);
        match &calls[i] {
            TypedRpcCall::Unary { name, .. } => {
                if str_eq(name.as_str(), request.method_name.as_str()) {
                    assert(call_name(models[i as int]) == request.method_name@);
                    proof {
                        lemma_first_call(models, request.method_name@, i as int);
                    }
                    return Dispatch::Unary { call: i };
                }
            },
            TypedRpcCall::Stream { name, .. } => {
                if str_eq(name.as_str(), request.method_name.as_str()) {
                    assert(call_name(models[i as int]) == request.method_name@);
                    proof {
                        lemma_first_call(models, request.method_name@, i as int);
                    }
                    return Dispatch::Stream { call: i };
                }
            },
        }
        i += 1;
    }
    let mut frames: Vec<Frame> = Vec::new();
    frames.push(response_error(request.id, generic_error()));
    assert(frames_view(frames@) =~= seq![
        FrameModel::ResponseError { request_id: request.id@, data: generic_error_bytes() },
    ]);
    Dispatch::Unknown { frames }
}

/// The first call with a name is the one that `find_call` gives.
pub proof fn lemma_first_call(calls: Seq<TypedRpcCallModel>, method_name: Seq<char>, at: int)
    requires
        0 <= at < calls.len(),
        call_name(calls[at]) == method_name,
        forall|j: int| 0 <= j < at ==> call_name(calls[j]) != method_name,
    ensures
        find_call(calls, method_name) == Some(at),
{
    let found = choose|i: int|
        0 <= i < calls.len() && call_name(calls[i]) == method_name && forall|j: int|
            0 <= j < i ==> call_name(calls[j]) != method_name;
    assert(0 <= found < calls.len() && call_name(calls[found]) == method_name && forall|j: int|
        0 <= j < found ==> call_name(calls[j]) != method_name);
    if found < at {
    } else if found > at {
    }
}

} // verus!
