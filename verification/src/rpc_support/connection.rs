//! The connection core: the table of pending requests, the request sender
//! and the routing of inbound frames.
//!
//! Nothing here reads or writes a byte stream. The sender hands out the frame
//! to put on the wire, the router says what to do with a frame that came in,
//! and the program around the library moves the frames.

use vstd::prelude::*;
use vstd::string::*;
use dashmap::DashMap;
use crate::rpc_support::wire_format::{
    Frame, FrameModel, Request, RequestId, ResponseEndStream, ResponseError, ResponseOk,
    frames_view,
};

verus! {

/// The concurrent map of the `dashmap` crate. Nothing of what is inside it
/// is known here; what a table holds is told by [`table_entries`].
#[verifier::external_type_specification]
#[verifier::external_body]
#[verifier::reject_recursive_types(K)]
#[verifier::reject_recursive_types(V)]
#[verifier::reject_recursive_types(S)]
pub struct ExDashMap<K, V, S>(DashMap<K, V, S>);

/// Of a pending request: whether it is a streaming one, and whether a
/// response item has been delivered for it.
pub type Pending = (bool, bool);

/// What a table of pending requests holds, by request identifier.
pub uninterp spec fn table_entries(table: DashMap<u64, Pending>) -> Map<u64, Pending>;

/// The table that holds nothing.
pub open spec fn empty_table() -> Map<u64, Pending> {
    Map::empty()
}

/// Calls `DashMap::new`: the new table holds nothing.
#[verifier::external_body]
pub(crate) fn table_new() -> (created: DashMap<u64, Pending>)
    ensures
        table_entries(created) == empty_table(),
{
    DashMap::new()
}

/// Calls `DashMap::insert`: the entry under `key` is `value` afterwards and
/// the other entries stay.
#[verifier::external_body]
pub(crate) fn table_insert(table: &mut DashMap<u64, Pending>, key: u64, value: Pending)
    ensures
        table_entries(*final(table)) == table_entries(*old(table)).insert(key, value),
{
    table.insert(key, value);
}

/// Calls `DashMap::get` and copies the value out of the guard: the value
/// under `key`, if there is one.
#[verifier::external_body]
pub(crate) fn table_get(table: &DashMap<u64, Pending>, key: u64) -> (found: Option<Pending>)
    ensures
        found == if table_entries(*table).dom().contains(key) {
            Some(table_entries(*table)[key])
        } else {
            None
        },
{
    table.get(&key).map(|entry| *entry.value())
}

/// Calls `DashMap::remove`: no entry stands under `key` afterwards and the
/// other entries stay.
#[verifier::external_body]
pub(crate) fn table_remove(table: &mut DashMap<u64, Pending>, key: u64)
    ensures
        table_entries(*final(table)) == table_entries(*old(table)).remove(key),
{
    table.remove(&key);
}

/// Calls `DashMap::clear`: the table holds nothing afterwards.
#[verifier::external_body]
pub(crate) fn table_clear(table: &mut DashMap<u64, Pending>)
    ensures
        table_entries(*final(table)) == empty_table(),
{
    table.clear();
}

/// How many frames the inbound and the outbound queue of a connection
/// hold.
pub const CHANNEL_CAPACITY: usize = 64;

/// How many responses the queue of a unary request holds.
pub const UNARY_QUEUE_CAPACITY: usize = 1;

/// How many responses the queue of a streaming request holds.
pub const STREAM_QUEUE_CAPACITY: usize = 64;

/// Why a request did not come to a result.
#[derive(Debug, PartialEq, Eq)]
pub enum Error {
    /// The response ended before a result came, or the connection was lost.
    UnexpectedEndOfStream,
}

/// A frame that answers a request.
#[derive(Debug, PartialEq, Eq)]
pub enum ResponseFrame {
    Item(ResponseOk),
    Error(ResponseError),
    EndStream(ResponseEndStream),
}

impl View for ResponseFrame {
    type V = FrameModel;

    open spec fn view(&self) -> FrameModel {
        match self {
            ResponseFrame::Item(response) => response@,
            ResponseFrame::Error(response) => response@,
            ResponseFrame::EndStream(response) => response@,
        }
    }
}

/// The request that a response frame answers; `None` for a request frame.
pub open spec fn response_target(frame: FrameModel) -> Option<u64> {
    match frame {
        FrameModel::Request { .. } => None,
        FrameModel::ResponseOk { request_id, .. } => Some(request_id),
        FrameModel::ResponseError { request_id, .. } => Some(request_id),
        FrameModel::ResponseEndStream { request_id } => Some(request_id),
    }
}

/// Whether a response frame is the last one of its request: an error or an
/// end marker always, a response item where the request is unary.
pub open spec fn ends_request(frame: FrameModel, streaming: bool) -> bool {
    match frame {
        FrameModel::Request { .. } => false,
        FrameModel::ResponseOk { .. } => !streaming,
        FrameModel::ResponseError { .. } => true,
        FrameModel::ResponseEndStream { .. } => true,
    }
}

/// The model of what the router does with a frame.
pub ghost enum RoutingModel {
    Dispatch(FrameModel),
    Deliver { response: FrameModel, done: bool },
    Unregistered(u64),
}

/// What the router does with a frame that came in.
#[derive(Debug, PartialEq, Eq)]
pub enum Routing {
    /// A request of the peer: hand it to the dispatcher.
    Dispatch(Request),
    /// A response to a pending request: hand it to the consumer of that
    /// request. With `done` the request is no longer pending.
    Deliver { response: ResponseFrame, done: bool },
    /// A response to a request that is not pending: drop it.
    Unregistered(RequestId),
}

impl View for Routing {
    type V = RoutingModel;

    open spec fn view(&self) -> RoutingModel {
        match self {
            Routing::Dispatch(request) => RoutingModel::Dispatch(request@),
            Routing::Deliver { response, done } => RoutingModel::Deliver {
                response: response@,
                done: *done,
            },
            Routing::Unregistered(id) => RoutingModel::Unregistered(id@),
        }
    }
}

/// One step of the router: the pending requests afterwards and what is done
/// with the frame. A response is delivered where its request is pending, and
/// the request stops being pending with its last frame.
pub open spec fn route_step(pending: Map<u64, Pending>, frame: FrameModel) -> (
    Map<u64, Pending>,
    RoutingModel,
) {
    match response_target(frame) {
        None => (pending, RoutingModel::Dispatch(frame)),
        Some(id) => if pending.dom().contains(id) {
            if ends_request(frame, pending[id].0) {
                (pending.remove(id), RoutingModel::Deliver { response: frame, done: true })
            } else {
                (
                    pending.insert(id, (pending[id].0, true)),
                    RoutingModel::Deliver { response: frame, done: false },
                )
            }
        } else {
            (pending, RoutingModel::Unregistered(id))
        },
    }
}

/// The pending requests after the router has seen `frames`, in order.
pub open spec fn pending_after(pending: Map<u64, Pending>, frames: Seq<FrameModel>) -> Map<
    u64,
    Pending,
>
    decreases frames.len(),
{
    if frames.len() == 0 {
        pending
    } else {
        pending_after(route_step(pending, frames[0]).0, frames.drop_first())
    }
}

/// What the router does with each of `frames`, in order.
pub open spec fn routings(pending: Map<u64, Pending>, frames: Seq<FrameModel>) -> Seq<RoutingModel>
    decreases frames.len(),
{
    if frames.len() == 0 {
        Seq::empty()
    } else {
        seq![route_step(pending, frames[0]).1] + routings(
            route_step(pending, frames[0]).0,
            frames.drop_first(),
        )
    }
}

pub open spec fn routings_view(routings: Seq<Routing>) -> Seq<RoutingModel> {
    Seq::new(routings.len(), |i: int| routings[i]@)
}

/// Where a request stands, as its requester sees it.
#[derive(Debug, Clone, Copy, PartialEq, Eq, Structural)]
pub enum RequestState {
    /// The request is pending and no response has been delivered for it.
    Issued,
    /// The request is pending and a response item has been delivered for it.
    Streaming,
    /// The request is not pending: it has ended, was given up, or was never
    /// issued.
    Done,
}

/// The state of the request `id` among the pending requests.
pub open spec fn state_of(pending: Map<u64, Pending>, id: u64) -> RequestState {
    if !pending.dom().contains(id) {
        RequestState::Done
    } else if pending[id].1 {
        RequestState::Streaming
    } else {
        RequestState::Issued
    }
}

/// The identifier that follows `id`: the next number, and zero after the
/// largest.
pub open spec fn following_id(id: u64) -> u64 {
    if id == u64::MAX {
        0
    } else {
        (id + 1) as u64
    }
}

/// The side of a connection that issues requests: the identifier of the next
/// request and the requests that wait for responses.
pub struct RequestSender {
    responses: DashMap<u64, Pending>,
    id: u64,
}

impl RequestSender {
    /// The pending requests.
    pub closed spec fn pending(&self) -> Map<u64, Pending> {
        table_entries(self.responses)
    }

    /// The identifier that the next request gets.
    pub closed spec fn next_id(&self) -> u64 {
        self.id
    }

    /// A sender without pending requests whose first request gets the
    /// identifier zero.
    pub fn new() -> (sender: Self)
        ensures
            sender.pending() == empty_table(),
            sender.next_id() == 0,
    {
        RequestSender { responses: table_new(), id: 0 }
    }

    fn issue(&mut self, method_name: String, data: Vec<u8>, streaming: bool) -> (frame: Frame)
        ensures
            frame@ == (FrameModel::Request {
                id: old(self).next_id(),
                method_name: method_name@,
                data: data@,
            }),
            final(self).next_id() == following_id(old(self).next_id()),
            final(self).pending() == old(self).pending().insert(
                old(self).next_id(),
                (streaming, false),
            ),
    {
        let id = self.id;
        self.id = if id == u64::MAX {
            0
        } else {
            id + 1
        };
        table_insert(&mut self.responses, id, (streaming, false));
        Frame::Request(Request { id: RequestId(id), method_name, data })
    }

    /// Issues a unary request: takes the next identifier, makes the request
    /// pending and hands out the frame to send.
    pub fn send_request(&mut self, method_name: String, data: Vec<u8>) -> (frame: Frame)
        ensures
            frame@ == (FrameModel::Request {
                id: old(self).next_id(),
                method_name: method_name@,
                data: data@,
            }),
            final(self).next_id() == following_id(old(self).next_id()),
            final(self).pending() == old(self).pending().insert(
                old(self).next_id(),
                (false, false),
            ),
    {
        self.issue(method_name, data, false)
    }

    /// Issues a streaming request: as a unary one, but the request stays
    /// pending until an error or an end marker comes.
    pub fn send_stream_request(&mut self, method_name: String, data: Vec<u8>) -> (frame: Frame)
        ensures
            frame@ == (FrameModel::Request {
                id: old(self).next_id(),
                method_name: method_name@,
                data: data@,
            }),
            final(self).next_id() == following_id(old(self).next_id()),
            final(self).pending() == old(self).pending().insert(
                old(self).next_id(),
                (true, false),
            ),
    {
        self.issue(method_name, data, true)
    }

    /// Where the request `id` stands.
    pub fn state(&self, id: RequestId) -> (state: RequestState)
        ensures
            state == state_of(self.pending(), id@),
    {
        match table_get(&self.responses, id.0) {
            None => RequestState::Done,
            Some((_, started)) => if started {
                RequestState::Streaming
            } else {
                RequestState::Issued
            },
        }
    }

    /// Whether the request `id` waits for responses.
    pub fn is_pending(&self, id: RequestId) -> (yes: bool)
        ensures
            yes == self.pending().dom().contains(id@),
    {
        table_get(&self.responses, id.0).is_some()
    }

    /// Stops waiting for responses to `id`: what comes for it afterwards is
    /// dropped. The other requests are not touched.
    pub fn forget(&mut self, id: RequestId)
        ensures
            final(self).pending() == old(self).pending().remove(id@),
            final(self).next_id() == old(self).next_id(),
    {
        table_remove(&mut self.responses, id.0);
    }

    /// Gives up every pending request, as when the byte stream is closed:
    /// their consumers are left without a response, which they take for an
    /// unexpected end of stream, and what still comes in is dropped.
    pub fn connection_lost(&mut self)
        ensures
            final(self).pending() == empty_table(),
            final(self).next_id() == old(self).next_id(),
    {
        table_clear(&mut self.responses);
    }

    fn deliver(&mut self, id: RequestId, response: ResponseFrame) -> (routing: Routing)
        requires
            response_target(response@) == Some(id@),
        ensures
            (final(self).pending(), routing@) == route_step(old(self).pending(), response@),
            final(self).next_id() == old(self).next_id(),
    {
        let ends_always = match &response {
            ResponseFrame::Item(_) => false,
            _ => true,
        };
        match table_get(&self.responses, id.0) {
            None => Routing::Unregistered(id),
            Some((streaming, _)) => {
                if ends_always || !streaming {
                    table_remove(&mut self.responses, id.0);
                    Routing::Deliver { response, done: true }
                } else {
                    table_insert(&mut self.responses, id.0, (streaming, true));
                    Routing::Deliver { response, done: false }
                }
            },
        }
    }

    /// Routes one frame that came in.
    pub fn route(&mut self, frame: Frame) -> (routing: Routing)
        ensures
            (final(self).pending(), routing@) == route_step(old(self).pending(), frame@),
            final(self).next_id() == old(self).next_id(),
    {
        match frame {
            Frame::Request(request) => Routing::Dispatch(request),
            Frame::ResponseOk(response) => {
                let id = response.request_id;
                self.deliver(id, ResponseFrame::Item(response))
            },
            Frame::ResponseError(response) => {
                let id = response.request_id;
                self.deliver(id, ResponseFrame::Error(response))
            },
            Frame::ResponseEndStream(response) => {
                let id = response.request_id;
                self.deliver(id, ResponseFrame::EndStream(response))
            },
        }
    }
}

/// What the caller of a unary request gets for the response that came:
/// the payload of a response item as the result, the payload of an error as
/// the error of the call. An end marker, or no response at all, is an
/// unexpected end of stream.
pub open spec fn unary_result(response: Option<FrameModel>) -> Option<Result<Seq<u8>, Seq<u8>>> {
    match response {
        Some(FrameModel::ResponseOk { data, .. }) => Some(Ok(data)),
        Some(FrameModel::ResponseError { data, .. }) => Some(Err(data)),
        _ => None,
    }
}

pub open spec fn payload_view(result: Result<Vec<u8>, Vec<u8>>) -> Result<Seq<u8>, Seq<u8>> {
    match result {
        Ok(data) => Ok(data@),
        Err(data) => Err(data@),
    }
}

/// Turns the response to a unary request into the result of the call.
/// `None` stands for a queue that was closed before a response came.
pub fn unary_response(response: Option<ResponseFrame>) -> (result: Result<
    Result<Vec<u8>, Vec<u8>>,
    Error,
>)
    ensures
        match result {
            Ok(payload) => unary_result(
                match response {
                    Some(frame) => Some(frame@),
                    None => None,
                },
            ) == Some(payload_view(payload)),
            Err(error) => error is UnexpectedEndOfStream && unary_result(
                match response {
                    Some(frame) => Some(frame@),
                    None => None,
                },
            ) is None,
        },
{
    match response {
        Some(ResponseFrame::Item(ok)) => Ok(Ok(ok.data)),
        Some(ResponseFrame::Error(error)) => Ok(Err(error.data)),
        Some(ResponseFrame::EndStream(_)) => Err(Error::UnexpectedEndOfStream),
        None => Err(Error::UnexpectedEndOfStream),
    }
}

/// The model of what the consumer of a streaming response does next.
pub ghost enum StreamStepModel {
    Item(Seq<u8>),
    Failed(Seq<u8>),
    Finished,
}

/// What the consumer of a streaming response does with what came.
#[derive(Debug, PartialEq, Eq)]
pub enum StreamStep {
    /// Yield the item and go on.
    Item(Vec<u8>),
    /// Yield the error and stop.
    Failed(Vec<u8>),
    /// Stop.
    Finished,
}

impl View for StreamStep {
    type V = StreamStepModel;

    open spec fn view(&self) -> StreamStepModel {
        match self {
            StreamStep::Item(data) => StreamStepModel::Item(data@),
            StreamStep::Failed(data) => StreamStepModel::Failed(data@),
            StreamStep::Finished => StreamStepModel::Finished,
        }
    }
}

/// A response item is yielded, an error is yielded and ends the sequence, an
/// end marker or a closed queue ends it.
pub open spec fn stream_step(response: Option<FrameModel>) -> StreamStepModel {
    match response {
        Some(FrameModel::ResponseOk { data, .. }) => StreamStepModel::Item(data),
        Some(FrameModel::ResponseError { data, .. }) => StreamStepModel::Failed(data),
        _ => StreamStepModel::Finished,
    }
}

/// Turns what came for a streaming request into the next step of its lazy
/// sequence. `None` stands for a closed queue.
pub fn stream_response(response: Option<ResponseFrame>) -> (step: StreamStep)
    ensures
        step@ == stream_step(
            match response {
                Some(frame) => Some(frame@),
                None => None,
            },
        ),
{
    match response {
        Some(ResponseFrame::Item(ok)) => StreamStep::Item(ok.data),
        Some(ResponseFrame::Error(error)) => StreamStep::Failed(error.data),
        Some(ResponseFrame::EndStream(_)) => StreamStep::Finished,
        None => StreamStep::Finished,
    }
}

/// A connection: the request sender of this side, whose table the router
/// shares.
pub struct Connection {
    sender: RequestSender,
}

impl Connection {
    /// The pending requests of this side.
    pub closed spec fn pending(&self) -> Map<u64, Pending> {
        self.sender.pending()
    }

    /// The identifier that the next request of this side gets.
    pub closed spec fn next_id(&self) -> u64 {
        self.sender.next_id()
    }

    /// A connection without pending requests.
    pub fn new() -> (connection: Self)
        ensures
            connection.pending() == empty_table(),
            connection.next_id() == 0,
    {
        Connection { sender: RequestSender::new() }
    }

    /// The request sender of this side.
    pub fn request_sender(&mut self) -> (sender: &mut RequestSender)
        ensures
            sender.pending() == old(self).pending(),
            sender.next_id() == old(self).next_id(),
            final(self).pending() == final(sender).pending(),
            final(self).next_id() == final(sender).next_id(),
    {
        &mut self.sender
    }

    /// Routes one frame that came in: a request goes to the dispatcher, a
    /// response to the consumer of its request if that request is pending.
    pub fn route(&mut self, frame: Frame) -> (routing: Routing)
        ensures
            (final(self).pending(), routing@) == route_step(old(self).pending(), frame@),
            final(self).next_id() == old(self).next_id(),
    {
        self.sender.route(frame)
    }

    /// Routes the frames that came in, in the order in which they came.
    pub fn run(&mut self, inbound: Vec<Frame>) -> (routed: Vec<Routing>)
        ensures
            routings_view(routed@) == routings(old(self).pending(), frames_view(inbound@)),
            final(self).pending() == pending_after(old(self).pending(), frames_view(inbound@)),
            final(self).next_id() == old(self).next_id(),
    {
        let ghost frames = frames_view(inbound@);
        let ghost start = self.pending();
        let mut routed: Vec<Routing> = Vec::new();
        assert(routings_view(routed@) =~= Seq::<RoutingModel>::empty());
        assert(frames.skip(0) =~= frames);
        for frame in it: inbound
            invariant
                it.seq() == inbound@,
                frames == frames_view(inbound@),
                start == old(self).pending(),
                self.next_id() == old(self).next_id(),
                routings(start, frames) == routings_view(routed@) + routings(
                    self.pending(),
                    frames.skip(it.index() as int),
                ),
                pending_after(start, frames) == pending_after(
                    self.pending(),
                    frames.skip(it.index() as int),
                ),
        {
            let ghost rest = frames.skip(it.index() as int);
            let ghost before = routings_view(routed@);
            let ghost pending = self.pending();
            assert(rest[0] == frame@);
            assert(rest.drop_first() =~= frames.skip(it.index() + 1));
            let routing = self.route(frame);
            let ghost model = routing@;
            routed.push(routing);
            assert(routings_view(routed@) =~= before.push(model));
            assert(routings_view(routed@) + routings(self.pending(), rest.drop_first()) =~= before
                + (seq![model] + routings(self.pending(), rest.drop_first())));
        }
        assert(frames.skip(frames.len() as int) =~= Seq::<FrameModel>::empty());
        assert(routings_view(routed@) + Seq::<RoutingModel>::empty() =~= routings_view(routed@));
        routed
    }
}

} // verus!
