//! What holds of the runtime for every sequence of frames.
//!
//! The router is followed over a whole sequence of inbound frames, and what
//! it delivers to the consumer of one request is compared with the frames
//! that came in for that request.

use vstd::prelude::*;
use crate::rpc_support::connection::{
    pending_after, routings, Pending, RequestState, RoutingModel, StreamStepModel, ends_request, following_id,
    response_target, route_step, state_of, stream_step, unary_result,
};
use crate::rpc_support::dispatch::{
    DispatchModel, dispatch_decision, find_call, generic_error_bytes, stream_frames,
    stream_outcome_frames, unary_frame,
};
use crate::message_compiler::type_checking::TypedRpcCallModel;
use crate::rpc_support::wire_format::FrameModel;

verus! {

/// The frames that the router hands to the consumer of request `id` while it
/// sees `frames`, in order.
pub open spec fn delivered_to(pending: Map<u64, Pending>, frames: Seq<FrameModel>, id: u64) -> Seq<
    FrameModel,
>
    decreases frames.len(),
{
    if frames.len() == 0 {
        Seq::empty()
    } else {
        let (next, routing) = route_step(pending, frames[0]);
        let rest = delivered_to(next, frames.drop_first(), id);
        match routing {
            RoutingModel::Deliver { response, .. } => if response_target(response) == Some(id) {
                seq![response] + rest
            } else {
                rest
            },
            _ => rest,
        }
    }
}

/// The response frames among `frames` that name request `id`, in order.
pub open spec fn responses_to(frames: Seq<FrameModel>, id: u64) -> Seq<FrameModel>
    decreases frames.len(),
{
    if frames.len() == 0 {
        Seq::empty()
    } else if response_target(frames[0]) == Some(id) {
        seq![frames[0]] + responses_to(frames.drop_first(), id)
    } else {
        responses_to(frames.drop_first(), id)
    }
}

/// The frames of a response up to and with the first one that ends the
/// request.
pub open spec fn until_end(frames: Seq<FrameModel>, streaming: bool) -> Seq<FrameModel>
    decreases frames.len(),
{
    if frames.len() == 0 {
        Seq::empty()
    } else if ends_request(frames[0], streaming) {
        seq![frames[0]]
    } else {
        seq![frames[0]] + until_end(frames.drop_first(), streaming)
    }
}

/// Nothing is delivered for a request that is not pending, whatever comes
/// in.
pub proof fn lemma_nothing_delivered_unless_pending(
    pending: Map<u64, Pending>,
    frames: Seq<FrameModel>,
    id: u64,
)
    requires
        !pending.dom().contains(id),
    ensures
        delivered_to(pending, frames, id) == Seq::<FrameModel>::empty(),
    decreases frames.len(),
{
    if frames.len() > 0 {
        let next = route_step(pending, frames[0]).0;
        assert(!next.dom().contains(id));
        lemma_nothing_delivered_unless_pending(next, frames.drop_first(), id);
    }
}

/// The consumer of a pending request is handed exactly the frames that come
/// in for that request, in the order in which they come, up to and with the
/// first frame that ends the request. Frames of other requests that come in
/// between change nothing of it.
pub proof fn lemma_delivery_follows_arrival(
    pending: Map<u64, Pending>,
    frames: Seq<FrameModel>,
    id: u64,
)
    requires
        pending.dom().contains(id),
    ensures
        delivered_to(pending, frames, id) == until_end(responses_to(frames, id), pending[id].0),
    decreases frames.len(),
{
    if frames.len() > 0 {
        let first = frames[0];
        let rest = frames.drop_first();
        let next = route_step(pending, first).0;
        if response_target(first) == Some(id) {
            let arrived = responses_to(frames, id);
            assert(arrived[0] == first);
            assert(arrived.drop_first() =~= responses_to(rest, id));
            if ends_request(first, pending[id].0) {
                lemma_nothing_delivered_unless_pending(next, rest, id);
                assert(delivered_to(pending, frames, id) =~= seq![first]);
            } else {
                lemma_delivery_follows_arrival(next, rest, id);
            }
        } else {
            assert(next.dom().contains(id) && next[id].0 == pending[id].0);
            lemma_delivery_follows_arrival(next, rest, id);
        }
    }
}

/// Of the frames up to the end of a request, none but the last ends the
/// request.
pub proof fn lemma_only_the_last_frame_ends(frames: Seq<FrameModel>, streaming: bool, at: int)
    requires
        0 <= at < until_end(frames, streaming).len() - 1,
    ensures
        !ends_request(until_end(frames, streaming)[at], streaming),
    decreases frames.len(),
{
    if frames.len() > 0 && !ends_request(frames[0], streaming) {
        if at > 0 {
            lemma_only_the_last_frame_ends(frames.drop_first(), streaming, at - 1);
        }
    }
}

/// No response frame is delivered after the frame that ends its request:
/// what the consumer of a request is handed holds a frame that ends the
/// request at most in its last place.
pub proof fn lemma_nothing_delivered_after_the_end(
    pending: Map<u64, Pending>,
    frames: Seq<FrameModel>,
    id: u64,
    at: int,
)
    requires
        pending.dom().contains(id),
        0 <= at < delivered_to(pending, frames, id).len() - 1,
    ensures
        !ends_request(delivered_to(pending, frames, id)[at], pending[id].0),
{
    lemma_delivery_follows_arrival(pending, frames, id);
    lemma_only_the_last_frame_ends(responses_to(frames, id), pending[id].0, at);
}

/// A response whose last frame is the only one that ends the request is
/// delivered whole.
pub proof fn lemma_whole_response(frames: Seq<FrameModel>, streaming: bool)
    requires
        frames.len() > 0,
        forall|i: int| 0 <= i < frames.len() - 1 ==> !ends_request(#[trigger] frames[i], streaming),
        ends_request(frames[frames.len() - 1], streaming),
    ensures
        until_end(frames, streaming) == frames,
    decreases frames.len(),
{
    if frames.len() == 1 {
        assert(until_end(frames, streaming) =~= frames);
    } else {
        let rest = frames.drop_first();
        assert forall|i: int| 0 <= i < rest.len() - 1 implies !ends_request(
            #[trigger] rest[i],
            streaming,
        ) by {
            assert(rest[i] == frames[i + 1]);
        }
        lemma_whole_response(rest, streaming);
        assert(!ends_request(frames[0], streaming));
        assert(until_end(frames, streaming) =~= frames);
    }
}

/// What the consumer of a streaming request yields for the frames that it is
/// handed: the payload of every response item up to the first frame that is
/// none, and the payload of that frame where it is an error.
pub open spec fn consumed(frames: Seq<FrameModel>) -> Seq<Result<Seq<u8>, Seq<u8>>>
    decreases frames.len(),
{
    if frames.len() == 0 {
        Seq::empty()
    } else {
        match stream_step(Some(frames[0])) {
            StreamStepModel::Item(data) => seq![Ok(data)] + consumed(frames.drop_first()),
            StreamStepModel::Failed(data) => seq![Err(data)],
            StreamStepModel::Finished => Seq::empty(),
        }
    }
}

/// What a consumer sees of a stream that yields `items`: the items up to and
/// with the first one that is an error.
pub open spec fn up_to_first_error(items: Seq<Result<Seq<u8>, Seq<u8>>>) -> Seq<
    Result<Seq<u8>, Seq<u8>>,
>
    decreases items.len(),
{
    if items.len() == 0 {
        Seq::empty()
    } else if items[0] is Err {
        seq![items[0]]
    } else {
        seq![items[0]] + up_to_first_error(items.drop_first())
    }
}

/// The frames that answer a streaming call name the request, and only the
/// last of them ends it.
pub proof fn lemma_stream_frames_end_once(request_id: u64, items: Seq<Result<Seq<u8>, Seq<u8>>>)
    ensures
        stream_frames(request_id, items).len() > 0,
        forall|i: int|
            0 <= i < stream_frames(request_id, items).len() ==> response_target(
                #[trigger] stream_frames(request_id, items)[i],
            ) == Some(request_id),
        forall|i: int|
            0 <= i < stream_frames(request_id, items).len() - 1 ==> !ends_request(
                #[trigger] stream_frames(request_id, items)[i],
                true,
            ),
        ends_request(
            stream_frames(request_id, items)[stream_frames(request_id, items).len() - 1],
            true,
        ),
        consumed(stream_frames(request_id, items)) == up_to_first_error(items),
    decreases items.len(),
{
    let frames = stream_frames(request_id, items);
    if items.len() > 0 {
        match items[0] {
            Ok(data) => {
                let rest = stream_frames(request_id, items.drop_first());
                lemma_stream_frames_end_once(request_id, items.drop_first());
                assert(frames.drop_first() =~= rest);
                assert forall|i: int| 0 <= i < frames.len() implies response_target(
                    #[trigger] frames[i],
                ) == Some(request_id) by {
                    if i > 0 {
                        assert(frames[i] == rest[i - 1]);
                    }
                }
                assert forall|i: int| 0 <= i < frames.len() - 1 implies !ends_request(
                    #[trigger] frames[i],
                    true,
                ) by {
                    if i > 0 {
                        assert(frames[i] == rest[i - 1]);
                    }
                }
                assert(frames[frames.len() - 1] == rest[rest.len() - 1]);
            },
            Err(data) => {},
        }
    }
}

/// A streaming response of K items: where the frames that come in for a
/// pending streaming request are those with which a dispatcher answers a
/// stream of `items`, in whatever way the frames of other requests stand
/// between them, the consumer is handed those frames in order, and yields
/// the items in the order in which the handler produced them, up to and with
/// the first error; the last frame handed to it is the one that ends the
/// request.
pub proof fn lemma_stream_is_observed_in_order(
    pending: Map<u64, Pending>,
    frames: Seq<FrameModel>,
    id: u64,
    items: Seq<Result<Seq<u8>, Seq<u8>>>,
)
    requires
        pending.dom().contains(id),
        pending[id].0,
        responses_to(frames, id) == stream_frames(id, items),
    ensures
        delivered_to(pending, frames, id) == stream_frames(id, items),
        consumed(delivered_to(pending, frames, id)) == up_to_first_error(items),
{
    lemma_delivery_follows_arrival(pending, frames, id);
    lemma_stream_frames_end_once(id, items);
    lemma_whole_response(stream_frames(id, items), true);
}

/// A handler that fails to make its stream is answered by a single error
/// frame and no end marker, and the consumer yields that error and stops.
pub proof fn lemma_failed_stream_is_one_error(request_id: u64, error: Seq<u8>)
    ensures
        stream_outcome_frames(request_id, Err(error)) == seq![
            FrameModel::ResponseError { request_id, data: error },
        ],
        consumed(stream_outcome_frames(request_id, Err(error))) == seq![
            Err::<Seq<u8>, Seq<u8>>(error),
        ],
{
    let frames = stream_outcome_frames(request_id, Err(error));
    assert(consumed(frames) =~= seq![Err::<Seq<u8>, Seq<u8>>(error)]);
}

/// A unary request: where the one frame that comes in for a pending unary
/// request is the frame with which a dispatcher answers the call, the caller
/// is handed exactly that frame, its result is the result of the handler,
/// and the request is no longer pending, whatever frames of other requests
/// come before or after.
pub proof fn lemma_unary_is_observed_once(
    pending: Map<u64, Pending>,
    frames: Seq<FrameModel>,
    id: u64,
    result: Result<Seq<u8>, Seq<u8>>,
)
    requires
        pending.dom().contains(id),
        !pending[id].0,
        responses_to(frames, id) == seq![unary_frame(id, result)],
    ensures
        delivered_to(pending, frames, id) == seq![unary_frame(id, result)],
        unary_result(Some(delivered_to(pending, frames, id)[0])) == Some(result),
        !pending_after(pending, frames).dom().contains(id),
{
    lemma_delivery_follows_arrival(pending, frames, id);
    let answer = seq![unary_frame(id, result)];
    assert(until_end(answer, false) =~= answer);
    lemma_ended_request_is_not_pending(pending, frames, id);
}

/// Routing never makes a request pending.
pub proof fn lemma_routing_adds_no_request(
    pending: Map<u64, Pending>,
    frames: Seq<FrameModel>,
    id: u64,
)
    requires
        !pending.dom().contains(id),
    ensures
        !pending_after(pending, frames).dom().contains(id),
    decreases frames.len(),
{
    if frames.len() > 0 {
        let next = route_step(pending, frames[0]).0;
        assert(!next.dom().contains(id));
        lemma_routing_adds_no_request(next, frames.drop_first(), id);
    }
}

/// Once a frame that ends a request has come in for it, the request is not
/// pending.
pub proof fn lemma_ended_request_is_not_pending(
    pending: Map<u64, Pending>,
    frames: Seq<FrameModel>,
    id: u64,
)
    requires
        pending.dom().contains(id),
        exists|i: int|
            0 <= i < responses_to(frames, id).len() && ends_request(
                #[trigger] responses_to(frames, id)[i],
                pending[id].0,
            ),
    ensures
        !pending_after(pending, frames).dom().contains(id),
    decreases frames.len(),
{
    let arrived = responses_to(frames, id);
    let at = choose|i: int| 0 <= i < arrived.len() && ends_request(#[trigger] arrived[i], pending[id].0);
    if frames.len() > 0 {
        let first = frames[0];
        let rest = frames.drop_first();
        let next = route_step(pending, first).0;
        if response_target(first) == Some(id) {
            if ends_request(first, pending[id].0) {
                lemma_routing_adds_no_request(next, rest, id);
            } else {
                assert(arrived.drop_first() =~= responses_to(rest, id));
                assert(at > 0);
                assert(responses_to(rest, id)[at - 1] == arrived[at]);
                lemma_ended_request_is_not_pending(next, rest, id);
            }
        } else {
            assert(next.dom().contains(id) && next[id].0 == pending[id].0);
            assert(responses_to(rest, id) == arrived);
            assert(ends_request(responses_to(rest, id)[at], next[id].0));
            lemma_ended_request_is_not_pending(next, rest, id);
        }
    }
}

/// Giving up a request changes nothing for the others: what is delivered to
/// the consumer of another request is the same whether or not the first was
/// forgotten, so a stream whose consumer is gone does not hold up the
/// requests that follow.
pub proof fn lemma_forgetting_leaves_the_others(
    pending: Map<u64, Pending>,
    frames: Seq<FrameModel>,
    forgotten: u64,
    other: u64,
)
    requires
        forgotten != other,
    ensures
        delivered_to(pending.remove(forgotten), frames, other) == delivered_to(
            pending,
            frames,
            other,
        ),
{
    if pending.dom().contains(other) {
        lemma_delivery_follows_arrival(pending, frames, other);
        lemma_delivery_follows_arrival(pending.remove(forgotten), frames, other);
    } else {
        lemma_nothing_delivered_unless_pending(pending, frames, other);
        lemma_nothing_delivered_unless_pending(pending.remove(forgotten), frames, other);
    }
}

/// The identifier of the request that is issued after `count` others by a
/// sender that started at `first`.
pub open spec fn nth_id(first: u64, count: nat) -> u64
    decreases count,
{
    if count == 0 {
        first
    } else {
        following_id(nth_id(first, (count - 1) as nat))
    }
}

/// A sender that starts at zero gives the request that it issues after
/// `count` others the identifier `count`: identifiers count up, and no two
/// of the first 2^64 requests share one.
pub proof fn lemma_identifiers_count_up(count: nat)
    requires
        count <= u64::MAX,
    ensures
        nth_id(0, count) == count,
    decreases count,
{
    if count > 0 {
        lemma_identifiers_count_up((count - 1) as nat);
    }
}

/// A request for a method that the interface does not have is answered by a
/// single error frame for that request, which carries the generic error and
/// ends the request at the caller.
pub proof fn lemma_unknown_method_is_one_error(
    calls: Seq<TypedRpcCallModel>,
    request_id: u64,
    method_name: Seq<char>,
    data: Seq<u8>,
)
    requires
        find_call(calls, method_name) is None,
    ensures
        dispatch_decision(calls, FrameModel::Request { id: request_id, method_name, data })
            == (DispatchModel::Unknown {
            frames: seq![
                FrameModel::ResponseError { request_id, data: generic_error_bytes() },
            ],
        }),
        ends_request(FrameModel::ResponseError { request_id, data: generic_error_bytes() }, true),
        ends_request(FrameModel::ResponseError { request_id, data: generic_error_bytes() }, false),
        unary_result(Some(FrameModel::ResponseError { request_id, data: generic_error_bytes() }))
            == Some(Err::<Seq<u8>, Seq<u8>>(generic_error_bytes())),
{
}

/// A request of the peer passes the router whatever is pending: it goes to
/// the dispatcher, and every pending request stays pending. A call that a
/// handler makes back to its caller is therefore served while the call that
/// it handles still waits for its answer, and the answer to that call is
/// delivered afterwards as it would have been without the call in between.
pub proof fn lemma_reverse_call_is_served_while_pending(
    pending: Map<u64, Pending>,
    reverse_call: FrameModel,
    later: Seq<FrameModel>,
    id: u64,
)
    requires
        reverse_call is Request,
    ensures
        route_step(pending, reverse_call) == (pending, RoutingModel::Dispatch(reverse_call)),
        delivered_to(pending, seq![reverse_call] + later, id) == delivered_to(pending, later, id),
{
    let frames = seq![reverse_call] + later;
    assert(frames[0] == reverse_call);
    assert(frames.drop_first() =~= later);
}

/// The states of a request and the steps between them. An issued request
/// starts without a delivered response. A frame for another request changes
/// nothing. A response item of a streaming request leads to the streaming
/// state, in which further items stay; a frame that ends the request leads
/// from either state to the end, and from there no frame leads anywhere.
pub proof fn lemma_request_states(pending: Map<u64, Pending>, frame: FrameModel, id: u64)
    ensures
        state_of(pending.insert(id, (true, false)), id) is Issued,
        state_of(pending.insert(id, (false, false)), id) is Issued,
        response_target(frame) != Some(id) ==> state_of(route_step(pending, frame).0, id)
            == state_of(pending, id),
        state_of(pending, id) is Done ==> state_of(route_step(pending, frame).0, id) is Done,
        response_target(frame) == Some(id) && !(state_of(pending, id) is Done) ==> state_of(
            route_step(pending, frame).0,
            id,
        ) == if ends_request(frame, pending[id].0) {
            RequestState::Done
        } else {
            RequestState::Streaming
        },
        route_step(pending, frame).1 is Deliver <==> (response_target(frame) is Some && !(state_of(
            pending,
            response_target(frame).unwrap(),
        ) is Done)),
{
}

/// The responses that the router delivers to the consumer of request
/// `id`, among what it does with a sequence of frames.
pub open spec fn deliveries_to(routed: Seq<RoutingModel>, id: u64) -> Seq<FrameModel>
    decreases routed.len(),
{
    if routed.len() == 0 {
        Seq::empty()
    } else {
        let rest = deliveries_to(routed.drop_first(), id);
        match routed[0] {
            RoutingModel::Deliver { response, .. } => if response_target(response) == Some(id) {
                seq![response] + rest
            } else {
                rest
            },
            _ => rest,
        }
    }
}

/// What the consumer of a request is handed is what the router delivers to
/// it while it runs over the frames.
pub proof fn lemma_run_delivers(pending: Map<u64, Pending>, frames: Seq<FrameModel>, id: u64)
    ensures
        deliveries_to(routings(pending, frames), id) == delivered_to(pending, frames, id),
    decreases frames.len(),
{
    if frames.len() > 0 {
        let next = route_step(pending, frames[0]).0;
        lemma_run_delivers(next, frames.drop_first(), id);
        let routed = routings(pending, frames);
        assert(routed[0] == route_step(pending, frames[0]).1);
        assert(routed.drop_first() =~= routings(next, frames.drop_first()));
    }
}

} // verus!
