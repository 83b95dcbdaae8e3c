use rpc_fabric::directory_watcher::file_status_store::FileStatusSyncResult;
use rpc_fabric::directory_watcher::rpc_server::{
    file_changed, FilesystemEvent, FilesystemEventKind, Progress, Step,
};
use rpc_fabric::message_compiler::parsing::grammar::RFileParser;
use rpc_fabric::message_compiler::type_checking::{TypeChecker, TypedFile};
use rpc_fabric::rpc_support::connection::{
    stream_response, unary_response, Connection, Error, RequestSender, RequestState,
    ResponseFrame, Routing, StreamStep,
};
use rpc_fabric::rpc_support::dispatch::{
    dispatch, generic_error, response_end_stream, response_error, response_ok,
    stream_item_frame, stream_item_frames, stream_response_frames, unary_response_frames,
    Dispatch,
};
use rpc_fabric::rpc_support::stream::{decode_frame, encode_frame, read_frames, write_frames};
use rpc_fabric::rpc_support::wire_format::{
    Frame, Request, RequestId, ResponseEndStream, ResponseError, ResponseOk,
};

fn schema(text: &str) -> TypedFile {
    let file = RFileParser::new().parse(text).unwrap();
    TypeChecker::new().check(&file).unwrap()
}

fn echo_schema() -> TypedFile {
    schema("struct Echo { msg: string } rpc { echo(Echo) -> Echo; }")
}

/// The echo handler: an empty message is an error.
fn echo(data: &[u8]) -> Result<Vec<u8>, Vec<u8>> {
    if data == b"{\"msg\":\"\"}" {
        Err(b"{}".to_vec())
    } else {
        Ok(data.to_vec())
    }
}

/// What the peer reads of a frame that is written to the byte stream.
fn over_the_wire(frame: Frame) -> Frame {
    decode_frame(&encode_frame(&frame)).unwrap()
}

fn serve_echo(server: &mut Connection, schema: &TypedFile, frame: Frame) -> Vec<Frame> {
    match server.route(over_the_wire(frame)) {
        Routing::Dispatch(request) => match dispatch(schema.rpc.calls(), &request) {
            Dispatch::Unary { call } => {
                assert_eq!(call, 0);
                unary_response_frames(request.id, echo(&request.data))
            }
            Dispatch::Unknown { frames } => frames,
            Dispatch::Stream { .. } => panic!("echo does not stream"),
        },
        other => panic!("a server got {:?}", other),
    }
}

fn deliver(client: &mut Connection, frame: Frame) -> (ResponseFrame, bool) {
    match client.route(over_the_wire(frame)) {
        Routing::Deliver { response, done } => (response, done),
        other => panic!("nothing was delivered: {:?}", other),
    }
}

#[test]
fn unary_echo() {
    let schema = echo_schema();
    let mut client = Connection::new();
    let mut server = Connection::new();
    let body = b"{\"msg\":\"hi\"}".to_vec();

    let request = client
        .request_sender()
        .send_request("echo".to_string(), body.clone());
    assert_eq!(
        request,
        Frame::Request(Request {
            id: RequestId::new(0),
            method_name: "echo".to_string(),
            data: body.clone(),
        })
    );

    assert_eq!(
        encode_frame(&request),
        "{\"Request\":{\"id\":0,\"method_name\":\"echo\",\"data\":[123,34,109,115,103,34,58,34,104,105,34,125]}}\n"
    );

    let answers = serve_echo(&mut server, &schema, request);
    assert_eq!(
        answers,
        vec![Frame::ResponseOk(ResponseOk {
            request_id: RequestId::new(0),
            data: body.clone(),
        })]
    );
    assert_eq!(
        write_frames(&answers),
        "{\"ResponseOk\":{\"request_id\":0,\"data\":[123,34,109,115,103,34,58,34,104,105,34,125]}}\n"
    );

    let mut answers = answers;
    let (response, done) = deliver(&mut client, answers.remove(0));
    assert!(done);
    assert!(!client.request_sender().is_pending(RequestId::new(0)));
    assert_eq!(unary_response(Some(response)), Ok(Ok(body)));
}

fn count_schema() -> TypedFile {
    schema("struct CountReq { n: u32 } struct Tick { i: u32 } rpc { count(CountReq) -> stream Tick; }")
}

fn tick(i: u32) -> Vec<u8> {
    format!("{{\"i\":{}}}", i).into_bytes()
}

#[test]
fn streaming_counter() {
    let schema = count_schema();
    let mut client = Connection::new();
    let mut server = Connection::new();

    let request = client
        .request_sender()
        .send_stream_request("count".to_string(), b"{\"n\":3}".to_vec());
    let request = match server.route(request) {
        Routing::Dispatch(request) => request,
        other => panic!("a server got {:?}", other),
    };
    assert_eq!(request.id, RequestId::new(0));
    assert_eq!(request.method_name, "count");
    assert_eq!(
        dispatch(schema.rpc.calls(), &request),
        Dispatch::Stream { call: 0 }
    );
    let frames = stream_response_frames(request.id, Ok(vec![Ok(tick(0)), Ok(tick(1)), Ok(tick(2))]));
    let id = RequestId::new(0);
    assert_eq!(
        frames,
        vec![
            Frame::ResponseOk(ResponseOk { request_id: id, data: b"{\"i\":0}".to_vec() }),
            Frame::ResponseOk(ResponseOk { request_id: id, data: b"{\"i\":1}".to_vec() }),
            Frame::ResponseOk(ResponseOk { request_id: id, data: b"{\"i\":2}".to_vec() }),
            Frame::ResponseEndStream(ResponseEndStream { request_id: id }),
        ]
    );

    let frames = read_frames(&write_frames(&frames));
    assert_eq!(frames.len(), 4);

    let mut seen = Vec::new();
    let mut finished = false;
    for (at, frame) in frames.into_iter().enumerate() {
        assert!(!finished);
        let (response, done) = deliver(&mut client, frame);
        assert_eq!(done, at == 3);
        match stream_response(Some(response)) {
            StreamStep::Item(data) => seen.push(data),
            StreamStep::Finished => finished = true,
            StreamStep::Failed(_) => panic!("the stream did not fail"),
        }
    }
    assert!(finished);
    assert_eq!(seen, vec![tick(0), tick(1), tick(2)]);
    assert!(!client.request_sender().is_pending(id));
}

#[test]
fn concurrent_unary() {
    let schema = echo_schema();
    let mut client = Connection::new();
    let mut server = Connection::new();

    let mut requests = Vec::new();
    for i in 0..100u64 {
        let body = format!("{{\"msg\":\"{}\"}}", i).into_bytes();
        requests.push(client.request_sender().send_request("echo".to_string(), body));
    }
    let ids: Vec<u64> = requests
        .iter()
        .map(|frame| match frame {
            Frame::Request(request) => request.id.value(),
            other => panic!("not a request: {:?}", other),
        })
        .collect();
    assert_eq!(ids, (0..100u64).collect::<Vec<u64>>());

    // The server answers the requests in the opposite order.
    let mut answers = Vec::new();
    for request in requests.into_iter().rev() {
        answers.extend(serve_echo(&mut server, &schema, request));
    }
    assert_eq!(answers.len(), 100);

    let mut completed = vec![0u32; 100];
    for answer in answers {
        let (response, done) = deliver(&mut client, answer);
        assert!(done);
        let id = match &response {
            ResponseFrame::Item(ok) => ok.request_id.value(),
            other => panic!("not a response item: {:?}", other),
        };
        let expected = format!("{{\"msg\":\"{}\"}}", id).into_bytes();
        assert_eq!(unary_response(Some(response)), Ok(Ok(expected)));
        completed[id as usize] += 1;
    }
    assert!(completed.iter().all(|count| *count == 1));
}

#[test]
fn handler_error() {
    let schema = echo_schema();
    let mut client = Connection::new();
    let mut server = Connection::new();

    let request = client
        .request_sender()
        .send_request("echo".to_string(), b"{\"msg\":\"\"}".to_vec());
    let mut answers = serve_echo(&mut server, &schema, request);
    assert_eq!(
        answers,
        vec![Frame::ResponseError(ResponseError {
            request_id: RequestId::new(0),
            data: b"{}".to_vec(),
        })]
    );
    let (response, done) = deliver(&mut client, answers.remove(0));
    assert!(done);
    assert_eq!(unary_response(Some(response)), Ok(Err(b"{}".to_vec())));

    let request = client
        .request_sender()
        .send_request("echo".to_string(), b"{\"msg\":\"again\"}".to_vec());
    let mut answers = serve_echo(&mut server, &schema, request);
    let (response, _) = deliver(&mut client, answers.remove(0));
    assert_eq!(
        unary_response(Some(response)),
        Ok(Ok(b"{\"msg\":\"again\"}".to_vec()))
    );
}

#[test]
fn reverse_call_from_handler() {
    let schema = schema(
        "struct Change { path: string } rpc { file_changed(Change) -> binary; } reverse_rpc { read_file(string) -> binary; }",
    );
    let mut agent = Connection::new();
    let mut watcher = Connection::new();

    // The agent reports a change.
    let report = agent
        .request_sender()
        .send_request("file_changed".to_string(), b"{\"path\":\"a.txt\"}".to_vec());
    let reported = match watcher.route(report) {
        Routing::Dispatch(request) => request,
        other => panic!("the watcher got {:?}", other),
    };
    assert_eq!(dispatch(schema.rpc.calls(), &reported), Dispatch::Unary { call: 0 });

    // The handler of the watcher asks the agent for the file while the
    // report is still pending at the agent.
    let event = FilesystemEvent {
        kind: FilesystemEventKind::Created,
        mount_id: "mount".to_string(),
        path: "a.txt".to_string(),
        timestamp: 1024,
    };
    let asked_path = match file_changed(&event, Progress::Received) {
        Step::ReadFile { path } => path,
        other => panic!("the handler began with {:?}", other),
    };
    assert_eq!(asked_path, "a.txt");
    let question = watcher
        .request_sender()
        .send_request("read_file".to_string(), format!("\"{}\"", asked_path).into_bytes());
    assert_eq!(
        question,
        Frame::Request(Request {
            id: RequestId::new(0),
            method_name: "read_file".to_string(),
            data: b"\"a.txt\"".to_vec(),
        })
    );
    assert!(agent.request_sender().is_pending(RequestId::new(0)));
    let asked = match agent.route(question) {
        Routing::Dispatch(request) => request,
        other => panic!("the agent got {:?}", other),
    };
    assert!(agent.request_sender().is_pending(RequestId::new(0)));
    assert_eq!(
        dispatch(schema.reverse_rpc.calls(), &asked),
        Dispatch::Unary { call: 0 }
    );
    let mut contents = unary_response_frames(asked.id, Ok(b"[116,101,115,116]".to_vec()));

    // The answer of the agent reaches the handler, which then answers the
    // report with the bytes it was given.
    let (response, done) = deliver(&mut watcher, contents.remove(0));
    assert!(done);
    let bytes = unary_response(Some(response)).unwrap().unwrap();
    let mut progress = Progress::FileRead(bytes);
    let mut asked_again = false;
    let handled = loop {
        progress = match file_changed(&event, progress) {
            Step::ReadFile { .. } => {
                asked_again = true;
                Progress::Failed
            }
            Step::Sync { contents, .. } => Progress::Synced(FileStatusSyncResult::Created, contents),
            Step::SendEvent { contents, .. } => Progress::EventSent(contents),
            Step::Rename { .. } => Progress::Renamed,
            Step::Delete { .. } => Progress::Deleted,
            Step::Finished(answer) => break answer,
        };
    };
    assert!(!asked_again);
    let mut answer =
        unary_response_frames(reported.id, handled.map_err(|_| generic_error()));
    let (response, done) = deliver(&mut agent, answer.remove(0));
    assert!(done);
    assert_eq!(
        unary_response(Some(response)),
        Ok(Ok(b"[116,101,115,116]".to_vec()))
    );
    assert!(!agent.request_sender().is_pending(RequestId::new(0)));
    assert!(!watcher.request_sender().is_pending(RequestId::new(0)));
}

#[test]
fn dropped_stream_consumer() {
    let counting = count_schema();
    let mut client = Connection::new();

    let request = client
        .request_sender()
        .send_stream_request("count".to_string(), b"{\"n\":1000000}".to_vec());
    let stream_id = match &request {
        Frame::Request(request) => request.id,
        other => panic!("not a request: {:?}", other),
    };
    assert_eq!(
        dispatch(counting.rpc.calls(), match &request {
            Frame::Request(request) => request,
            _ => unreachable!(),
        }),
        Dispatch::Stream { call: 0 }
    );

    // Two items are consumed, then the consumer goes away.
    for i in 0..2 {
        let (response, done) = deliver(&mut client, response_ok(stream_id, tick(i)));
        assert!(!done);
        assert_eq!(stream_response(Some(response)), StreamStep::Item(tick(i)));
    }
    client.request_sender().forget(stream_id);

    // The server goes on sending; the frames are dropped.
    for i in 2..50 {
        assert_eq!(
            client.route(response_ok(stream_id, tick(i))),
            Routing::Unregistered(stream_id)
        );
    }

    // A unary call on the same connection completes.
    let echo = client
        .request_sender()
        .send_request("echo".to_string(), b"{\"msg\":\"still here\"}".to_vec());
    let echo_id = match &echo {
        Frame::Request(request) => request.id,
        other => panic!("not a request: {:?}", other),
    };
    assert_eq!(echo_id, RequestId::new(1));
    assert_eq!(
        client.route(response_ok(stream_id, tick(50))),
        Routing::Unregistered(stream_id)
    );
    let (response, done) = deliver(
        &mut client,
        response_ok(echo_id, b"{\"msg\":\"still here\"}".to_vec()),
    );
    assert!(done);
    assert_eq!(
        unary_response(Some(response)),
        Ok(Ok(b"{\"msg\":\"still here\"}".to_vec()))
    );
    assert_eq!(
        client.route(response_end_stream(stream_id)),
        Routing::Unregistered(stream_id)
    );
}

#[test]
fn unknown_method_gets_one_error_and_the_connection_goes_on() {
    let schema = echo_schema();
    let mut client = Connection::new();
    let mut server = Connection::new();

    let request = client
        .request_sender()
        .send_request("no_such_method".to_string(), b"null".to_vec());
    let mut answers = serve_echo(&mut server, &schema, request);
    assert_eq!(
        answers,
        vec![response_error(RequestId::new(0), b"{}".to_vec())]
    );
    assert_eq!(generic_error(), b"{}".to_vec());
    let (response, done) = deliver(&mut client, answers.remove(0));
    assert!(done);
    assert_eq!(unary_response(Some(response)), Ok(Err(b"{}".to_vec())));

    let request = client
        .request_sender()
        .send_request("echo".to_string(), b"{\"msg\":\"x\"}".to_vec());
    let mut answers = serve_echo(&mut server, &schema, request);
    let (response, _) = deliver(&mut client, answers.remove(0));
    assert_eq!(unary_response(Some(response)), Ok(Ok(b"{\"msg\":\"x\"}".to_vec())));
}

#[test]
fn failing_stream_handler_gives_one_error_and_no_end_marker() {
    let id = RequestId::new(7);
    assert_eq!(
        stream_response_frames(id, Err(b"{}".to_vec())),
        vec![response_error(id, b"{}".to_vec())]
    );
    // An item that is an error ends the stream in place of the marker.
    assert_eq!(
        stream_item_frames(id, &[Ok(tick(0)), Err(b"\"bad\"".to_vec()), Ok(tick(2))]),
        vec![response_ok(id, tick(0)), response_error(id, b"\"bad\"".to_vec())]
    );
    assert_eq!(stream_item_frames(id, &[]), vec![response_end_stream(id)]);
}

#[test]
fn nothing_is_delivered_after_the_end_of_a_request() {
    let mut sender = RequestSender::new();
    let unary = sender.send_request("a".to_string(), vec![]);
    let stream = sender.send_stream_request("b".to_string(), vec![]);
    let (unary, stream) = match (unary, stream) {
        (Frame::Request(a), Frame::Request(b)) => (a.id, b.id),
        _ => unreachable!(),
    };
    assert_eq!((unary.value(), stream.value()), (0, 1));

    // Interleaved frames of both requests.
    assert!(matches!(
        sender.route(response_ok(stream, vec![1])),
        Routing::Deliver { done: false, .. }
    ));
    assert!(matches!(
        sender.route(response_ok(unary, vec![2])),
        Routing::Deliver { done: true, .. }
    ));
    assert_eq!(
        sender.route(response_ok(unary, vec![3])),
        Routing::Unregistered(unary)
    );
    assert_eq!(
        sender.route(response_error(unary, vec![4])),
        Routing::Unregistered(unary)
    );
    assert!(matches!(
        sender.route(response_ok(stream, vec![5])),
        Routing::Deliver { done: false, .. }
    ));
    assert!(matches!(
        sender.route(response_error(stream, vec![6])),
        Routing::Deliver { done: true, .. }
    ));
    assert_eq!(
        sender.route(response_end_stream(stream)),
        Routing::Unregistered(stream)
    );
    assert_eq!(
        sender.route(response_ok(RequestId::new(99), vec![])),
        Routing::Unregistered(RequestId::new(99))
    );
}

#[test]
fn an_end_marker_or_a_lost_connection_is_an_unexpected_end_for_a_unary_call() {
    let end = ResponseFrame::EndStream(ResponseEndStream { request_id: RequestId::new(0) });
    assert_eq!(unary_response(Some(end)), Err(Error::UnexpectedEndOfStream));
    assert_eq!(unary_response(None), Err(Error::UnexpectedEndOfStream));
    assert_eq!(stream_response(None), StreamStep::Finished);
    let failed = ResponseFrame::Error(ResponseError {
        request_id: RequestId::new(0),
        data: vec![9],
    });
    assert_eq!(stream_response(Some(failed)), StreamStep::Failed(vec![9]));
}

#[test]
fn request_identifiers_are_shown_in_messages() {
    assert_eq!(RequestId::new(0).to_string(), "(request 0)");
    assert_eq!(RequestId::new(7).to_string(), "(request 7)");
    assert_eq!(RequestId::new(1205).to_string(), "(request 1205)");
    assert_eq!(
        RequestId::new(u64::MAX).to_string(),
        "(request 18446744073709551615)"
    );
}

#[test]
fn a_lost_connection_leaves_no_request_pending() {
    let mut sender = RequestSender::new();
    let unary = sender.send_request("a".to_string(), vec![]);
    let stream = sender.send_stream_request("b".to_string(), vec![]);
    let (unary, stream) = match (unary, stream) {
        (Frame::Request(a), Frame::Request(b)) => (a.id, b.id),
        _ => unreachable!(),
    };
    assert!(sender.is_pending(unary) && sender.is_pending(stream));
    sender.connection_lost();
    assert!(!sender.is_pending(unary) && !sender.is_pending(stream));
    assert_eq!(sender.route(response_ok(unary, vec![])), Routing::Unregistered(unary));
    assert_eq!(unary_response(None), Err(Error::UnexpectedEndOfStream));
    // Identifiers go on where they were.
    assert_eq!(
        sender.send_request("c".to_string(), vec![]),
        Frame::Request(Request { id: RequestId::new(2), method_name: "c".to_string(), data: vec![] })
    );
}

#[test]
fn a_request_goes_from_issued_over_streaming_to_done() {
    let mut sender = RequestSender::new();
    let id = RequestId::new(0);
    assert_eq!(sender.state(id), RequestState::Done);
    sender.send_stream_request("count".to_string(), vec![]);
    assert_eq!(sender.state(id), RequestState::Issued);
    sender.route(response_ok(RequestId::new(5), vec![]));
    assert_eq!(sender.state(id), RequestState::Issued);
    sender.route(response_ok(id, vec![1]));
    assert_eq!(sender.state(id), RequestState::Streaming);
    sender.route(response_ok(id, vec![2]));
    assert_eq!(sender.state(id), RequestState::Streaming);
    sender.route(response_end_stream(id));
    assert_eq!(sender.state(id), RequestState::Done);

    let unary = RequestId::new(1);
    sender.send_request("echo".to_string(), vec![]);
    assert_eq!(sender.state(unary), RequestState::Issued);
    sender.route(response_ok(unary, vec![]));
    assert_eq!(sender.state(unary), RequestState::Done);
}

#[test]
fn the_router_runs_over_what_came_in() {
    let mut connection = Connection::new();
    connection.request_sender().send_request("a".to_string(), vec![]);
    connection.request_sender().send_stream_request("b".to_string(), vec![]);
    let (unary, stream) = (RequestId::new(0), RequestId::new(1));
    let asked = Request { id: RequestId::new(9), method_name: "back".to_string(), data: vec![1] };
    let routed = connection.run(vec![
        response_ok(stream, vec![1]),
        Frame::Request(asked.clone()),
        response_ok(unary, vec![2]),
        response_ok(unary, vec![3]),
        response_end_stream(stream),
        response_ok(stream, vec![4]),
    ]);
    assert_eq!(
        routed,
        vec![
            Routing::Deliver {
                response: ResponseFrame::Item(ResponseOk { request_id: stream, data: vec![1] }),
                done: false
            },
            Routing::Dispatch(asked),
            Routing::Deliver {
                response: ResponseFrame::Item(ResponseOk { request_id: unary, data: vec![2] }),
                done: true
            },
            Routing::Unregistered(unary),
            Routing::Deliver {
                response: ResponseFrame::EndStream(ResponseEndStream { request_id: stream }),
                done: true
            },
            Routing::Unregistered(stream),
        ]
    );
    assert!(connection.run(vec![]).is_empty());
}

#[test]
fn a_streaming_response_is_made_step_by_step() {
    let id = RequestId::new(4);
    assert_eq!(
        stream_item_frame(id, Some(Ok(tick(0)))),
        (response_ok(id, tick(0)), false)
    );
    assert_eq!(
        stream_item_frame(id, Some(Err(b"\"bad\"".to_vec()))),
        (response_error(id, b"\"bad\"".to_vec()), true)
    );
    assert_eq!(stream_item_frame(id, None), (response_end_stream(id), true));

    // Taking the steps one after the other, up to the first that ends the
    // response, gives the frames of the whole response.
    let yielded = vec![Ok(tick(0)), Ok(tick(1)), Err(b"{}".to_vec()), Ok(tick(3))];
    let mut items = yielded.clone().into_iter();
    let mut frames = Vec::new();
    loop {
        let (frame, done) = stream_item_frame(id, items.next());
        frames.push(frame);
        if done {
            break;
        }
    }
    assert_eq!(frames, stream_item_frames(id, &yielded));
    assert_eq!(
        frames,
        vec![response_ok(id, tick(0)), response_ok(id, tick(1)), response_error(id, b"{}".to_vec())]
    );
}

#[test]
fn a_request_that_could_not_be_sent_is_taken_back() {
    let mut client = Connection::new();
    let kept = client.request_sender().send_request("echo".to_string(), b"1".to_vec());
    let lost = client.request_sender().send_request("echo".to_string(), b"2".to_vec());
    let lost_id = match lost {
        Frame::Request(request) => request.id,
        other => panic!("the sender made {:?}", other),
    };
    client.request_sender().forget(lost_id);
    assert!(!client.request_sender().is_pending(lost_id));
    assert!(client.request_sender().is_pending(RequestId::new(0)));
    assert_eq!(
        client.route(response_ok(lost_id, b"2".to_vec())),
        Routing::Unregistered(lost_id)
    );
    let answers = match kept {
        Frame::Request(request) => unary_response_frames(request.id, Ok(request.data)),
        other => panic!("the sender made {:?}", other),
    };
    let (response, done) = deliver(&mut client, answers.into_iter().next().unwrap());
    assert!(done);
    assert_eq!(unary_response(Some(response)), Ok(Ok(b"1".to_vec())));
}
