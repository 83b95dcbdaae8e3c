use rpc_fabric::rpc_support::envelope::{
    decode_request_envelope, decode_response_envelope, encode_request_envelope,
    encode_response_envelope, read_request, rpc_result, rpc_stream_item, send_raw_request,
    send_response, send_stream_response, DefaultRawRpcClient, Delivery, RequestEnvelope,
    ResponseEnvelope,
};
use rpc_fabric::rpc_support::rpc_error::RpcError;

#[test]
fn test_read_request() {
    let lines = vec![
        "{\"method_name\": \"test\",\"request_id\": 1}\n".to_string(),
        "\"\"\n".to_string(),
        "".to_string(),
    ];

    let (payload, method_name, request_id, metadata) =
        read_request(&lines[0], lines[1].clone(), lines[2].clone()).unwrap();
    let metadata: String = serde_json::from_str(&metadata).unwrap();

    assert_eq!(payload, "");
    assert_eq!(method_name, "test");
    assert_eq!(request_id, 1);
    assert_eq!(metadata, "");
}

#[test]
fn test_send_response() {
    let output = send_response(Ok("\"response\"".to_string()), 1, true);

    assert_eq!(
        "{\"request_id\":1,\"error\":null,\"stream_end\":true}\n\"response\"\n",
        output
    );
}

#[test]
fn a_failed_call_is_answered_by_an_envelope_alone() {
    assert_eq!(
        send_response(Err(RpcError::Custom("no \"luck\"".to_string())), 7, false),
        "{\"request_id\":7,\"error\":{\"Custom\":\"no \\\"luck\\\"\"},\"stream_end\":false}\n"
    );
    assert_eq!(
        send_response(Err(RpcError::IoError("closed".to_string())), 0, true),
        "{\"request_id\":0,\"error\":{\"IoError\":\"closed\"},\"stream_end\":true}\n"
    );
    assert_eq!(
        encode_response_envelope(&ResponseEnvelope {
            request_id: 3,
            error: Some(RpcError::SerializationFailed("bad".to_string())),
            stream_end: false,
        }),
        "{\"request_id\":3,\"error\":{\"SerializationFailed\":\"bad\"},\"stream_end\":false}"
    );
}

#[test]
fn a_stream_is_answered_item_by_item_and_ended() {
    assert_eq!(
        send_stream_response(
            Ok(vec![
                Ok("1".to_string()),
                Err(RpcError::Custom("x".to_string())),
                Ok("3".to_string())
            ]),
            5
        ),
        "{\"request_id\":5,\"error\":null,\"stream_end\":false}\n1\n\
{\"request_id\":5,\"error\":{\"Custom\":\"x\"},\"stream_end\":false}\n\
{\"request_id\":5,\"error\":null,\"stream_end\":false}\n3\n\
{\"request_id\":5,\"error\":null,\"stream_end\":true}\nnull\n"
    );
    assert_eq!(
        send_stream_response(Ok(vec![]), 5),
        "{\"request_id\":5,\"error\":null,\"stream_end\":true}\nnull\n"
    );
    assert_eq!(
        send_stream_response(Err(RpcError::IoError("gone".to_string())), 5),
        "{\"request_id\":5,\"error\":{\"IoError\":\"gone\"},\"stream_end\":true}\n"
    );
}

#[test]
fn envelopes_are_read_back() {
    let request = RequestEnvelope { method_name: "stream \"track\"".to_string(), request_id: 99 };
    let text = encode_request_envelope(&request);
    assert_eq!(text, "{\"method_name\":\"stream \\\"track\\\"\",\"request_id\":99}");
    assert_eq!(decode_request_envelope(&text), Ok(request.clone()));
    assert_eq!(
        send_raw_request(&request, "{}", "{\"path\":\"a\"}"),
        "{\"method_name\":\"stream \\\"track\\\"\",\"request_id\":99}\n{}\n{\"path\":\"a\"}\n"
    );

    let responses = vec![
        ResponseEnvelope { request_id: 0, error: None, stream_end: false },
        ResponseEnvelope { request_id: u64::MAX, error: None, stream_end: true },
        ResponseEnvelope {
            request_id: 4,
            error: Some(RpcError::Custom("line\nbreak".to_string())),
            stream_end: true,
        },
        ResponseEnvelope {
            request_id: 4,
            error: Some(RpcError::IoError(String::new())),
            stream_end: false,
        },
        ResponseEnvelope {
            request_id: 4,
            error: Some(RpcError::SerializationFailed("ü".to_string())),
            stream_end: false,
        },
    ];
    for response in responses {
        let text = encode_response_envelope(&response);
        assert_eq!(decode_response_envelope(&text), Ok(response.clone()));
        assert_eq!(decode_response_envelope(&format!("  {}\n", text)), Ok(response));
    }
    assert_eq!(
        decode_response_envelope("{ \"stream_end\" : true , \"request_id\" : 2 }"),
        Ok(ResponseEnvelope { request_id: 2, error: None, stream_end: true })
    );
}

#[test]
fn lines_that_are_no_envelopes_are_refused() {
    for line in [
        "",
        "{}",
        "{\"method_name\":\"m\"}",
        "{\"request_id\":1}",
        "{\"method_name\":\"m\",\"request_id\":1,\"more\":2}",
        "{\"method_name\":\"m\",\"request_id\":1} {",
        "{\"method_name\":\"m\",\"method_name\":\"m\",\"request_id\":1}",
        "{\"method_name\":1,\"request_id\":1}",
    ] {
        assert!(matches!(
            decode_request_envelope(line),
            Err(RpcError::SerializationFailed(_))
        ));
    }
    for line in [
        "",
        "{\"request_id\":1}",
        "{\"request_id\":1,\"error\":null}",
        "{\"request_id\":1,\"error\":nul,\"stream_end\":true}",
        "{\"request_id\":1,\"error\":{\"Other\":\"x\"},\"stream_end\":true}",
        "{\"request_id\":1,\"error\":{\"Custom\":1},\"stream_end\":true}",
        "{\"request_id\":1,\"error\":null,\"stream_end\":maybe}",
        "{\"request_id\":1,\"error\":null,\"stream_end\":true,\"stream_end\":true}",
    ] {
        assert!(matches!(
            decode_response_envelope(line),
            Err(RpcError::SerializationFailed(_))
        ));
    }
}

#[test]
fn answers_go_to_the_calls_that_wait() {
    let mut client = DefaultRawRpcClient::new();
    assert_eq!(
        client.send_rpc(1, "all_tracks", "{\"album_id\":\"x\"}", "{}"),
        "{\"method_name\":\"all_tracks\",\"request_id\":1}\n{}\n{\"album_id\":\"x\"}\n"
    );
    assert_eq!(
        client.send_rpc_stream_request(2, "stream_track", "{}", "{}"),
        "{\"method_name\":\"stream_track\",\"request_id\":2}\n{}\n{}\n"
    );
    client.send_rpc(3, "all_albums", "{}", "{}");

    let plain = |id: u64| ResponseEnvelope { request_id: id, error: None, stream_end: false };
    let failed = |id: u64| ResponseEnvelope {
        request_id: id,
        error: Some(RpcError::Custom("no".to_string())),
        stream_end: false,
    };

    assert_eq!(
        client.client_response_task(&plain(9)),
        Delivery { reads_response: true, delivered: false }
    );
    assert_eq!(
        client.client_response_task(&plain(2)),
        Delivery { reads_response: true, delivered: true }
    );
    assert_eq!(
        client.client_response_task(&plain(1)),
        Delivery { reads_response: true, delivered: true }
    );
    assert_eq!(
        client.client_response_task(&plain(1)),
        Delivery { reads_response: true, delivered: false }
    );
    assert_eq!(
        client.client_response_task(&failed(3)),
        Delivery { reads_response: false, delivered: true }
    );
    assert_eq!(
        client.client_response_task(&failed(3)),
        Delivery { reads_response: false, delivered: false }
    );
    assert_eq!(
        client.client_response_task(&failed(2)),
        Delivery { reads_response: false, delivered: false }
    );
    assert_eq!(
        client.client_response_task(&plain(2)),
        Delivery { reads_response: true, delivered: true }
    );
}

#[test]
fn answers_become_results() {
    let plain = ResponseEnvelope { request_id: 1, error: None, stream_end: false };
    let failed = ResponseEnvelope {
        request_id: 1,
        error: Some(RpcError::IoError("x".to_string())),
        stream_end: false,
    };
    let end = ResponseEnvelope { request_id: 1, error: None, stream_end: true };
    assert_eq!(rpc_result(plain.clone(), Some("7".to_string())), Ok("7".to_string()));
    assert_eq!(
        rpc_result(plain.clone(), None),
        Err(RpcError::Custom("No response".to_string()))
    );
    assert_eq!(
        rpc_result(failed.clone(), Some("7".to_string())),
        Err(RpcError::IoError("x".to_string()))
    );
    assert_eq!(
        rpc_stream_item(plain, Some("7".to_string())),
        Some(Ok("7".to_string()))
    );
    assert_eq!(
        rpc_stream_item(failed, None),
        Some(Err(RpcError::IoError("x".to_string())))
    );
    assert_eq!(rpc_stream_item(end, Some("null".to_string())), None);
    assert_eq!(
        RpcError::SerializationFailed("bad".to_string()).to_string(),
        "Serialization failed: bad"
    );
    assert_eq!(RpcError::IoError("bad".to_string()).to_string(), "IO failed: bad");
    assert_eq!(RpcError::Custom("bad".to_string()).to_string(), "bad");
}

#[test]
fn a_line_that_is_no_envelope_is_a_failed_decoding_that_says_so() {
    let expected = RpcError::SerializationFailed("the line is no envelope".to_string());
    assert_eq!(decode_request_envelope("nothing"), Err(expected.clone()));
    assert_eq!(decode_response_envelope("{\"request_id\":1}"), Err(expected.clone()));
    assert_eq!(
        read_request("{}", "{}".to_string(), "{}".to_string()),
        Err(expected.clone())
    );
    assert_eq!(
        expected.to_string(),
        "Serialization failed: the line is no envelope"
    );
}
