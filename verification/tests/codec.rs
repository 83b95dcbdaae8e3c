use rpc_fabric::rpc_support::stream::{
    decode_frame, encode_frame, read_frames, write_frames, Error, Reader, Stream, Writer,
};
use rpc_fabric::rpc_support::wire_format::{
    Frame, Request, RequestId, ResponseEndStream, ResponseError, ResponseOk,
};

fn request(id: u64, method_name: &str, data: &[u8]) -> Frame {
    Frame::Request(Request {
        id: RequestId::new(id),
        method_name: method_name.to_string(),
        data: data.to_vec(),
    })
}

fn ok(id: u64, data: &[u8]) -> Frame {
    Frame::ResponseOk(ResponseOk { request_id: RequestId::new(id), data: data.to_vec() })
}

fn error(id: u64, data: &[u8]) -> Frame {
    Frame::ResponseError(ResponseError { request_id: RequestId::new(id), data: data.to_vec() })
}

fn end(id: u64) -> Frame {
    Frame::ResponseEndStream(ResponseEndStream { request_id: RequestId::new(id) })
}

#[test]
fn frames_are_written_as_one_line_each() {
    assert_eq!(
        encode_frame(&request(0, "subscribe", &[123, 125])),
        "{\"Request\":{\"id\":0,\"method_name\":\"subscribe\",\"data\":[123,125]}}\n"
    );
    assert_eq!(
        encode_frame(&ok(0, b"hi")),
        "{\"ResponseOk\":{\"request_id\":0,\"data\":[104,105]}}\n"
    );
    assert_eq!(
        encode_frame(&error(18446744073709551615, &[])),
        "{\"ResponseError\":{\"request_id\":18446744073709551615,\"data\":[]}}\n"
    );
    assert_eq!(
        encode_frame(&end(42)),
        "{\"ResponseEndStream\":{\"request_id\":42}}\n"
    );
    assert_eq!(
        encode_frame(&ok(7, &[0, 9, 10, 99, 100, 255])),
        "{\"ResponseOk\":{\"request_id\":7,\"data\":[0,9,10,99,100,255]}}\n"
    );
}

#[test]
fn method_names_are_escaped() {
    let line = encode_frame(&request(1, "a\"b\\c\n\r\t\u{8}\u{c}\u{1}\u{1f}/é\u{1F600}", &[]));
    assert_eq!(
        line,
        "{\"Request\":{\"id\":1,\"method_name\":\"a\\\"b\\\\c\\n\\r\\t\\b\\f\\u0001\\u001f/é\u{1F600}\",\"data\":[]}}\n"
    );
    assert!(!line.trim_end_matches('\n').contains('\n'));
}

#[test]
fn every_variant_is_read_back() {
    let frames = vec![
        request(0, "echo", b"{\"msg\":\"hi\"}"),
        request(u64::MAX, "", &[]),
        request(3, "weird \"name\"\\ with\ttabs\nand \u{0} zero and \u{7f} and ü and \u{10FFFF}", &[0, 255]),
        ok(0, b"{\"msg\":\"hi\"}"),
        ok(9, &[]),
        error(1, b"{}"),
        end(0),
        end(u64::MAX),
    ];
    for frame in frames {
        let line = encode_frame(&frame);
        assert!(line.ends_with('\n'));
        assert_eq!(line.matches('\n').count(), 1);
        assert_eq!(decode_frame(&line), Ok(frame.clone()));
        assert_eq!(decode_frame(line.trim_end()), Ok(frame));
    }
}

#[test]
fn the_decoder_takes_blanks_any_order_and_every_escape() {
    assert_eq!(
        decode_frame(" { \"Request\" : { \"data\" : [ 1 , 2 ] ,\t\"method_name\":\"m\", \"id\" : 5 } } \r\n"),
        Ok(request(5, "m", &[1, 2]))
    );
    assert_eq!(
        decode_frame("{\"ResponseOk\":{\"data\":[],\"request_id\":0}}"),
        Ok(ok(0, &[]))
    );
    assert_eq!(
        decode_frame("{\"Request\":{\"id\":0,\"method_name\":\"\\u0041\\/\\b\\f\\n\\r\\t\\\"\\\\\\u00e9\\uD83D\\uDE00\\uFFFF\",\"data\":[]}}"),
        Ok(request(0, "A/\u{8}\u{c}\n\r\t\"\\é\u{1F600}\u{FFFF}", &[]))
    );
    assert_eq!(
        decode_frame("{\"\\u0052equest\":{\"i\\u0064\":1,\"method_name\":\"x\",\"data\":[7]}}"),
        Ok(request(1, "x", &[7]))
    );
}

#[test]
fn lines_that_are_no_frames_are_refused() {
    let refused = [
        "",
        "\n",
        "{}",
        "not json",
        "{\"Request\":{\"id\":0,\"method_name\":\"m\",\"data\":[]}",
        "{\"Request\":{\"id\":0,\"method_name\":\"m\",\"data\":[]}} x",
        "{\"Request\":{\"id\":0,\"method_name\":\"m\"}}",
        "{\"Request\":{\"id\":0,\"method_name\":\"m\",\"data\":[],\"request_id\":0}}",
        "{\"Request\":{\"id\":0,\"id\":0,\"method_name\":\"m\",\"data\":[]}}",
        "{\"Request\":{\"id\":0,\"method_name\":\"m\",\"data\":[],\"extra\":1}}",
        "{\"Request\":{\"id\":0,\"method_name\":\"m\",\"data\":[],}}",
        "{\"Request\":{\"id\":-1,\"method_name\":\"m\",\"data\":[]}}",
        "{\"Request\":{\"id\":01,\"method_name\":\"m\",\"data\":[]}}",
        "{\"Request\":{\"id\":1.0,\"method_name\":\"m\",\"data\":[]}}",
        "{\"Request\":{\"id\":18446744073709551616,\"method_name\":\"m\",\"data\":[]}}",
        "{\"Request\":{\"id\":\"0\",\"method_name\":\"m\",\"data\":[]}}",
        "{\"Request\":{\"id\":0,\"method_name\":7,\"data\":[]}}",
        "{\"Request\":{\"id\":0,\"method_name\":\"m\",\"data\":[256]}}",
        "{\"Request\":{\"id\":0,\"method_name\":\"m\",\"data\":[1,]}}",
        "{\"Request\":{\"id\":0,\"method_name\":\"m\",\"data\":[1 2]}}",
        "{\"Request\":{\"id\":0,\"method_name\":\"m\",\"data\":\"AQ==\"}}",
        "{\"Request\":{\"id\":0,\"method_name\":\"a\nb\",\"data\":[]}}",
        "{\"Request\":{\"id\":0,\"method_name\":\"\\x\",\"data\":[]}}",
        "{\"Request\":{\"id\":0,\"method_name\":\"\\uD83D\",\"data\":[]}}",
        "{\"Request\":{\"id\":0,\"method_name\":\"\\uDE00\",\"data\":[]}}",
        "{\"Request\":{\"id\":0,\"method_name\":\"\\u12\",\"data\":[]}}",
        "{\"Request\":{\"id\":0,\"method_name\":\"unterminated,\"data\":[]}}",
        "{\"Cancel\":{\"request_id\":0}}",
        "{\"ResponseOk\":{\"request_id\":0}}",
        "{\"ResponseEndStream\":{\"request_id\":0,\"data\":[]}}",
        "{\"ResponseEndStream\":{}}",
        "{\"ResponseEndStream\":{\"request_id\":0},\"ResponseOk\":{\"request_id\":0,\"data\":[]}}",
        "[\"ResponseEndStream\"]",
        "{\"ResponseEndStream\":[0]}",
    ];
    for line in refused {
        assert_eq!(decode_frame(line), Err(Error::FrameDecode), "{:?}", line);
    }
}

fn member<'a>(value: &'a serde_json::Value, name: &str) -> &'a serde_json::Value {
    value.as_object().unwrap().get(name).unwrap()
}

#[test]
fn what_is_written_is_json() {
    let line = encode_frame(&request(12, "say \"hi\"\n\u{1}", &[1, 2, 3]));
    let value: serde_json::Value = serde_json::from_str(&line).unwrap();
    assert_eq!(value.as_object().unwrap().len(), 1);
    let fields = member(&value, "Request");
    assert_eq!(fields.as_object().unwrap().len(), 3);
    assert_eq!(member(fields, "id").as_u64(), Some(12));
    assert_eq!(member(fields, "method_name").as_str(), Some("say \"hi\"\n\u{1}"));
    let data: Vec<u64> = member(fields, "data")
        .as_array()
        .unwrap()
        .iter()
        .map(|byte| byte.as_u64().unwrap())
        .collect();
    assert_eq!(data, vec![1, 2, 3]);

    let line = encode_frame(&end(3));
    let value: serde_json::Value = serde_json::from_str(&line).unwrap();
    assert_eq!(member(member(&value, "ResponseEndStream"), "request_id").as_u64(), Some(3));
}

#[test]
fn json_of_another_writer_is_read() {
    let mut fields = serde_json::Map::new();
    fields.insert("request_id".to_string(), serde_json::Value::from(77u64));
    fields.insert(
        "data".to_string(),
        serde_json::Value::from(vec![serde_json::Value::from(1u8), serde_json::Value::from(200u8)]),
    );
    let mut object = serde_json::Map::new();
    object.insert("ResponseError".to_string(), serde_json::Value::Object(fields));
    let compact = serde_json::to_string(&serde_json::Value::Object(object.clone())).unwrap();
    assert_eq!(decode_frame(&compact), Ok(error(77, &[1, 200])));
    let pretty = serde_json::to_string_pretty(&serde_json::Value::Object(object)).unwrap();
    assert_eq!(decode_frame(&pretty), Ok(error(77, &[1, 200])));

    let mut fields = serde_json::Map::new();
    fields.insert("id".to_string(), serde_json::Value::from(1u64));
    fields.insert(
        "method_name".to_string(),
        serde_json::Value::from("tab\there \u{7} \"quoted\" \\ é \u{1F600}"),
    );
    fields.insert("data".to_string(), serde_json::Value::Array(vec![]));
    let mut object = serde_json::Map::new();
    object.insert("Request".to_string(), serde_json::Value::Object(fields));
    let text = serde_json::to_string(&serde_json::Value::Object(object)).unwrap();
    assert_eq!(
        decode_frame(&text),
        Ok(request(1, "tab\there \u{7} \"quoted\" \\ é \u{1F600}", &[]))
    );
}

#[test]
fn frames_cross_the_wire_in_order() {
    let frames = vec![
        request(0, "count", b"{\"n\":3}"),
        ok(0, b"{\"i\":0}"),
        request(1, "line\nfeed", &[10, 13]),
        ok(0, b"{\"i\":1}"),
        error(1, b"{}"),
        end(0),
    ];
    let wire = write_frames(&frames);
    assert_eq!(wire.matches('\n').count(), frames.len());
    assert_eq!(read_frames(&wire), frames);
    assert_eq!(write_frames(&vec![]), "");
    assert_eq!(read_frames(""), vec![]);
}

#[test]
fn the_reader_stops_at_the_first_line_that_is_no_frame() {
    let good = write_frames(&vec![end(1), end(2)]);
    let wire = format!("{}this is no frame\n{}", good, write_frames(&vec![end(3)]));
    assert_eq!(read_frames(&wire), vec![end(1), end(2)]);
    // A last line without a line feed is read as well.
    let wire = format!("{}{}", good, encode_frame(&end(4)).trim_end());
    assert_eq!(read_frames(&wire), vec![end(1), end(2), end(4)]);
    // An empty line is no frame.
    let wire = format!("{}\n{}", good, good);
    assert_eq!(read_frames(&wire), vec![end(1), end(2)]);
}

#[test]
fn readers_and_writers_take_one_frame_at_a_time() {
    let mut writer = Writer::from_raw(String::new());
    writer.write_frame(end(1));
    writer.write_frame(ok(2, &[7]));
    let wire = writer.into_raw();
    assert_eq!(
        wire,
        "{\"ResponseEndStream\":{\"request_id\":1}}\n{\"ResponseOk\":{\"request_id\":2,\"data\":[7]}}\n"
    );

    let mut reader = Reader::from_raw(&wire);
    assert_eq!(reader.read_frame(), Ok(end(1)));
    assert_eq!(reader.read_frame(), Ok(ok(2, &[7])));
    assert_eq!(reader.read_frame(), Err(Error::FrameDecode));
    assert_eq!(reader.read_frame(), Err(Error::FrameDecode));

    let mut reader = Reader::from_raw("garbage\n{\"ResponseEndStream\":{\"request_id\":1}}\n");
    assert_eq!(reader.read_frame(), Err(Error::FrameDecode));
    assert_eq!(reader.read_frame(), Err(Error::FrameDecode));
}

#[test]
fn a_stream_moves_frames_both_ways() {
    let inbound = write_frames(&vec![request(0, "a", &[]), request(1, "b", &[1])]);
    let stream = Stream::from_reader_writer(&inbound, "left over\n".to_string());
    let (read, written) = stream.run(vec![ok(0, &[]), end(1)]);
    assert_eq!(read, vec![request(0, "a", &[]), request(1, "b", &[1])]);
    assert_eq!(
        written,
        "left over\n{\"ResponseOk\":{\"request_id\":0,\"data\":[]}}\n{\"ResponseEndStream\":{\"request_id\":1}}\n"
    );
}
