use oncall_agent_rs::json::{parse_json, to_json_string};
use oncall_agent_rs::rectifier::{
    rectify_response_value, rectify_sse_event, rectify_sse_line, SseRectifierBuffer,
};
use rig_core::providers::openai::responses_api::CompletionResponse;
use serde_json::Value;

fn valid_response_with_output(output: &str) -> String {
    format!(
        "{{\"id\":\"resp_test\",\"object\":\"response\",\"created_at\":0,\"status\":\"completed\",\"error\":null,\"incomplete_details\":null,\"instructions\":null,\"max_output_tokens\":null,\"model\":\"gpt-test\",\"usage\":null,\"output\":[{output}]}}"
    )
}

fn rectified(text: &str, seed: &str) -> Value {
    let mut value = parse_json(text).expect("valid JSON");
    rectify_response_value(&mut value, seed);
    serde_json::from_str(&to_json_string(&value)).expect("JSON text")
}

#[test]
fn rectifies_missing_message_fields() {
    let response = rectified(
        &valid_response_with_output(
            "{\"type\":\"message\",\"role\":\"assistant\",\"content\":[{\"type\":\"output_text\",\"text\":\"hello\"}]}",
        ),
        "seed",
    );
    let message = &response["output"][0];
    assert_eq!(message["id"], "msg_rect_resp_test_0");
    assert_eq!(message["status"], "completed");
    serde_json::from_value::<CompletionResponse>(response)
        .expect("rectified response should deserialize");
}

#[test]
fn rectifies_missing_function_call_fields() {
    let response = rectified(
        &valid_response_with_output(
            "{\"type\":\"function_call\",\"name\":\"getCurrentDateTime\",\"arguments\":\"{}\"}",
        ),
        "seed",
    );
    let call = &response["output"][0];
    assert_eq!(call["id"], "fc_rect_resp_test_0");
    assert_eq!(call["call_id"], "call_rect_resp_test_0");
    assert_eq!(call["status"], "completed");
    serde_json::from_value::<CompletionResponse>(response)
        .expect("rectified function call should deserialize");
}

#[test]
fn leaves_compliant_response_unchanged() {
    let text = valid_response_with_output(
        "{\"type\":\"message\",\"id\":\"msg_real\",\"role\":\"assistant\",\"status\":\"completed\",\"content\":[{\"type\":\"output_text\",\"text\":\"hello\"}]}",
    );
    let original: Value = serde_json::from_str(&text).unwrap();
    let response = rectified(&text, "seed");
    assert_eq!(response, original);
}

#[test]
fn rectifies_missing_top_level_fields() {
    let mut original: Value =
        serde_json::from_str(&valid_response_with_output("{\"type\":\"message\",\"content\":[]}"))
            .unwrap();
    original.as_object_mut().unwrap().remove("id");
    original.as_object_mut().unwrap().remove("status");
    let response = rectified(&original.to_string(), "top-seed");
    assert!(response["id"].as_str().unwrap().starts_with("resp_rect_"));
    assert_eq!(response["status"], "completed");
    assert!(response["output"][0]["id"]
        .as_str()
        .unwrap()
        .starts_with("msg_rect_resp_rect_"));
}

#[test]
fn rectifies_sse_completed_response() {
    let event = "data: {\"type\":\"response.completed\",\"response\":{\"object\":\"response\",\"created_at\":0,\"model\":\"gpt-test\",\"error\":null,\"incomplete_details\":null,\"instructions\":null,\"max_output_tokens\":null,\"usage\":null,\"output\":[{\"type\":\"message\",\"content\":[]}]}}\n";
    let rectified = rectify_sse_event(event);
    let data = rectified.strip_prefix("data: ").unwrap().trim();
    let value: Value = serde_json::from_str(data).unwrap();
    assert_eq!(value["response"]["status"], "completed");
    assert!(value["response"]["output"][0]["id"]
        .as_str()
        .unwrap()
        .starts_with("msg_rect_resp_rect_"));
}

#[test]
fn sse_buffer_handles_cross_chunk_events() {
    let mut buffer = SseRectifierBuffer::default();

    assert!(buffer
        .push_text("data: {\"type\":\"response.output_item.done\",")
        .is_empty());
    let output = buffer.push_text(
        "\"output_index\":0,\"item\":{\"type\":\"function_call\",\"name\":\"tool\",\"arguments\":\"{}\"}}\n\n",
    );

    assert_eq!(output.len(), 1);
    assert!(output[0].contains("\"call_id\":\"call_rect_stream_0\""));
    assert!(output[0].ends_with("\n\n"));
}

#[test]
fn sse_done_and_non_json_data_pass_through() {
    assert_eq!(rectify_sse_line("data: [DONE]\n"), "data: [DONE]\n");
    assert_eq!(rectify_sse_line("data: not-json\n"), "data: not-json\n");
}

#[test]
fn rectifies_sse_output_item_done() {
    let event = "event: message\ndata: {\"type\":\"response.output_item.done\",\"output_index\":0,\"item\":{\"type\":\"message\",\"content\":[{\"type\":\"output_text\",\"text\":\"hi\"}]}}\n";
    let rectified = rectify_sse_event(event);
    assert!(rectified.starts_with("event: message\n"));
    let data = rectified
        .lines()
        .find_map(|line| line.strip_prefix("data: "))
        .unwrap();
    let value: Value = serde_json::from_str(data).unwrap();
    assert_eq!(value["item"]["id"], "msg_rect_stream_0");
    assert_eq!(value["item"]["status"], "completed");
    assert_eq!(value["item"]["role"], "assistant");
}

#[test]
fn sse_buffer_finish_repairs_the_rest() {
    let mut buffer = SseRectifierBuffer::default();
    assert!(buffer
        .push_text("data: {\"type\":\"response.completed\",\"response\":{\"output\":[{\"type\":\"message\",\"content\":[]}]}}")
        .is_empty());
    let rest = buffer.finish().expect("text is left");
    assert!(rest.contains("\"status\":\"completed\""));
    assert!(rest.contains("\"id\":\"resp_rect_"));
    assert!(rest.contains("msg_rect_resp_rect_"));
}

#[test]
fn sse_buffer_splits_crlf_events() {
    let mut buffer = SseRectifierBuffer::default();
    let out = buffer.push_text("event: a\r\n\r\nevent: b\n\nrest");
    assert_eq!(out, vec!["event: a\r\n\r\n".to_string(), "event: b\n\n".to_string()]);
    assert_eq!(buffer.finish(), Some("rest".to_string()));
}

#[test]
fn feeding_a_stream_in_pieces_gives_the_events_of_feeding_it_whole() {
    let stream = "data: [DONE]\r\n\r\ndata: plain\n\nevent: x\r\ndata: y\r\n\r\ntail";
    let mut whole = SseRectifierBuffer::default();
    let expected = whole.push_text(stream);
    for cut in 0..=stream.len() {
        if !stream.is_char_boundary(cut) {
            continue;
        }
        let mut pieces = SseRectifierBuffer::default();
        let mut events = pieces.push_text(&stream[..cut]);
        events.extend(pieces.push_text(&stream[cut..]));
        assert_eq!(events, expected, "cut at {cut}");
        assert_eq!(pieces.buffer, whole.buffer);
    }
    assert_eq!(expected.len(), 3);
    assert_eq!(whole.buffer, "tail");
}

#[test]
fn a_made_up_response_id_depends_on_the_seed_alone() {
    let text = "{\"object\":\"response\",\"output\":[]}";
    let first = rectified(text, "seed-a");
    let second = rectified(text, "seed-a");
    assert_eq!(first["id"], second["id"]);
    let id = first["id"].as_str().unwrap();
    assert!(id.starts_with("resp_rect_"));
    assert_eq!(id.len(), "resp_rect_".len() + 16);
}
