use comms::client::{
    api_error, assembled_message, authorization, build_request, completions_url, first_choice,
    model_ids, models_url, payload_of_line, payload_step, ChatMessage, ChatResponse, Choice, Client, Delta,
    FunctionDelta, Model, ModelList, PayloadStep, SseDecoder, StreamAccumulator, StreamChoice,
    StreamChunk, ToolCallDelta,
};
use comms::config::{Config, Temperature};
use comms::tools::get_tool_definitions;
use serde_json::Value;

// --- SSE framing ---------------------------------------------------

#[test]
fn decoder_returns_only_complete_data_lines() {
    let mut d = SseDecoder::default();
    d.push_bytes(b"data: one\ndata: two\ndata: par");
    assert_eq!(d.drain_payloads(), vec!["one", "two"]);
    // The partial third line stays buffered until its newline arrives.
    assert!(d.drain_payloads().is_empty());
    d.push_bytes(b"tial\n");
    assert_eq!(d.drain_payloads(), vec!["partial"]);
}

#[test]
fn decoder_ignores_blank_lines_and_non_data_fields() {
    let mut d = SseDecoder::default();
    d.push_bytes(b"event: message\n: a comment\n\ndata: payload\n\n");
    assert_eq!(d.drain_payloads(), vec!["payload"]);
}

#[test]
fn decoder_handles_crlf() {
    let mut d = SseDecoder::default();
    d.push_bytes(b"data: hello\r\n\r\n");
    assert_eq!(d.drain_payloads(), vec!["hello"]);
}

#[test]
fn decoder_survives_utf8_split_across_chunks() {
    // "café" — the é is two bytes, split across the chunk boundary.
    let mut d = SseDecoder::default();
    d.push_bytes(b"data: caf\xc3");
    assert!(d.drain_payloads().is_empty());
    d.push_bytes(b"\xa9\n");
    assert_eq!(d.drain_payloads(), vec!["café"]);
}

#[test]
fn decoding_does_not_depend_on_how_the_bytes_arrive() {
    let bytes = b"data: one\n\ndata: two\r\nid: 3\ndata: three\n";
    let mut whole = SseDecoder::default();
    whole.push_bytes(bytes);
    let mut split = SseDecoder::default();
    let mut payloads = Vec::new();
    for b in bytes {
        split.push_bytes(&[*b]);
        payloads.extend(split.drain_payloads());
    }
    assert_eq!(whole.drain_payloads(), payloads);
    assert_eq!(payloads, vec!["one", "two", "three"]);
}

#[test]
fn a_line_that_is_no_utf8_is_read_as_far_as_it_goes() {
    let mut d = SseDecoder::default();
    d.push_bytes(b"data: a\xffb\n");
    assert_eq!(d.drain_payloads(), vec!["a\u{fffd}b"]);
}

#[test]
fn payloads_of_single_lines() {
    assert_eq!(payload_of_line("data: x"), Some("x".to_string()));
    assert_eq!(payload_of_line("event: x"), None);
    assert_eq!(payload_step("[DONE]"), PayloadStep::Finish);
    assert_eq!(payload_step(""), PayloadStep::Skip);
    assert_eq!(payload_step("{}"), PayloadStep::Parse);
}

// --- Chunk accumulation ---------------------------------------------

fn text(value: &Value) -> Option<String> {
    value.as_str().map(str::to_string)
}

fn chunk(value: &Value) -> StreamChunk {
    let choices = value["choices"].as_array().cloned().unwrap_or_default();
    StreamChunk {
        choices: choices
            .iter()
            .map(|choice| {
                let delta = &choice["delta"];
                StreamChoice {
                    delta: Delta {
                        content: text(&delta["content"]),
                        tool_calls: delta["tool_calls"].as_array().map(|calls| {
                            calls
                                .iter()
                                .map(|call| ToolCallDelta {
                                    index: call["index"].as_u64().unwrap_or(0) as u32,
                                    id: text(&call["id"]),
                                    function: call.get("function").map(|f| FunctionDelta {
                                        name: text(&f["name"]),
                                        arguments: text(&f["arguments"]),
                                    }),
                                })
                                .collect()
                        }),
                    },
                }
            })
            .collect(),
    }
}

fn push(acc: &mut StreamAccumulator, payload: &str) -> Result<Option<String>, String> {
    let parsed = serde_json::from_str::<Value>(payload)
        .map(|value| chunk(&value))
        .map_err(|e| e.to_string());
    acc.push_payload(parsed)
}

fn content_chunk(text: &str) -> String {
    format!(
        r#"{{"choices":[{{"delta":{{"content":{}}}}}]}}"#,
        serde_json::to_string(text).unwrap()
    )
}

#[test]
fn accumulates_content_deltas_in_order() {
    let mut acc = StreamAccumulator::default();
    assert_eq!(
        push(&mut acc, &content_chunk("Hello")).unwrap(),
        Some("Hello".to_string())
    );
    assert_eq!(
        push(&mut acc, &content_chunk(", world")).unwrap(),
        Some(", world".to_string())
    );
    let message = acc.finish();
    assert_eq!(message.content, Some("Hello, world".to_string()));
    assert!(message.tool_calls.is_none());
    assert_eq!(message.role, "assistant");
}

#[test]
fn empty_content_delta_yields_no_text() {
    let mut acc = StreamAccumulator::default();
    // Providers commonly open a stream with a role-only or empty delta.
    assert_eq!(push(&mut acc, &content_chunk("")).unwrap(), None);
    assert_eq!(
        push(
            &mut acc,
            r#"{"choices":[{"delta":{"role":"assistant"}}]}"#
        )
        .unwrap(),
        None
    );
    // No text at all is reported as absent, not as an empty string.
    assert_eq!(acc.finish().content, None);
}

#[test]
fn reassembles_tool_call_arguments_fragmented_across_chunks() {
    let mut acc = StreamAccumulator::default();
    for payload in [
        r#"{"choices":[{"delta":{"tool_calls":[{"index":0,"id":"call_1","function":{"name":"write_file","arguments":"{\"filep"}}]}}]}"#,
        r#"{"choices":[{"delta":{"tool_calls":[{"index":0,"function":{"arguments":"ath\":\"a."}}]}}]}"#,
        r#"{"choices":[{"delta":{"tool_calls":[{"index":0,"function":{"arguments":"txt\"}"}}]}}]}"#,
    ] {
        assert_eq!(push(&mut acc, payload).unwrap(), None);
    }

    let message = acc.finish();
    assert_eq!(message.content, None);
    let calls = message.tool_calls.expect("tool call");
    assert_eq!(calls.len(), 1);
    assert_eq!(calls[0].id, "call_1");
    assert_eq!(calls[0].function.name, "write_file");
    // The concatenated fragments must be valid JSON, since this string is
    // what gets parsed to actually run the tool.
    assert_eq!(calls[0].function.arguments, r#"{"filepath":"a.txt"}"#);
    let args: Value = serde_json::from_str(&calls[0].function.arguments).unwrap();
    assert_eq!(args["filepath"], "a.txt");
}

#[test]
fn a_repeated_function_name_is_not_concatenated() {
    // Providers that echo the whole name in every delta must not end up
    // with "write_filewrite_file", which would fail as an unknown tool.
    let mut acc = StreamAccumulator::default();
    for payload in [
        r#"{"choices":[{"delta":{"tool_calls":[{"index":0,"id":"c1","function":{"name":"write_file","arguments":"{\"a\":"}}]}}]}"#,
        r#"{"choices":[{"delta":{"tool_calls":[{"index":0,"function":{"name":"write_file","arguments":"1}"}}]}}]}"#,
    ] {
        push(&mut acc, payload).unwrap();
    }
    let calls = acc.finish().tool_calls.expect("tool call");
    assert_eq!(calls[0].function.name, "write_file");
    assert_eq!(calls[0].function.arguments, r#"{"a":1}"#);
}

#[test]
fn a_name_split_across_chunks_still_joins() {
    let mut acc = StreamAccumulator::default();
    for payload in [
        r#"{"choices":[{"delta":{"tool_calls":[{"index":0,"id":"c1","function":{"name":"write_"}}]}}]}"#,
        r#"{"choices":[{"delta":{"tool_calls":[{"index":0,"function":{"name":"file"}}]}}]}"#,
    ] {
        push(&mut acc, payload).unwrap();
    }
    let calls = acc.finish().tool_calls.expect("tool call");
    assert_eq!(calls[0].function.name, "write_file");
}

#[test]
fn a_stream_comes_to_its_text_and_one_call_for_each_index() {
    let mut acc = StreamAccumulator::default();
    let mut handed_out = String::new();
    for payload in [
        r#"{"choices":[{"delta":{"content":"Let me "}}]}"#,
        r#"{"choices":[{"delta":{"tool_calls":[{"index":4,"id":"b","function":{"name":"second","arguments":"{\"x\""}}]}}]}"#,
        r#"{"choices":[{"delta":{"tool_calls":[{"index":1,"id":"a","function":{"name":"first","arguments":"{"}}]}}]}"#,
        r#"{"choices":[{"delta":{"content":"see."}}]}"#,
        r#"{"choices":[{"delta":{"tool_calls":[{"index":4,"function":{"arguments":":1}"}},{"index":1,"function":{"arguments":"}"}}]}}]}"#,
    ] {
        if let Some(text) = push(&mut acc, payload).unwrap() {
            handed_out.push_str(&text);
        }
    }
    let message = acc.finish();
    assert_eq!(message.role, "assistant");
    assert_eq!(message.tool_call_id, None);
    assert_eq!(message.content, Some(handed_out));
    assert_eq!(message.content.as_deref(), Some("Let me see."));
    let calls = message.tool_calls.unwrap();
    let parts: Vec<(&str, &str, &str)> = calls
        .iter()
        .map(|c| (c.id.as_str(), c.function.name.as_str(), c.function.arguments.as_str()))
        .collect();
    assert_eq!(parts, vec![("a", "first", "{}"), ("b", "second", "{\"x\":1}")]);
}

#[test]
fn orders_tool_calls_by_index_not_arrival() {
    let mut acc = StreamAccumulator::default();
    // Second call's fragment arrives before the first's is finished.
    push(
        &mut acc,
        r#"{"choices":[{"delta":{"tool_calls":[{"index":1,"id":"b","function":{"name":"second","arguments":"{}"}}]}}]}"#,
    )
    .unwrap();
    push(
        &mut acc,
        r#"{"choices":[{"delta":{"tool_calls":[{"index":0,"id":"a","function":{"name":"first","arguments":"{}"}}]}}]}"#,
    )
    .unwrap();

    let calls = acc.finish().tool_calls.expect("tool calls");
    assert_eq!(calls.len(), 2);
    assert_eq!(calls[0].function.name, "first");
    assert_eq!(calls[1].function.name, "second");
}

#[test]
fn content_and_tool_calls_can_arrive_in_one_turn() {
    let mut acc = StreamAccumulator::default();
    push(&mut acc, &content_chunk("Let me check.")).unwrap();
    push(
        &mut acc,
        r#"{"choices":[{"delta":{"tool_calls":[{"index":0,"id":"c","function":{"name":"read_file","arguments":"{}"}}]}}]}"#,
    )
    .unwrap();

    let message = acc.finish();
    assert_eq!(message.content, Some("Let me check.".to_string()));
    assert_eq!(message.tool_calls.unwrap().len(), 1);
}

#[test]
fn malformed_chunk_is_an_error_not_a_panic() {
    let mut acc = StreamAccumulator::default();
    assert!(push(&mut acc, "{not json").is_err());
    let error = push(&mut acc, "{not json").unwrap_err();
    assert!(error.starts_with("Malformed stream chunk: "), "{error}");
}

#[test]
fn chunk_without_choices_is_tolerated() {
    // Some providers emit keepalive/usage-only frames.
    let mut acc = StreamAccumulator::default();
    assert_eq!(
        push(&mut acc, r#"{"usage":{"total_tokens":5}}"#).unwrap(),
        None
    );
    assert_eq!(acc.finish().content, None);
}

#[test]
fn has_visible_content_treats_none_and_blank_string_alike() {
    let none = ChatMessage {
        role: "assistant".to_string(),
        content: None,
        tool_calls: None,
        tool_call_id: None,
        ..Default::default()
    };
    let blank = ChatMessage {
        content: Some("   ".to_string()),
        ..none.clone()
    };
    let real = ChatMessage {
        content: Some("hi".to_string()),
        ..none.clone()
    };
    assert!(!none.has_visible_content());
    assert!(!blank.has_visible_content());
    assert!(real.has_visible_content());
}

// --- Requests and replies -------------------------------------------

#[test]
fn the_effort_is_sent_in_the_configured_style() {
    let mut config = Config::default();
    let request = |config: &Config| {
        build_request(
            config,
            "m".to_string(),
            Vec::new(),
            None,
            None,
            Some("high".to_string()),
            false,
        )
    };
    let nested = request(&config);
    assert_eq!(nested.reasoning.unwrap().effort, "high");
    assert_eq!(nested.reasoning_effort, None);
    config.effort_style = Some("flat".to_string());
    let flat = request(&config);
    assert_eq!(flat.reasoning_effort, Some("high".to_string()));
    assert!(flat.reasoning.is_none());
    config.effort_style = Some("none".to_string());
    let none = request(&config);
    assert_eq!(none.reasoning_effort, None);
    assert!(none.reasoning.is_none());
}

#[test]
fn tools_come_with_a_choice_and_streaming_is_asked_for() {
    let config = Config::default();
    let with_tools = build_request(
        &config,
        "m".to_string(),
        Vec::new(),
        Some(Temperature {
            bits: 0.5f32.to_bits(),
        }),
        Some(get_tool_definitions()),
        None,
        true,
    );
    assert_eq!(with_tools.tool_choice, Some("auto".to_string()));
    assert_eq!(with_tools.stream, Some(true));
    assert_eq!(
        with_tools.temperature.map(|t| f32::from_bits(t.bits)),
        Some(0.5)
    );
    let plain = build_request(&config, "m".to_string(), Vec::new(), None, None, None, false);
    assert_eq!(plain.tool_choice, None);
    assert_eq!(plain.stream, None);
}

#[test]
fn urls_and_headers_are_made_of_the_configuration() {
    let config = Config {
        base_url: "https://example.com/v1".to_string(),
        ..Config::default()
    };
    assert_eq!(
        completions_url(&config),
        "https://example.com/v1/chat/completions"
    );
    assert_eq!(models_url(&config), "https://example.com/v1/models");
    assert_eq!(authorization("k"), "Bearer k");
    assert_eq!(api_error("bad"), "API error: bad");
}

#[test]
fn a_reply_without_a_choice_is_an_error() {
    assert_eq!(
        first_choice(ChatResponse {
            choices: Vec::new()
        }),
        Err("Provider returned no choices".to_string())
    );
    let message = ChatMessage::plain("assistant", "hi".to_string());
    assert_eq!(
        first_choice(ChatResponse {
            choices: vec![Choice {
                message: message.clone()
            }]
        }),
        Ok(message.clone())
    );
    assert_eq!(assembled_message(Some(message.clone())), Ok(message));
    assert_eq!(
        assembled_message(None),
        Err("Response stream ended without a message".to_string())
    );
}

#[test]
fn models_are_listed_by_their_ids() {
    let list = ModelList {
        data: vec![
            Model {
                id: "a".to_string(),
            },
            Model {
                id: "b".to_string(),
            },
        ],
    };
    assert_eq!(model_ids(list), vec!["a", "b"]);
}

#[test]
fn a_client_needs_a_key_and_sends_it_with_every_request() {
    let mut config = Config::default();
    config.extra_headers = vec![("X-Title".to_string(), "comms".to_string())];
    config.stream = true;
    let refused = Client::new(config.clone(), None).unwrap_err();
    assert_eq!(refused, "API key not configured. Run: comms login");
    let mut client = Client::new(config, Some("abc".to_string())).unwrap();
    assert_eq!(
        client.headers(),
        vec![
            ("Authorization".to_string(), "Bearer abc".to_string()),
            ("X-Title".to_string(), "comms".to_string()),
        ]
    );
    assert!(client.streaming_enabled());
    client.config.stream = false;
    assert!(!client.streaming_enabled());
}
