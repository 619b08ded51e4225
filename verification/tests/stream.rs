//! The streaming pipeline end to end: lines to events to buffers, the
//! aggregator's cumulative updates, and the conversation state.

use clauchat::aggregate::StreamAccumulator;
use clauchat::aggregate::StreamingDelta;
use clauchat::api::decode_stream_event;
use clauchat::api::event_to_buffer;
use clauchat::api::process_stream_line;
use clauchat::api::ResponseUsage;
use clauchat::api::Role;
use clauchat::api::StreamEvent;
use clauchat::api::StreamingBuffer;
use clauchat::conversation::ConversationState;
use clauchat::price::ModelPricing;

fn text_chunk(text: &str) -> StreamingBuffer {
    StreamingBuffer { content: text.to_string(), is_complete: false, usage: None }
}

fn stop_chunk() -> StreamingBuffer {
    StreamingBuffer { content: String::new(), is_complete: true, usage: None }
}

#[test]
fn ping_line_emits_nothing() {
    assert!(process_stream_line("data: {\"type\": \"ping\"}").is_none());
}

#[test]
fn blank_and_event_lines_emit_nothing() {
    assert!(process_stream_line("").is_none());
    assert!(process_stream_line("event: content_block_delta").is_none());
    assert!(process_stream_line("something else").is_none());
}

#[test]
fn malformed_data_line_is_skipped() {
    assert!(process_stream_line("data: {not json").is_none());
    assert!(process_stream_line("data: {\"type\": \"brand_new_event\"}").is_none());
}

#[test]
fn text_delta_line_emits_increment() {
    let line = "data: {\"type\":\"content_block_delta\",\"index\":0,\
                \"delta\":{\"type\":\"text_delta\",\"text\":\"Hel\"}}";
    let buf = process_stream_line(line).expect("a text delta emits a chunk");
    assert_eq!(buf.content, "Hel");
    assert!(!buf.is_complete);
    assert!(buf.usage.is_none());
}

#[test]
fn non_text_delta_emits_nothing() {
    let line = "data: {\"type\":\"content_block_delta\",\"index\":0,\
                \"delta\":{\"type\":\"input_json_delta\",\"text\":\"x\"}}";
    assert!(process_stream_line(line).is_none());
}

#[test]
fn message_stop_line_emits_completion() {
    let buf = process_stream_line("data: {\"type\":\"message_stop\"}").expect("stop emits");
    assert_eq!(buf.content, "");
    assert!(buf.is_complete);
}

#[test]
fn message_delta_carries_usage() {
    let line = "data: {\"type\":\"message_delta\",\"delta\":{\"stop_reason\":\"end_turn\"},\
                \"usage\":{\"input_tokens\":7,\"output_tokens\":9}}";
    let buf = process_stream_line(line).expect("usage is carried");
    assert!(!buf.is_complete);
    assert_eq!(buf.usage, Some(ResponseUsage { input_tokens: 7, output_tokens: 9 }));
}

#[test]
fn decode_recognizes_wire_events() {
    let ev = decode_stream_event("{\"type\":\"message_start\",\"message\":{\"id\":\"m1\",\"type\":\"message\",\"role\":\"assistant\"}}");
    match ev {
        StreamEvent::MessageStart { message } => {
            assert_eq!(message.id, "m1");
            assert_eq!(message.role, "assistant");
        }
        other => panic!("expected message_start, got {:?}", other),
    }
    let ev = decode_stream_event("{\"type\":\"content_block_stop\",\"index\":2}");
    assert!(matches!(ev, StreamEvent::ContentBlockStop { index: 2 }));
    let ev = decode_stream_event("{\"type\":\"error\",\"error\":{\"message\":\"overloaded\"}}");
    match ev {
        StreamEvent::Error { error } => assert_eq!(error.message, "overloaded"),
        other => panic!("expected error event, got {:?}", other),
    }
    let ev = decode_stream_event("{\"type\":\"ping\"}");
    assert!(matches!(ev, StreamEvent::Ping));
    let ev = decode_stream_event("{\"type\":\"content_block_delta\",\"index\":0,\"delta\":{\"type\":\"text_delta\"}}");
    assert!(matches!(ev, StreamEvent::Unknown));
}

#[test]
fn event_to_buffer_skips_everything_but_text_and_stop() {
    let ev = decode_stream_event("{\"type\":\"content_block_start\",\"index\":0,\"content_block\":{\"type\":\"text\",\"text\":\"\"}}");
    assert!(event_to_buffer(&ev).is_none());
    assert!(event_to_buffer(&StreamEvent::Ping).is_none());
    assert!(event_to_buffer(&StreamEvent::Unknown).is_none());
}

#[test]
fn aggregator_contents_are_running_prefixes() {
    let mut acc = StreamAccumulator::new();
    let d1 = acc.apply_chunk(&text_chunk("Hel")).expect("first update");
    let d2 = acc.apply_chunk(&text_chunk("lo")).expect("second update");
    let d3 = acc.apply_chunk(&text_chunk(" world")).expect("third update");
    let d4 = acc.apply_chunk(&stop_chunk()).expect("terminal update");
    assert_eq!(d1.content, "Hel");
    assert_eq!(d2.content, "Hello");
    assert_eq!(d3.content, "Hello world");
    assert_eq!(d4.content, "Hello world");
    assert!(!d1.is_complete && !d2.is_complete && !d3.is_complete);
    assert!(d4.is_complete);
    assert!(acc.is_finished());
}

#[test]
fn aggregator_emits_at_most_one_terminal_update() {
    let mut acc = StreamAccumulator::new();
    let first = acc.apply_chunk(&stop_chunk());
    assert!(first.is_some_and(|d| d.is_complete));
    assert!(acc.apply_chunk(&text_chunk("late")).is_none());
    assert!(acc.apply_chunk(&stop_chunk()).is_none());
    assert!(acc.apply_failure("late failure").is_none());
}

#[test]
fn aggregator_failure_is_terminal_and_marked() {
    let mut acc = StreamAccumulator::new();
    acc.apply_chunk(&text_chunk("partial"));
    let d = acc.apply_failure("connection reset").expect("failure update");
    assert!(d.is_complete);
    assert!(d.content.starts_with("Err\u{274}r:"));
    assert!(d.content.contains("connection reset"));
    assert!(acc.is_finished());
    assert!(acc.apply_chunk(&text_chunk("more")).is_none());
}

#[test]
fn aggregator_carries_usage_to_later_updates() {
    let mut acc = StreamAccumulator::new();
    let usage = ResponseUsage { input_tokens: 3, output_tokens: 5 };
    acc.apply_chunk(&text_chunk("a"));
    let carried = acc
        .apply_chunk(&StreamingBuffer {
            content: String::new(),
            is_complete: false,
            usage: Some(usage),
        })
        .expect("usage chunk emits");
    assert_eq!(carried.usage, Some(usage));
    let d = acc.apply_chunk(&stop_chunk()).expect("terminal update");
    assert_eq!(d.usage, Some(usage));
    assert_eq!(d.content, "a");
}

#[test]
fn conversation_opens_with_greeting() {
    let convo = ConversationState::new();
    assert_eq!(convo.messages().len(), 1);
    assert!(matches!(convo.messages()[0].role, Role::Assistant));
    assert_eq!(convo.messages()[0].content, "How can I help you?");
    assert!(!convo.is_sending());
    assert_eq!(convo.total_cost_micros(), 0);
}

#[test]
fn send_is_rejected_while_one_is_outstanding() {
    let mut convo = ConversationState::new();
    assert!(convo.begin_send("first question"));
    assert!(convo.is_sending());
    assert_eq!(convo.messages().len(), 3);
    // a second send is a no-op until the terminal update arrives
    assert!(!convo.begin_send("second question"));
    assert_eq!(convo.messages().len(), 3);
    let terminal = StreamingDelta {
        content: "answer".to_string(),
        is_complete: true,
        usage: None,
    };
    convo.apply_update(&terminal, None);
    assert!(!convo.is_sending());
    assert!(convo.begin_send("second question"));
}

#[test]
fn blank_input_is_rejected() {
    let mut convo = ConversationState::new();
    assert!(!convo.begin_send("   \n\t"));
    assert_eq!(convo.messages().len(), 1);
    assert!(!convo.is_sending());
}

#[test]
fn updates_overwrite_the_open_assistant_message() {
    let mut convo = ConversationState::new();
    convo.begin_send("hi");
    let mk = |content: &str, complete: bool| StreamingDelta {
        content: content.to_string(),
        is_complete: complete,
        usage: None,
    };
    convo.apply_update(&mk("Hel", false), None);
    assert_eq!(convo.messages()[2].content, "Hel");
    convo.apply_update(&mk("Hello", false), None);
    assert_eq!(convo.messages()[2].content, "Hello");
    convo.apply_update(&mk("Hello world", true), None);
    assert_eq!(convo.messages()[2].content, "Hello world");
    assert_eq!(convo.messages().len(), 3);
    assert!(!convo.is_sending());
}

#[test]
fn error_update_sets_error_and_ends_send() {
    let mut convo = ConversationState::new();
    convo.begin_send("hi");
    let d = StreamingDelta {
        content: "Err\u{274}r: connection reset".to_string(),
        is_complete: true,
        usage: None,
    };
    convo.apply_update(&d, None);
    assert_eq!(convo.error().as_deref(), Some("Err\u{274}r: connection reset"));
    // the open assistant message is left alone on the error path
    assert_eq!(convo.messages()[2].content, "");
    assert!(!convo.is_sending());
}

#[test]
fn delivered_usage_is_priced_into_the_total() {
    let pricing = ModelPricing {
        model_name: "m".to_string(),
        input_cost_per_million: Some(3_000_000),
        output_cost_per_million: Some(15_000_000),
        max_prompt_tokens: 200_000,
        max_output_tokens: 8_192,
    };
    let mut convo = ConversationState::new();
    convo.begin_send("hi");
    let d = StreamingDelta {
        content: "done".to_string(),
        is_complete: true,
        usage: Some(ResponseUsage { input_tokens: 2_000_000, output_tokens: 1_000_000 }),
    };
    convo.apply_update(&d, Some(&pricing));
    // 2M tokens at $3/M plus 1M tokens at $15/M, in micro-dollars
    assert_eq!(convo.total_cost_micros(), 6_000_000 + 15_000_000);
}
