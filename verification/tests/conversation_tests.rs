use openaiclient::openaiapi::{
    message_to_json, messages_to_json, parse_response, Chat, ChatError, ChatErrorKind,
    ContentPart, FunctionCall, ImageUrlContent, Message, MessageContent, ToolCall,
};
use openaiclient::streaming::{is_streaming_body, parse_api_response, reconstruct_streaming};

#[test]
fn it_works() {
    let result = 2 + 2;
    assert_eq!(result, 4);
}

fn assistant_with_calls(ids: &[&str]) -> Message {
    let calls: Vec<ToolCall> = ids
        .iter()
        .map(|id| ToolCall {
            id: id.to_string(),
            tool_type: "function".to_string(),
            function: FunctionCall { name: "execute".to_string(), arguments: "{}".to_string() },
        })
        .collect();
    Message {
        role: "assistant".to_string(),
        content: None,
        name: None,
        tool_call_id: None,
        tool_calls: Some(calls),
    }
}

#[test]
fn oldest_pending_none_without_tool_calls() {
    let mut chat = Chat::new();
    chat.add_message(Message::normal("user".to_string(), "hi".to_string()));
    chat.add_message(Message::normal("assistant".to_string(), "hello".to_string()));
    assert!(chat.get_last_pending_tool_call_id().is_none());
    let err = chat.get_last_tool_call_id().unwrap_err();
    assert!(err.kind == ChatErrorKind::LastToolCallIdNotFound);
}

#[test]
fn oldest_pending_is_first_unanswered_regardless_of_answer_order() {
    let mut chat = Chat::new();
    chat.add_message(Message::normal("user".to_string(), "go".to_string()));
    chat.add_message(assistant_with_calls(&["a", "b", "c"]));
    // Answer the middle one first: the oldest pending is still "a".
    chat.add_message(Message::tool_response(
        "tool".to_string(),
        "execute".to_string(),
        "b".to_string(),
        "done".to_string(),
    ));
    assert_eq!(chat.get_last_pending_tool_call_id().unwrap(), "a");
    // Answer "a": the oldest pending moves to "c".
    chat.add_message(Message::tool_response(
        "tool".to_string(),
        "execute".to_string(),
        "a".to_string(),
        "done".to_string(),
    ));
    assert_eq!(chat.get_last_pending_tool_call_id().unwrap(), "c");
    // Answer "c": nothing is pending.
    chat.add_message(Message::tool_response(
        "tool".to_string(),
        "execute".to_string(),
        "c".to_string(),
        "done".to_string(),
    ));
    assert!(chat.get_last_pending_tool_call_id().is_none());
}

#[test]
fn role_alternation_refuses_repeated_role() {
    let mut chat = Chat::new();
    assert!(chat.add_normal_message("user", MessageContent::Simple("one".to_string())).is_ok());
    let err = chat
        .add_normal_message("user", MessageContent::Simple("two".to_string()))
        .unwrap_err();
    assert!(err.kind == ChatErrorKind::RoleAlternationViolation);
    assert!(chat
        .add_normal_message("assistant", MessageContent::Simple("three".to_string()))
        .is_ok());
    // After an assistant message, a user message goes through again.
    assert!(chat.add_normal_message("user", MessageContent::Simple("four".to_string())).is_ok());
    assert_eq!(chat.messages.len(), 3);
}

#[test]
fn tool_message_defaults_to_oldest_pending_id() {
    let mut chat = Chat::new();
    chat.add_message(assistant_with_calls(&["x", "y"]));
    assert!(chat
        .add_tool_message("tool", "execute", None, MessageContent::Simple("out".to_string()))
        .is_ok());
    let last = &chat.messages[chat.messages.len() - 1];
    assert_eq!(last.tool_call_id.as_ref().unwrap(), "x");
    assert_eq!(last.name.as_ref().unwrap(), "execute");
    // With an explicit id, that id is used.
    assert!(chat
        .add_tool_message("tool", "execute", Some("y"), MessageContent::Simple("out".to_string()))
        .is_ok());
    let last = &chat.messages[chat.messages.len() - 1];
    assert_eq!(last.tool_call_id.as_ref().unwrap(), "y");
}

#[test]
fn tool_message_without_pending_call_fails() {
    let mut chat = Chat::new();
    chat.add_message(Message::normal("user".to_string(), "hi".to_string()));
    let err = chat
        .add_tool_message("tool", "execute", None, MessageContent::Simple("out".to_string()))
        .unwrap_err();
    assert!(err.kind == ChatErrorKind::LastToolCallIdNotFound);
}

#[test]
fn get_tool_call_finds_by_id() {
    let mut chat = Chat::new();
    chat.add_message(assistant_with_calls(&["k1", "k2"]));
    let tc = chat.get_tool_call("k2").unwrap();
    assert_eq!(tc.id, "k2");
    assert_eq!(tc.function.name, "execute");
    let err = chat.get_tool_call("nope").unwrap_err();
    assert!(err.kind == ChatErrorKind::ToolCallIdNotFound);
}

#[test]
fn submit_check_refuses_empty_and_assistant_last() {
    let mut chat = Chat::new();
    let err = chat.check_ready_to_submit().unwrap_err();
    assert!(err.kind == ChatErrorKind::ChatContainsNoMessages);
    chat.add_message(Message::normal("user".to_string(), "hi".to_string()));
    assert!(chat.check_ready_to_submit().is_ok());
    chat.add_message(Message::normal("assistant".to_string(), "yo".to_string()));
    let err = chat.check_ready_to_submit().unwrap_err();
    assert!(err.kind == ChatErrorKind::LastMessageAlreadyAssistant);
}

#[test]
fn serializes_simple_message_exactly() {
    let m = Message::normal("user".to_string(), "hi \"there\"\n".to_string());
    let j = message_to_json(&m);
    assert_eq!(j, "{\"role\":\"user\",\"content\":\"hi \\\"there\\\"\\n\"}");
}

#[test]
fn serializes_tool_response_and_log() {
    let m = Message::tool_response(
        "tool".to_string(),
        "execute".to_string(),
        "id9".to_string(),
        "ok".to_string(),
    );
    let j = message_to_json(&m);
    assert_eq!(
        j,
        "{\"role\":\"tool\",\"content\":\"ok\",\"name\":\"execute\",\"tool_call_id\":\"id9\"}"
    );
    let log = vec![Message::normal("user".to_string(), "a".to_string()), m];
    let all = messages_to_json(&log);
    assert!(all.starts_with("[{\"role\":\"user\""));
    assert!(all.ends_with("}]"));
    // What the serializer wrote reads back as well-formed JSON.
    let v: serde_json::Value = serde_json::from_str(&all).unwrap();
    assert_eq!(v.as_array().unwrap().len(), 2);
}

#[test]
fn parse_response_reads_message_and_tool_call() {
    let body = "{\"choices\":[{\"message\":{\"role\":\"assistant\",\"content\":null,\
                 \"tool_calls\":[{\"id\":\"c1\",\"type\":\"function\",\
                 \"function\":{\"name\":\"execute\",\"arguments\":\"{\\\"command\\\":\\\"ls\\\"}\"}}]}}]}";
    let m = parse_response(body).unwrap();
    assert_eq!(m.role, "assistant");
    assert!(m.content.is_none());
    let calls = m.tool_calls.as_ref().unwrap();
    assert_eq!(calls.len(), 1);
    assert_eq!(calls[0].id, "c1");
    assert_eq!(calls[0].function.arguments, "{\"command\":\"ls\"}");
}

#[test]
fn parse_response_reports_missing_pieces() {
    let err = parse_response("not json").unwrap_err();
    assert!(err.kind == ChatErrorKind::ProtocolParseFailure);
    assert_eq!(err.message, "Invalid JSON in response");
    let err = parse_response("{}").unwrap_err();
    assert_eq!(err.message, "No choices in the return object");
    let err = parse_response("{\"choices\":[]}").unwrap_err();
    assert_eq!(err.message, "No element 0 in the choices object");
    let err = parse_response("{\"choices\":[{}]}").unwrap_err();
    assert_eq!(err.message, "No message in the choices element 0");
}

#[test]
fn round_trip_keeps_tool_call_arguments() {
    // Serialize a message with a tool call, wrap it as a response, and parse
    // it back: the opaque argument string survives unchanged.
    let m = Message {
        role: "assistant".to_string(),
        content: Some(MessageContent::Simple("calling".to_string())),
        name: None,
        tool_call_id: None,
        tool_calls: Some(vec![ToolCall {
            id: "call_7".to_string(),
            tool_type: "function".to_string(),
            function: FunctionCall {
                name: "write".to_string(),
                arguments: "{\"path\":\"a b\",\"content\":\"x\\ny\"}".to_string(),
            },
        }]),
    };
    let body = format!("{{\"choices\":[{{\"message\":{}}}]}}", message_to_json(&m));
    let back = parse_response(&body).unwrap();
    assert_eq!(back.role, m.role);
    match back.content.as_ref().unwrap() {
        MessageContent::Simple(t) => assert_eq!(t, "calling"),
        _ => panic!("content shape changed"),
    }
    let calls = back.tool_calls.as_ref().unwrap();
    assert_eq!(calls[0].id, "call_7");
    assert_eq!(calls[0].tool_type, "function");
    assert_eq!(calls[0].function.name, "write");
    assert_eq!(calls[0].function.arguments, "{\"path\":\"a b\",\"content\":\"x\\ny\"}");
}

#[test]
fn streaming_accumulates_text() {
    let body = "data:{\"choices\":[{\"delta\":{\"content\":\"Hi\"}}]}\n\
                data:{\"choices\":[{\"delta\":{\"content\":\" there\"}}]}\n\
                data: [DONE]\n";
    let m = reconstruct_streaming(body).unwrap();
    assert_eq!(m.role, "assistant");
    match m.content.as_ref().unwrap() {
        MessageContent::Simple(t) => assert_eq!(t, "Hi there"),
        _ => panic!("expected simple content"),
    }
    assert!(m.tool_calls.is_none());
}

#[test]
fn streaming_assembles_tool_call_arguments() {
    let body = "data: {\"choices\":[{\"delta\":{\"tool_calls\":[{\"id\":\"t1\",\"type\":\"function\",\"function\":{\"name\":\"execute\",\"arguments\":\"{\\\"a\\\":\"}}]}}]}\n\
                data: {\"choices\":[{\"delta\":{\"tool_calls\":[{\"function\":{\"arguments\":\"1}\"}}]}}]}\n\
                data: {\"choices\":[{\"delta\":{},\"finish_reason\":\"tool_calls\"}]}\n\
                data: [DONE]\n";
    let m = reconstruct_streaming(body).unwrap();
    let calls = m.tool_calls.as_ref().unwrap();
    assert_eq!(calls.len(), 1);
    assert_eq!(calls[0].id, "t1");
    assert_eq!(calls[0].tool_type, "function");
    assert_eq!(calls[0].function.name, "execute");
    assert_eq!(calls[0].function.arguments, "{\"a\":1}");
    assert!(m.content.is_none());
}

#[test]
fn streaming_refuses_second_completed_tool_call() {
    let body = "data: {\"choices\":[{\"delta\":{\"tool_calls\":[{\"id\":\"t1\"}]},\"finish_reason\":\"tool_calls\"}]}\n\
                data: {\"choices\":[{\"delta\":{\"tool_calls\":[{\"id\":\"t2\"}]},\"finish_reason\":\"tool_calls\"}]}\n";
    let err = reconstruct_streaming(body).unwrap_err();
    assert!(err.kind == ChatErrorKind::ProtocolParseFailure);
    assert_eq!(err.message, "More than one tool call in one streamed turn");
}

#[test]
fn streaming_refuses_bad_frame() {
    let body = "data: {\"choices\":[{\"delta\":{\"content\":\"x\"}}]}\ndata: not json\n";
    let err = reconstruct_streaming(body).unwrap_err();
    assert!(err.kind == ChatErrorKind::ProtocolParseFailure);
    assert_eq!(err.message, "Invalid streaming frame");
}

#[test]
fn streaming_detection_routes_both_forms() {
    let streamed = "data: {\"choices\":[{\"delta\":{\"content\":\"A\"}}]}\ndata: [DONE]\n";
    assert!(is_streaming_body(streamed));
    let m = parse_api_response(streamed).unwrap();
    match m.content.as_ref().unwrap() {
        MessageContent::Simple(t) => assert_eq!(t, "A"),
        _ => panic!("expected simple content"),
    }
    let plain = "{\"choices\":[{\"message\":{\"role\":\"assistant\",\"content\":\"B\"}}]}";
    assert!(!is_streaming_body(plain));
    let m = parse_api_response(plain).unwrap();
    match m.content.as_ref().unwrap() {
        MessageContent::Simple(t) => assert_eq!(t, "B"),
        _ => panic!("expected simple content"),
    }
}

#[test]
fn chat_error_new_keeps_kind_and_message() {
    let e = ChatError::new(ChatErrorKind::Other, "something");
    assert!(e.kind == ChatErrorKind::Other);
    assert_eq!(e.message, "something");
}

#[test]
fn constructors_fill_the_message_shape() {
    let m = Message::normal("user".to_string(), "hello".to_string());
    assert_eq!(m.role, "user");
    assert!(m.name.is_none() && m.tool_call_id.is_none() && m.tool_calls.is_none());
    assert!(m.is_wf());
    let t = Message::tool_response(
        "tool".to_string(),
        "read".to_string(),
        "id1".to_string(),
        "data".to_string(),
    );
    assert_eq!(t.name.as_ref().unwrap(), "read");
    assert_eq!(t.tool_call_id.as_ref().unwrap(), "id1");
    assert!(t.is_wf());
}

#[test]
fn serializes_multi_part_content() {
    let m = Message {
        role: "user".to_string(),
        content: Some(MessageContent::Multi(vec![
            ContentPart::Text { text: "see this".to_string() },
            ContentPart::ImageUrl {
                image_url: ImageUrlContent { url: "data:image/png;base64,YWJj".to_string() },
            },
        ])),
        name: None,
        tool_call_id: None,
        tool_calls: None,
    };
    let j = message_to_json(&m);
    assert_eq!(
        j,
        "{\"role\":\"user\",\"content\":[{\"type\":\"text\",\"text\":\"see this\"},\
         {\"type\":\"image_url\",\"image_url\":{\"url\":\"data:image/png;base64,YWJj\"}}]}"
    );
    // The wire form is what serde would read back.
    let v: serde_json::Value = serde_json::from_str(&j).unwrap();
    assert_eq!(v.pointer("/content/1/image_url/url").unwrap().as_str().unwrap(),
        "data:image/png;base64,YWJj");
}
