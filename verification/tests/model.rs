use gearbox::json::Json;
use gearbox::response::{parse_response, Field, ResponseError};

fn json(text: &str) -> Json {
    Json::parse(text.as_bytes()).unwrap()
}

fn without(item: Json, name: &str) -> Json {
    match item {
        Json::Object(fields) => Json::Object(
            fields
                .into_iter()
                .filter(|field| field.0 != name)
                .collect(),
        ),
        other => other,
    }
}

fn message(text: &str) -> Json {
    let part = json(r#"{"type": "output_text", "annotations": []}"#).with("text", Json::text(text));
    json(
        r#"{"type": "message", "id": "msg_1", "role": "assistant", "status": "completed",
            "phase": "final_answer"}"#,
    )
    .with("content", Json::array(vec![part]))
}

fn function_call(id: &str) -> Json {
    json(
        r#"{"type": "function_call", "name": "read_file",
            "arguments": "{\"path\":\"index.txt\"}", "status": "completed"}"#,
    )
    .with("id", Json::text(&format!("fc_{id}")))
    .with("call_id", Json::text(id))
}

fn completed(output: Vec<Json>) -> Json {
    json(r#"{"status": "completed", "error": null, "incomplete_details": null}"#)
        .with("output", Json::array(output))
}

#[test]
fn preserves_all_items_including_encrypted_reasoning_and_message_phase() {
    let output = vec![
        json(
            r#"{"type": "reasoning", "id": "rs_1", "summary": [],
                "encrypted_content": "opaque_encrypted_reasoning", "provider_extension": 42}"#,
        ),
        message("我先读取索引。"),
        function_call("call_1"),
        function_call("call_2"),
    ];
    let turn = parse_response(completed(output.clone())).unwrap();
    assert_eq!(turn.output, output);
    assert_eq!(turn.text, "我先读取索引。");
    assert_eq!(turn.calls.len(), 2);
    assert_eq!(turn.calls[0].call_id, "call_1");
    assert_eq!(turn.calls[1].call_id, "call_2");
}

#[test]
fn allows_tool_to_handle_unknown_names_and_invalid_argument_json() {
    let call = function_call("call_1")
        .with("name", Json::text("unknown_tool"))
        .with("arguments", Json::text("not JSON"));
    let call = without(without(call, "status"), "id");
    let turn = parse_response(completed(vec![call])).unwrap();
    assert_eq!(turn.calls[0].name, "unknown_tool");
    assert_eq!(turn.calls[0].arguments, "not JSON");
}

#[test]
fn rejects_missing_empty_or_duplicate_call_ids_for_entire_batch() {
    for bad_id in [Json::Null, Json::text(""), Json::text("   "), Json::whole(12)] {
        let call = function_call("call_2").with("call_id", bad_id);
        assert!(parse_response(completed(vec![function_call("call_1"), call])).is_err());
    }
    let missing = without(function_call("call_2"), "call_id");
    assert!(parse_response(completed(vec![function_call("call_1"), missing])).is_err());
    assert!(parse_response(completed(vec![
        function_call("call_1"),
        function_call("call_1")
    ]))
    .is_err());
}

#[test]
fn rejects_failed_incomplete_refused_or_empty_responses() {
    let good = completed(vec![message("answer")]);
    assert!(parse_response(good.clone()).is_ok());
    for status in ["in_progress", "incomplete", "failed", "cancelled", "queued"] {
        let response = good.clone().with("status", Json::text(status));
        assert!(parse_response(response).is_err());
    }
    for field in ["error", "incomplete_details"] {
        let response = good
            .clone()
            .with(field, json(r#"{"message": "sensitive server body"}"#));
        let error = parse_response(response).err().unwrap().message();
        assert!(!error.contains("sensitive server body"));
    }
    let refusal = message("").with(
        "content",
        json(r#"[{"type": "refusal", "refusal": "cannot comply"}]"#),
    );
    assert!(parse_response(completed(vec![function_call("call_1"), refusal])).is_err());
    assert!(parse_response(completed(vec![])).is_err());
    assert!(parse_response(completed(vec![message(" \n")])).is_err());
    assert!(parse_response(completed(vec![json(
        r#"{"type": "reasoning", "id": "rs_1", "summary": []}"#
    )]))
    .is_err());
}

#[test]
fn rejects_malformed_or_unsupported_output() {
    let malformed = vec![
        Json::Null,
        json(r#"{"type": "web_search_call"}"#),
        json(r#"{"type": "message", "role": "assistant", "content": []}"#),
        json(r#"{"type": "function_call", "call_id": "c", "name": "read_file", "arguments": {}}"#),
        json(r#"{"type": "reasoning", "id": "r", "summary": "not an array"}"#),
        json(r#"{"type": "reasoning", "id": "r", "summary": [], "encrypted_content": 42}"#),
    ];
    for item in malformed {
        assert!(parse_response(completed(vec![function_call("valid"), item])).is_err());
    }
    for field in ["id", "role", "status", "content"] {
        let item = without(message("answer"), field);
        assert!(parse_response(completed(vec![item])).is_err());
    }
    let item = message("answer").with("status", Json::text("incomplete"));
    assert!(parse_response(completed(vec![item])).is_err());
    let item = message("answer").with(
        "content",
        json(r#"[{"type": "unsupported", "text": "answer", "annotations": []}]"#),
    );
    assert!(parse_response(completed(vec![item])).is_err());
}

#[test]
fn accepts_a_direct_answer() {
    let turn = parse_response(completed(vec![message("Gearbox Demo")])).unwrap();
    assert!(turn.calls.is_empty());
    assert_eq!(turn.text, "Gearbox Demo");
}

fn refused(output: &str) -> ResponseError {
    let output = match json(output) {
        Json::Array(items) => items,
        _ => panic!("the output must be an array"),
    };
    parse_response(completed(output)).err().unwrap()
}

#[test]
fn every_reason_to_refuse_a_response_is_told_apart() {
    assert_eq!(parse_response(json("[]")).err(), Some(ResponseError::NotAnObject));
    let good = completed(vec![message("answer")]);
    let cases = [
        ("error", r#"{"message": "no"}"#, ResponseError::ServiceError),
        ("incomplete_details", r#"{"reason": "max_output_tokens"}"#, ResponseError::Incomplete),
        ("status", r#""failed""#, ResponseError::NotCompleted),
        ("status", "null", ResponseError::NotCompleted),
        ("output", "{}", ResponseError::NoOutput),
        ("output", "[]", ResponseError::EmptyOutput),
    ];
    for (field, value, error) in cases {
        let response = good.clone().with(field, json(value));
        assert_eq!(parse_response(response).err(), Some(error));
    }
    let cases = [
        ("[1]", ResponseError::ItemNotAnObject),
        (r#"[{"type": "web_search_call"}]"#, ResponseError::ItemType),
        (r#"[{"type": 3}]"#, ResponseError::ItemType),
        (r#"[{"type": "message"}]"#, ResponseError::MissingText(Field::Id)),
        (r#"[{"type": "message", "id": " "}]"#, ResponseError::BlankText(Field::Id)),
        (r#"[{"type": "message", "id": "m", "role": "user"}]"#, ResponseError::MessageRole),
        (r#"[{"type": "message", "id": "m", "role": "assistant"}]"#, ResponseError::MessageStatus),
        (
            r#"[{"type": "message", "id": "m", "role": "assistant", "status": "completed"}]"#,
            ResponseError::MessageContent,
        ),
        (
            r#"[{"type": "message", "id": "m", "role": "assistant", "status": "completed",
                "content": [{"type": "output_text"}]}]"#,
            ResponseError::PartText,
        ),
        (
            r#"[{"type": "message", "id": "m", "role": "assistant", "status": "completed",
                "content": [{"type": "output_text", "text": "a"}, {"type": "refusal"}]}]"#,
            ResponseError::Refusal,
        ),
        (
            r#"[{"type": "message", "id": "m", "role": "assistant", "status": "completed",
                "content": ["text"]}]"#,
            ResponseError::PartType,
        ),
        (r#"[{"type": "function_call", "status": null}]"#, ResponseError::ItemStatus),
        (r#"[{"type": "function_call", "id": null}]"#, ResponseError::MissingText(Field::Id)),
        (r#"[{"type": "function_call"}]"#, ResponseError::MissingText(Field::CallId)),
        (r#"[{"type": "function_call", "call_id": "\t"}]"#, ResponseError::BlankText(Field::CallId)),
        (r#"[{"type": "function_call", "call_id": "c"}]"#, ResponseError::MissingText(Field::Name)),
        (r#"[{"type": "function_call", "call_id": "c", "name": ""}]"#, ResponseError::BlankText(Field::Name)),
        (r#"[{"type": "function_call", "call_id": "c", "name": "n"}]"#, ResponseError::CallArguments),
        (
            r#"[{"type": "function_call", "call_id": "c", "name": "n", "arguments": ""},
                {"type": "function_call", "call_id": "c"}]"#,
            ResponseError::DuplicateCallId,
        ),
        (r#"[{"type": "reasoning", "id": "r", "status": "failed"}]"#, ResponseError::ItemStatus),
        (r#"[{"type": "reasoning", "id": "r", "status": null}]"#, ResponseError::ReasoningSummary),
        (r#"[{"type": "reasoning", "id": "r", "summary": [{"type": "summary_text"}]}]"#, ResponseError::SummaryPart),
        (r#"[{"type": "reasoning", "id": "r", "summary": [], "content": 1}]"#, ResponseError::ReasoningContent),
        (
            r#"[{"type": "reasoning", "id": "r", "summary": [],
                "content": [{"type": "summary_text", "text": ""}]}]"#,
            ResponseError::ContentPart,
        ),
        (
            r#"[{"type": "reasoning", "id": "r", "summary": [], "content": null,
                "encrypted_content": 42}]"#,
            ResponseError::EncryptedContent,
        ),
        (
            r#"[{"type": "reasoning", "id": "r", "encrypted_content": null,
                "summary": [{"type": "summary_text", "text": ""}],
                "content": [{"type": "reasoning_text", "text": ""}]}]"#,
            ResponseError::NoAnswer,
        ),
    ];
    for (output, error) in cases {
        assert_eq!(refused(output), error, "{output}");
    }
}

#[test]
fn refusals_are_told_in_fixed_words() {
    assert_eq!(ResponseError::Refusal.message(), "模型拒绝回答本次任务");
    assert_eq!(
        ResponseError::MissingText(Field::CallId).message(),
        "模型响应缺少有效的 call_id 字符串字段"
    );
    assert_eq!(ResponseError::BlankText(Field::Name).message(), "模型响应的 name 字段不能为空");
    assert_eq!(ResponseError::NoAnswer.message(), "模型响应没有工具调用或非空回答");
}

#[test]
fn texts_of_all_messages_are_joined_by_line_breaks() {
    let two_parts = message("x").with(
        "content",
        json(r#"[{"type": "output_text", "text": "one"}, {"type": "output_text", "text": ""}]"#),
    );
    let turn = parse_response(completed(vec![
        two_parts,
        function_call("c"),
        message("three"),
    ]))
    .unwrap();
    assert_eq!(turn.text, "one\n\nthree");
    let empty = message("x").with("content", Json::array(vec![]));
    let turn = parse_response(completed(vec![empty, function_call("c")])).unwrap();
    assert_eq!(turn.text, "");
}
