use gearbox::agent::{run, AgentError, AgentRun};
use gearbox::config::file::{
    deserialize_endpoint, Limits, ModelConfig, ReasoningEffort,
};
use gearbox::json::Json;
use gearbox::model::{ModelClient, ModelError};
use gearbox::response::{Field, ResponseError};
use gearbox::tool::{CanonicalPath, FileTool, ToolError, ToolEvent, ToolStep};

const KEY: &str = "fixture-key-do-not-print";
const SERVER_SECRET: &str = "sensitive-server-body-do-not-print";
const TASK: &str = "读取 index.txt，找到资料，再告诉我项目名称和当前阶段。";

fn json(text: &str) -> Json {
    Json::parse(text.as_bytes()).unwrap()
}

struct Reply {
    status: u16,
    body: String,
}

impl Reply {
    fn response(output: Vec<Json>) -> Self {
        let response = Json::object()
            .with("status", Json::text("completed"))
            .with("output", Json::array(output));
        Self::raw(200, &response.to_text())
    }

    fn raw(status: u16, body: &str) -> Self {
        Self {
            status,
            body: body.to_owned(),
        }
    }
}

/// What a run did: its outcome, the bodies it sent, and the lines it would print.
struct Output {
    result: Result<String, AgentError>,
    requests: Vec<Json>,
    progress: Vec<String>,
    tools: Vec<String>,
}

impl Output {
    fn message(&self) -> String {
        match &self.result {
            Ok(answer) => answer.clone(),
            Err(error) => error.message(),
        }
    }
}

struct Fixture {
    client: ModelClient,
    tool: FileTool,
    max_requests: u32,
}

fn canonical(names: &[&str]) -> CanonicalPath {
    CanonicalPath {
        components: names.iter().map(|name| name.as_bytes().to_vec()).collect(),
    }
}

impl Fixture {
    fn new(max_requests: u32) -> Self {
        Self::with_file_limit(max_requests, 4096)
    }

    fn with_file_limit(max_requests: u32, max_file_bytes: u64) -> Self {
        let config = ModelConfig {
            endpoint: deserialize_endpoint("http://127.0.0.1:80/custom/responses?configured=1")
                .unwrap(),
            api_key: KEY.to_owned(),
            name: "configured-test-model".to_owned(),
            reasoning_effort: ReasoningEffort::High,
        };
        let limits = Limits {
            max_model_requests: max_requests,
            request_timeout_secs: 3,
            max_output_tokens: 321,
            max_file_bytes,
        };
        Self {
            client: ModelClient::new(&config, &limits),
            tool: FileTool::new(
                canonical(&["/", "data"]),
                canonical(&["/", "data", "config.toml"]),
                max_file_bytes,
                false,
            ),
            max_requests,
        }
    }

    fn execute(&self, name: &str, arguments: &str, log: &mut Vec<String>) -> Result<String, ToolError> {
        let mut step = self.tool.execute(name, arguments);
        loop {
            let event = match &step {
                ToolStep::Parse => {
                    let path = Json::parse(arguments.as_bytes())
                        .and_then(|json| json.text_at("path").map(str::to_owned));
                    if let Some(path) = &path {
                        log.push(format!("tool: read_file path=\"{path}\""));
                    }
                    ToolEvent::Parsed(path)
                }
                ToolStep::Resolve { path } => {
                    let known = ["index.txt", "project.txt", "config.toml"];
                    let found = known.contains(&path.as_str());
                    ToolEvent::Resolved(found.then_some(canonical(&["/", "data", path])))
                }
                ToolStep::Inspect { .. } => ToolEvent::Inspected(Some(true)),
                ToolStep::Compare { .. } => ToolEvent::Compared(Some(false)),
                ToolStep::Open { .. } => ToolEvent::Opened(true),
                ToolStep::Read { resolved } => {
                    let contents = if resolved.components[2] == b"index.txt" {
                        "项目资料文件：project.txt"
                    } else {
                        "项目名称：Gearbox Demo；当前阶段：最小 Loop 原型"
                    };
                    let limit = self.tool.read_limit() as usize;
                    let bytes = contents.as_bytes();
                    ToolEvent::Contents(Some(bytes[..bytes.len().min(limit)].to_vec()))
                }
                ToolStep::Finished { .. } => break,
            };
            step = self.tool.advance(step, event);
        }
        match step {
            ToolStep::Finished { result } => result,
            _ => unreachable!(),
        }
    }

    fn run(&self, replies: Vec<Reply>) -> Output {
        let mut replies = replies.into_iter();
        let mut requests = Vec::new();
        let mut progress = Vec::new();
        let mut tools = Vec::new();
        let mut agent: AgentRun = run(TASK, self.max_requests);
        loop {
            if let Some(body) = agent.request_body(&self.client, &self.tool) {
                progress.push(agent.progress());
                requests.push(json(&body));
                let reply = replies.next().expect("unexpected extra request");
                agent = agent.on_reply(&self.client, reply.status, reply.body.as_bytes());
            } else if let Some(call) = agent.pending_call() {
                let result = self.execute(&call.name, &call.arguments, &mut tools);
                agent = agent.on_result(&result);
            } else {
                break;
            }
        }
        let result = match agent.result() {
            Some(Ok(answer)) => Ok(answer.clone()),
            Some(Err(error)) => Err(*error),
            None => panic!("a run that waits for nothing has ended"),
        };
        Output {
            result,
            requests,
            progress,
            tools,
        }
    }
}

fn message(id: &str, text: &str, phase: &str) -> Json {
    let part = json(r#"{"type": "output_text", "annotations": []}"#).with("text", Json::text(text));
    json(r#"{"type": "message", "role": "assistant", "status": "completed"}"#)
        .with("id", Json::text(id))
        .with("phase", Json::text(phase))
        .with("content", Json::array(vec![part]))
}

fn call(id: &str, path: &str) -> Json {
    let arguments = Json::object().with("path", Json::text(path)).to_text();
    json(r#"{"type": "function_call", "name": "read_file", "status": "completed"}"#)
        .with("id", Json::text(&format!("fc_{id}")))
        .with("call_id", Json::text(id))
        .with("arguments", Json::text(&arguments))
}

fn answer(text: &str) -> Reply {
    Reply::response(vec![message("msg_final", text, "final_answer")])
}

fn input(request: &Json) -> &Vec<Json> {
    request.array_at("input").unwrap()
}

fn texts(items: &[Json]) -> Vec<String> {
    items.iter().map(|item| item.to_text()).collect()
}

fn tool_result(request: &Json, index: usize, call_id: &str) -> Json {
    let item = &input(request)[index];
    assert_eq!(item.text_at("type"), Some("function_call_output"));
    assert_eq!(item.text_at("call_id"), Some(call_id));
    json(item.text_at("output").unwrap())
}

fn succeeded(result: &Json) -> bool {
    result.get("ok") == Some(&Json::Bool(true))
}

#[test]
fn reads_index_then_project_and_replays_original_history() {
    let first = vec![
        json(
            r#"{"type": "reasoning", "id": "rs_1", "summary": [],
                "encrypted_content": "encrypted-first", "provider_extension": {"keep": true}}"#,
        ),
        message("msg_commentary", "先读取索引，尚未完成。", "commentary"),
        call("read_index", "index.txt"),
    ];
    let second = vec![
        json(
            r#"{"type": "reasoning", "id": "rs_2", "summary": [],
                "encrypted_content": "encrypted-second"}"#,
        ),
        call("read_project", "project.txt"),
    ];
    let fixture = Fixture::new(8);
    let output = fixture.run(vec![
        Reply::response(first.clone()),
        Reply::response(second.clone()),
        answer("Gearbox Demo；最小 Loop 原型"),
    ]);
    assert_eq!(output.result, Ok("Gearbox Demo；最小 Loop 原型".to_owned()));
    assert_eq!(output.tools.len(), 2);

    assert_eq!(fixture.client.endpoint, "http://127.0.0.1/custom/responses?configured=1");
    assert_eq!(fixture.client.authorization, format!("Bearer {KEY}"));
    assert_eq!(fixture.client.request_timeout_secs, 3);
    let requests = &output.requests;
    assert_eq!(requests.len(), 3);
    for request in requests {
        assert_eq!(request.text_at("model"), Some("configured-test-model"));
        assert_eq!(request.get("reasoning").unwrap().text_at("effort"), Some("high"));
        assert_eq!(request.get("max_output_tokens"), Some(&Json::whole(321)));
        assert_eq!(request.get("stream"), Some(&Json::Bool(false)));
        assert_eq!(request.get("store"), Some(&Json::Bool(false)));
        assert_eq!(request.text_at("truncation"), Some("disabled"));
        assert_eq!(
            request.get("include"),
            Some(&json(r#"["reasoning.encrypted_content"]"#))
        );
        let tools = request.array_at("tools").unwrap();
        assert_eq!(tools.len(), 1);
        assert_eq!(tools[0].text_at("name"), Some("read_file"));
        assert_eq!(tools[0].get("strict"), Some(&Json::Bool(true)));
        assert_eq!(
            tools[0].get("parameters").unwrap().get("additionalProperties"),
            Some(&Json::Bool(false))
        );
        assert!(request.get("previous_response_id").is_none());
        assert!(!request.to_text().contains(KEY));
    }
    let initial = input(&requests[0]);
    assert_eq!(initial.len(), 2);
    assert_eq!(initial[0].text_at("role"), Some("system"));
    assert_eq!(initial[1].text_at("role"), Some("user"));
    assert_eq!(initial[1].text_at("content"), Some(TASK));
    assert!(!initial[1].text_at("content").unwrap().contains("project.txt"));
    let next = input(&requests[1]);
    assert_eq!(&next[..2], &initial[..]);
    assert_eq!(texts(&next[2..5]), texts(&first));
    assert_eq!(
        tool_result(&requests[1], 5, "read_index"),
        json(r#"{"ok": true, "content": "项目资料文件：project.txt"}"#)
    );
    let last = input(&requests[2]);
    assert_eq!(&last[..6], &next[..]);
    assert_eq!(texts(&last[6..8]), texts(&second));
    assert_eq!(
        tool_result(&requests[2], 8, "read_project"),
        json(r#"{"ok": true, "content": "项目名称：Gearbox Demo；当前阶段：最小 Loop 原型"}"#)
    );
}

#[test]
fn preserves_same_batch_tool_order_and_call_associations() {
    let calls = vec![call("second_id", "index.txt"), call("first_id", "project.txt")];
    let output = Fixture::new(2).run(vec![Reply::response(calls.clone()), answer("done")]);
    assert_eq!(output.result, Ok("done".to_owned()));
    let requests = &output.requests;
    assert_eq!(requests.len(), 2);
    assert_eq!(texts(&input(&requests[1])[2..4]), texts(&calls));
    assert!(succeeded(&tool_result(&requests[1], 4, "second_id")));
    assert!(succeeded(&tool_result(&requests[1], 5, "first_id")));
    assert!(output.tools[0].contains("index.txt"));
    assert!(output.tools[1].contains("project.txt"));
}

#[test]
fn returns_tool_errors_to_model_and_allows_correction() {
    let unknown = call("unknown", "index.txt").with("name", Json::text("unknown_tool"));
    let malformed = call("malformed", "index.txt").with("arguments", Json::text("not valid JSON"));
    let output = Fixture::new(3).run(vec![
        Reply::response(vec![unknown, malformed, call("missing", "missing.txt")]),
        Reply::response(vec![call("corrected", "index.txt")]),
        answer("recovered"),
    ]);
    assert_eq!(output.result, Ok("recovered".to_owned()));
    let requests = &output.requests;
    assert_eq!(requests.len(), 3);
    for (index, id) in [(5, "unknown"), (6, "malformed"), (7, "missing")] {
        let result = tool_result(&requests[1], index, id);
        assert!(!succeeded(&result));
        assert!(result.text_at("error").is_some());
    }
    assert!(succeeded(&tool_result(&requests[2], 9, "corrected")));
}

#[test]
fn final_answer_succeeds_at_configured_limit_and_continuing_tools_stop_at_limit() {
    for limit in [2, 8] {
        for final_answer in [false, true] {
            let replies = (1..=limit)
                .map(|index| {
                    if final_answer && index == limit {
                        answer("finished at limit")
                    } else {
                        Reply::response(vec![call(&format!("call_{index}"), "index.txt")])
                    }
                })
                .collect();
            let output = Fixture::new(limit).run(replies);
            assert_eq!(output.result.is_ok(), final_answer);
            assert_eq!(output.requests.len(), limit as usize);
            assert_eq!(output.progress.len(), limit as usize);
            assert_eq!(output.progress[0], format!("Model request 1/{limit}"));
            assert_eq!(
                output.progress[limit as usize - 1],
                format!("Model request {limit}/{limit}")
            );
            assert_eq!(
                output.tools.len(),
                (limit - u32::from(final_answer)) as usize
            );
            if final_answer {
                assert_eq!(output.message(), "finished at limit");
            } else {
                assert_eq!(
                    output.message(),
                    format!("model request limit ({limit}) exhausted; no final answer received")
                );
            }
        }
    }
}

#[test]
fn accepts_direct_answer_without_executing_a_tool() {
    let output = Fixture::new(1).run(vec![answer("direct answer")]);
    assert_eq!(output.result, Ok("direct answer".to_owned()));
    assert_eq!(output.requests.len(), 1);
    assert!(output.tools.is_empty());
}

#[test]
fn uses_configured_file_size_in_real_tool_execution() {
    let output = Fixture::with_file_limit(2, 4).run(vec![
        Reply::response(vec![call("too_large", "index.txt")]),
        answer("file limit observed"),
    ]);
    assert_eq!(output.result, Ok("file limit observed".to_owned()));
    let result = tool_result(&output.requests[1], 3, "too_large");
    assert!(!succeeded(&result));
    assert!(result.text_at("error").unwrap().contains("max_file_bytes"));
}

#[test]
fn lost_requests_end_the_run_without_a_retry() {
    for (timed_out, error, words) in [
        (true, ModelError::Timeout, "超时"),
        (false, ModelError::Transport, "模型请求网络或传输失败"),
    ] {
        let agent = run(TASK, 8).on_lost_request(timed_out);
        assert_eq!(agent.result(), &Some(Err(AgentError::Model(error))));
        assert!(AgentError::Model(error).message().contains(words));
        assert!(agent.request_input().is_none());
        assert!(agent.pending_call().is_none());
    }
}

#[test]
fn http_and_json_errors_fail_once_without_exposing_response_bodies() {
    for status in [401, 429, 500, 200] {
        let output = Fixture::new(8).run(vec![Reply::raw(status, SERVER_SECRET)]);
        assert!(output.result.is_err());
        assert!(!output.message().contains(KEY));
        assert!(!output.message().contains(SERVER_SECRET));
        if status != 200 {
            assert!(output.message().contains(&format!("HTTP {status}")));
        } else {
            assert!(output.message().contains("JSON"));
        }
        assert_eq!(output.requests.len(), 1);
        assert!(output.tools.is_empty());
    }
}

#[test]
fn does_not_follow_redirects() {
    let output = Fixture::new(8).run(vec![
        Reply::raw(307, SERVER_SECRET),
        answer("must not follow"),
    ]);
    assert!(output.result.is_err());
    assert!(output.message().contains("HTTP 307"));
    assert_eq!(output.requests.len(), 1);
}

#[test]
fn invalid_call_batch_executes_no_tools_even_when_first_call_is_valid() {
    for duplicate_id in [false, true] {
        let mut invalid = call("duplicate", "project.txt");
        if !duplicate_id {
            if let Json::Object(fields) = &mut invalid {
                fields.retain(|field| field.0 != "call_id");
            }
        }
        let output = Fixture::new(8).run(vec![Reply::response(vec![
            call("duplicate", "index.txt"),
            invalid,
        ])]);
        let expected = if duplicate_id {
            ResponseError::DuplicateCallId
        } else {
            ResponseError::MissingText(Field::CallId)
        };
        assert_eq!(
            output.result,
            Err(AgentError::Model(ModelError::Response(expected)))
        );
        assert!(output.tools.is_empty());
        assert_eq!(output.requests.len(), 1);
    }
}

#[test]
fn refused_incomplete_empty_and_unsupported_responses_fail_without_tools() {
    let refusal = message("msg_refusal", "", "final_answer").with(
        "content",
        Json::array(vec![Json::object()
            .with("type", Json::text("refusal"))
            .with("refusal", Json::text(SERVER_SECRET))]),
    );
    let completed = |output: Vec<Json>| {
        Json::object()
            .with("status", Json::text("completed"))
            .with("output", Json::array(output))
    };
    let responses = vec![
        json(r#"{"status": "incomplete", "incomplete_details": {"reason": "max_output_tokens"}}"#)
            .with("output", Json::array(vec![call("c", "index.txt")])),
        json(r#"{"status": "failed", "output": []}"#).with(
            "error",
            Json::object().with("message", Json::text(SERVER_SECRET)),
        ),
        completed(vec![]),
        completed(vec![message("empty", "  ", "final_answer")]),
        completed(vec![call("c", "index.txt"), refusal]),
        completed(vec![
            call("c", "index.txt"),
            json(r#"{"type": "web_search_call"}"#),
        ]),
    ];
    for response in responses {
        let output = Fixture::new(8).run(vec![Reply::raw(200, &response.to_text())]);
        assert!(output.result.is_err());
        assert!(output.tools.is_empty());
        assert!(!output.message().contains(SERVER_SECRET));
        assert_eq!(output.requests.len(), 1);
    }
}

#[test]
fn a_run_without_requests_is_exhausted_at_once() {
    let output = Fixture::new(0).run(vec![]);
    assert_eq!(output.result, Err(AgentError::Exhausted(0)));
    assert!(output.requests.is_empty());
}

#[test]
fn nothing_moves_a_run_that_has_ended() {
    let fixture = Fixture::new(8);
    let agent = run(TASK, 8)
        .on_reply(&fixture.client, 200, answer("first").body.as_bytes())
        .on_reply(&fixture.client, 200, answer("second").body.as_bytes())
        .on_output("late");
    assert_eq!(agent.result(), &Some(Ok("first".to_owned())));
}

#[test]
fn an_output_that_no_call_asked_for_changes_nothing() {
    let agent = run(TASK, 8).on_output("unasked");
    assert_eq!(agent.request_input().unwrap().len(), 2);
}

#[test]
fn every_status_of_success_is_accepted() {
    let client = Fixture::new(1).client;
    for status in 100..600 {
        assert_eq!(client.accepts(status), (200..300).contains(&status));
    }
    assert!(client.respond(204, answer("yes").body.as_bytes()).is_ok());
    assert_eq!(
        client.respond(199, answer("no").body.as_bytes()).err(),
        Some(ModelError::Http(199))
    );
    assert_eq!(ModelError::Http(404).message(), "模型服务返回 HTTP 404");
    assert_eq!(ModelError::Client.message(), "无法初始化模型 HTTP 客户端");
}

#[test]
fn what_the_model_is_told_of_a_call_reads_back() {
    let fixture = Fixture::new(2);
    for result in [
        Ok("a \"quoted\" \\ line\nand 你好\u{1}".to_owned()),
        Ok(String::new()),
        Err(ToolError::TooLarge),
    ] {
        let reply = Reply::response(vec![call("c", "index.txt")]);
        let agent = run(TASK, 2)
            .on_reply(&fixture.client, reply.status, reply.body.as_bytes())
            .on_result(&result);
        let request = json(&agent.request_body(&fixture.client, &fixture.tool).unwrap());
        let told = tool_result(&request, 3, "c");
        match &result {
            Ok(content) => {
                assert!(succeeded(&told));
                assert_eq!(told.text_at("content"), Some(content.as_str()));
            }
            Err(error) => {
                assert!(!succeeded(&told));
                assert_eq!(told.text_at("error"), Some(error.message()));
            }
        }
    }
}
