//! What the model answered: a response is checked as a whole before any of it is used.

use crate::json::{views, Json, JsonView};
use crate::text::{
    blank, is_blank, joined, law_every_line_stands_in_the_text, law_lines_are_blank_together, same,
};
use vstd::prelude::*;
use vstd::string::*;

verus! {

/// A text field that an output item must have.
#[derive(Debug, Clone, Copy, PartialEq, Eq)]
pub enum Field {
    Id,
    CallId,
    Name,
}

/// Why a response was refused. The first check that fails is the one reported.
#[derive(Debug, Clone, Copy, PartialEq, Eq)]
pub enum ResponseError {
    NotAnObject,
    ServiceError,
    Incomplete,
    NotCompleted,
    NoOutput,
    EmptyOutput,
    ItemNotAnObject,
    ItemType,
    ItemStatus,
    MissingText(Field),
    BlankText(Field),
    MessageRole,
    MessageStatus,
    MessageContent,
    PartText,
    Refusal,
    PartType,
    DuplicateCallId,
    CallArguments,
    ReasoningSummary,
    SummaryPart,
    ReasoningContent,
    ContentPart,
    EncryptedContent,
    NoAnswer,
}

/// A tool call that the model asks for.
#[derive(Debug, PartialEq, Eq)]
pub struct ToolCall {
    pub call_id: String,
    pub name: String,
    pub arguments: String,
}

/// One accepted response: its items as they came, the calls among them, and its text.
#[derive(Debug, PartialEq)]
pub struct ModelTurn {
    pub output: Vec<Json>,
    pub calls: Vec<ToolCall>,
    pub text: String,
}

/// What a tool call says.
#[verifier::ext_equal]
pub struct CallView {
    pub call_id: Seq<char>,
    pub name: Seq<char>,
    pub arguments: Seq<char>,
}

/// What a turn says.
#[verifier::ext_equal]
pub struct TurnView {
    pub output: Seq<JsonView>,
    pub calls: Seq<CallView>,
    pub text: Seq<char>,
}

impl View for ToolCall {
    type V = CallView;

    open spec fn view(&self) -> CallView {
        CallView { call_id: self.call_id@, name: self.name@, arguments: self.arguments@ }
    }
}

impl View for ModelTurn {
    type V = TurnView;

    open spec fn view(&self) -> TurnView {
        TurnView {
            output: views(self.output@),
            calls: call_views(self.calls@),
            text: self.text@,
        }
    }
}

/// What a list of tool calls says.
pub open spec fn call_views(calls: Seq<ToolCall>) -> Seq<CallView> {
    calls.map_values(|call: ToolCall| call@)
}

impl Field {
    /// The name of the field.
    pub open spec fn spec_name(self) -> Seq<char> {
        match self {
            Field::Id => "id"@,
            Field::CallId => "call_id"@,
            Field::Name => "name"@,
        }
    }

    /// Returns the name of the field.
    pub fn name(&self) -> (r: &'static str)
        ensures
            r@ == self.spec_name(),
    {
        match self {
            Field::Id => "id",
            Field::CallId => "call_id",
            Field::Name => "name",
        }
    }
}

impl ResponseError {
    /// What the user is told. No part of the response is in it.
    pub open spec fn text(self) -> Seq<char> {
        match self {
            ResponseError::NotAnObject => "模型响应必须是 JSON 对象"@,
            ResponseError::ServiceError => "模型服务报告响应错误"@,
            ResponseError::Incomplete => "模型响应不完整或已截断"@,
            ResponseError::NotCompleted => "模型响应未正常完成"@,
            ResponseError::NoOutput => "模型响应缺少 output 数组"@,
            ResponseError::EmptyOutput => "模型返回空响应"@,
            ResponseError::ItemNotAnObject => "模型输出项必须是 JSON 对象"@,
            ResponseError::ItemType => "模型返回不支持的输出类型"@,
            ResponseError::ItemStatus => "模型输出项未正常完成"@,
            ResponseError::MissingText(Field::Id) => "模型响应缺少有效的 id 字符串字段"@,
            ResponseError::MissingText(Field::CallId) => "模型响应缺少有效的 call_id 字符串字段"@,
            ResponseError::MissingText(Field::Name) => "模型响应缺少有效的 name 字符串字段"@,
            ResponseError::BlankText(Field::Id) => "模型响应的 id 字段不能为空"@,
            ResponseError::BlankText(Field::CallId) => "模型响应的 call_id 字段不能为空"@,
            ResponseError::BlankText(Field::Name) => "模型响应的 name 字段不能为空"@,
            ResponseError::MessageRole => "模型消息 role 必须是 assistant"@,
            ResponseError::MessageStatus => "模型消息未正常完成"@,
            ResponseError::MessageContent => "模型消息缺少 content 数组"@,
            ResponseError::PartText => "模型文本内容缺少 text 字符串"@,
            ResponseError::Refusal => "模型拒绝回答本次任务"@,
            ResponseError::PartType => "模型消息包含不支持的内容类型"@,
            ResponseError::DuplicateCallId => "模型响应中的 call_id 重复"@,
            ResponseError::CallArguments => "模型函数调用缺少 arguments 字符串"@,
            ResponseError::ReasoningSummary => "模型推理项缺少 summary 数组"@,
            ResponseError::SummaryPart => "模型推理摘要结构无效"@,
            ResponseError::ReasoningContent => "模型推理 content 必须是数组"@,
            ResponseError::ContentPart => "模型推理内容结构无效"@,
            ResponseError::EncryptedContent => "模型加密推理内容必须是字符串"@,
            ResponseError::NoAnswer => "模型响应没有工具调用或非空回答"@,
        }
    }

    /// Returns what the user is told.
    pub fn message(&self) -> (r: &'static str)
        ensures
            r@ == self.text(),
    {
        match self {
            ResponseError::NotAnObject => "模型响应必须是 JSON 对象",
            ResponseError::ServiceError => "模型服务报告响应错误",
            ResponseError::Incomplete => "模型响应不完整或已截断",
            ResponseError::NotCompleted => "模型响应未正常完成",
            ResponseError::NoOutput => "模型响应缺少 output 数组",
            ResponseError::EmptyOutput => "模型返回空响应",
            ResponseError::ItemNotAnObject => "模型输出项必须是 JSON 对象",
            ResponseError::ItemType => "模型返回不支持的输出类型",
            ResponseError::ItemStatus => "模型输出项未正常完成",
            ResponseError::MissingText(Field::Id) => "模型响应缺少有效的 id 字符串字段",
            ResponseError::MissingText(Field::CallId) => "模型响应缺少有效的 call_id 字符串字段",
            ResponseError::MissingText(Field::Name) => "模型响应缺少有效的 name 字符串字段",
            ResponseError::BlankText(Field::Id) => "模型响应的 id 字段不能为空",
            ResponseError::BlankText(Field::CallId) => "模型响应的 call_id 字段不能为空",
            ResponseError::BlankText(Field::Name) => "模型响应的 name 字段不能为空",
            ResponseError::MessageRole => "模型消息 role 必须是 assistant",
            ResponseError::MessageStatus => "模型消息未正常完成",
            ResponseError::MessageContent => "模型消息缺少 content 数组",
            ResponseError::PartText => "模型文本内容缺少 text 字符串",
            ResponseError::Refusal => "模型拒绝回答本次任务",
            ResponseError::PartType => "模型消息包含不支持的内容类型",
            ResponseError::DuplicateCallId => "模型响应中的 call_id 重复",
            ResponseError::CallArguments => "模型函数调用缺少 arguments 字符串",
            ResponseError::ReasoningSummary => "模型推理项缺少 summary 数组",
            ResponseError::SummaryPart => "模型推理摘要结构无效",
            ResponseError::ReasoningContent => "模型推理 content 必须是数组",
            ResponseError::ContentPart => "模型推理内容结构无效",
            ResponseError::EncryptedContent => "模型加密推理内容必须是字符串",
            ResponseError::NoAnswer => "模型响应没有工具调用或非空回答",
        }
    }
}

/// The first error of a list of checks.
pub open spec fn first_error(checks: Seq<Option<ResponseError>>) -> Option<ResponseError>
    decreases checks.len(),
{
    if checks.len() == 0 {
        None
    } else if checks.first() is Some {
        checks.first()
    } else {
        first_error(checks.drop_first())
    }
}

/// The error of the first of two checks that fails.
pub open spec fn or_else(
    first: Option<ResponseError>,
    second: Option<ResponseError>,
) -> Option<ResponseError> {
    if first is Some {
        first
    } else {
        second
    }
}

/// The check that reports `error` unless `holds`.
pub open spec fn demand(holds: bool, error: ResponseError) -> Option<ResponseError> {
    if holds {
        None
    } else {
        Some(error)
    }
}

/// What a check comes to.
pub open spec fn verdict(check: Option<ResponseError>) -> Result<(), ResponseError> {
    match check {
        None => Ok(()),
        Some(error) => Err(error),
    }
}

/// A field must hold a text that is not blank.
pub open spec fn text_check(item: JsonView, field: Field) -> Option<ResponseError> {
    match item.field(field.spec_name()).text() {
        None => Some(ResponseError::MissingText(field)),
        Some(s) => demand(!is_blank(s), ResponseError::BlankText(field)),
    }
}

/// A status, where there is one, must be `completed`.
pub open spec fn status_check(item: JsonView) -> Option<ResponseError> {
    match item.get("status"@) {
        None => None,
        Some(status) => demand(status.text() == Some("completed"@), ResponseError::ItemStatus),
    }
}

/// A message part must be an output text; a refusal is an error of its own.
pub open spec fn part_check(part: JsonView) -> Option<ResponseError> {
    if part.field("type"@).text() == Some("output_text"@) {
        demand(part.field("text"@) is Text, ResponseError::PartText)
    } else if part.field("type"@).text() == Some("refusal"@) {
        Some(ResponseError::Refusal)
    } else {
        Some(ResponseError::PartType)
    }
}

/// A message is from the assistant, complete, and made of output texts.
pub open spec fn message_check(item: JsonView) -> Option<ResponseError> {
    or_else(
        text_check(item, Field::Id),
        or_else(
            demand(
                item.field("role"@).text() == Some("assistant"@),
                ResponseError::MessageRole,
            ),
            or_else(
                demand(
                    item.field("status"@).text() == Some("completed"@),
                    ResponseError::MessageStatus,
                ),
                match item.field("content"@).items() {
                    None => Some(ResponseError::MessageContent),
                    Some(parts) => first_error(parts.map_values(|p: JsonView| part_check(p))),
                },
            ),
        ),
    )
}

/// A call has an identifier that is not `taken`, a name and an argument text; its own
/// identifier and its status may be missing.
pub open spec fn call_check(item: JsonView, taken: Seq<CallView>) -> Option<ResponseError> {
    or_else(
        status_check(item),
        or_else(
            if item.get("id"@) is Some {
                text_check(item, Field::Id)
            } else {
                None
            },
            or_else(
                text_check(item, Field::CallId),
                or_else(
                    demand(
                        !has_call_id(taken, call_of(item).call_id),
                        ResponseError::DuplicateCallId,
                    ),
                    or_else(
                        text_check(item, Field::Name),
                        demand(item.field("arguments"@) is Text, ResponseError::CallArguments),
                    ),
                ),
            ),
        ),
    )
}

/// Whether a call of the list has a given identifier.
pub open spec fn has_call_id(calls: Seq<CallView>, call_id: Seq<char>) -> bool {
    exists|i: int| 0 <= i < calls.len() && (#[trigger] calls[i]).call_id == call_id
}

/// A part of a list must be of a given type and hold a text.
pub open spec fn typed_text(part: JsonView, kind: Seq<char>) -> bool {
    part.field("type"@).text() == Some(kind) && part.field("text"@) is Text
}

/// All parts of a list must be of a given type and hold a text.
pub open spec fn typed_texts(parts: Seq<JsonView>, kind: Seq<char>) -> bool {
    forall|i: int| 0 <= i < parts.len() ==> typed_text(#[trigger] parts[i], kind)
}

/// A reasoning item has a summary, and may have a status, a content and an encrypted content.
pub open spec fn reasoning_check(item: JsonView) -> Option<ResponseError> {
    or_else(
        text_check(item, Field::Id),
        or_else(
            if item.field("status"@) is Null {
                None
            } else {
                status_check(item)
            },
            or_else(
                match item.field("summary"@).items() {
                    None => Some(ResponseError::ReasoningSummary),
                    Some(parts) => demand(
                        typed_texts(parts, "summary_text"@),
                        ResponseError::SummaryPart,
                    ),
                },
                or_else(
                    if item.field("content"@) is Null {
                        None
                    } else {
                        match item.field("content"@).items() {
                            None => Some(ResponseError::ReasoningContent),
                            Some(parts) => demand(
                                typed_texts(parts, "reasoning_text"@),
                                ResponseError::ContentPart,
                            ),
                        }
                    },
                    demand(
                        item.field("encrypted_content"@) is Null || item.field(
                            "encrypted_content"@,
                        ) is Text,
                        ResponseError::EncryptedContent,
                    ),
                ),
            ),
        ),
    )
}

/// Whether an output item is a message.
pub open spec fn is_message(item: JsonView) -> bool {
    item.field("type"@).text() == Some("message"@)
}

/// Whether an output item is a tool call.
pub open spec fn is_call(item: JsonView) -> bool {
    item.field("type"@).text() == Some("function_call"@)
}

/// Whether an output item is a piece of reasoning.
pub open spec fn is_reasoning(item: JsonView) -> bool {
    item.field("type"@).text() == Some("reasoning"@)
}

/// An output item is a message, a tool call or a piece of reasoning, and is well formed.
/// `taken` are the calls before it.
pub open spec fn item_check(item: JsonView, taken: Seq<CallView>) -> Option<ResponseError> {
    if !(item is Object) {
        Some(ResponseError::ItemNotAnObject)
    } else if is_message(item) {
        message_check(item)
    } else if is_call(item) {
        call_check(item, taken)
    } else if is_reasoning(item) {
        reasoning_check(item)
    } else {
        Some(ResponseError::ItemType)
    }
}

/// The call that a call item asks for.
pub open spec fn call_of(item: JsonView) -> CallView {
    CallView {
        call_id: item.field("call_id"@).text().unwrap(),
        name: item.field("name"@).text().unwrap(),
        arguments: item.field("arguments"@).text().unwrap(),
    }
}

/// The calls among output items, in order.
pub open spec fn calls_of(output: Seq<JsonView>) -> Seq<CallView>
    decreases output.len(),
{
    if output.len() == 0 {
        Seq::empty()
    } else if is_call(output.last()) {
        calls_of(output.drop_last()).push(call_of(output.last()))
    } else {
        calls_of(output.drop_last())
    }
}

/// The texts of the parts of a message.
pub open spec fn part_texts(parts: Seq<JsonView>) -> Seq<Seq<char>> {
    parts.map_values(|part: JsonView| part.field("text"@).text().unwrap())
}

/// The texts of the messages among output items, part by part, in order.
pub open spec fn texts_of(output: Seq<JsonView>) -> Seq<Seq<char>>
    decreases output.len(),
{
    if output.len() == 0 {
        Seq::empty()
    } else if is_message(output.last()) {
        texts_of(output.drop_last()) + part_texts(
            output.last().field("content"@).items().unwrap(),
        )
    } else {
        texts_of(output.drop_last())
    }
}

/// The check of each output item, given the calls before it.
pub open spec fn item_checks(output: Seq<JsonView>) -> Seq<Option<ResponseError>> {
    Seq::new(output.len(), |i: int| item_check(output[i], calls_of(output.take(i))))
}

/// What a response comes to: the turn it holds, or the first thing that is wrong with it.
pub open spec fn turn_in(response: JsonView) -> Result<TurnView, ResponseError> {
    if !(response is Object) {
        Err(ResponseError::NotAnObject)
    } else if !(response.field("error"@) is Null) {
        Err(ResponseError::ServiceError)
    } else if !(response.field("incomplete_details"@) is Null) {
        Err(ResponseError::Incomplete)
    } else if response.field("status"@).text() != Some("completed"@) {
        Err(ResponseError::NotCompleted)
    } else {
        match response.field("output"@).items() {
            None => Err(ResponseError::NoOutput),
            Some(output) => if output.len() == 0 {
                Err(ResponseError::EmptyOutput)
            } else {
                turn_of(output)
            },
        }
    }
}

/// What a list of output items comes to.
pub open spec fn turn_of(output: Seq<JsonView>) -> Result<TurnView, ResponseError> {
    let turn = TurnView {
        output,
        calls: calls_of(output),
        text: joined(texts_of(output), "\n"@),
    };
    match first_error(item_checks(output)) {
        Some(error) => Err(error),
        None => if turn.calls.len() == 0 && is_blank(turn.text) {
            Err(ResponseError::NoAnswer)
        } else {
            Ok(turn)
        },
    }
}

/// A list of checks whose first failure is at `at` reports that one.
proof fn lemma_first_error(checks: Seq<Option<ResponseError>>, at: int)
    requires
        0 <= at < checks.len(),
        checks[at] is Some,
        forall|i: int| 0 <= i < at ==> (#[trigger] checks[i]) is None,
    ensures
        first_error(checks) == checks[at],
    decreases at,
{
    if at > 0 {
        assert(checks[0] is None);
        let rest = checks.drop_first();
        assert forall|i: int| 0 <= i < at - 1 implies (#[trigger] rest[i]) is None by {
            assert(checks[i + 1] is None);
        }
        lemma_first_error(rest, at - 1);
    }
}

/// A list of checks reports nothing exactly where all of them pass.
proof fn lemma_first_error_complete(checks: Seq<Option<ResponseError>>)
    ensures
        first_error(checks) is None <==> forall|i: int|
            0 <= i < checks.len() ==> (#[trigger] checks[i]) is None,
    decreases checks.len(),
{
    if checks.len() > 0 {
        let rest = checks.drop_first();
        lemma_first_error_complete(rest);
        if first_error(checks) is None {
            assert forall|i: int| 0 <= i < checks.len() implies (#[trigger] checks[i]) is None by {
                if i > 0 {
                    assert(rest[i - 1] is None);
                }
            }
        } else if first_error(rest) is Some {
            let i = choose|i: int| 0 <= i < rest.len() && (#[trigger] rest[i]) is Some;
            assert(checks[i + 1] is Some);
        }
    }
}

/// Tells whether a field is a given text.
fn text_is(item: &Json, name: &str, expected: &str) -> (r: bool)
    ensures
        r == (item@.field(name@).text() == Some(expected@)),
{
    match item.text_at(name) {
        Some(s) => same(s, expected),
        None => false,
    }
}

/// Tells whether a field holds a text.
fn has_text(item: &Json, name: &str) -> (r: bool)
    ensures
        r == (item@.field(name@) is Text),
{
    item.text_at(name).is_some()
}

/// Returns the text of a field that must not be blank.
pub fn nonempty_string(item: &Json, field: Field) -> (r: Result<&str, ResponseError>)
    ensures
        match r {
            Ok(s) => text_check(item@, field) is None && item@.field(field.spec_name()).text()
                == Some(s@),
            Err(error) => text_check(item@, field) == Some(error),
        },
{
    match item.text_at(field.name()) {
        None => Err(ResponseError::MissingText(field)),
        Some(s) => if blank(s) {
            Err(ResponseError::BlankText(field))
        } else {
            Ok(s)
        },
    }
}

/// Checks that a status, where an item has one, is `completed`.
pub fn optional_completed_status(item: &Json) -> (r: Result<(), ResponseError>)
    ensures
        r == verdict(status_check(item@)),
{
    match item.get("status") {
        None => Ok(()),
        Some(status) => {
            let completed: bool = match status.as_text() {
                Some(s) => same(s, "completed"),
                None => false,
            };
            if completed {
                Ok(())
            } else {
                Err(ResponseError::ItemStatus)
            }
        },
    }
}

/// Checks a message and adds the texts of its parts to `texts`.
fn read_message(item: &Json, texts: &mut Vec<String>) -> (r: Result<(), ResponseError>)
    ensures
        r == verdict(message_check(item@)),
        r is Ok ==> line_views(final(texts)@) == line_views(old(texts)@) + part_texts(
            item@.field("content"@).items().unwrap(),
        ),
{
    match nonempty_string(item, Field::Id) {
        Err(error) => {
            return Err(error);
        },
        Ok(_) => {},
    }
    if !text_is(item, "role", "assistant") {
        return Err(ResponseError::MessageRole);
    }
    if !text_is(item, "status", "completed") {
        return Err(ResponseError::MessageStatus);
    }
    let parts: &Vec<Json> = match item.array_at("content") {
        None => {
            return Err(ResponseError::MessageContent);
        },
        Some(parts) => parts,
    };
    let ghost content = views(parts@);
    let ghost checks = content.map_values(|p: JsonView| part_check(p));
    for i in 0..parts.len()
        invariant
            content == views(parts@),
            checks == content.map_values(|p: JsonView| part_check(p)),
            message_check(item@) == first_error(checks),
            item@.field("content"@).items() == Some(content),
            forall|j: int| 0 <= j < i ==> (#[trigger] checks[j]) is None,
            line_views(texts@) == line_views(old(texts)@) + part_texts(content.take(i as int)),
    {
        let part: &Json = &parts[i];
        assert(content[i as int] == part@);
        assert(checks[i as int] == part_check(part@));
        if text_is(part, "type", "output_text") {
            match part.text_at("text") {
                None => {
                    proof {
                        lemma_first_error(checks, i as int);
                    }
                    return Err(ResponseError::PartText);
                },
                Some(s) => {
                    let ghost before = texts@;
                    texts.push(s.to_owned());
                    proof {
                        assert(line_views(texts@) =~= line_views(before).push(s@));
                        assert(part_texts(content.take(i + 1)) =~= part_texts(
                            content.take(i as int),
                        ).push(s@));
                    }
                },
            }
        } else if text_is(part, "type", "refusal") {
            proof {
                lemma_first_error(checks, i as int);
            }
            return Err(ResponseError::Refusal);
        } else {
            proof {
                lemma_first_error(checks, i as int);
            }
            return Err(ResponseError::PartType);
        }
    }
    proof {
        lemma_first_error_complete(checks);
        assert(content.take(content.len() as int) =~= content);
    }
    Ok(())
}

/// What a list of lines says.
pub open spec fn line_views(lines: Seq<String>) -> Seq<Seq<char>> {
    lines.map_values(|line: String| line@)
}

/// Checks a call against the calls before it and returns what it asks for.
fn read_call(item: &Json, taken: &Vec<ToolCall>) -> (r: Result<ToolCall, ResponseError>)
    ensures
        match r {
            Ok(call) => call_check(item@, call_views(taken@)) is None && call@ == call_of(item@),
            Err(error) => call_check(item@, call_views(taken@)) == Some(error),
        },
{
    match optional_completed_status(item) {
        Err(error) => {
            return Err(error);
        },
        Ok(()) => {},
    }
    if item.get("id").is_some() {
        match nonempty_string(item, Field::Id) {
            Err(error) => {
                return Err(error);
            },
            Ok(_) => {},
        }
    }
    let call_id: &str = match nonempty_string(item, Field::CallId) {
        Err(error) => {
            return Err(error);
        },
        Ok(s) => s,
    };
    let ghost calls = call_views(taken@);
    for i in 0..taken.len()
        invariant
            calls == call_views(taken@),
            call_id@ == call_of(item@).call_id,
            status_check(item@) is None,
            item@.get("id"@) is Some ==> text_check(item@, Field::Id) is None,
            text_check(item@, Field::CallId) is None,
            forall|j: int| 0 <= j < i ==> (#[trigger] calls[j]).call_id != call_id@,
    {
        assert(calls[i as int] == taken@[i as int]@);
        if same(taken[i].call_id.as_str(), call_id) {
            return Err(ResponseError::DuplicateCallId);
        }
    }
    let name: &str = match nonempty_string(item, Field::Name) {
        Err(error) => {
            return Err(error);
        },
        Ok(s) => s,
    };
    match item.text_at("arguments") {
        None => Err(ResponseError::CallArguments),
        Some(arguments) => Ok(
            ToolCall {
                call_id: call_id.to_owned(),
                name: name.to_owned(),
                arguments: arguments.to_owned(),
            },
        ),
    }
}

/// Tells whether all parts are of a given type and hold a text.
fn all_typed_texts(parts: &Vec<Json>, kind: &str) -> (r: bool)
    ensures
        r == typed_texts(views(parts@), kind@),
{
    let ghost content = views(parts@);
    for i in 0..parts.len()
        invariant
            content == views(parts@),
            forall|j: int| 0 <= j < i ==> typed_text(#[trigger] content[j], kind@),
    {
        let part: &Json = &parts[i];
        assert(content[i as int] == part@);
        if !(text_is(part, "type", kind) && has_text(part, "text")) {
            return false;
        }
    }
    true
}

/// Checks a piece of reasoning.
fn read_reasoning(item: &Json) -> (r: Result<(), ResponseError>)
    ensures
        r == verdict(reasoning_check(item@)),
{
    match nonempty_string(item, Field::Id) {
        Err(error) => {
            return Err(error);
        },
        Ok(_) => {},
    }
    if !item.null_at("status") {
        match optional_completed_status(item) {
            Err(error) => {
                return Err(error);
            },
            Ok(()) => {},
        }
    }
    match item.array_at("summary") {
        None => {
            return Err(ResponseError::ReasoningSummary);
        },
        Some(parts) => {
            if !all_typed_texts(parts, "summary_text") {
                return Err(ResponseError::SummaryPart);
            }
        },
    }
    if !item.null_at("content") {
        match item.array_at("content") {
            None => {
                return Err(ResponseError::ReasoningContent);
            },
            Some(parts) => {
                if !all_typed_texts(parts, "reasoning_text") {
                    return Err(ResponseError::ContentPart);
                }
            },
        }
    }
    if item.null_at("encrypted_content") || has_text(item, "encrypted_content") {
        Ok(())
    } else {
        Err(ResponseError::EncryptedContent)
    }
}

/// Puts lines together, with a line break between neighbours.
fn join_lines(lines: &Vec<String>) -> (r: String)
    ensures
        r@ == joined(line_views(lines@), "\n"@),
{
    let ghost all = line_views(lines@);
    let mut text: String = String::new();
    for i in 0..lines.len()
        invariant
            all == line_views(lines@),
            text@ == joined(all.take(i as int), "\n"@),
    {
        if i > 0 {
            text.append("\n");
        }
        text.append(lines[i].as_str());
        proof {
            let next = all.take(i + 1);
            assert(next.drop_last() =~= all.take(i as int));
            assert(next.last() == lines@[i as int]@);
            assert(text@ =~= joined(next, "\n"@));
        }
    }
    proof {
        assert(all.take(all.len() as int) =~= all);
    }
    text
}

/// Copies a list of documents.
fn copies(items: &Vec<Json>) -> (r: Vec<Json>)
    ensures
        views(r@) == views(items@),
{
    let mut result: Vec<Json> = Vec::new();
    for i in 0..items.len()
        invariant
            result@.len() == i,
            forall|j: int| 0 <= j < i ==> (#[trigger] result@[j])@ == items@[j]@,
    {
        result.push(items[i].clone());
    }
    assert(views(result@) =~= views(items@));
    result
}

/// Checks a whole response and returns the turn that it holds.
pub fn parse_response(response: Json) -> (r: Result<ModelTurn, ResponseError>)
    ensures
        match r {
            Ok(turn) => turn_in(response@) == Ok::<TurnView, ResponseError>(turn@),
            Err(error) => turn_in(response@) == Err::<TurnView, ResponseError>(error),
        },
{
    if !response.is_object() {
        return Err(ResponseError::NotAnObject);
    }
    if !response.null_at("error") {
        return Err(ResponseError::ServiceError);
    }
    if !response.null_at("incomplete_details") {
        return Err(ResponseError::Incomplete);
    }
    if !text_is(&response, "status", "completed") {
        return Err(ResponseError::NotCompleted);
    }
    let output: &Vec<Json> = match response.array_at("output") {
        None => {
            return Err(ResponseError::NoOutput);
        },
        Some(output) => output,
    };
    if output.len() == 0 {
        return Err(ResponseError::EmptyOutput);
    }
    let ghost items = views(output@);
    let ghost checks = item_checks(items);
    let mut calls: Vec<ToolCall> = Vec::new();
    let mut texts: Vec<String> = Vec::new();
    assert(call_views(calls@) =~= calls_of(items.take(0)));
    assert(line_views(texts@) =~= texts_of(items.take(0)));
    for i in 0..output.len()
        invariant
            items == views(output@),
            checks == item_checks(items),
            turn_in(response@) == turn_of(items),
            forall|j: int| 0 <= j < i ==> (#[trigger] checks[j]) is None,
            call_views(calls@) == calls_of(items.take(i as int)),
            line_views(texts@) == texts_of(items.take(i as int)),
    {
        let item: &Json = &output[i];
        let ghost at = i as int;
        proof {
            assert(items[at] == item@);
            assert(checks[at] == item_check(item@, call_views(calls@)));
            assert(items.take(at + 1).drop_last() =~= items.take(at));
            if checks[at] is Some {
                lemma_first_error(checks, at);
            }
            reveal_strlit("message");
            reveal_strlit("function_call");
            assert("message"@.len() != "function_call"@.len());
        }
        if !item.is_object() {
            return Err(ResponseError::ItemNotAnObject);
        }
        if text_is(item, "type", "message") {
            match read_message(item, &mut texts) {
                Err(error) => {
                    return Err(error);
                },
                Ok(()) => {},
            }
        } else if text_is(item, "type", "function_call") {
            match read_call(item, &calls) {
                Err(error) => {
                    return Err(error);
                },
                Ok(call) => {
                    let ghost before = calls@;
                    calls.push(call);
                    assert(call_views(calls@) =~= call_views(before).push(call@));
                },
            }
        } else if text_is(item, "type", "reasoning") {
            match read_reasoning(item) {
                Err(error) => {
                    return Err(error);
                },
                Ok(()) => {},
            }
        } else {
            return Err(ResponseError::ItemType);
        }
    }
    let text: String = join_lines(&texts);
    proof {
        lemma_first_error_complete(checks);
        assert(items.take(items.len() as int) =~= items);
    }
    if calls.len() == 0 && blank(text.as_str()) {
        return Err(ResponseError::NoAnswer);
    }
    Ok(ModelTurn { output: copies(output), calls, text })
}

/// A response is taken whole or not at all: one item that fails its check, wherever it stands,
/// refuses the response.
pub proof fn law_one_bad_item_refuses_all(response: JsonView, at: int)
    requires
        response.field("output"@).items() is Some,
        ({
            let output = response.field("output"@).items()->0;
            &&& 0 <= at < output.len()
            &&& item_check(output[at], calls_of(output.take(at))) is Some
        }),
    ensures
        turn_in(response) is Err,
{
    let checks = item_checks(response.field("output"@).items()->0);
    assert(checks[at] is Some);
    lemma_first_error_complete(checks);
}

/// The turn of an accepted response keeps its output items as they came, and either makes calls
/// or has a text that is not blank.
pub proof fn law_turn_keeps_the_output(response: JsonView)
    requires
        turn_in(response) is Ok,
    ensures
        ({
            let turn = turn_in(response)->Ok_0;
            &&& response.field("output"@).items() == Some(turn.output)
            &&& turn.calls == calls_of(turn.output)
            &&& turn.calls.len() > 0 || !is_blank(turn.text)
        }),
{
}

/// Where every item passes its check, the calls have names and differ in their identifiers.
proof fn lemma_calls_are_good(output: Seq<JsonView>)
    requires
        forall|i: int| 0 <= i < output.len() ==> (#[trigger] item_checks(output)[i]) is None,
    ensures
        forall|i: int|
            0 <= i < calls_of(output).len() ==> !is_blank((#[trigger] calls_of(output)[i]).call_id)
                && !is_blank(calls_of(output)[i].name),
        forall|i: int, j: int|
            0 <= i < j < calls_of(output).len() ==> (#[trigger] calls_of(output)[i]).call_id
                != (#[trigger] calls_of(output)[j]).call_id,
    decreases output.len(),
{
    if output.len() > 0 {
        let rest = output.drop_last();
        assert forall|i: int| 0 <= i < rest.len() implies (#[trigger] item_checks(rest)[i])
            is None by {
            assert(item_checks(output)[i] is None);
            assert(rest.take(i) =~= output.take(i));
        }
        lemma_calls_are_good(rest);
        let last = output.len() - 1;
        assert(item_checks(output)[last] is None);
        assert(output.take(last) =~= rest);
        if is_call(output.last()) {
            let calls = calls_of(output);
            let before = calls_of(rest);
            reveal_strlit("message");
            reveal_strlit("function_call");
            assert("message"@.len() != "function_call"@.len());
            assert(call_check(output.last(), before) is None);
            assert forall|i: int, j: int| 0 <= i < j < calls.len() implies (
            #[trigger] calls[i]).call_id != (#[trigger] calls[j]).call_id by {
                assert(before[i].call_id == calls[i].call_id);
                if j == before.len() {
                    assert(!has_call_id(before, calls[j].call_id));
                } else {
                    assert(before[j].call_id == calls[j].call_id);
                }
            }
        }
    }
}

/// In an accepted response no two calls have the same identifier, and no identifier or name of
/// a call is blank.
pub proof fn law_calls_are_told_apart(response: JsonView)
    requires
        turn_in(response) is Ok,
    ensures
        ({
            let calls = turn_in(response)->Ok_0.calls;
            &&& forall|i: int|
                0 <= i < calls.len() ==> !is_blank((#[trigger] calls[i]).call_id) && !is_blank(
                    calls[i].name,
                )
            &&& forall|i: int, j: int|
                0 <= i < j < calls.len() ==> (#[trigger] calls[i]).call_id != (
                #[trigger] calls[j]).call_id
        }),
{
    let output = response.field("output"@).items()->0;
    lemma_first_error_complete(item_checks(output));
    lemma_calls_are_good(output);
}

/// The calls among output items come in their order: those of two lists put together are the
/// calls of the one and then those of the other. An item makes one call, with the identifier,
/// the name and the arguments that it holds, where its type is `function_call`, and none
/// otherwise.
pub proof fn law_calls_come_in_order(
    first: Seq<JsonView>,
    second: Seq<JsonView>,
    item: JsonView,
)
    ensures
        calls_of(first + second) == calls_of(first) + calls_of(second),
        calls_of(Seq::empty()).len() == 0,
        item.field("type"@) == JsonView::Text("function_call"@) ==> {
            let calls = calls_of(seq![item]);
            &&& calls.len() == 1
            &&& item.field("call_id"@) is Text ==> item.field("call_id"@) == JsonView::Text(
                calls[0].call_id,
            )
            &&& item.field("name"@) is Text ==> item.field("name"@) == JsonView::Text(
                calls[0].name,
            )
            &&& item.field("arguments"@) is Text ==> item.field("arguments"@) == JsonView::Text(
                calls[0].arguments,
            )
        },
        item.field("type"@) != JsonView::Text("function_call"@) ==> calls_of(seq![item]).len()
            == 0,
    decreases second.len(),
{
    assert(seq![item].drop_last().len() == 0);
    assert(seq![item].last() == item);
    assert(calls_of(seq![item].drop_last()) =~= Seq::empty());
    if second.len() == 0 {
        assert(first + second =~= first);
        assert(calls_of(first) + calls_of(second) =~= calls_of(first));
    } else {
        let rest = second.drop_last();
        law_calls_come_in_order(first, rest, item);
        assert((first + second).drop_last() =~= first + rest);
        assert(calls_of(first + second) =~= calls_of(first) + calls_of(second));
    }
}

/// The texts among output items come in their order: those of two lists put together are the
/// texts of the one and then those of the other. An item brings the text of each of its parts
/// where its type is `message`, and none otherwise.
pub proof fn law_texts_come_in_order(
    first: Seq<JsonView>,
    second: Seq<JsonView>,
    item: JsonView,
)
    ensures
        texts_of(first + second) == texts_of(first) + texts_of(second),
        texts_of(Seq::empty()).len() == 0,
        item.field("type"@) == JsonView::Text("message"@) && item.field("content"@) is Array ==> {
            let texts = texts_of(seq![item]);
            let parts = item.field("content"@)->Array_0;
            &&& texts.len() == parts.len()
            &&& forall|i: int|
                0 <= i < parts.len() && (#[trigger] parts[i]).field("text"@) is Text
                    ==> parts[i].field("text"@) == JsonView::Text(texts[i])
        },
        item.field("type"@) != JsonView::Text("message"@) ==> texts_of(seq![item]).len() == 0,
    decreases second.len(),
{
    assert(seq![item].drop_last().len() == 0);
    assert(seq![item].last() == item);
    assert(texts_of(seq![item].drop_last()) =~= Seq::empty());
    if second.len() == 0 {
        assert(first + second =~= first);
        assert(texts_of(first) + texts_of(second) =~= texts_of(first));
    } else {
        let rest = second.drop_last();
        law_texts_come_in_order(first, rest, item);
        assert((first + second).drop_last() =~= first + rest);
        assert(texts_of(first + second) =~= texts_of(first) + texts_of(second));
    }
}

/// The text of a part of a message is among the texts of the output.
proof fn lemma_part_is_among_the_texts(output: Seq<JsonView>, at: int, part: int) -> (place: int)
    requires
        0 <= at < output.len(),
        is_message(output[at]),
        output[at].field("content"@) is Array,
        0 <= part < output[at].field("content"@)->Array_0.len(),
        output[at].field("content"@)->Array_0[part].field("text"@) is Text,
    ensures
        0 <= place < texts_of(output).len(),
        texts_of(output)[place] == output[at].field("content"@)->Array_0[part].field(
            "text"@,
        )->Text_0,
    decreases output.len(),
{
    let rest = output.drop_last();
    if at == rest.len() {
        let parts = output[at].field("content"@)->Array_0;
        let place = texts_of(rest).len() + part;
        assert(part_texts(parts)[part] == parts[part].field("text"@)->Text_0);
        place
    } else {
        lemma_part_is_among_the_texts(rest, at, part)
    }
}

/// Every text of the output is that of a part of a message.
proof fn lemma_text_is_that_of_a_part(output: Seq<JsonView>, place: int) -> (r: (int, int))
    requires
        forall|i: int|
            0 <= i < output.len() && is_message(#[trigger] output[i]) ==> output[i].field(
                "content"@,
            ) is Array && forall|k: int|
                0 <= k < output[i].field("content"@)->Array_0.len() ==> (
                #[trigger] output[i].field("content"@)->Array_0[k]).field("text"@) is Text,
        0 <= place < texts_of(output).len(),
    ensures
        0 <= r.0 < output.len(),
        is_message(output[r.0]),
        0 <= r.1 < output[r.0].field("content"@)->Array_0.len(),
        texts_of(output)[place] == output[r.0].field("content"@)->Array_0[r.1].field(
            "text"@,
        )->Text_0,
    decreases output.len(),
{
    let rest = output.drop_last();
    let before = texts_of(rest).len();
    if place < before {
        assert forall|i: int| 0 <= i < rest.len() && is_message(#[trigger] rest[i]) implies rest[
            i].field("content"@) is Array && forall|k: int|
            0 <= k < rest[i].field("content"@)->Array_0.len() ==> (#[trigger] rest[i].field(
                "content"@,
            )->Array_0[k]).field("text"@) is Text by {
            assert(output[i] == rest[i]);
        }
        lemma_text_is_that_of_a_part(rest, place)
    } else {
        let at = output.len() - 1;
        assert(is_message(output[at]));
        let parts = output[at].field("content"@)->Array_0;
        assert(part_texts(parts)[place - before] == parts[place - before].field("text"@)->Text_0);
        (at, place - before)
    }
}

/// The type of an item is at most one of the three.
proof fn lemma_item_types_differ()
    ensures
        "message"@ != "function_call"@,
        "message"@ != "reasoning"@,
        "function_call"@ != "reasoning"@,
{
    reveal_strlit("message");
    reveal_strlit("function_call");
    reveal_strlit("reasoning");
    assert("message"@.len() == 7);
    assert("function_call"@.len() == 13);
    assert("reasoning"@.len() == 9);
}

/// The text of a turn is that of every part of every message, in order, with a line break
/// between neighbours, whether or not the turn makes calls; its calls are all those of the
/// output, and its items are the output. Each part stands in the text whole.
pub proof fn law_turn_has_every_text_and_call(response: JsonView, at: int, part: int)
    requires
        turn_in(response) is Ok,
    ensures
        ({
            let turn = turn_in(response)->Ok_0;
            let output = response.field("output"@)->Array_0;
            let parts = output[at].field("content"@)->Array_0;
            let piece = parts[part].field("text"@)->Text_0;
            &&& response.field("output"@) is Array
            &&& turn.output == output
            &&& turn.calls == calls_of(output)
            &&& turn.text == joined(texts_of(output), seq!['\n'])
            &&& 0 <= at < output.len() && output[at].field("type"@) == JsonView::Text("message"@)
                && 0 <= part < parts.len() ==> exists|start: int|
                0 <= start <= start + piece.len() <= turn.text.len() && #[trigger]
                turn.text.subrange(start, start + piece.len()) == piece
        }),
{
    let turn = turn_in(response)->Ok_0;
    let output = response.field("output"@)->Array_0;
    let parts = output[at].field("content"@)->Array_0;
    reveal_strlit("\n");
    assert("\n"@ =~= seq!['\n']);
    if 0 <= at < output.len() && output[at].field("type"@) == JsonView::Text("message"@) && 0
        <= part < parts.len() {
        lemma_accepted_items(output, at);
        let checks = parts.map_values(|p: JsonView| part_check(p));
        lemma_first_error_complete(checks);
        assert(checks[part] is None);
        let place = lemma_part_is_among_the_texts(output, at, part);
        let start = law_every_line_stands_in_the_text(texts_of(output), place, "\n"@);
        let piece = parts[part].field("text"@)->Text_0;
        assert(turn.text.subrange(start, start + piece.len()) == piece);
    }
}

/// Every item of an accepted output passes its check.
proof fn lemma_accepted_items(output: Seq<JsonView>, at: int)
    requires
        turn_of(output) is Ok,
        0 <= at < output.len(),
    ensures
        item_check(output[at], calls_of(output.take(at))) is None,
{
    lemma_first_error_complete(item_checks(output));
    assert(item_checks(output)[at] is None);
}

/// A message is accepted exactly where it has an identifier, is from the assistant, completed
/// and made of output texts only; otherwise the first of this that fails is reported. `at` is a
/// part before which all parts are output texts.
pub proof fn law_message_is_accepted(item: JsonView, taken: Seq<CallView>, at: int)
    requires
        item is Object,
        item.field("type"@) == JsonView::Text("message"@),
    ensures
        ({
            let check = item_check(item, taken);
            let id = item.field("id"@);
            let named = id is Text && !is_blank(id->Text_0);
            let ours = item.field("role"@) == JsonView::Text("assistant"@);
            let done = item.field("status"@) == JsonView::Text("completed"@);
            let listed = item.field("content"@) is Array;
            let parts = item.field("content"@)->Array_0;
            let kind = parts[at].field("type"@);
            &&& check is None <==> named && ours && done && listed && forall|k: int|
                0 <= k < parts.len() ==> (#[trigger] parts[k]).field("type"@) == JsonView::Text(
                    "output_text"@,
                ) && parts[k].field("text"@) is Text
            &&& !(id is Text) ==> check == Some(ResponseError::MissingText(Field::Id))
            &&& id is Text && !named ==> check == Some(ResponseError::BlankText(Field::Id))
            &&& named && !ours ==> check == Some(ResponseError::MessageRole)
            &&& named && ours && !done ==> check == Some(ResponseError::MessageStatus)
            &&& named && ours && done && !listed ==> check == Some(ResponseError::MessageContent)
            &&& named && ours && done && listed && 0 <= at < parts.len() && (forall|k: int|
                0 <= k < at ==> (#[trigger] parts[k]).field("type"@) == JsonView::Text(
                    "output_text"@,
                ) && parts[k].field("text"@) is Text) ==> {
                &&& kind == JsonView::Text("output_text"@) && !(parts[at].field("text"@) is Text)
                    ==> check == Some(ResponseError::PartText)
                &&& kind == JsonView::Text("refusal"@) ==> check == Some(ResponseError::Refusal)
                &&& kind != JsonView::Text("output_text"@) && kind != JsonView::Text("refusal"@)
                    ==> check == Some(ResponseError::PartType)
            }
        }),
{
    lemma_item_types_differ();
    reveal_strlit("output_text");
    reveal_strlit("refusal");
    assert("output_text"@.len() != "refusal"@.len());
    if item.field("content"@) is Array {
        let parts = item.field("content"@)->Array_0;
        let checks = parts.map_values(|p: JsonView| part_check(p));
        lemma_first_error_complete(checks);
        assert(forall|k: int|
            0 <= k < parts.len() ==> #[trigger] checks[k] == part_check(parts[k]));
        assert(forall|k: int|
            0 <= k < parts.len() ==> (checks[k] is None <==> (#[trigger] parts[k]).field("type"@)
                == JsonView::Text("output_text"@) && parts[k].field("text"@) is Text));
        if (forall|k: int| 0 <= k < checks.len() ==> (#[trigger] checks[k]) is None) {
            assert forall|k: int| 0 <= k < parts.len() implies (#[trigger] parts[k]).field("type"@)
                == JsonView::Text("output_text"@) && parts[k].field("text"@) is Text by {
                assert(checks[k] is None);
            }
        }
        if 0 <= at < parts.len() && checks[at] is Some && (forall|k: int|
            0 <= k < at ==> (#[trigger] parts[k]).field("type"@) == JsonView::Text(
                "output_text"@,
            ) && parts[k].field("text"@) is Text) {
            assert forall|k: int| 0 <= k < at implies (#[trigger] checks[k]) is None by {
                assert(parts[k].field("type"@) == JsonView::Text("output_text"@));
            }
            lemma_first_error(checks, at);
        }
    }
}

/// A call is accepted exactly where its status, if it has one, is `completed`, its own
/// identifier, if it has one, is a text that is not blank, it has a call identifier that is not
/// blank and not taken, a name that is not blank, and an argument text, whatever that is;
/// otherwise the first of this that fails is reported.
pub proof fn law_call_is_accepted(item: JsonView, taken: Seq<CallView>)
    requires
        item is Object,
        item.field("type"@) == JsonView::Text("function_call"@),
    ensures
        ({
            let check = item_check(item, taken);
            let id = item.field("id"@);
            let call_id = item.field("call_id"@);
            let name = item.field("name"@);
            let done = item.get("status"@) is None || item.get("status"@) == Some(
                JsonView::Text("completed"@),
            );
            let own = item.get("id"@) is None || (id is Text && !is_blank(id->Text_0));
            let called = call_id is Text && !is_blank(call_id->Text_0);
            let fresh = forall|k: int|
                0 <= k < taken.len() ==> (#[trigger] taken[k]).call_id != call_id->Text_0;
            let named = name is Text && !is_blank(name->Text_0);
            let argued = item.field("arguments"@) is Text;
            &&& check is None <==> done && own && called && fresh && named && argued
            &&& check is Some ==> check->0 == (if !done {
                ResponseError::ItemStatus
            } else if !own && !(id is Text) {
                ResponseError::MissingText(Field::Id)
            } else if !own {
                ResponseError::BlankText(Field::Id)
            } else if !(call_id is Text) {
                ResponseError::MissingText(Field::CallId)
            } else if !called {
                ResponseError::BlankText(Field::CallId)
            } else if !fresh {
                ResponseError::DuplicateCallId
            } else if !(name is Text) {
                ResponseError::MissingText(Field::Name)
            } else if !named {
                ResponseError::BlankText(Field::Name)
            } else {
                ResponseError::CallArguments
            })
        }),
{
    lemma_item_types_differ();
}

/// A piece of reasoning is accepted exactly where it has an identifier that is not blank, its
/// status, if it has one that is not null, is `completed`, it has a summary of summary texts,
/// its content, if it has one that is not null, is made of reasoning texts, and its encrypted
/// content, if it has one that is not null, is a text; otherwise the first of this that fails is
/// reported.
pub proof fn law_reasoning_is_accepted(item: JsonView, taken: Seq<CallView>)
    requires
        item is Object,
        item.field("type"@) == JsonView::Text("reasoning"@),
    ensures
        ({
            let check = item_check(item, taken);
            let id = item.field("id"@);
            let status = item.field("status"@);
            let summary = item.field("summary"@);
            let content = item.field("content"@);
            let encrypted = item.field("encrypted_content"@);
            let named = id is Text && !is_blank(id->Text_0);
            let done = status is Null || status == JsonView::Text("completed"@);
            let summed = summary is Array && forall|k: int|
                0 <= k < summary->Array_0.len() ==> (#[trigger] summary->Array_0[k]).field(
                    "type"@,
                ) == JsonView::Text("summary_text"@) && summary->Array_0[k].field("text"@) is Text;
            let told = content is Null || (content is Array && forall|k: int|
                0 <= k < content->Array_0.len() ==> (#[trigger] content->Array_0[k]).field(
                    "type"@,
                ) == JsonView::Text("reasoning_text"@) && content->Array_0[k].field("text"@)
                    is Text);
            let sealed = encrypted is Null || encrypted is Text;
            &&& check is None <==> named && done && summed && told && sealed
            &&& check is Some ==> check->0 == (if !(id is Text) {
                ResponseError::MissingText(Field::Id)
            } else if !named {
                ResponseError::BlankText(Field::Id)
            } else if !done {
                ResponseError::ItemStatus
            } else if !(summary is Array) {
                ResponseError::ReasoningSummary
            } else if !summed {
                ResponseError::SummaryPart
            } else if !told && !(content is Array) {
                ResponseError::ReasoningContent
            } else if !told {
                ResponseError::ContentPart
            } else {
                ResponseError::EncryptedContent
            })
        }),
{
    lemma_item_types_differ();
}

/// Only an object can be an item, and only one of the three types.
pub proof fn law_other_items_are_refused(item: JsonView, taken: Seq<CallView>)
    ensures
        !(item is Object) ==> item_check(item, taken) == Some(ResponseError::ItemNotAnObject),
        item is Object && item.field("type"@) != JsonView::Text("message"@) && item.field("type"@)
            != JsonView::Text("function_call"@) && item.field("type"@) != JsonView::Text(
            "reasoning"@,
        ) ==> item_check(item, taken) == Some(ResponseError::ItemType),
{
}

/// A response is accepted exactly where it is an object that reports no error, nothing missing
/// and completion, lists at least one item, every item passes its check against the calls before
/// it, and there is a call or a part of a message whose text is not blank; otherwise the first
/// of this that fails is reported. `at` is an item before which all items pass.
pub proof fn law_response_is_accepted(response: JsonView, at: int)
    ensures
        ({
            let r = turn_in(response);
            let sound = response.field("error"@) is Null;
            let whole = response.field("incomplete_details"@) is Null;
            let done = response.field("status"@) == JsonView::Text("completed"@);
            let listed = response.field("output"@) is Array;
            let output = response.field("output"@)->Array_0;
            let passed = forall|i: int|
                0 <= i < output.len() ==> item_check(
                    #[trigger] output[i],
                    calls_of(output.take(i)),
                ) is None;
            let calls = exists|i: int|
                0 <= i < output.len() && (#[trigger] output[i]).field("type"@) == JsonView::Text(
                    "function_call"@,
                );
            let says = exists|i: int, k: int|
                0 <= i < output.len() && output[i].field("type"@) == JsonView::Text("message"@)
                    && 0 <= k < output[i].field("content"@)->Array_0.len() && !is_blank(
                    (#[trigger] output[i].field("content"@)->Array_0[k]).field("text"@)->Text_0,
                );
            let ready = response is Object && sound && whole && done && listed && output.len() > 0;
            &&& r is Ok <==> ready && passed && (calls || says)
            &&& !(response is Object) ==> r == Err::<TurnView, ResponseError>(
                ResponseError::NotAnObject,
            )
            &&& response is Object && !sound ==> r == Err::<TurnView, ResponseError>(
                ResponseError::ServiceError,
            )
            &&& response is Object && sound && !whole ==> r == Err::<TurnView, ResponseError>(
                ResponseError::Incomplete,
            )
            &&& response is Object && sound && whole && !done ==> r == Err::<
                TurnView,
                ResponseError,
            >(ResponseError::NotCompleted)
            &&& response is Object && sound && whole && done && !listed ==> r == Err::<
                TurnView,
                ResponseError,
            >(ResponseError::NoOutput)
            &&& response is Object && sound && whole && done && listed && output.len() == 0
                ==> r == Err::<TurnView, ResponseError>(ResponseError::EmptyOutput)
            &&& ready && 0 <= at < output.len() && (forall|i: int|
                0 <= i < at ==> item_check(#[trigger] output[i], calls_of(output.take(i)))
                    is None) && item_check(output[at], calls_of(output.take(at))) is Some ==> r
                == Err::<TurnView, ResponseError>(
                item_check(output[at], calls_of(output.take(at)))->0,
            )
            &&& ready && passed && !calls && !says ==> r == Err::<TurnView, ResponseError>(
                ResponseError::NoAnswer,
            )
        }),
{
    if response.field("output"@) is Array {
        let output = response.field("output"@)->Array_0;
        let checks = item_checks(output);
        lemma_first_error_complete(checks);
        assert(forall|i: int|
            0 <= i < output.len() ==> #[trigger] checks[i] == item_check(
                output[i],
                calls_of(output.take(i)),
            ));
        if (forall|i: int| 0 <= i < checks.len() ==> (#[trigger] checks[i]) is None) {
            assert forall|i: int| 0 <= i < output.len() implies item_check(
                #[trigger] output[i],
                calls_of(output.take(i)),
            ) is None by {
                assert(checks[i] is None);
            }
            lemma_answer_is_some(output);
        }
        if 0 <= at < output.len() && (forall|i: int|
            0 <= i < at ==> item_check(#[trigger] output[i], calls_of(output.take(i))) is None)
            && item_check(output[at], calls_of(output.take(at))) is Some {
            assert forall|i: int| 0 <= i < at implies (#[trigger] checks[i]) is None by {
                assert(item_check(output[i], calls_of(output.take(i))) is None);
            }
            lemma_first_error(checks, at);
        }
    }
}

/// Where there is a call among items, the list of calls is not empty, and the other way round.
proof fn lemma_calls_are_some(output: Seq<JsonView>)
    ensures
        calls_of(output).len() > 0 <==> exists|i: int|
            0 <= i < output.len() && (#[trigger] output[i]).field("type"@) == JsonView::Text(
                "function_call"@,
            ),
    decreases output.len(),
{
    if output.len() > 0 {
        let rest = output.drop_last();
        lemma_calls_are_some(rest);
        if is_call(output.last()) {
            assert(output[output.len() - 1].field("type"@) == JsonView::Text("function_call"@));
        } else if calls_of(rest).len() > 0 {
            let i = choose|i: int|
                0 <= i < rest.len() && (#[trigger] rest[i]).field("type"@) == JsonView::Text(
                    "function_call"@,
                );
            assert(output[i] == rest[i]);
        } else {
            assert forall|i: int| 0 <= i < output.len() implies (#[trigger] output[i]).field(
                "type"@,
            ) != JsonView::Text("function_call"@) by {
                if i < rest.len() {
                    assert(rest[i] == output[i]);
                }
            }
        }
    }
}

/// Items that pass say something exactly where there is a call or a text that is not blank.
proof fn lemma_answer_is_some(output: Seq<JsonView>)
    requires
        forall|i: int|
            0 <= i < output.len() ==> item_check(#[trigger] output[i], calls_of(output.take(i)))
                is None,
    ensures
        calls_of(output).len() > 0 <==> exists|i: int|
            0 <= i < output.len() && (#[trigger] output[i]).field("type"@) == JsonView::Text(
                "function_call"@,
            ),
        !is_blank(joined(texts_of(output), "\n"@)) <==> exists|i: int, k: int|
            0 <= i < output.len() && output[i].field("type"@) == JsonView::Text("message"@) && 0
                <= k < output[i].field("content"@)->Array_0.len() && !is_blank(
                (#[trigger] output[i].field("content"@)->Array_0[k]).field("text"@)->Text_0,
            ),
{
    lemma_calls_are_some(output);
    reveal_strlit("\n");
    assert(is_blank("\n"@));
    let texts = texts_of(output);
    law_lines_are_blank_together(texts, "\n"@);
    assert forall|i: int|
        0 <= i < output.len() && is_message(#[trigger] output[i]) implies output[i].field(
        "content"@,
    ) is Array && forall|k: int|
        0 <= k < output[i].field("content"@)->Array_0.len() ==> (#[trigger] output[i].field(
            "content"@,
        )->Array_0[k]).field("text"@) is Text by {
        law_message_is_accepted(output[i], calls_of(output.take(i)), 0);
    }
    if !is_blank(joined(texts, "\n"@)) {
        let place = choose|place: int|
            0 <= place < texts.len() && !is_blank(#[trigger] texts[place]);
        let (i, k) = lemma_text_is_that_of_a_part(output, place);
        assert(!is_blank(output[i].field("content"@)->Array_0[k].field("text"@)->Text_0));
    }
    if exists|i: int, k: int|
        0 <= i < output.len() && output[i].field("type"@) == JsonView::Text("message"@) && 0 <= k
            < output[i].field("content"@)->Array_0.len() && !is_blank(
            (#[trigger] output[i].field("content"@)->Array_0[k]).field("text"@)->Text_0,
        ) {
        let (i, k) = choose|i: int, k: int|
            0 <= i < output.len() && output[i].field("type"@) == JsonView::Text("message"@) && 0
                <= k < output[i].field("content"@)->Array_0.len() && !is_blank(
                (#[trigger] output[i].field("content"@)->Array_0[k]).field("text"@)->Text_0,
            );
        assert(is_message(output[i]));
        let place = lemma_part_is_among_the_texts(output, i, k);
        assert(!is_blank(texts[place]));
    }
}

/// How long the words for an error are, and what stands at two places of them.
spec fn marks(error: ResponseError) -> (int, char, char) {
    match error {
        ResponseError::NotAnObject => (15, '响', '必'),
        ResponseError::ServiceError => (10, '服', '报'),
        ResponseError::Incomplete => (11, '响', '不'),
        ResponseError::NotCompleted => (9, '响', '未'),
        ResponseError::NoOutput => (16, '响', '缺'),
        ResponseError::EmptyOutput => (7, '返', '空'),
        ResponseError::ItemNotAnObject => (16, '输', '项'),
        ResponseError::ItemType => (12, '返', '不'),
        ResponseError::ItemStatus => (10, '输', '项'),
        ResponseError::MissingText(Field::Id) => (18, '响', '缺'),
        ResponseError::MissingText(Field::CallId) => (23, '响', '缺'),
        ResponseError::MissingText(Field::Name) => (20, '响', '缺'),
        ResponseError::BlankText(Field::Id) => (15, '响', '的'),
        ResponseError::BlankText(Field::CallId) => (20, '响', '的'),
        ResponseError::BlankText(Field::Name) => (17, '响', '的'),
        ResponseError::MessageRole => (23, '消', ' '),
        ResponseError::MessageStatus => (9, '消', '未'),
        ResponseError::MessageContent => (17, '消', '缺'),
        ResponseError::PartText => (17, '文', '内'),
        ResponseError::Refusal => (10, '拒', '回'),
        ResponseError::PartType => (14, '消', '包'),
        ResponseError::DuplicateCallId => (17, '响', '中'),
        ResponseError::CallArguments => (22, '函', '调'),
        ResponseError::ReasoningSummary => (18, '推', '项'),
        ResponseError::SummaryPart => (10, '推', '摘'),
        ResponseError::ReasoningContent => (18, '推', ' '),
        ResponseError::ContentPart => (10, '推', '内'),
        ResponseError::EncryptedContent => (14, '加', '推'),
        ResponseError::NoAnswer => (15, '响', '没'),
    }
}

proof fn lemma_marks(error: ResponseError)
    ensures
        error.text().len() == marks(error).0,
        error.text()[2] == marks(error).1,
        error.text()[4] == marks(error).2,
{
    match error {
        ResponseError::NotAnObject => {
            reveal_strlit("模型响应必须是 JSON 对象");
        },
        ResponseError::ServiceError => {
            reveal_strlit("模型服务报告响应错误");
        },
        ResponseError::Incomplete => {
            reveal_strlit("模型响应不完整或已截断");
        },
        ResponseError::NotCompleted => {
            reveal_strlit("模型响应未正常完成");
        },
        ResponseError::NoOutput => {
            reveal_strlit("模型响应缺少 output 数组");
        },
        ResponseError::EmptyOutput => {
            reveal_strlit("模型返回空响应");
        },
        ResponseError::ItemNotAnObject => {
            reveal_strlit("模型输出项必须是 JSON 对象");
        },
        ResponseError::ItemType => {
            reveal_strlit("模型返回不支持的输出类型");
        },
        ResponseError::ItemStatus => {
            reveal_strlit("模型输出项未正常完成");
        },
        ResponseError::MissingText(Field::Id) => {
            reveal_strlit("模型响应缺少有效的 id 字符串字段");
        },
        ResponseError::MissingText(Field::CallId) => {
            reveal_strlit("模型响应缺少有效的 call_id 字符串字段");
        },
        ResponseError::MissingText(Field::Name) => {
            reveal_strlit("模型响应缺少有效的 name 字符串字段");
        },
        ResponseError::BlankText(Field::Id) => {
            reveal_strlit("模型响应的 id 字段不能为空");
        },
        ResponseError::BlankText(Field::CallId) => {
            reveal_strlit("模型响应的 call_id 字段不能为空");
        },
        ResponseError::BlankText(Field::Name) => {
            reveal_strlit("模型响应的 name 字段不能为空");
        },
        ResponseError::MessageRole => {
            reveal_strlit("模型消息 role 必须是 assistant");
        },
        ResponseError::MessageStatus => {
            reveal_strlit("模型消息未正常完成");
        },
        ResponseError::MessageContent => {
            reveal_strlit("模型消息缺少 content 数组");
        },
        ResponseError::PartText => {
            reveal_strlit("模型文本内容缺少 text 字符串");
        },
        ResponseError::Refusal => {
            reveal_strlit("模型拒绝回答本次任务");
        },
        ResponseError::PartType => {
            reveal_strlit("模型消息包含不支持的内容类型");
        },
        ResponseError::DuplicateCallId => {
            reveal_strlit("模型响应中的 call_id 重复");
        },
        ResponseError::CallArguments => {
            reveal_strlit("模型函数调用缺少 arguments 字符串");
        },
        ResponseError::ReasoningSummary => {
            reveal_strlit("模型推理项缺少 summary 数组");
        },
        ResponseError::SummaryPart => {
            reveal_strlit("模型推理摘要结构无效");
        },
        ResponseError::ReasoningContent => {
            reveal_strlit("模型推理 content 必须是数组");
        },
        ResponseError::ContentPart => {
            reveal_strlit("模型推理内容结构无效");
        },
        ResponseError::EncryptedContent => {
            reveal_strlit("模型加密推理内容必须是字符串");
        },
        ResponseError::NoAnswer => {
            reveal_strlit("模型响应没有工具调用或非空回答");
        },
    }
}

/// What is wrong with a response is told by the words alone: no two errors share them.
pub proof fn law_errors_are_told_apart(error: ResponseError, other: ResponseError)
    requires
        error.text() == other.text(),
    ensures
        error == other,
{
    lemma_marks(error);
    lemma_marks(other);
}

/// A call and a turn say what they carry, and all of it.
pub proof fn law_turn_views_keep_what_they_carry(turn: ModelTurn)
    ensures
        turn@.text == turn.text@,
        turn@.output == views(turn.output@),
        turn@.calls.len() == turn.calls@.len(),
        forall|i: int|
            0 <= i < turn.calls@.len() ==> (#[trigger] turn@.calls[i]).call_id
                == turn.calls@[i].call_id@ && turn@.calls[i].name == turn.calls@[i].name@
                && turn@.calls[i].arguments == turn.calls@[i].arguments@,
{
}

} // verus!
