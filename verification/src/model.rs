//! The exchange with the model: what is sent, and what comes of the reply.

use crate::config::file::{
    bearer, bearer_header, is_header_text, Limits, ModelConfig, ReasoningEffort,
};
use crate::json::{document_in, integer, is_held, is_plain, text_of, views, Json, JsonView};
use crate::response::{parse_response, turn_in, ModelTurn, ResponseError, TurnView};
use crate::text::{decimal, decimal_digits, law_decimal_digits_tell_numbers_apart};
use vstd::prelude::*;
use vstd::string::*;
use vstd::utf8::*;

verus! {

/// How the model is reached and what each request says besides its input.
#[derive(Debug, PartialEq, Eq)]
pub struct ModelClient {
    /// The URL that requests are posted to.
    pub endpoint: String,
    /// The value of the authorization header. It is part of no request body.
    pub authorization: String,
    /// The time after which a request is given up, in seconds.
    pub request_timeout_secs: u64,
    pub model: String,
    pub reasoning_effort: ReasoningEffort,
    pub max_output_tokens: u32,
}

/// Why the model gave no turn.
#[derive(Debug, Clone, Copy, PartialEq, Eq)]
pub enum ModelError {
    /// No client could be set up.
    Client,
    /// The request timed out.
    Timeout,
    /// The request or the reply was lost.
    Transport,
    /// The service replied with a status other than success.
    Http(u16),
    /// The reply is not JSON.
    NotJson,
    /// The reply is no response that can be used.
    Response(ResponseError),
}

impl ModelError {
    /// What the user is told. No part of a request or of a reply is in it but the status.
    pub open spec fn text(self) -> Seq<char> {
        match self {
            ModelError::Client => "无法初始化模型 HTTP 客户端"@,
            ModelError::Timeout => "模型请求超时"@,
            ModelError::Transport => "模型请求网络或传输失败"@,
            ModelError::Http(status) => "模型服务返回 HTTP "@ + decimal_digits(status as nat),
            ModelError::NotJson => "模型响应不是有效 JSON"@,
            ModelError::Response(error) => error.text(),
        }
    }

    /// Returns what the user is told.
    pub fn message(&self) -> (r: String)
        ensures
            r@ == self.text(),
    {
        match self {
            ModelError::Client => "无法初始化模型 HTTP 客户端".to_owned(),
            ModelError::Timeout => "模型请求超时".to_owned(),
            ModelError::Transport => "模型请求网络或传输失败".to_owned(),
            ModelError::Http(status) => {
                let mut text: String = "模型服务返回 HTTP ".to_owned();
                text.append(decimal(*status as u128).as_str());
                text
            },
            ModelError::NotJson => "模型响应不是有效 JSON".to_owned(),
            ModelError::Response(error) => error.message().to_owned(),
        }
    }
}

/// Says why a request was lost.
pub fn transport_error(timed_out: bool) -> (r: ModelError)
    ensures
        r == (if timed_out {
            ModelError::Timeout
        } else {
            ModelError::Transport
        }),
{
    if timed_out {
        ModelError::Timeout
    } else {
        ModelError::Transport
    }
}

/// Whether an HTTP status means success.
pub open spec fn is_success(status: u16) -> bool {
    200 <= status <= 299
}

/// The body of a request.
pub open spec fn request_view(
    model: Seq<char>,
    reasoning_effort: ReasoningEffort,
    max_output_tokens: u32,
    history: Seq<JsonView>,
    tool_definition: JsonView,
) -> JsonView {
    JsonView::object().with("model"@, JsonView::Text(model)).with(
        "input"@,
        JsonView::Array(history),
    ).with("tools"@, JsonView::Array(seq![tool_definition])).with(
        "stream"@,
        JsonView::Bool(false),
    ).with("store"@, JsonView::Bool(false)).with(
        "include"@,
        JsonView::Array(seq![JsonView::Text("reasoning.encrypted_content"@)]),
    ).with(
        "reasoning"@,
        JsonView::object().with("effort"@, JsonView::Text(reasoning_effort.spec_name())),
    ).with(
        "max_output_tokens"@,
        JsonView::Number(integer(max_output_tokens as i128)),
    ).with("truncation"@, JsonView::Text("disabled"@))
}

/// What the reply to a request comes to. The body counts only where the status means success.
pub open spec fn reply_turn(status: u16, body: Seq<u8>) -> Result<TurnView, ModelError> {
    if !is_success(status) {
        Err(ModelError::Http(status))
    } else {
        match document_in(body) {
            None => Err(ModelError::NotJson),
            Some(response) => match turn_in(response) {
                Ok(turn) => Ok(turn),
                Err(error) => Err(ModelError::Response(error)),
            },
        }
    }
}

/// Makes an array of one item.
fn single(item: Json) -> (r: Json)
    ensures
        r@ == JsonView::Array(seq![item@]),
{
    let mut items: Vec<Json> = Vec::new();
    items.push(item);
    assert(views(items@) =~= seq![item@]);
    Json::array(items)
}

impl ModelClient {
    /// The body of this client's request.
    pub open spec fn request_view(
        self,
        history: Seq<JsonView>,
        tool_definition: JsonView,
    ) -> JsonView {
        request_view(
            self.model@,
            self.reasoning_effort,
            self.max_output_tokens,
            history,
            tool_definition,
        )
    }

    /// Sets a client up. The key must be one that a header can carry, as that of an accepted
    /// configuration is.
    pub fn new(config: &ModelConfig, limits: &Limits) -> (r: ModelClient)
        requires
            is_header_text(bearer(config.api_key@)),
        ensures
            r.endpoint@ == config.endpoint.url@,
            r.authorization@ == bearer(config.api_key@),
            r.request_timeout_secs == limits.request_timeout_secs,
            r.model@ == config.name@,
            r.reasoning_effort == config.reasoning_effort,
            r.max_output_tokens == limits.max_output_tokens,
    {
        ModelClient {
            endpoint: config.endpoint.url.clone(),
            authorization: bearer_header(config.api_key.as_str()),
            request_timeout_secs: limits.request_timeout_secs,
            model: config.name.clone(),
            reasoning_effort: config.reasoning_effort,
            max_output_tokens: limits.max_output_tokens,
        }
    }

    /// Makes the body of a request.
    pub fn request(&self, history: &Vec<Json>, tool_definition: Json) -> (r: Json)
        ensures
            r@ == self.request_view(views(history@), tool_definition@),
    {
        let mut input: Vec<Json> = Vec::new();
        for i in 0..history.len()
            invariant
                input@.len() == i,
                forall|j: int| 0 <= j < i ==> (#[trigger] input@[j])@ == history@[j]@,
        {
            input.push(history[i].clone());
        }
        assert(views(input@) =~= views(history@));
        Json::object().with("model", Json::text(self.model.as_str())).with(
            "input",
            Json::array(input),
        ).with("tools", single(tool_definition)).with("stream", Json::Bool(false)).with(
            "store",
            Json::Bool(false),
        ).with("include", single(Json::text("reasoning.encrypted_content"))).with(
            "reasoning",
            Json::object().with("effort", Json::text(self.reasoning_effort.name())),
        ).with("max_output_tokens", Json::whole(self.max_output_tokens as u64)).with(
            "truncation",
            Json::text("disabled"),
        )
    }

    /// Makes the body of a request as text.
    pub fn request_body(&self, history: &Vec<Json>, tool_definition: Json) -> (r: String)
        ensures
            r@ == text_of(self.request_view(views(history@), tool_definition@)),
            is_plain(self.request_view(views(history@), tool_definition@), 127) ==> document_in(
                encode_utf8(r@),
            ) == Some(self.request_view(views(history@), tool_definition@)),
    {
        self.request(history, tool_definition).to_text()
    }

    /// Tells whether the body of a reply with this status is worth reading.
    pub fn accepts(&self, status: u16) -> (r: bool)
        ensures
            r == is_success(status),
    {
        200 <= status && status <= 299
    }

    /// Says what the reply to a request comes to.
    pub fn respond(&self, status: u16, body: &[u8]) -> (r: Result<ModelTurn, ModelError>)
        ensures
            match r {
                Ok(turn) => reply_turn(status, body@) == Ok::<TurnView, ModelError>(turn@),
                Err(error) => reply_turn(status, body@) == Err::<TurnView, ModelError>(error),
            },
    {
        if !self.accepts(status) {
            return Err(ModelError::Http(status));
        }
        match Json::parse(body) {
            None => Err(ModelError::NotJson),
            Some(response) => match parse_response(response) {
                Ok(turn) => Ok(turn),
                Err(error) => Err(ModelError::Response(error)),
            },
        }
    }
}

/// The body of a request says nothing of the key or of the address: two clients that ask the
/// same model in the same way send the same body.
pub proof fn law_body_hides_the_key(
    client: ModelClient,
    other: ModelClient,
    history: Seq<JsonView>,
    tool_definition: JsonView,
)
    requires
        client.model@ == other.model@,
        client.reasoning_effort == other.reasoning_effort,
        client.max_output_tokens == other.max_output_tokens,
    ensures
        client.request_view(history, tool_definition) == other.request_view(
            history,
            tool_definition,
        ),
{
}

/// What is told of a refused status says nothing of the body that came with it.
pub proof fn law_refused_status_hides_the_body(status: u16, body: Seq<u8>, other: Seq<u8>)
    requires
        !is_success(status),
    ensures
        reply_turn(status, body) == Err::<TurnView, ModelError>(ModelError::Http(status)),
        reply_turn(status, other) == reply_turn(status, body),
{
}

/// The body of a request says which model is asked and how, gives it the conversation as it is,
/// item by item and all of it, and the tool, and has no other field. Nothing is stored or sent in
/// pieces, nothing may be cut off, and the reasoning comes back encrypted.
pub proof fn law_request_says_what_it_is_given(
    client: ModelClient,
    history: Seq<JsonView>,
    tool_definition: JsonView,
    name: Seq<char>,
)
    ensures
        ({
            let body = client.request_view(history, tool_definition);
            let effort = body.field("reasoning"@).get("effort"@);
            &&& body is Object
            &&& body.get("model"@) == Some(JsonView::Text(client.model@))
            &&& body.field("input"@) is Array
            &&& body.field("input"@)->Array_0.len() == history.len()
            &&& forall|i: int|
                0 <= i < history.len() ==> #[trigger] body.field("input"@)->Array_0[i]
                    == history[i]
            &&& body.field("input"@)->Array_0 == history
            &&& body.field("tools"@) is Array
            &&& body.field("tools"@)->Array_0.len() == 1
            &&& body.field("tools"@)->Array_0[0] == tool_definition
            &&& body.get("stream"@) == Some(JsonView::Bool(false))
            &&& body.get("store"@) == Some(JsonView::Bool(false))
            &&& body.field("include"@) is Array
            &&& body.field("include"@)->Array_0.len() == 1
            &&& body.field("include"@)->Array_0[0] == JsonView::Text(
                "reasoning.encrypted_content"@,
            )
            &&& effort == Some(
                JsonView::Text(
                    match client.reasoning_effort {
                        ReasoningEffort::Low => "low"@,
                        ReasoningEffort::Medium => "medium"@,
                        ReasoningEffort::High => "high"@,
                        ReasoningEffort::Xhigh => "xhigh"@,
                        ReasoningEffort::Max => "max"@,
                        ReasoningEffort::Ultra => "ultra"@,
                    },
                ),
            )
            &&& name != "effort"@ ==> body.field("reasoning"@).get(name) is None
            &&& body.get("max_output_tokens"@) == Some(
                JsonView::Number(integer(client.max_output_tokens as i128)),
            )
            &&& body.get("truncation"@) == Some(JsonView::Text("disabled"@))
            &&& body.get(name) is Some ==> {
                ||| name == "model"@
                ||| name == "input"@
                ||| name == "tools"@
                ||| name == "stream"@
                ||| name == "store"@
                ||| name == "include"@
                ||| name == "reasoning"@
                ||| name == "max_output_tokens"@
                ||| name == "truncation"@
            }
        }),
{
    reveal_strlit("model");
    reveal_strlit("input");
    reveal_strlit("tools");
    reveal_strlit("stream");
    reveal_strlit("store");
    reveal_strlit("include");
    reveal_strlit("reasoning");
    reveal_strlit("max_output_tokens");
    reveal_strlit("truncation");
    assert("model"@[0] == 'm' && "model"@.len() == 5);
    assert("input"@[0] == 'i' && "input"@.len() == 5);
    assert("tools"@[0] == 't' && "tools"@.len() == 5);
    assert("store"@[0] == 's' && "store"@.len() == 5);
    assert("stream"@.len() == 6);
    assert("include"@.len() == 7);
    assert("reasoning"@.len() == 9);
    assert("max_output_tokens"@.len() == 17);
    assert("truncation"@.len() == 10);
}

/// Two conversations that differ make two bodies that differ.
pub proof fn law_request_loses_nothing(
    client: ModelClient,
    history: Seq<JsonView>,
    other: Seq<JsonView>,
    tool_definition: JsonView,
    other_definition: JsonView,
)
    requires
        client.request_view(history, tool_definition) == client.request_view(
            other,
            other_definition,
        ),
    ensures
        history == other,
        tool_definition == other_definition,
{
    law_request_says_what_it_is_given(client, history, tool_definition, "input"@);
    law_request_says_what_it_is_given(client, other, other_definition, "input"@);
}

/// The body of a request is plain where what it is given is, two levels below.
pub proof fn law_request_is_plain(
    client: ModelClient,
    history: Seq<JsonView>,
    tool_definition: JsonView,
    depth: nat,
)
    requires
        forall|i: int| 0 <= i < history.len() ==> is_plain(#[trigger] history[i], depth),
        is_plain(tool_definition, depth),
    ensures
        is_plain(client.request_view(history, tool_definition), depth + 2),
{
    let body = client.request_view(history, tool_definition);
    let tools = seq![tool_definition];
    let included = seq![JsonView::Text("reasoning.encrypted_content"@)];
    let max = client.max_output_tokens as i128;
    reveal_with_fuel(is_plain, 3);
    assert(is_held(max));
    assert(is_plain(JsonView::Number(integer(max)), depth + 1));
    assert(is_plain(JsonView::Array(history), depth + 1));
    assert(is_plain(JsonView::Array(tools), depth + 1));
    assert(is_plain(JsonView::Array(included), depth + 1));
    let effort = JsonView::object().with(
        "effort"@,
        JsonView::Text(client.reasoning_effort.spec_name()),
    );
    assert(is_plain(effort, depth + 1));
}

/// A status from 200 to 299 and no other lets the body of a reply be read. A body that is no
/// JSON is an error, and so is a response that is refused; an accepted one is handed on.
pub proof fn law_reply_is_read_on_success(status: u16, body: Seq<u8>)
    ensures
        ({
            let r = reply_turn(status, body);
            let read = document_in(body);
            &&& status < 200 || status >= 300 ==> r == Err::<TurnView, ModelError>(
                ModelError::Http(status),
            )
            &&& 200 <= status < 300 && read is None ==> r == Err::<TurnView, ModelError>(
                ModelError::NotJson,
            )
            &&& 200 <= status < 300 && read is Some ==> match turn_in(read->0) {
                Ok(turn) => r == Ok::<TurnView, ModelError>(turn),
                Err(error) => r == Err::<TurnView, ModelError>(ModelError::Response(error)),
            }
        }),
{
}

/// The status that is told is that of the reply: the words for two statuses differ. What is
/// wrong with a response is told in its own words.
pub proof fn law_statuses_are_told_apart(status: u16, other: u16, error: ResponseError)
    ensures
        ModelError::Http(status).text() == ModelError::Http(other).text() ==> status == other,
        ModelError::Response(error).text() == error.text(),
{
    if ModelError::Http(status).text() == ModelError::Http(other).text() {
        let before = "模型服务返回 HTTP "@;
        let n = before.len() as int;
        let ours = decimal_digits(status as nat);
        let theirs = decimal_digits(other as nat);
        assert(ours =~= (before + ours).skip(n));
        assert(theirs =~= (before + theirs).skip(n));
        law_decimal_digits_tell_numbers_apart(status as nat, other as nat);
    }
}

/// A request that timed out, one that was lost, a reply that is no JSON and a client that could
/// not be set up are told in different words.
pub proof fn law_lost_requests_are_told_apart()
    ensures
        ModelError::Timeout.text() != ModelError::Transport.text(),
        ModelError::Timeout.text() != ModelError::NotJson.text(),
        ModelError::Timeout.text() != ModelError::Client.text(),
        ModelError::Transport.text() != ModelError::NotJson.text(),
        ModelError::Transport.text() != ModelError::Client.text(),
        ModelError::NotJson.text() != ModelError::Client.text(),
{
    reveal_strlit("模型请求超时");
    reveal_strlit("模型请求网络或传输失败");
    reveal_strlit("模型响应不是有效 JSON");
    reveal_strlit("无法初始化模型 HTTP 客户端");
    assert("模型请求超时"@.len() == 6);
    assert("模型请求网络或传输失败"@.len() == 11);
    assert("模型响应不是有效 JSON"@.len() == 13);
    assert("无法初始化模型 HTTP 客户端"@.len() == 16);
}

} // verus!
