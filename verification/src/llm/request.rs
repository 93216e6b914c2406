//! The JSON bodies of chat-completion requests, in the OpenAI-compatible and
//! the Anthropic-compatible form.
use vstd::prelude::*;
use crate::json::{
    json_entries, json_views, lemma_json_entries, lemma_json_views, lemma_json_views_push,
    render_json, render_json_text, Json, JsonValue,
};
use crate::llm::minimax::{
    anthropic_message, anthropic_tools, chat_messages_to_anthropic, clone_json_vec, detect_provider_mode,
    map_openai_tools_to_anthropic, ChatMessage, ProviderMode, anthropic_like,
};
use crate::llm::minimax::{build_chat_completion_endpoint, chat_endpoint, MiniMaxError};
use crate::text::owned;

verus! {

/// A message in OpenAI form: role and content, and its content blocks when
/// it has some.
pub open spec fn openai_message(m: ChatMessage) -> Json {
    Json::Object(
        seq![("role"@, Json::Str(m.role@)), ("content"@, Json::Str(m.content@))] + match m.content_blocks {
            Some(bs) => seq![("content_blocks"@, Json::Array(json_views(bs@)))],
            None => Seq::empty(),
        },
    )
}

/// The OpenAI-compatible request: model, messages, whether to stream, and
/// the tools when the request offers some.
pub open spec fn openai_request(model: Seq<char>, msgs: Seq<ChatMessage>, stream: bool, tools: Option<Seq<Json>>) -> Json {
    Json::Object(
        seq![
            ("model"@, Json::Str(model)),
            ("messages"@, Json::Array(msgs.map_values(|m: ChatMessage| openai_message(m)))),
            ("stream"@, Json::Bool(stream)),
        ] + match tools {
            Some(ts) => seq![("tools"@, Json::Array(ts))],
            None => Seq::empty(),
        },
    )
}

/// The Anthropic-compatible request: model, the token limit, the messages
/// in Anthropic form, no streaming, and the tools that map to Anthropic
/// ones when there are any.
pub open spec fn anthropic_request(model: Seq<char>, msgs: Seq<ChatMessage>, tools: Option<Seq<Json>>) -> Json {
    let mapped = match tools {
        Some(ts) => anthropic_tools(ts),
        None => Seq::empty(),
    };
    Json::Object(
        seq![
            ("model"@, Json::Str(model)),
            ("max_tokens"@, Json::Number("4096"@)),
            ("messages"@, Json::Array(msgs.map_values(|m: ChatMessage| anthropic_message(m)))),
            ("stream"@, Json::Bool(false)),
        ] + if mapped.len() > 0 {
            seq![("tools"@, Json::Array(mapped))]
        } else {
            Seq::empty()
        },
    )
}

/// The request for a provider at `base_url`: the Anthropic form for an
/// Anthropic-compatible URL, else the OpenAI form.
pub open spec fn chat_request(
    base_url: Seq<char>,
    model: Seq<char>,
    msgs: Seq<ChatMessage>,
    stream: bool,
    tools: Option<Seq<Json>>,
) -> Json {
    if anthropic_like(base_url) {
        anthropic_request(model, msgs, tools)
    } else {
        openai_request(model, msgs, stream, tools)
    }
}

/// The message `m` in OpenAI form.
fn openai_message_value(m: &ChatMessage) -> (r: JsonValue)
    ensures
        r@ == openai_message(*m),
{
    let mut e: Vec<(String, JsonValue)> = Vec::new();
    e.push((owned("role"), JsonValue::Str(m.role.clone())));
    e.push((owned("content"), JsonValue::Str(m.content.clone())));
    let ghost base = seq![("role"@, Json::Str(m.role@)), ("content"@, Json::Str(m.content@))];
    match &m.content_blocks {
        Some(bs) => {
            e.push((owned("content_blocks"), JsonValue::Array(clone_json_vec(bs))));
            proof {
                lemma_json_entries(e@);
                assert(json_entries(e@) =~= base + seq![("content_blocks"@, Json::Array(json_views(bs@)))]);
            }
        },
        None => {
            proof {
                lemma_json_entries(e@);
                assert(json_entries(e@) =~= base + Seq::<(Seq<char>, Json)>::empty());
            }
        },
    }
    JsonValue::Object(e)
}

/// The messages `msgs` in OpenAI form.
fn openai_messages_value(msgs: &[ChatMessage]) -> (r: Vec<JsonValue>)
    ensures
        json_views(r@) == msgs@.map_values(|m: ChatMessage| openai_message(m)),
{
    let mut out: Vec<JsonValue> = Vec::new();
    let mut i: usize = 0;
    assert(json_views(out@) =~= msgs@.take(0).map_values(|m: ChatMessage| openai_message(m)));
    while i < msgs.len()
        invariant
            i <= msgs@.len(),
            json_views(out@) == msgs@.take(i as int).map_values(|m: ChatMessage| openai_message(m)),
        decreases msgs@.len() - i,
    {
        let v = openai_message_value(&msgs[i]);
        proof {
            lemma_json_views_push(out@, v);
            assert(msgs@.take(i + 1 as int).map_values(|m: ChatMessage| openai_message(m)) =~= msgs@.take(
                i as int,
            ).map_values(|m: ChatMessage| openai_message(m)).push(openai_message(msgs@[i as int])));
        }
        out.push(v);
        i = i + 1;
    }
    assert(msgs@.take(i as int) =~= msgs@);
    out
}

/// The request body for a provider at `base_url` (see `chat_request`);
/// `tools` are the OpenAI-style tool definitions offered, if any.
pub fn chat_request_body(
    base_url: &str,
    model: &str,
    messages: &[ChatMessage],
    stream: bool,
    tools: Option<&Vec<JsonValue>>,
) -> (r: JsonValue)
    ensures
        r@ == chat_request(
            base_url@,
            model@,
            messages@,
            stream,
            match tools {
                Some(ts) => Some(json_views(ts@)),
                None => None,
            },
        ),
{
    let mode = detect_provider_mode(base_url);
    let mut e: Vec<(String, JsonValue)> = Vec::new();
    e.push((owned("model"), JsonValue::from_str(model)));
    match mode {
        ProviderMode::OpenAiCompatible => {
            let ms = openai_messages_value(messages);
            e.push((owned("messages"), JsonValue::Array(ms)));
            e.push((owned("stream"), JsonValue::Bool(stream)));
            let ghost base = json_entries(e@);
            match tools {
                Some(ts) => {
                    e.push((owned("tools"), JsonValue::Array(clone_json_vec(ts))));
                },
                None => {},
            }
            proof {
                lemma_json_entries(e@);
                let want = openai_request(
                    model@,
                    messages@,
                    stream,
                    match tools {
                        Some(ts) => Some(json_views(ts@)),
                        None => None,
                    },
                );
                assert(json_entries(e@) =~= want->Object_0);
            }
            JsonValue::Object(e)
        },
        ProviderMode::AnthropicCompatible => {
            let ms = chat_messages_to_anthropic(messages);
            e.push((owned("max_tokens"), JsonValue::Number(owned("4096"))));
            e.push((owned("messages"), JsonValue::Array(ms)));
            e.push((owned("stream"), JsonValue::Bool(false)));
            let mapped = match tools {
                Some(ts) => map_openai_tools_to_anthropic(ts.as_slice()),
                None => {
                    let v: Vec<JsonValue> = Vec::new();
                    assert(json_views(v@) =~= Seq::<Json>::empty());
                    v
                },
            };
            let ghost mv = json_views(mapped@);
            proof {
                lemma_json_views(mapped@);
            }
            if mapped.len() > 0 {
                e.push((owned("tools"), JsonValue::Array(mapped)));
            }
            proof {
                reveal_strlit("4096");
                lemma_json_entries(e@);
                let want = anthropic_request(
                    model@,
                    messages@,
                    match tools {
                        Some(ts) => Some(json_views(ts@)),
                        None => None,
                    },
                );
                assert(json_entries(e@) =~= want->Object_0);
            }
            JsonValue::Object(e)
        },
    }
}

/// The text of a request body as sent and logged.
pub fn request_text(body: &JsonValue) -> (r: String)
    ensures
        r@ == render_json_text(body@),
{
    render_json(body)
}

/// The connection settings of a chat provider: its API key and base URL.
pub struct MiniMaxClient {
    pub api_key: String,
    pub base_url: String,
}

impl MiniMaxClient {
    /// A client for `base_url` with `api_key`.
    pub fn new(api_key: String, base_url: String) -> (r: MiniMaxClient)
        ensures
            r.api_key@ == api_key@,
            r.base_url@ == base_url@,
    {
        MiniMaxClient { api_key, base_url }
    }

    /// A client from the values of `MINIMAX_API_KEY` and `MINIMAX_BASE_URL`;
    /// a missing one is an error naming it (the key is checked first).
    pub fn from_env_values(api_key: Option<String>, base_url: Option<String>) -> (r: Result<MiniMaxClient, MiniMaxError>)
        ensures
            match (api_key, base_url) {
                (None, _) => r matches Err(MiniMaxError::MissingEnvVar(n)) && n@ == "MINIMAX_API_KEY"@,
                (Some(_), None) => r matches Err(MiniMaxError::MissingEnvVar(n)) && n@ == "MINIMAX_BASE_URL"@,
                (Some(k), Some(u)) => r matches Ok(c) && c.api_key@ == k@ && c.base_url@ == u@,
            },
    {
        let k = match api_key {
            Some(k) => k,
            None => return Err(MiniMaxError::MissingEnvVar(owned("MINIMAX_API_KEY"))),
        };
        let u = match base_url {
            Some(u) => u,
            None => return Err(MiniMaxError::MissingEnvVar(owned("MINIMAX_BASE_URL"))),
        };
        Ok(MiniMaxClient { api_key: k, base_url: u })
    }

    /// The wire format this client speaks.
    pub fn mode(&self) -> (r: ProviderMode)
        ensures
            r == (if anthropic_like(self.base_url@) {
                ProviderMode::AnthropicCompatible
            } else {
                ProviderMode::OpenAiCompatible
            }),
    {
        detect_provider_mode(self.base_url.as_str())
    }

    /// The URL that chat requests are posted to.
    pub fn endpoint(&self) -> (r: String)
        ensures
            r@ == chat_endpoint(
                self.base_url@,
                if anthropic_like(self.base_url@) {
                    ProviderMode::AnthropicCompatible
                } else {
                    ProviderMode::OpenAiCompatible
                },
            ),
    {
        let mode = self.mode();
        build_chat_completion_endpoint(self.base_url.as_str(), mode)
    }

    /// The body of a chat request to this client's provider.
    pub fn request_body(&self, model: &str, messages: &[ChatMessage], stream: bool, tools: Option<&Vec<JsonValue>>) -> (r: JsonValue)
        ensures
            r@ == chat_request(
                self.base_url@,
                model@,
                messages@,
                stream,
                match tools {
                    Some(ts) => Some(json_views(ts@)),
                    None => None,
                },
            ),
    {
        chat_request_body(self.base_url.as_str(), model, messages, stream, tools)
    }
}

/// A DeepSeek client: the same wire formats, configured from the DeepSeek
/// variables.
pub struct DeepSeekClient {
    pub inner: MiniMaxClient,
}

impl DeepSeekClient {
    /// A client from the values of `DEEPSEEK_API_KEY` and
    /// `DEEPSEEK_BASE_URL`; a missing one is an error naming it (the key is
    /// checked first).
    pub fn from_env_values(api_key: Option<String>, base_url: Option<String>) -> (r: Result<DeepSeekClient, MiniMaxError>)
        ensures
            match (api_key, base_url) {
                (None, _) => r matches Err(MiniMaxError::MissingEnvVar(n)) && n@ == "DEEPSEEK_API_KEY"@,
                (Some(_), None) => r matches Err(MiniMaxError::MissingEnvVar(n)) && n@ == "DEEPSEEK_BASE_URL"@,
                (Some(k), Some(u)) => r matches Ok(c) && c.inner.api_key@ == k@ && c.inner.base_url@ == u@,
            },
    {
        let k = match api_key {
            Some(k) => k,
            None => return Err(MiniMaxError::MissingEnvVar(owned("DEEPSEEK_API_KEY"))),
        };
        let u = match base_url {
            Some(u) => u,
            None => return Err(MiniMaxError::MissingEnvVar(owned("DEEPSEEK_BASE_URL"))),
        };
        Ok(DeepSeekClient { inner: MiniMaxClient::new(k, u) })
    }
}

} // verus!
