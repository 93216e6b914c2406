//! The chat-completion wire formats of OpenAI-compatible and
//! Anthropic-compatible providers: requests, responses, errors, retries and
//! the streamed (SSE) replies.
use vstd::prelude::*;
use vstd::arithmetic::power2::pow2;
use crate::json::{
    clone_json, json_entries, json_views, lemma_json_entries, lemma_json_views,
    lemma_json_views_push, render_json, render_json_text, Json, JsonValue,
};
use crate::text::{
    ascii_lower, ascii_lower_chars, chars_of, concat2, contains_chars, contains_seq, decimal,
    decimal_chars, is_blank, join_strings, join_with, owned, push_chars, push_str, string_of,
    take_chars_exec, trim,
};

verus! {

/// Path of the chat endpoint of an OpenAI-compatible provider.
pub const OPENAI_CHAT_COMPLETIONS_PATH: &'static str = "chat/completions";

/// Path of the messages endpoint of an Anthropic-compatible provider.
pub const ANTHROPIC_MESSAGES_PATH: &'static str = "v1/messages";

/// Value of the `anthropic-version` header.
pub const ANTHROPIC_VERSION_HEADER: &'static str = "2023-06-01";

/// `max_tokens` sent to Anthropic-compatible providers.
pub const ANTHROPIC_DEFAULT_MAX_TOKENS: u32 = 4096;

/// Timeout of one HTTP request to a provider, in seconds.
pub const DEFAULT_HTTP_TIMEOUT_SECONDS: u64 = 60;

/// How many times a failed request is sent again.
pub const MAX_HTTP_RETRIES: usize = 2;

/// Delay before the first retry, in milliseconds; it doubles on each retry.
pub const RETRY_BASE_DELAY_MS: u64 = 250;

/// Errors of the chat client. Outside errors are kept as their message.
#[derive(Debug, Clone)]
pub enum MiniMaxError {
    MissingEnvVar(String),
    Http(String),
    Json(String),
    InvalidUtf8(String),
    MissingResponseContent,
    MissingToolCallName,
    MissingToolCallArguments,
    UnexpectedStatus(u16, String),
    Callback(String),
}

/// The message shown for an error.
pub open spec fn error_message(e: MiniMaxError) -> Seq<char> {
    match e {
        MiniMaxError::MissingEnvVar(n) => "missing required environment variable: "@ + n@,
        MiniMaxError::Http(m) => "http request failed: "@ + m@,
        MiniMaxError::Json(m) => "failed to parse json payload: "@ + m@,
        MiniMaxError::InvalidUtf8(m) => "stream chunk contained invalid utf-8: "@ + m@,
        MiniMaxError::MissingResponseContent => "assistant response content was missing"@,
        MiniMaxError::MissingToolCallName => "tool call function name was missing"@,
        MiniMaxError::MissingToolCallArguments => "tool call function arguments were missing"@,
        MiniMaxError::UnexpectedStatus(s, b) => "unexpected http status "@ + decimal(s as nat) + ": "@
            + b@,
        MiniMaxError::Callback(m) => "stream callback failed: "@ + m@,
    }
}

impl MiniMaxError {
    /// The message shown for this error.
    pub fn message(&self) -> (r: String)
        ensures
            r@ == error_message(*self),
    {
        match self {
            MiniMaxError::MissingEnvVar(n) => concat2(
                "missing required environment variable: ",
                n.as_str(),
            ),
            MiniMaxError::Http(m) => concat2("http request failed: ", m.as_str()),
            MiniMaxError::Json(m) => concat2("failed to parse json payload: ", m.as_str()),
            MiniMaxError::InvalidUtf8(m) => concat2(
                "stream chunk contained invalid utf-8: ",
                m.as_str(),
            ),
            MiniMaxError::MissingResponseContent => owned("assistant response content was missing"),
            MiniMaxError::MissingToolCallName => owned("tool call function name was missing"),
            MiniMaxError::MissingToolCallArguments => owned(
                "tool call function arguments were missing",
            ),
            MiniMaxError::UnexpectedStatus(s, b) => {
                let mut out: Vec<char> = Vec::new();
                push_str(&mut out, "unexpected http status ");
                let d = decimal_chars(*s as u64);
                push_chars(&mut out, d.as_slice());
                push_str(&mut out, ": ");
                push_str(&mut out, b.as_str());
                string_of(out.as_slice())
            },
            MiniMaxError::Callback(m) => concat2("stream callback failed: ", m.as_str()),
        }
    }
}

/// One message of a conversation as sent to a provider.
#[derive(Debug)]
pub struct ChatMessage {
    pub role: String,
    pub content: String,
    /// Anthropic-style content blocks; when present they are sent in place of
    /// `content` to Anthropic-compatible providers.
    pub content_blocks: Option<Vec<JsonValue>>,
}

/// A tool call requested by the model.
#[derive(Debug, Clone, PartialEq, Eq)]
pub struct ToolCall {
    pub id: String,
    pub function_name: String,
    pub function_arguments: String,
}

/// What a completion asks for: a text reply or tool calls.
#[derive(Debug, Clone, PartialEq, Eq)]
pub enum ChatCompletionOutput {
    Content(String),
    ToolCalls(Vec<ToolCall>),
}

impl ChatCompletionOutput {
    /// The text of a text reply; `None` for tool calls.
    pub fn as_content(&self) -> (r: Option<&str>)
        ensures
            match self {
                ChatCompletionOutput::Content(s) => r is Some && r.unwrap()@ == s@,
                ChatCompletionOutput::ToolCalls(_) => r is None,
            },
    {
        match self {
            ChatCompletionOutput::Content(s) => Some(s.as_str()),
            ChatCompletionOutput::ToolCalls(_) => None,
        }
    }
}

/// A completion with the model's reasoning and the raw exchange.
#[derive(Debug)]
pub struct ChatCompletionResult {
    pub output: ChatCompletionOutput,
    pub thinking: Option<String>,
    /// Raw content blocks of an Anthropic response (text, tool_use).
    pub raw_content_blocks: Option<Vec<JsonValue>>,
    /// The request body as sent.
    pub raw_request: Option<String>,
    /// The response body as received.
    pub raw_response: Option<String>,
}

/// The two wire formats a provider may speak.
#[derive(Debug, Clone, Copy, PartialEq, Eq)]
pub enum ProviderMode {
    OpenAiCompatible,
    AnthropicCompatible,
}

/// Whether a base URL points at an Anthropic-compatible API: its ASCII
/// lower-case form contains `/anthropic`.
pub open spec fn anthropic_like(base_url: Seq<char>) -> bool {
    contains_seq(ascii_lower(base_url), "/anthropic"@)
}

/// Whether `base_url` points at an Anthropic-compatible API.
pub fn is_anthropic_like_base_url(base_url: &str) -> (r: bool)
    ensures
        r == anthropic_like(base_url@),
{
    let v = chars_of(base_url);
    let lower = ascii_lower_chars(v.as_slice());
    let needle = chars_of("/anthropic");
    contains_chars(lower.as_slice(), needle.as_slice())
}

/// The wire format used for `base_url`.
pub fn detect_provider_mode(base_url: &str) -> (r: ProviderMode)
    ensures
        r == (if anthropic_like(base_url@) {
            ProviderMode::AnthropicCompatible
        } else {
            ProviderMode::OpenAiCompatible
        }),
{
    if is_anthropic_like_base_url(base_url) {
        ProviderMode::AnthropicCompatible
    } else {
        ProviderMode::OpenAiCompatible
    }
}

/// `s` without its trailing `c` characters (`str::trim_end_matches(c)`).
pub open spec fn trim_end_char(s: Seq<char>, c: char) -> Seq<char>
    decreases s.len(),
{
    if s.len() > 0 && s.last() == c {
        trim_end_char(s.drop_last(), c)
    } else {
        s
    }
}

/// The path of the chat endpoint for a mode.
pub open spec fn endpoint_path(mode: ProviderMode) -> Seq<char> {
    match mode {
        ProviderMode::OpenAiCompatible => "chat/completions"@,
        ProviderMode::AnthropicCompatible => "v1/messages"@,
    }
}

/// The chat endpoint: the base URL without trailing slashes, a slash, and the
/// mode's path.
pub open spec fn chat_endpoint(base_url: Seq<char>, mode: ProviderMode) -> Seq<char> {
    trim_end_char(base_url, '/') + "/"@ + endpoint_path(mode)
}

/// The chat endpoint URL for `base_url` in `mode`.
pub fn build_chat_completion_endpoint(base_url: &str, mode: ProviderMode) -> (r: String)
    ensures
        r@ == chat_endpoint(base_url@, mode),
{
    proof {
        reveal_strlit("chat/completions");
        reveal_strlit("v1/messages");
    }
    let v = chars_of(base_url);
    let mut n = v.len();
    assert(v@.take(n as int) =~= v@);
    while n > 0 && v[n - 1] == '/'
        invariant
            n <= v@.len(),
            trim_end_char(v@, '/') == trim_end_char(v@.take(n as int), '/'),
        decreases n,
    {
        assert(v@.take(n as int).drop_last() =~= v@.take(n - 1 as int));
        n = n - 1;
    }
    assert(v@.take(v@.len() as int) =~= v@);
    let mut out = take_chars_exec(v.as_slice(), n);
    assert(out@ == v@.take(n as int));
    push_str(&mut out, "/");
    match mode {
        ProviderMode::OpenAiCompatible => push_str(&mut out, OPENAI_CHAT_COMPLETIONS_PATH),
        ProviderMode::AnthropicCompatible => push_str(&mut out, ANTHROPIC_MESSAGES_PATH),
    }
    string_of(out.as_slice())
}

/// Whether a response status is worth retrying: 429 or any 5xx.
pub open spec fn retryable_status(status: u16) -> bool {
    status == 429 || (500 <= status <= 599)
}

/// Whether a response status is worth retrying.
pub fn is_retryable_status(status: u16) -> (r: bool)
    ensures
        r == retryable_status(status),
{
    status == 429 || (500 <= status && status <= 599)
}

/// The delay before retry number `attempt` (from zero): the base delay doubled
/// `attempt` times, saturating at `u64::MAX` milliseconds.
pub open spec fn retry_delay_ms(attempt: nat) -> nat {
    let d = 250 * pow2(attempt);
    if d <= u64::MAX {
        d
    } else {
        u64::MAX as nat
    }
}

/// The delay in milliseconds before retry number `attempt`.
pub fn retry_delay_for_attempt(attempt: usize) -> (r: u64)
    requires
        attempt < 64,
    ensures
        r == retry_delay_ms(attempt as nat),
{
    let mut mult: u64 = 1;
    let mut i: usize = 0;
    proof {
        vstd::arithmetic::power2::lemma2_to64();
    }
    while i < attempt
        invariant
            i <= attempt < 64,
            mult == pow2(i as nat),
        decreases attempt - i,
    {
        proof {
            vstd::arithmetic::power2::lemma_pow2_unfold((i + 1) as nat);
            vstd::arithmetic::power2::lemma_pow2_strictly_increases(i as nat, 63);
            vstd::arithmetic::power2::lemma2_to64_rest();
        }
        mult = mult * 2;
        i = i + 1;
    }
    match RETRY_BASE_DELAY_MS.checked_mul(mult) {
        Some(d) => d,
        None => u64::MAX,
    }
}

/// What to do after one attempt to send a request.
#[derive(Debug, Clone, Copy, PartialEq, Eq)]
pub enum RetryAction {
    /// Hand the response to the caller.
    Return,
    /// Wait this many milliseconds, then send again.
    RetryAfter(u64),
    /// Give up with the transport error.
    Fail,
}

/// The outcome of one attempt.
#[derive(Debug, Clone, Copy, PartialEq, Eq)]
pub enum AttemptOutcome {
    /// A response arrived with this status.
    Response(u16),
    /// The request failed; `retryable` is whether it timed out, failed to
    /// connect, or failed while being sent.
    Failed { retryable: bool },
}

/// The retry policy: a response is retried while its status is retryable and
/// retries remain, a transport error while it is retryable and retries remain.
pub open spec fn retry_action(attempt: nat, outcome: AttemptOutcome) -> RetryAction {
    match outcome {
        AttemptOutcome::Response(s) => if retryable_status(s) && attempt < 2 {
            RetryAction::RetryAfter(retry_delay_ms(attempt) as u64)
        } else {
            RetryAction::Return
        },
        AttemptOutcome::Failed { retryable } => if !retryable || attempt >= 2 {
            RetryAction::Fail
        } else {
            RetryAction::RetryAfter(retry_delay_ms(attempt) as u64)
        },
    }
}

/// What to do after attempt number `attempt` (from zero) ended with `outcome`.
pub fn decide_retry(attempt: usize, outcome: AttemptOutcome) -> (r: RetryAction)
    requires
        attempt <= MAX_HTTP_RETRIES,
    ensures
        r == retry_action(attempt as nat, outcome),
        r is RetryAfter ==> attempt < MAX_HTTP_RETRIES,
{
    match outcome {
        AttemptOutcome::Response(s) => {
            if is_retryable_status(s) && attempt < MAX_HTTP_RETRIES {
                RetryAction::RetryAfter(retry_delay_for_attempt(attempt))
            } else {
                RetryAction::Return
            }
        },
        AttemptOutcome::Failed { retryable } => {
            if !retryable || attempt >= MAX_HTTP_RETRIES {
                RetryAction::Fail
            } else {
                RetryAction::RetryAfter(retry_delay_for_attempt(attempt))
            }
        },
    }
}

/// A copy of an optional string.
pub fn clone_opt_string(o: &Option<String>) -> (r: Option<String>)
    ensures
        opt_view(r) == opt_view(*o),
{
    match o {
        Some(s) => Some(s.clone()),
        None => None,
    }
}

/// The view of an optional string.
pub open spec fn opt_view(o: Option<String>) -> Option<Seq<char>> {
    match o {
        Some(s) => Some(s@),
        None => None,
    }
}

/// The text of an optional string, empty when absent.
pub open spec fn or_empty(o: Option<String>) -> Seq<char> {
    match o {
        Some(s) => s@,
        None => Seq::empty(),
    }
}

/// The optional string when it is present and not empty.
pub open spec fn non_empty(o: Option<String>) -> Option<Seq<char>> {
    match o {
        Some(s) => if s@.len() > 0 {
            Some(s@)
        } else {
            None
        },
        None => None,
    }
}

/// One content block of an Anthropic response.
#[derive(Debug)]
pub struct AnthropicContentBlock {
    /// The block's `type`: `text`, `thinking`, `tool_use`, or another kind.
    pub block_type: String,
    pub text: Option<String>,
    pub thinking: Option<String>,
    pub id: Option<String>,
    pub name: Option<String>,
    pub input: Option<JsonValue>,
}

/// The model of an optional JSON value.
pub open spec fn opt_json(o: Option<JsonValue>) -> Option<Json> {
    match o {
        Some(v) => Some(v@),
        None => None,
    }
}

/// A string or JSON null.
pub open spec fn str_or_null(o: Option<String>) -> Json {
    match o {
        Some(s) => Json::Str(s@),
        None => Json::Null,
    }
}

/// A block as the JSON object it serializes to.
pub open spec fn block_json(b: AnthropicContentBlock) -> Json {
    Json::Object(
        seq![
            ("type"@, Json::Str(b.block_type@)),
            ("text"@, str_or_null(b.text)),
            ("thinking"@, str_or_null(b.thinking)),
            ("id"@, str_or_null(b.id)),
            ("name"@, str_or_null(b.name)),
            ("input"@, match b.input {
                Some(v) => v@,
                None => Json::Null,
            }),
        ],
    )
}

/// A tool call's id, function name and arguments.
pub open spec fn call_view(c: ToolCall) -> (Seq<char>, Seq<char>, Seq<char>) {
    (c.id@, c.function_name@, c.function_arguments@)
}

/// The id, function name and arguments of each tool call of `cs`.
pub open spec fn calls_view(cs: Seq<ToolCall>) -> Seq<(Seq<char>, Seq<char>, Seq<char>)> {
    cs.map_values(|c: ToolCall| call_view(c))
}

/// What the blocks of an Anthropic response say: text pieces, thinking
/// pieces and tool calls, in order.
pub struct AnthropicParts {
    pub texts: Seq<Seq<char>>,
    pub thinking: Seq<Seq<char>>,
    pub calls: Seq<(Seq<char>, Seq<char>, Seq<char>)>,
}

/// The parts of the blocks `bs`: non-empty texts and thinking, and a tool
/// call for each `tool_use` block (its input written as JSON text); a
/// `tool_use` block without a name or without input is an error, the first
/// one found deciding which.
pub open spec fn anthropic_parts(bs: Seq<AnthropicContentBlock>) -> Result<AnthropicParts, MiniMaxError>
    decreases bs.len(),
{
    if bs.len() == 0 {
        Ok(AnthropicParts { texts: Seq::empty(), thinking: Seq::empty(), calls: Seq::empty() })
    } else {
        match anthropic_parts(bs.drop_last()) {
            Err(e) => Err(e),
            Ok(p) => {
                let b = bs.last();
                if b.block_type@ == "text"@ {
                    match non_empty(b.text) {
                        Some(t) => Ok(AnthropicParts { texts: p.texts.push(t), ..p }),
                        None => Ok(p),
                    }
                } else if b.block_type@ == "thinking"@ {
                    match non_empty(b.thinking) {
                        Some(t) => Ok(AnthropicParts { thinking: p.thinking.push(t), ..p }),
                        None => Ok(p),
                    }
                } else if b.block_type@ == "tool_use"@ {
                    match (b.name, b.input) {
                        (None, _) => Err(MiniMaxError::MissingToolCallName),
                        (Some(_), None) => Err(MiniMaxError::MissingToolCallArguments),
                        (Some(n), Some(inp)) => Ok(
                            AnthropicParts {
                                calls: p.calls.push((or_empty(b.id), n@, render_json_text(inp@))),
                                ..p
                            },
                        ),
                    }
                } else {
                    Ok(p)
                }
            },
        }
    }
}

/// The thinking pieces joined by blank lines, if there are any.
pub open spec fn joined_thinking(ts: Seq<Seq<char>>) -> Option<Seq<char>> {
    if ts.len() == 0 {
        None
    } else {
        Some(join_with(ts, "\n\n"@))
    }
}

/// Whether `r` is the completion that the Anthropic blocks `bs` describe:
/// tool calls if there are any, else the texts joined (an error when that is
/// empty); thinking joined by blank lines; the blocks kept as raw JSON.
pub open spec fn anthropic_result(bs: Seq<AnthropicContentBlock>, r: Result<ChatCompletionResult, MiniMaxError>) -> bool {
    match anthropic_parts(bs) {
        Err(e) => r == Err::<ChatCompletionResult, MiniMaxError>(e),
        Ok(p) => if p.calls.len() > 0 {
            r matches Ok(res) && res.output matches ChatCompletionOutput::ToolCalls(cs) && calls_view(
                cs@,
            ) == p.calls && opt_view(res.thinking) == joined_thinking(p.thinking) && raw_blocks_ok(
                bs,
                res.raw_content_blocks,
            ) && res.raw_request is None && res.raw_response is None
        } else if join_with(p.texts, Seq::empty()).len() == 0 {
            r == Err::<ChatCompletionResult, MiniMaxError>(MiniMaxError::MissingResponseContent)
        } else {
            r matches Ok(res) && res.output matches ChatCompletionOutput::Content(c) && c@
                == join_with(p.texts, Seq::empty()) && opt_view(res.thinking) == joined_thinking(
                p.thinking,
            ) && raw_blocks_ok(bs, res.raw_content_blocks) && res.raw_request is None
                && res.raw_response is None
        },
    }
}

/// The raw blocks are the blocks as JSON, or absent when there are none.
pub open spec fn raw_blocks_ok(bs: Seq<AnthropicContentBlock>, raw: Option<Vec<JsonValue>>) -> bool {
    if bs.len() == 0 {
        raw is None
    } else {
        raw matches Some(v) && json_views(v@) == bs.map_values(|b: AnthropicContentBlock| block_json(b))
    }
}

fn opt_str_json(o: &Option<String>) -> (r: JsonValue)
    ensures
        r@ == str_or_null(*o),
{
    match o {
        Some(s) => JsonValue::Str(s.clone()),
        None => JsonValue::Null,
    }
}

fn block_to_json(b: &AnthropicContentBlock) -> (r: JsonValue)
    ensures
        r@ == block_json(*b),
{
    let mut e: Vec<(String, JsonValue)> = Vec::new();
    e.push((owned("type"), JsonValue::Str(b.block_type.clone())));
    e.push((owned("text"), opt_str_json(&b.text)));
    e.push((owned("thinking"), opt_str_json(&b.thinking)));
    e.push((owned("id"), opt_str_json(&b.id)));
    e.push((owned("name"), opt_str_json(&b.name)));
    let input = match &b.input {
        Some(v) => clone_json(v),
        None => JsonValue::Null,
    };
    e.push((owned("input"), input));
    proof {
        lemma_json_entries(e@);
        assert(json_entries(e@) =~= seq![
            ("type"@, Json::Str(b.block_type@)),
            ("text"@, str_or_null(b.text)),
            ("thinking"@, str_or_null(b.thinking)),
            ("id"@, str_or_null(b.id)),
            ("name"@, str_or_null(b.name)),
            ("input"@, match b.input {
                Some(v) => v@,
                None => Json::Null,
            }),
        ]);
    }
    JsonValue::Object(e)
}

proof fn lemma_parts_err_stays(bs: Seq<AnthropicContentBlock>, i: int)
    requires
        0 <= i <= bs.len(),
        anthropic_parts(bs.take(i)) is Err,
    ensures
        anthropic_parts(bs) == anthropic_parts(bs.take(i)),
    decreases bs.len() - i,
{
    if i < bs.len() {
        assert(bs.take(i + 1).drop_last() =~= bs.take(i));
        lemma_parts_err_stays(bs, i + 1);
    } else {
        assert(bs.take(i) =~= bs);
    }
}

/// Turns the content blocks of an Anthropic response into a completion.
pub fn parse_anthropic_output(content: Vec<AnthropicContentBlock>) -> (r: Result<ChatCompletionResult, MiniMaxError>)
    ensures
        anthropic_result(content@, r),
{
    proof {
        reveal_strlit("text");
        reveal_strlit("thinking");
        reveal_strlit("tool_use");
        reveal_strlit("\n\n");
        reveal_strlit("");
    }
    let ghost bs = content@;
    let mut raw: Vec<JsonValue> = Vec::new();
    let mut texts: Vec<String> = Vec::new();
    let mut thinks: Vec<String> = Vec::new();
    let mut calls: Vec<ToolCall> = Vec::new();
    let mut i: usize = 0;
    assert(bs.take(0) =~= Seq::<AnthropicContentBlock>::empty());
    assert(json_views(raw@) =~= Seq::<Json>::empty());
    assert(texts@.map_values(|p: String| p@) =~= Seq::<Seq<char>>::empty());
    assert(thinks@.map_values(|p: String| p@) =~= Seq::<Seq<char>>::empty());
    assert(calls_view(calls@) =~= Seq::<(Seq<char>, Seq<char>, Seq<char>)>::empty());
    while i < content.len()
        invariant
            i <= bs.len(),
            bs == content@,
            json_views(raw@) == bs.take(i as int).map_values(|b: AnthropicContentBlock| block_json(b)),
            anthropic_parts(bs.take(i as int)) == Ok::<AnthropicParts, MiniMaxError>(
                AnthropicParts {
                    texts: texts@.map_values(|p: String| p@),
                    thinking: thinks@.map_values(|p: String| p@),
                    calls: calls_view(calls@),
                },
            ),
        decreases bs.len() - i,
    {
        let b = &content[i];
        let ghost pre = bs.take(i as int);
        assert(bs.take(i + 1 as int).drop_last() =~= pre);
        assert(bs.take(i + 1 as int).last() == *b);
        let bj = block_to_json(b);
        proof {
            lemma_json_views_push(raw@, bj);
            assert(bs.take(i + 1 as int).map_values(|b: AnthropicContentBlock| block_json(b))
                =~= pre.map_values(|b: AnthropicContentBlock| block_json(b)).push(block_json(*b)));
        }
        raw.push(bj);
        if crate::text::str_eq(b.block_type.as_str(), "text") {
            match &b.text {
                Some(t) => {
                    if !t.as_str().is_empty() {
                        let ghost tv = texts@.map_values(|p: String| p@);
                        texts.push(t.clone());
                        assert(texts@.map_values(|p: String| p@) =~= tv.push(t@));
                    }
                },
                None => {},
            }
        } else if crate::text::str_eq(b.block_type.as_str(), "thinking") {
            match &b.thinking {
                Some(t) => {
                    if !t.as_str().is_empty() {
                        let ghost tv = thinks@.map_values(|p: String| p@);
                        thinks.push(t.clone());
                        assert(thinks@.map_values(|p: String| p@) =~= tv.push(t@));
                    }
                },
                None => {},
            }
        } else if crate::text::str_eq(b.block_type.as_str(), "tool_use") {
            let name = match &b.name {
                Some(n) => n.clone(),
                None => {
                    proof {
                        lemma_parts_err_stays(bs, i + 1);
                    }
                    return Err(MiniMaxError::MissingToolCallName);
                },
            };
            let args = match &b.input {
                Some(v) => render_json(v),
                None => {
                    proof {
                        lemma_parts_err_stays(bs, i + 1);
                    }
                    return Err(MiniMaxError::MissingToolCallArguments);
                },
            };
            let id = match &b.id {
                Some(x) => x.clone(),
                None => String::new(),
            };
            let ghost cv = calls_view(calls@);
            calls.push(ToolCall { id, function_name: name, function_arguments: args });
            assert(calls_view(calls@) =~= cv.push((or_empty(b.id), b.name.unwrap()@, render_json_text(b.input.unwrap()@))));
        }
        i = i + 1;
    }
    assert(bs.take(i as int) =~= bs);
    let thinking = if thinks.len() == 0 {
        None
    } else {
        Some(join_strings(&thinks, "\n\n"))
    };
    let raw_content_blocks = if raw.len() == 0 {
        None
    } else {
        Some(raw)
    };
    proof {
        lemma_json_views(raw@);
    }
    if calls.len() > 0 {
        return Ok(
            ChatCompletionResult {
                output: ChatCompletionOutput::ToolCalls(calls),
                thinking,
                raw_content_blocks,
                raw_request: None,
                raw_response: None,
            },
        );
    }
    let text = join_strings(&texts, "");
    assert(""@ =~= Seq::<char>::empty());
    if text.as_str().is_empty() {
        return Err(MiniMaxError::MissingResponseContent);
    }
    Ok(
        ChatCompletionResult {
            output: ChatCompletionOutput::Content(text),
            thinking,
            raw_content_blocks,
            raw_request: None,
            raw_response: None,
        },
    )
}

/// An OpenAI-compatible chat response.
#[derive(Debug)]
pub struct OpenAiChatResponse {
    pub choices: Vec<OpenAiChoice>,
}

/// One choice of an OpenAI-compatible response.
#[derive(Debug)]
pub struct OpenAiChoice {
    pub message: Option<OpenAiMessage>,
}

/// The message of a choice.
#[derive(Debug)]
pub struct OpenAiMessage {
    pub content: Option<String>,
    pub tool_calls: Option<Vec<OpenAiToolCall>>,
    pub reasoning_content: Option<String>,
}

/// A tool call in an OpenAI-compatible message.
#[derive(Debug)]
pub struct OpenAiToolCall {
    pub id: Option<String>,
    pub function: OpenAiToolCallFunction,
}

/// The function part of an OpenAI-compatible tool call.
#[derive(Debug)]
pub struct OpenAiToolCallFunction {
    pub name: Option<String>,
    pub arguments: Option<String>,
}

/// The message of the first choice, if it has one.
pub open spec fn first_message(p: OpenAiChatResponse) -> Option<OpenAiMessage> {
    if p.choices@.len() == 0 {
        None
    } else {
        p.choices@[0].message
    }
}

/// The tool calls of an OpenAI-compatible message: each needs a name and
/// arguments (the first call lacking one decides the error); a missing id
/// counts as empty.
pub open spec fn openai_calls(cs: Seq<OpenAiToolCall>) -> Result<Seq<(Seq<char>, Seq<char>, Seq<char>)>, MiniMaxError>
    decreases cs.len(),
{
    if cs.len() == 0 {
        Ok(Seq::empty())
    } else {
        match openai_calls(cs.drop_last()) {
            Err(e) => Err(e),
            Ok(p) => {
                let c = cs.last();
                match (c.function.name, c.function.arguments) {
                    (None, _) => Err(MiniMaxError::MissingToolCallName),
                    (Some(_), None) => Err(MiniMaxError::MissingToolCallArguments),
                    (Some(n), Some(a)) => Ok(p.push((or_empty(c.id), n@, a@))),
                }
            },
        }
    }
}

/// Whether `r` is the completion that an OpenAI-compatible response
/// describes: the first choice's message is needed; non-empty tool calls win
/// over the text; an empty or missing text is an error; non-empty reasoning
/// is kept as thinking; the raw request and response are kept.
pub open spec fn openai_result(
    p: OpenAiChatResponse,
    raw_request: Seq<char>,
    raw_response: Seq<char>,
    r: Result<ChatCompletionResult, MiniMaxError>,
) -> bool {
    match first_message(p) {
        None => r == Err::<ChatCompletionResult, MiniMaxError>(MiniMaxError::MissingResponseContent),
        Some(m) => {
            let calls_given = m.tool_calls matches Some(v) && v@.len() > 0;
            if calls_given {
                match openai_calls(m.tool_calls.unwrap()@) {
                    Err(e) => r == Err::<ChatCompletionResult, MiniMaxError>(e),
                    Ok(cs) => r matches Ok(res) && res.output matches ChatCompletionOutput::ToolCalls(
                        v,
                    ) && calls_view(v@) == cs && result_extras(res, m, raw_request, raw_response),
                }
            } else {
                match non_empty(m.content) {
                    None => r == Err::<ChatCompletionResult, MiniMaxError>(
                        MiniMaxError::MissingResponseContent,
                    ),
                    Some(c) => r matches Ok(res) && res.output matches ChatCompletionOutput::Content(
                        t,
                    ) && t@ == c && result_extras(res, m, raw_request, raw_response),
                }
            }
        },
    }
}

/// The thinking and raw fields of an OpenAI-compatible completion.
pub open spec fn result_extras(
    res: ChatCompletionResult,
    m: OpenAiMessage,
    raw_request: Seq<char>,
    raw_response: Seq<char>,
) -> bool {
    &&& opt_view(res.thinking) == non_empty(m.reasoning_content)
    &&& res.raw_content_blocks is None
    &&& opt_view(res.raw_request) == Some(raw_request)
    &&& opt_view(res.raw_response) == Some(raw_response)
}

proof fn lemma_openai_calls_err_stays(cs: Seq<OpenAiToolCall>, i: int)
    requires
        0 <= i <= cs.len(),
        openai_calls(cs.take(i)) is Err,
    ensures
        openai_calls(cs) == openai_calls(cs.take(i)),
    decreases cs.len() - i,
{
    if i < cs.len() {
        assert(cs.take(i + 1).drop_last() =~= cs.take(i));
        lemma_openai_calls_err_stays(cs, i + 1);
    } else {
        assert(cs.take(i) =~= cs);
    }
}

fn non_empty_clone(o: &Option<String>) -> (r: Option<String>)
    ensures
        opt_view(r) == non_empty(*o),
{
    match o {
        Some(s) => if s.as_str().is_empty() {
            None
        } else {
            Some(s.clone())
        },
        None => None,
    }
}

/// Turns an OpenAI-compatible response into a completion, keeping the raw
/// request and response bodies.
pub fn openai_completion_result(payload: &OpenAiChatResponse, raw_request: String, raw_response: String) -> (r: Result<ChatCompletionResult, MiniMaxError>)
    ensures
        openai_result(*payload, raw_request@, raw_response@, r),
{
    if payload.choices.len() == 0 {
        return Err(MiniMaxError::MissingResponseContent);
    }
    let message = match &payload.choices[0].message {
        Some(m) => m,
        None => return Err(MiniMaxError::MissingResponseContent),
    };
    let thinking = non_empty_clone(&message.reasoning_content);
    match &message.tool_calls {
        Some(tcs) => {
            if tcs.len() > 0 {
                let ghost cs = tcs@;
                let mut calls: Vec<ToolCall> = Vec::new();
                let mut i: usize = 0;
                assert(cs.take(0) =~= Seq::<OpenAiToolCall>::empty());
                assert(calls_view(calls@) =~= Seq::<(Seq<char>, Seq<char>, Seq<char>)>::empty());
                while i < tcs.len()
                    invariant
                        i <= cs.len(),
                        cs == tcs@,
                        cs.len() > 0,
                        first_message(*payload) == Some(*message),
                        message.tool_calls == Some(*tcs),
                        openai_calls(cs.take(i as int)) == Ok::<
                            Seq<(Seq<char>, Seq<char>, Seq<char>)>,
                            MiniMaxError,
                        >(calls_view(calls@)),
                    decreases cs.len() - i,
                {
                    let c = &tcs[i];
                    assert(cs.take(i + 1 as int).drop_last() =~= cs.take(i as int));
                    assert(cs.take(i + 1 as int).last() == *c);
                    let name = match &c.function.name {
                        Some(n) => n.clone(),
                        None => {
                            proof {
                                lemma_openai_calls_err_stays(cs, i + 1);
                            }
                            return Err(MiniMaxError::MissingToolCallName);
                        },
                    };
                    let args = match &c.function.arguments {
                        Some(a) => a.clone(),
                        None => {
                            proof {
                                lemma_openai_calls_err_stays(cs, i + 1);
                            }
                            return Err(MiniMaxError::MissingToolCallArguments);
                        },
                    };
                    let id = match &c.id {
                        Some(x) => x.clone(),
                        None => String::new(),
                    };
                    let ghost before = calls_view(calls@);
                    calls.push(ToolCall { id, function_name: name, function_arguments: args });
                    assert(calls_view(calls@) =~= before.push(
                        (or_empty(c.id), c.function.name.unwrap()@, c.function.arguments.unwrap()@),
                    ));
                    i = i + 1;
                }
                assert(cs.take(i as int) =~= cs);
                return Ok(
                    ChatCompletionResult {
                        output: ChatCompletionOutput::ToolCalls(calls),
                        thinking,
                        raw_content_blocks: None,
                        raw_request: Some(raw_request),
                        raw_response: Some(raw_response),
                    },
                );
            }
        },
        None => {},
    }
    match non_empty_clone(&message.content) {
        Some(c) => Ok(
            ChatCompletionResult {
                output: ChatCompletionOutput::Content(c),
                thinking,
                raw_content_blocks: None,
                raw_request: Some(raw_request),
                raw_response: Some(raw_response),
            },
        ),
        None => Err(MiniMaxError::MissingResponseContent),
    }
}

/// The text of the first choice of a plain (tool-less) OpenAI-compatible
/// response; a missing message or an empty or missing text is an error.
pub fn openai_text_content(payload: &OpenAiChatResponse) -> (r: Result<String, MiniMaxError>)
    ensures
        match first_message(*payload) {
            None => r == Err::<String, MiniMaxError>(MiniMaxError::MissingResponseContent),
            Some(m) => match non_empty(m.content) {
                None => r == Err::<String, MiniMaxError>(MiniMaxError::MissingResponseContent),
                Some(c) => r matches Ok(t) && t@ == c,
            },
        },
{
    if payload.choices.len() == 0 {
        return Err(MiniMaxError::MissingResponseContent);
    }
    match &payload.choices[0].message {
        Some(m) => match non_empty_clone(&m.content) {
            Some(c) => Ok(c),
            None => Err(MiniMaxError::MissingResponseContent),
        },
        None => Err(MiniMaxError::MissingResponseContent),
    }
}

/// The text of an Anthropic response without tool use: its text, or an error
/// when it asks for tools instead.
pub fn anthropic_text_content(content: Vec<AnthropicContentBlock>) -> (r: Result<String, MiniMaxError>)
    ensures
        match anthropic_parts(content@) {
            Err(e) => r == Err::<String, MiniMaxError>(e),
            Ok(p) => if p.calls.len() > 0 || join_with(p.texts, Seq::empty()).len() == 0 {
                r == Err::<String, MiniMaxError>(MiniMaxError::MissingResponseContent)
            } else {
                r matches Ok(t) && t@ == join_with(p.texts, Seq::empty())
            },
        },
{
    match parse_anthropic_output(content) {
        Ok(res) => match res.output {
            ChatCompletionOutput::Content(c) => Ok(c),
            ChatCompletionOutput::ToolCalls(_) => Err(MiniMaxError::MissingResponseContent),
        },
        Err(e) => Err(e),
    }
}

/// The Anthropic tool definition for an OpenAI-style one: it needs an object
/// `function` with a name that is not blank and an object `parameters`; a
/// description that is a non-blank string is kept.
pub open spec fn anthropic_tool(tool: Json) -> Option<Json> {
    match tool.get("function"@) {
        Some(Json::Object(f)) => {
            let fj = Json::Object(f);
            match (fj.get_str("name"@), fj.get("parameters"@)) {
                (Some(name), Some(Json::Object(schema))) => if trim(name).len() == 0 {
                    None
                } else {
                    let desc = match fj.get_str("description"@) {
                        Some(d) => if trim(d).len() == 0 {
                            Seq::empty()
                        } else {
                            seq![("description"@, Json::Str(d))]
                        },
                        None => Seq::empty(),
                    };
                    Some(
                        Json::Object(
                            seq![("name"@, Json::Str(name))] + desc + seq![
                                ("input_schema"@, Json::Object(schema)),
                            ],
                        ),
                    )
                },
                _ => None,
            }
        },
        _ => None,
    }
}

/// The Anthropic definitions of the tools `ts` that can be mapped, in order.
pub open spec fn anthropic_tools(ts: Seq<Json>) -> Seq<Json>
    decreases ts.len(),
{
    if ts.len() == 0 {
        Seq::empty()
    } else {
        match anthropic_tool(ts.last()) {
            Some(t) => anthropic_tools(ts.drop_last()).push(t),
            None => anthropic_tools(ts.drop_last()),
        }
    }
}

fn map_one_tool(tool: &JsonValue) -> (r: Option<JsonValue>)
    ensures
        match r {
            Some(v) => anthropic_tool(tool@) == Some(v@),
            None => anthropic_tool(tool@) is None,
        },
{
    proof {
        reveal_strlit("function");
        reveal_strlit("name");
        reveal_strlit("parameters");
        reveal_strlit("description");
        reveal_strlit("input_schema");
    }
    let function = match tool.get("function") {
        Some(f) => f,
        None => return None,
    };
    if !function.is_object() {
        return None;
    }
    let name = match function.get_str("name") {
        Some(n) => n,
        None => return None,
    };
    let schema = match function.get("parameters") {
        Some(s) => s,
        None => return None,
    };
    if !schema.is_object() {
        return None;
    }
    if is_blank(name) {
        return None;
    }
    let mut e: Vec<(String, JsonValue)> = Vec::new();
    e.push((owned("name"), JsonValue::from_str(name)));
    let ghost mut desc: Seq<(Seq<char>, Json)> = Seq::empty();
    match function.get_str("description") {
        Some(d) => {
            if !is_blank(d) {
                e.push((owned("description"), JsonValue::from_str(d)));
                proof {
                    desc = seq![("description"@, Json::Str(d@))];
                }
            }
        },
        None => {},
    }
    e.push((owned("input_schema"), clone_json(schema)));
    proof {
        lemma_json_entries(e@);
        assert(json_entries(e@) =~= seq![("name"@, Json::Str(name@))] + desc + seq![
            ("input_schema"@, schema@),
        ]);
    }
    Some(JsonValue::Object(e))
}

/// Maps OpenAI-style tool definitions to Anthropic ones, skipping entries
/// that lack a usable function name or parameters object.
pub fn map_openai_tools_to_anthropic(tools: &[JsonValue]) -> (r: Vec<JsonValue>)
    ensures
        json_views(r@) == anthropic_tools(json_views(tools@)),
{
    let ghost tv = json_views(tools@);
    proof {
        lemma_json_views(tools@);
    }
    let mut out: Vec<JsonValue> = Vec::new();
    let mut i: usize = 0;
    assert(tv.take(0) =~= Seq::<Json>::empty());
    assert(json_views(out@) =~= Seq::<Json>::empty());
    while i < tools.len()
        invariant
            i <= tools@.len(),
            tv == json_views(tools@),
            tv.len() == tools@.len(),
            forall|k: int| 0 <= k < tools@.len() ==> #[trigger] tv[k] == tools@[k]@,
            json_views(out@) == anthropic_tools(tv.take(i as int)),
        decreases tools@.len() - i,
    {
        assert(tv.take(i + 1 as int).drop_last() =~= tv.take(i as int));
        assert(tv.take(i + 1 as int).last() == tools@[i as int]@);
        match map_one_tool(&tools[i]) {
            Some(v) => {
                proof {
                    lemma_json_views_push(out@, v);
                }
                out.push(v);
            },
            None => {},
        }
        i = i + 1;
    }
    assert(tv.take(i as int) =~= tv);
    out
}

/// A message in Anthropic form: its role and its content blocks (a single
/// text block when it has none of its own).
pub open spec fn anthropic_message(m: ChatMessage) -> Json {
    Json::Object(
        seq![
            ("role"@, Json::Str(m.role@)),
            ("content"@, match m.content_blocks {
                Some(bs) => Json::Array(json_views(bs@)),
                None => Json::Array(
                    seq![Json::Object(seq![("type"@, Json::Str("text"@)), ("text"@, Json::Str(m.content@))])],
                ),
            }),
        ],
    )
}

/// A deep copy of the values `v`.
pub fn clone_json_vec(v: &Vec<JsonValue>) -> (r: Vec<JsonValue>)
    ensures
        json_views(r@) == json_views(v@),
{
    let mut out: Vec<JsonValue> = Vec::new();
    let mut i: usize = 0;
    proof {
        lemma_json_views(v@);
    }
    assert(json_views(out@) =~= json_views(v@.take(0)));
    while i < v.len()
        invariant
            i <= v@.len(),
            json_views(out@) == json_views(v@.take(i as int)),
        decreases v@.len() - i,
    {
        let c = clone_json(&v[i]);
        proof {
            lemma_json_views_push(out@, c);
            lemma_json_views_push(v@.take(i as int), v@[i as int]);
            assert(v@.take(i + 1 as int) =~= v@.take(i as int).push(v@[i as int]));
        }
        out.push(c);
        i = i + 1;
    }
    assert(v@.take(i as int) =~= v@);
    out
}

/// The messages in Anthropic form.
pub fn chat_messages_to_anthropic(messages: &[ChatMessage]) -> (r: Vec<JsonValue>)
    ensures
        json_views(r@) == messages@.map_values(|m: ChatMessage| anthropic_message(m)),
{
    proof {
        reveal_strlit("role");
        reveal_strlit("content");
        reveal_strlit("type");
        reveal_strlit("text");
    }
    let mut out: Vec<JsonValue> = Vec::new();
    let mut i: usize = 0;
    assert(json_views(out@) =~= messages@.take(0).map_values(|m: ChatMessage| anthropic_message(m)));
    while i < messages.len()
        invariant
            i <= messages@.len(),
            json_views(out@) == messages@.take(i as int).map_values(|m: ChatMessage| anthropic_message(m)),
        decreases messages@.len() - i,
    {
        let m = &messages[i];
        let ghost expected = anthropic_message(*m)->Object_0[1].1;
        let content = match &m.content_blocks {
            Some(bs) => {
                let c = JsonValue::Array(clone_json_vec(bs));
                assert(c@ == expected);
                c
            },
            None => {
                let mut block: Vec<(String, JsonValue)> = Vec::new();
                block.push((owned("type"), JsonValue::from_str("text")));
                block.push((owned("text"), JsonValue::Str(m.content.clone())));
                proof {
                    lemma_json_entries(block@);
                    assert(json_entries(block@) =~= seq![("type"@, Json::Str("text"@)), ("text"@, Json::Str(m.content@))]);
                }
                let mut arr: Vec<JsonValue> = Vec::new();
                let b = JsonValue::Object(block);
                proof {
                    lemma_json_views_push(arr@, b);
                    assert(arr@.push(b) =~= seq![b]);
                    assert(json_views(Seq::<JsonValue>::empty()) =~= Seq::<Json>::empty());
                }
                arr.push(b);
                let c = JsonValue::Array(arr);
                assert(c@ == expected);
                c
            },
        };
        let mut obj: Vec<(String, JsonValue)> = Vec::new();
        obj.push((owned("role"), JsonValue::Str(m.role.clone())));
        obj.push((owned("content"), content));
        let v = JsonValue::Object(obj);
        proof {
            lemma_json_entries(obj@);
            assert(json_entries(obj@) =~= seq![("role"@, Json::Str(m.role@)), ("content"@, content@)]);
            assert(anthropic_message(*m)->Object_0 =~= seq![("role"@, Json::Str(m.role@)), ("content"@, expected)]);
            assert(v@ == anthropic_message(*m));
            lemma_json_views_push(out@, v);
            assert(messages@.take(i + 1 as int).map_values(|m: ChatMessage| anthropic_message(m))
                =~= messages@.take(i as int).map_values(|m: ChatMessage| anthropic_message(m)).push(
                anthropic_message(*m),
            ));
        }
        out.push(v);
        i = i + 1;
    }
    assert(messages@.take(i as int) =~= messages@);
    out
}


/// Each call of `cs` has a name and arguments, so all of them are kept, in
/// order.
proof fn lemma_openai_calls_all_named(cs: Seq<OpenAiToolCall>)
    requires
        forall|i: int| 0 <= i < cs.len() ==> (#[trigger] cs[i]).function.name is Some && cs[i].function.arguments is Some,
    ensures
        openai_calls(cs) is Ok,
        openai_calls(cs)->Ok_0.len() == cs.len(),
        forall|i: int| 0 <= i < cs.len() ==> #[trigger] openai_calls(cs)->Ok_0[i] == (
            match cs[i].id {
                Some(d) => d@,
                None => Seq::<char>::empty(),
            },
            cs[i].function.name->Some_0@,
            cs[i].function.arguments->Some_0@,
        ),
    decreases cs.len(),
{
    if cs.len() > 0 {
        let front = cs.drop_last();
        assert forall|i: int| 0 <= i < front.len() implies (#[trigger] front[i]).function.name is Some
            && front[i].function.arguments is Some by {
            assert(front[i] == cs[i]);
        }
        lemma_openai_calls_all_named(front);
        assert(cs[cs.len() - 1] == cs.last());
        assert forall|i: int| 0 <= i < cs.len() - 1 implies #[trigger] openai_calls(cs)->Ok_0[i]
            == openai_calls(front)->Ok_0[i] by {}
    }
}

/// Tool calls win over text: whenever the first choice's message asks for a
/// non-empty list of tool calls, each with a name and arguments, the
/// completion is exactly those calls, in order, each with its id (empty when
/// it has none), its name and its arguments, whatever text the message also
/// carries.
pub proof fn lemma_requested_tool_calls_returned(
    p: OpenAiChatResponse,
    raw_request: Seq<char>,
    raw_response: Seq<char>,
    r: Result<ChatCompletionResult, MiniMaxError>,
    m: OpenAiMessage,
    tcs: Vec<OpenAiToolCall>,
)
    requires
        openai_result(p, raw_request, raw_response, r),
        first_message(p) == Some(m),
        m.tool_calls == Some(tcs),
        tcs@.len() > 0,
        forall|i: int|
            0 <= i < tcs@.len() ==> (#[trigger] tcs@[i]).function.name is Some && tcs@[i].function.arguments is Some,
    ensures
        r is Ok,
        r->Ok_0.output is ToolCalls,
        r->Ok_0.output->ToolCalls_0@.len() == tcs@.len(),
        forall|i: int| 0 <= i < tcs@.len() ==> {
            let c = #[trigger] r->Ok_0.output->ToolCalls_0@[i];
            &&& c.function_name@ == tcs@[i].function.name->Some_0@
            &&& c.function_arguments@ == tcs@[i].function.arguments->Some_0@
            &&& c.id@ == match tcs@[i].id {
                Some(d) => d@,
                None => Seq::<char>::empty(),
            }
        },
{
    lemma_openai_calls_all_named(tcs@);
    let v = r->Ok_0.output->ToolCalls_0;
    assert forall|i: int| 0 <= i < tcs@.len() implies {
        let c = #[trigger] r->Ok_0.output->ToolCalls_0@[i];
        &&& c.function_name@ == tcs@[i].function.name->Some_0@
        &&& c.function_arguments@ == tcs@[i].function.arguments->Some_0@
        &&& c.id@ == match tcs@[i].id {
            Some(d) => d@,
            None => Seq::<char>::empty(),
        }
    } by {
        assert(calls_view(v@)[i] == call_view(v@[i]));
        assert(openai_calls(tcs@)->Ok_0[i] == calls_view(v@)[i]);
    }
}

/// Every server error (any status from 500 to 599) and 429 (too many
/// requests) is retried while retries remain: after the first attempt the
/// wait is 250 ms, after the second 500 ms. Any other status is handed back
/// at once.
pub proof fn lemma_server_errors_retried(status: u16, attempt: nat)
    ensures
        (status == 429 || 500 <= status <= 599) && attempt == 0 ==> retry_action(
            attempt,
            AttemptOutcome::Response(status),
        ) == RetryAction::RetryAfter(250),
        (status == 429 || 500 <= status <= 599) && attempt == 1 ==> retry_action(
            attempt,
            AttemptOutcome::Response(status),
        ) == RetryAction::RetryAfter(500),
        (status == 429 || 500 <= status <= 599) && attempt < MAX_HTTP_RETRIES ==> retry_action(
            attempt,
            AttemptOutcome::Response(status),
        ) is RetryAfter,
        !(status == 429 || 500 <= status <= 599) || attempt >= MAX_HTTP_RETRIES ==> retry_action(
            attempt,
            AttemptOutcome::Response(status),
        ) == RetryAction::Return,
{
    vstd::arithmetic::power2::lemma2_to64();
}

} // verus!
