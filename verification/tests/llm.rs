use mini_agent::json::JsonValue;
use mini_agent::llm::minimax::{
    anthropic_text_content, build_chat_completion_endpoint, decide_retry, detect_provider_mode, is_retryable_status,
    map_openai_tools_to_anthropic, openai_completion_result, openai_text_content, parse_anthropic_output,
    retry_delay_for_attempt, AnthropicContentBlock, AttemptOutcome, ChatCompletionOutput, ChatMessage, MiniMaxError,
    OpenAiChatResponse, OpenAiChoice, OpenAiMessage, OpenAiToolCall, OpenAiToolCallFunction, ProviderMode, RetryAction,
    ToolCall,
};
use mini_agent::llm::request::{chat_request_body, request_text, MiniMaxClient};
use mini_agent::llm::sse::{parse_sse_delta_line, StreamedResponse};

fn s(v: &str) -> JsonValue {
    JsonValue::Str(v.to_string())
}

fn obj(entries: Vec<(&str, JsonValue)>) -> JsonValue {
    JsonValue::Object(entries.into_iter().map(|(k, v)| (k.to_string(), v)).collect())
}

fn user(content: &str) -> ChatMessage {
    ChatMessage { role: "user".to_string(), content: content.to_string(), content_blocks: None }
}

fn block(kind: &str) -> AnthropicContentBlock {
    AnthropicContentBlock { block_type: kind.to_string(), text: None, thinking: None, id: None, name: None, input: None }
}

fn openai_payload(message: OpenAiMessage) -> OpenAiChatResponse {
    OpenAiChatResponse { choices: vec![OpenAiChoice { message: Some(message) }] }
}

#[test]
fn maps_valid_openai_tool_to_anthropic_tool() {
    let params = obj(vec![
        ("type", s("object")),
        ("properties", obj(vec![("query", obj(vec![("type", s("string"))]))])),
        ("required", JsonValue::Array(vec![s("query")])),
    ]);
    let tools = vec![obj(vec![
        ("type", s("function")),
        (
            "function",
            obj(vec![("name", s("web_search")), ("description", s("search the web")), ("parameters", params)]),
        ),
    ])];

    let mapped = map_openai_tools_to_anthropic(&tools);
    let expected_schema = obj(vec![
        ("type", s("object")),
        ("properties", obj(vec![("query", obj(vec![("type", s("string"))]))])),
        ("required", JsonValue::Array(vec![s("query")])),
    ]);
    assert_eq!(
        mapped,
        vec![obj(vec![("name", s("web_search")), ("description", s("search the web")), ("input_schema", expected_schema)])]
    );
}

#[test]
fn skips_malformed_openai_tool_entries() {
    let tools = vec![obj(vec![
        ("type", s("function")),
        (
            "function",
            obj(vec![
                ("name", s("")),
                ("description", s("invalid because empty name")),
                ("parameters", obj(vec![("type", s("object")), ("properties", obj(vec![]))])),
            ]),
        ),
    ])];
    let mapped = map_openai_tools_to_anthropic(&tools);
    assert!(mapped.is_empty());
}

#[test]
fn keeps_only_valid_entries_from_mixed_tool_list() {
    let schema = || {
        obj(vec![
            ("type", s("object")),
            ("properties", obj(vec![("query", obj(vec![("type", s("string"))]))])),
        ])
    };
    let tools = vec![
        obj(vec![
            ("type", s("function")),
            ("function", obj(vec![("name", s("web_search")), ("description", s("search")), ("parameters", schema())])),
        ]),
        obj(vec![("type", s("function")), ("function", obj(vec![("name", s("broken_missing_parameters"))]))]),
        obj(vec![("type", s("not_function")), ("foo", s("bar"))]),
    ];
    let mapped = map_openai_tools_to_anthropic(&tools);
    assert_eq!(
        mapped,
        vec![obj(vec![("name", s("web_search")), ("description", s("search")), ("input_schema", schema())])]
    );
}

#[test]
fn parses_anthropic_compatible_text_response() {
    let mut b = block("text");
    b.text = Some("hi from anthropic mode".to_string());
    let text = anthropic_text_content(vec![b]).expect("anthropic-compatible response should parse");
    assert_eq!(text, "hi from anthropic mode");
}

#[test]
fn parses_anthropic_compatible_tool_use_response() {
    let mut b = block("tool_use");
    b.id = Some("toolu_123".to_string());
    b.name = Some("web_search".to_string());
    b.input = Some(obj(vec![("query", s("mini agent"))]));
    let result = parse_anthropic_output(vec![b]).expect("anthropic-compatible tool_use response should parse");
    assert_eq!(
        result.output,
        ChatCompletionOutput::ToolCalls(vec![ToolCall {
            id: "toolu_123".to_string(),
            function_name: "web_search".to_string(),
            function_arguments: "{\"query\":\"mini agent\"}".to_string(),
        }])
    );
}

#[test]
fn anthropic_output_without_content_is_an_error() {
    let err = parse_anthropic_output(vec![block("thinking")]).err().expect("no text and no tool call");
    assert_eq!(err.message(), "assistant response content was missing");
}

#[test]
fn parses_openai_compatible_response() {
    let payload = openai_payload(OpenAiMessage { content: Some("hi".to_string()), tool_calls: None, reasoning_content: None });
    assert_eq!(openai_text_content(&payload).expect("content"), "hi");
    let empty = openai_payload(OpenAiMessage { content: Some(String::new()), tool_calls: None, reasoning_content: None });
    assert_eq!(openai_text_content(&empty).err().map(|e| e.message()), Some("assistant response content was missing".to_string()));
}

#[test]
fn openai_completion_result_reads_tool_calls_and_thinking() {
    let payload = openai_payload(OpenAiMessage {
        content: None,
        tool_calls: Some(vec![OpenAiToolCall {
            id: None,
            function: OpenAiToolCallFunction { name: Some("get_time".to_string()), arguments: Some("{}".to_string()) },
        }]),
        reasoning_content: Some("thought".to_string()),
    });
    let r = openai_completion_result(&payload, "req".to_string(), "resp".to_string()).expect("tool calls");
    assert_eq!(
        r.output,
        ChatCompletionOutput::ToolCalls(vec![ToolCall {
            id: String::new(),
            function_name: "get_time".to_string(),
            function_arguments: "{}".to_string(),
        }])
    );
    assert_eq!(r.thinking, Some("thought".to_string()));
    assert_eq!(r.raw_request, Some("req".to_string()));
    let missing = openai_payload(OpenAiMessage {
        content: None,
        tool_calls: Some(vec![OpenAiToolCall {
            id: None,
            function: OpenAiToolCallFunction { name: None, arguments: Some("{}".to_string()) },
        }]),
        reasoning_content: None,
    });
    assert_eq!(
        openai_completion_result(&missing, String::new(), String::new()).err().map(|e| e.message()),
        Some("tool call function name was missing".to_string())
    );
}

#[test]
fn posts_to_expected_chat_completions_endpoint() {
    assert_eq!(
        build_chat_completion_endpoint("http://h/v1/", ProviderMode::OpenAiCompatible),
        "http://h/v1/chat/completions"
    );
    assert_eq!(
        build_chat_completion_endpoint("http://h/anthropic", ProviderMode::AnthropicCompatible),
        "http://h/anthropic/v1/messages"
    );
    assert_eq!(detect_provider_mode("https://api.minimaxi.com/Anthropic"), ProviderMode::AnthropicCompatible);
    let client = MiniMaxClient::new("test-key".to_string(), "http://h/v1".to_string());
    assert_eq!(client.endpoint(), "http://h/v1/chat/completions");
}

#[test]
fn client_from_env_values_names_missing_variable() {
    let err = MiniMaxClient::from_env_values(None, Some("u".to_string())).err().expect("key missing");
    assert_eq!(err.message(), "missing required environment variable: MINIMAX_API_KEY");
    let err = MiniMaxClient::from_env_values(Some("k".to_string()), None).err().expect("url missing");
    assert_eq!(err.message(), "missing required environment variable: MINIMAX_BASE_URL");
    assert!(MiniMaxClient::from_env_values(Some("k".to_string()), Some("u".to_string())).is_ok());
}

#[test]
fn request_bodies_follow_provider_mode() {
    let messages = vec![user("hello")];
    let body = chat_request_body("http://h/v1", "abab6.5", &messages, true, None);
    assert_eq!(
        request_text(&body),
        r#"{"messages":[{"content":"hello","role":"user"}],"model":"abab6.5","stream":true}"#
    );
    let tools = vec![obj(vec![
        ("type", s("function")),
        ("function", obj(vec![("name", s("t")), ("parameters", obj(vec![("type", s("object"))]))])),
    ])];
    let body = chat_request_body("http://h/anthropic", "M", &messages, true, Some(&tools));
    assert_eq!(
        request_text(&body),
        r#"{"max_tokens":4096,"messages":[{"content":[{"text":"hello","type":"text"}],"role":"user"}],"model":"M","stream":false,"tools":[{"input_schema":{"type":"object"},"name":"t"}]}"#
    );
    let body = chat_request_body("http://h/anthropic", "M", &messages, false, Some(&vec![]));
    assert!(!request_text(&body).contains("tools"));
}

#[test]
fn retry_policy() {
    assert!(is_retryable_status(429));
    assert!(is_retryable_status(503));
    assert!(!is_retryable_status(404));
    assert_eq!(retry_delay_for_attempt(0), 250);
    assert_eq!(retry_delay_for_attempt(2), 1000);
    assert_eq!(decide_retry(0, AttemptOutcome::Response(503)), RetryAction::RetryAfter(250));
    assert_eq!(decide_retry(2, AttemptOutcome::Response(503)), RetryAction::Return);
    assert_eq!(decide_retry(1, AttemptOutcome::Failed { retryable: true }), RetryAction::RetryAfter(500));
    assert_eq!(decide_retry(0, AttemptOutcome::Failed { retryable: false }), RetryAction::Fail);
}

#[test]
fn sse_lines_and_whole_text() {
    assert_eq!(parse_sse_delta_line("data: [DONE]").ok(), Some(None));
    assert_eq!(parse_sse_delta_line(": keep-alive").ok(), Some(None));
    assert_eq!(
        parse_sse_delta_line("data: {\"choices\":[{\"delta\":{\"content\":\"x\"}}]}").ok(),
        Some(Some("x".to_string()))
    );
    assert!(parse_sse_delta_line("data: {oops").is_err());
    let r = StreamedResponse::from_whole_text("all".to_string());
    assert_eq!(r.deltas, vec!["all".to_string()]);
    let r = StreamedResponse::from_whole_text(String::new());
    assert!(r.deltas.is_empty());
    assert_eq!(
        MiniMaxError::UnexpectedStatus(500, "boom".to_string()).message(),
        "unexpected http status 500: boom"
    );
}
