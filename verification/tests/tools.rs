use mini_agent::json::JsonValue;
use mini_agent::tools::fetch_url::{
    accept_resolved, all_addresses_failed, append_body_chunk, check_bound_target, check_content_length, is_html_content,
    summarize_body, FetchAction, FetchEvent, FetchRun, HttpHead, SocketAddress, ValidatedDnsTarget, MAX_RESPONSE_BYTES,
};
use mini_agent::tools::ip::{is_blocked_host, is_ip_literal, parse_ip_literal, IpAddress};
use mini_agent::tools::paths::{check_path_parts, validate_safe_path};
use mini_agent::tools::paths::PathPart::{CurDir, Normal, ParentDir, Prefix, RootDir};
use mini_agent::tools::web_search::{
    format_search_results, html_search_url, parse_duckduckgo_html_results, results_from_answers, text_to_result,
    truncate_with_ellipsis, usable_html_results, SearchOutcome, SearchResult, WebSearchTool,
};
use mini_agent::tools::get_time::utc_offset_text;
use mini_agent::tools::{
    register_default_tools, BuiltinTool, CreateDirectoryTool, FetchUrlTool, GetTimeTool, ToolDef, ToolHandler, ToolRegistry,
    WriteFileTool,
};

fn s(v: &str) -> JsonValue {
    JsonValue::Str(v.to_string())
}

fn obj(entries: Vec<(&str, JsonValue)>) -> JsonValue {
    JsonValue::Object(entries.into_iter().map(|(k, v)| (k.to_string(), v)).collect())
}

fn result(title: &str, snippet: &str, url: &str) -> SearchResult {
    SearchResult { title: title.to_string(), snippet: snippet.to_string(), url: url.to_string() }
}

fn stub_def() -> ToolDef {
    ToolDef {
        id: "stub-tool-id".to_string(),
        name: "stub_tool".to_string(),
        description: "A stub tool for testing".to_string(),
        parameters: obj(vec![
            ("type", s("object")),
            ("properties", obj(vec![("x", obj(vec![("type", s("string"))]))])),
            ("required", JsonValue::Array(vec![s("x")])),
        ]),
    }
}

fn function_name(tool: &JsonValue) -> Option<&str> {
    tool.get("function").and_then(|f| f.get_str("name"))
}

#[test]
fn format_search_results_handles_empty_results() {
    let formatted = format_search_results(&[], 150);
    assert_eq!(formatted, "No results found.");
}

#[test]
fn format_search_results_formats_three_results_and_truncates() {
    let long_snippet = "Rust is a systems programming language focused on safety, speed, and concurrency. It empowers developers to build reliable and efficient software with fearless refactoring and strong tooling.";
    let results = vec![
        result("Rust Programming Language", long_snippet, "https://www.rust-lang.org"),
        result(
            "The Rust Book",
            "The official Rust book teaches ownership, borrowing, lifetimes, and practical examples.",
            "https://doc.rust-lang.org/book/",
        ),
        result(
            "Rust by Example",
            "A collection of runnable examples that demonstrate core Rust concepts.",
            "https://doc.rust-lang.org/rust-by-example/",
        ),
    ];

    let formatted = format_search_results(&results, 150);

    let lines: Vec<&str> = formatted.lines().collect();
    assert_eq!(lines.len(), 3);
    assert!(lines[0].starts_with("1. Rust Programming Language - "));
    assert!(lines[0].contains("..."));
    assert!(lines[0].contains("https://www.rust-lang.org"));
    assert!(lines[1].starts_with("2. The Rust Book - "));
    assert!(lines[2].starts_with("3. Rust by Example - "));
}

#[test]
fn format_search_results_caps_output_at_five_results() {
    let results: Vec<SearchResult> = (1..=8)
        .map(|i| result(&format!("Title {i}"), &format!("Snippet {i}"), &format!("https://example.com/{i}")))
        .collect();

    let formatted = format_search_results(&results, 150);
    let lines: Vec<&str> = formatted.lines().collect();

    assert_eq!(lines.len(), 5);
    assert!(lines[4].starts_with("5. Title 5 - "));
}

#[test]
fn format_search_results_exact_line_with_minimum_width() {
    let results = vec![result("  A   b ", "x\ty  z 0123456789012345678901234567890123", " u ")];
    let formatted = format_search_results(&results, 10);
    // Width is raised to 40; prefix "1. A b - " (9) and suffix " (u)" (4) leave 27.
    assert_eq!(formatted, "1. A b - x y z 012345678901234567... (u)");
    assert_eq!(formatted.chars().count(), 40);
}

#[test]
fn truncate_with_ellipsis_cases() {
    assert_eq!(truncate_with_ellipsis("hello", 0), "");
    assert_eq!(truncate_with_ellipsis("hello", 5), "hello");
    assert_eq!(truncate_with_ellipsis("hello", 2), "..");
    assert_eq!(truncate_with_ellipsis("hello world", 7), "hell...");
}

#[test]
fn text_to_result_splits_on_first_dash() {
    let r = text_to_result("Title - snippet - more".to_string(), "u".to_string());
    assert_eq!(r.title, "Title");
    assert_eq!(r.snippet, "snippet - more");
    let r = text_to_result("No dash here".to_string(), "u".to_string());
    assert_eq!(r.title, "No dash here");
    assert_eq!(r.snippet, "No dash here");
    let rs = results_from_answers(vec![("A - b".to_string(), "https://a".to_string())]);
    assert_eq!(rs, vec![result("A", "b", "https://a")]);
}

#[test]
fn execute_returns_err_for_missing_query() {
    let result = WebSearchTool::parse_query(&obj(vec![]));
    assert_eq!(result, Err("missing required argument: query".to_string()));
    assert_eq!(WebSearchTool::parse_query(&obj(vec![("query", s("  rust "))])), Ok("rust".to_string()));
}

#[test]
fn execute_returns_err_when_provider_fails() {
    let result = WebSearchTool::finish(SearchOutcome::Failed("provider failed".to_string()));
    assert_eq!(result, Err("provider failed".to_string()));
}

#[test]
fn execute_returns_err_when_search_times_out() {
    let result = WebSearchTool::finish(SearchOutcome::TimedOut);
    assert_eq!(result, Err("web search timed out".to_string()));
    let found = WebSearchTool::finish(SearchOutcome::Found(vec![]));
    assert_eq!(found, Ok("No results found.".to_string()));
}

#[test]
fn usable_html_results_falls_back_when_empty_or_failed() {
    assert!(usable_html_results(Ok(vec![])).is_none());
    assert!(usable_html_results(Err("x".to_string())).is_none());
    assert_eq!(usable_html_results(Ok(vec![result("a", "b", "c")])), Some(vec![result("a", "b", "c")]));
}

#[test]
fn parse_duckduckgo_html_results_extracts_title_snippet_and_url() {
    let html = r#"
        <html>
          <body>
            <div class="result">
              <a class="result__a" href="https://example.com/a">Result A</a>
              <div class="result__snippet">Snippet A</div>
            </div>
            <div class="result">
              <a class="result__a" href="https://example.com/b">Result B</a>
              <a class="result__snippet">Snippet B</a>
            </div>
          </body>
        </html>
        "#;

    let parsed = parse_duckduckgo_html_results(html);
    assert_eq!(parsed.len(), 2);
    assert_eq!(parsed[0].title, "Result A");
    assert_eq!(parsed[0].snippet, "Snippet A");
    assert_eq!(parsed[0].url, "https://example.com/a");
    assert_eq!(parsed[1].title, "Result B");
    assert_eq!(parsed[1].snippet, "Snippet B");
    assert_eq!(parsed[1].url, "https://example.com/b");
}

#[test]
fn parse_duckduckgo_html_results_skips_links_without_href_and_caps() {
    let mut html = String::from("<html><body><a class=\"result__a\">No href</a>");
    for i in 0..7 {
        html.push_str(&format!("<a class=\"result__a\" href=\"https://e/{i}\">R {i}</a>"));
    }
    html.push_str("</body></html>");
    let parsed = parse_duckduckgo_html_results(&html);
    assert_eq!(parsed.len(), 5);
    assert_eq!(parsed[0].title, "R 0");
    assert_eq!(parsed[0].snippet, "");
}

#[test]
fn html_search_url_encodes_query() {
    let url = html_search_url("rust lang&more").expect("endpoint parses");
    assert_eq!(url, "https://html.duckduckgo.com/html/?q=rust+lang%26more");
}

#[test]
fn create_directory_returns_pending_approval_and_does_not_create_directory() {
    let tool = CreateDirectoryTool::new();
    let path = "safe/relative/create-dir-tool";
    let result = tool.execute(&obj(vec![("path", s(path))])).expect("create_directory should return pending approval");
    assert!(result.contains("PENDING_APPROVAL"));
    assert!(result.contains(path));
    assert!(!std::path::Path::new(path).exists());
}

#[test]
fn create_directory_rejects_path_traversal() {
    let tool = CreateDirectoryTool::new();
    let result = tool.execute(&obj(vec![("path", s("../../../etc"))]));
    assert!(result.is_err());
}

#[test]
fn create_directory_rejects_absolute_path() {
    let tool = CreateDirectoryTool::new();
    let result = tool.execute(&obj(vec![("path", s("/tmp/forbidden"))]));
    assert!(result.is_err());
}

#[test]
fn create_directory_reply_is_exact_json() {
    let tool = CreateDirectoryTool::new();
    let reply = tool.execute(&obj(vec![("path", s("  a/b  "))])).expect("pending");
    assert_eq!(reply, r#"{"payload":{"path":"a/b"},"status":"PENDING_APPROVAL"}"#);
    assert_eq!(tool.execute(&obj(vec![])), Err("missing required argument: path".to_string()));
    assert_eq!(tool.execute(&obj(vec![("path", s("a/../b"))])), Err("path traversal is not allowed".to_string()));
    assert_eq!(tool.execute(&obj(vec![("path", s("/abs"))])), Err("absolute paths are not allowed".to_string()));
}

#[test]
fn write_file_returns_pending_approval_and_does_not_write_file() {
    let tool = WriteFileTool::new();
    let path = "safe/relative/write-file-tool.txt";
    let content = "hello from write_file test";
    let result = tool
        .execute(&obj(vec![("path", s(path)), ("content", s(content))]))
        .expect("write_file should return pending approval");
    assert!(result.contains("PENDING_APPROVAL"));
    assert!(result.contains(path));
    assert!(result.contains(content));
}

#[test]
fn write_file_rejects_path_traversal() {
    let tool = WriteFileTool::new();
    let result = tool.execute(&obj(vec![("path", s("../../../etc/passwd")), ("content", s("x"))]));
    assert!(result.is_err());
}

#[test]
fn write_file_rejects_absolute_path() {
    let tool = WriteFileTool::new();
    let result = tool.execute(&obj(vec![("path", s("/tmp/forbidden.txt")), ("content", s("x"))]));
    assert!(result.is_err());
}

#[test]
fn write_file_requires_content() {
    let tool = WriteFileTool::new();
    assert_eq!(
        tool.execute(&obj(vec![("path", s("a.txt"))])),
        Err("missing required argument: content".to_string())
    );
}

#[test]
fn check_path_parts_refuses_windows_style_escapes() {
    assert_eq!(check_path_parts("..\\secret", &[ParentDir, Normal]), Err("path traversal is not allowed".to_string()));
    assert_eq!(check_path_parts("C:\\x", &[Prefix, RootDir, Normal]), Err("absolute paths are not allowed".to_string()));
    assert_eq!(check_path_parts("C:x", &[Prefix, Normal]), Err("absolute paths are not allowed".to_string()));
    assert_eq!(check_path_parts("\\x", &[RootDir, Normal]), Err("absolute paths are not allowed".to_string()));
    assert_eq!(check_path_parts("a\\b", &[Normal, Normal]), Ok(()));
    assert_eq!(check_path_parts("./a", &[CurDir, Normal]), Ok(()));
    assert_eq!(check_path_parts("/a", &[]), Err("absolute paths are not allowed".to_string()));
    assert_eq!(check_path_parts("a/../b", &[Normal]), Err("path traversal is not allowed".to_string()));
}

#[test]
fn validate_safe_path_components() {
    assert!(validate_safe_path("a/b/c").is_ok());
    assert!(validate_safe_path("a/..b/c").is_ok());
    assert!(validate_safe_path("a/./c").is_ok());
    assert_eq!(validate_safe_path(".."), Err("path traversal is not allowed".to_string()));
    assert_eq!(validate_safe_path("a/.."), Err("path traversal is not allowed".to_string()));
    assert_eq!(validate_safe_path("/a"), Err("absolute paths are not allowed".to_string()));
}

#[test]
fn get_time_returns_valid_json() {
    let tool = GetTimeTool::new();
    let result = tool.execute(&obj(vec![]));
    assert!(result.is_ok());
    let json_str = result.unwrap();
    let parsed: serde_json::Value = serde_json::from_str(&json_str).expect("should return valid JSON");
    assert!(parsed.get("iso").is_some());
    assert!(parsed.get("human_readable").is_some());
    assert!(parsed.get("unix_timestamp").is_some());
    assert!(parsed.get("timezone").is_some());
    assert!(parsed.get("utc_offset").is_some());
    let iso = parsed.get("iso").and_then(|v| v.as_str()).unwrap();
    assert!(iso.contains('+') || iso.contains('-'));
    assert!(parsed.get("unix_timestamp").and_then(|v| v.as_i64()).is_some());
}

#[test]
fn get_time_definition_has_required_fields() {
    let tool = GetTimeTool::new();
    let def = tool.definition();
    assert_eq!(def.id, "get_time");
    assert_eq!(def.name, "get_time");
    assert!(def.description.contains("current"));
    assert!(def.description.contains("time"));
}

#[test]
fn utc_offset_text_formats_whole_hours() {
    assert_eq!(utc_offset_text(28800), "+0008");
    assert_eq!(utc_offset_text(-18000), "-0005");
    assert_eq!(utc_offset_text(0), "+0000");
    assert_eq!(utc_offset_text(-1800), "+0000");
    assert_eq!(utc_offset_text(19800), "+0005");
}

#[test]
fn registry_has_tool_after_register() {
    let mut registry: ToolRegistry<u32> = ToolRegistry::new();
    registry.register(stub_def(), ToolHandler::Custom(1));
    let tools = registry.get_tools_for_llm();
    assert!(!tools.is_empty());
    assert_eq!(function_name(&tools[0]), Some("stub_tool"));
}

#[test]
fn execute_stub_tool_returns_ok() {
    let mut registry: ToolRegistry<u32> = ToolRegistry::new();
    registry.register(stub_def(), ToolHandler::Custom(1));
    let tool = registry.lookup("stub_tool").expect("registered tool is found");
    assert_eq!(tool.id, "stub-tool-id");
    assert_eq!(registry.handler("stub_tool"), Ok(&ToolHandler::Custom(1)));
}

#[test]
fn execute_unknown_tool_returns_err() {
    let registry: ToolRegistry<u32> = ToolRegistry::new();
    let result = registry.lookup("unknown_tool");
    assert_eq!(result.err(), Some("tool not found: unknown_tool".to_string()));
    assert_eq!(registry.handler("unknown_tool"), Err("tool not found: unknown_tool".to_string()));
}

#[test]
fn register_replaces_tool_of_same_name() {
    let mut registry: ToolRegistry<u32> = ToolRegistry::new();
    registry.register(stub_def(), ToolHandler::Custom(1));
    let mut other = stub_def();
    other.description = "replaced".to_string();
    registry.register(other, ToolHandler::Custom(2));
    let tools = registry.get_tools_for_llm();
    assert_eq!(tools.len(), 1);
    assert_eq!(tools[0].get("function").and_then(|f| f.get_str("description")), Some("replaced"));
    assert_eq!(registry.handler("stub_tool"), Ok(&ToolHandler::Custom(2)));
}

#[test]
fn registry_runs_later_registered_tools_by_their_handler() {
    let mut registry: ToolRegistry<&'static str> = ToolRegistry::new();
    register_default_tools(&mut registry).expect("default tool registration should succeed");
    assert_eq!(registry.handler("get_time"), Ok(&ToolHandler::Builtin(BuiltinTool::GetTime)));
    assert_eq!(registry.handler("web_search"), Ok(&ToolHandler::Builtin(BuiltinTool::WebSearch)));
    registry.register(stub_def(), ToolHandler::Custom("stub"));
    assert_eq!(registry.handler("stub_tool"), Ok(&ToolHandler::Custom("stub")));
    let mut time = stub_def();
    time.name = "get_time".to_string();
    registry.register(time, ToolHandler::Custom("clock"));
    assert_eq!(registry.handler("get_time"), Ok(&ToolHandler::Custom("clock")));
    assert_eq!(registry.get_tools_for_llm().len(), 6);
}

#[test]
fn register_default_tools_adds_all_tools() {
    let mut registry: ToolRegistry<u32> = ToolRegistry::new();
    register_default_tools(&mut registry).expect("default tool registration should succeed");
    let tools = registry.get_tools_for_llm();
    assert_eq!(tools.len(), 5);
    assert_eq!(function_name(&tools[0]), Some("create_directory"));
    assert_eq!(function_name(&tools[1]), Some("fetch_url"));
    assert_eq!(function_name(&tools[2]), Some("get_time"));
    assert_eq!(function_name(&tools[3]), Some("web_search"));
    assert_eq!(function_name(&tools[4]), Some("write_file"));
}

fn finish_error(action: FetchAction) -> String {
    match action {
        FetchAction::Finish(Err(e)) => e,
        _ => panic!("expected the fetch to end with an error"),
    }
}

#[test]
fn fetch_url_rejects_non_http_scheme() {
    let url = FetchUrlTool::url_argument(&obj(vec![("url", s("ftp://example.com/file"))])).expect("url given");
    let (_, action) = FetchRun::begin(&url, false);
    let err = finish_error(action);
    assert!(err.contains("http or https"));
}

#[test]
fn fetch_url_requires_url_argument() {
    assert_eq!(FetchUrlTool::url_argument(&obj(vec![])), Err("missing required argument: url".to_string()));
    assert_eq!(FetchUrlTool::new().definition().name, "fetch_url");
}

#[test]
fn fetch_url_rejects_localhost_and_private_ipv4_literals() {
    let blocked_urls = [
        "http://localhost:8080",
        "http://127.0.0.1/test",
        "http://0.0.0.0/api",
        "http://[::1]/",
        "http://10.1.2.3/secret",
        "http://172.16.1.2/data",
        "http://192.168.0.5/internal",
        "http://169.254.169.254/latest/meta-data",
        "http://100.64.10.20/internal",
        "http://198.18.0.1/bench",
        "http://[fc00::1]/",
        "http://[fe80::1]/",
        "http://[ff02::1]/",
        "http://[::ffff:127.0.0.1]/",
    ];
    for url in blocked_urls {
        let (_, action) = FetchRun::begin(url, false);
        let err = finish_error(action);
        assert!(err.contains("url host is not allowed"), "expected SSRF block error for {url}, got: {err}");
    }
}

#[test]
fn fetch_url_allows_public_literal_directly() {
    let (_, action) = FetchRun::begin("http://93.184.216.34/x", false);
    match action {
        FetchAction::Send { url, target } => {
            assert_eq!(url.href, "http://93.184.216.34/x");
            assert!(target.is_none());
        }
        _ => panic!("expected a direct request"),
    }
}

#[test]
fn fetch_url_rejects_hostname_when_dns_resolves_to_private_ip() {
    let (mut run, action) = FetchRun::begin("https://blocked.test/resource", false);
    match action {
        FetchAction::Resolve { host, port } => {
            assert_eq!(host, "blocked.test");
            assert_eq!(port, 443);
        }
        _ => panic!("expected a resolution"),
    }
    let addrs = vec![SocketAddress { ip: IpAddress::V4([10, 0, 0, 5]), port: 443 }];
    let action = run.on_event(FetchEvent::Resolved(Ok(addrs)));
    let err = finish_error(action);
    assert!(err.contains("url host is not allowed"), "expected SSRF block error, got: {err}");
}

#[test]
fn validate_url_target_returns_resolved_public_socket_addrs_for_hostname() {
    let (mut run, _) = FetchRun::begin("https://allowed.test/resource", false);
    let addrs = vec![SocketAddress { ip: IpAddress::V4([93, 184, 216, 34]), port: 443 }];
    match run.on_event(FetchEvent::Resolved(Ok(addrs))) {
        FetchAction::Send { target: Some(t), .. } => {
            assert_eq!(t.host, "allowed.test");
            assert_eq!(t.addrs, vec![SocketAddress { ip: IpAddress::V4([93, 184, 216, 34]), port: 443 }]);
        }
        _ => panic!("expected a request bound to the resolved addresses"),
    }
    let ok = accept_resolved("h".to_string(), vec![SocketAddress { ip: IpAddress::V4([1, 1, 1, 1]), port: 80 }]);
    assert!(ok.is_ok());
    assert_eq!(
        accept_resolved("h".to_string(), vec![]).err(),
        Some("failed to resolve host: no addresses found".to_string())
    );
}

#[test]
fn build_bound_fetch_client_rejects_empty_resolved_address_list() {
    let target = ValidatedDnsTarget { host: "example.com".to_string(), addrs: Vec::new() };
    let err = check_bound_target(&target).expect_err("expected empty bound addrs to be rejected");
    assert!(err.contains("failed to resolve host"));
}

fn head(status: u16, location: Option<Option<String>>, content_type: Option<&str>) -> HttpHead {
    HttpHead { status, location, content_type: content_type.map(|c| c.to_string()) }
}

#[test]
fn fetch_url_returns_error_for_non_2xx_status() {
    let (mut run, _) = FetchRun::begin("http://127.0.0.1:9/missing", true);
    let err = finish_error(run.on_event(FetchEvent::Sent(Ok(head(404, None, None)))));
    assert_eq!(err, "request failed with HTTP status 404 Not Found");
}

#[test]
fn fetch_url_follows_safe_redirect_and_returns_content() {
    let (mut run, action) = FetchRun::begin("http://127.0.0.1:8080/start", true);
    assert!(matches!(action, FetchAction::Send { .. }));
    let action = run.on_event(FetchEvent::Sent(Ok(head(302, Some(Some("/final".to_string())), None))));
    match action {
        FetchAction::Send { url, .. } => assert_eq!(url.href, "http://127.0.0.1:8080/final"),
        _ => panic!("expected the redirect to be followed"),
    }
    assert!(matches!(run.on_event(FetchEvent::Sent(Ok(head(200, None, None)))), FetchAction::ReadBody));
    match run.on_event(FetchEvent::BodyRead(Ok(b"redirect target content".to_vec()))) {
        FetchAction::Finish(Ok(result)) => {
            assert!(result.contains("redirect target content"), "expected final response body in summary, got: {result}")
        }
        _ => panic!("expected a summary"),
    }
}

#[test]
fn fetch_url_stops_after_too_many_redirects() {
    let (mut run, _) = FetchRun::begin("http://127.0.0.1/0", true);
    for _ in 0..5 {
        let a = run.on_event(FetchEvent::Sent(Ok(head(301, Some(Some("/next".to_string())), None))));
        assert!(matches!(a, FetchAction::Send { .. }));
    }
    let err = finish_error(run.on_event(FetchEvent::Sent(Ok(head(301, Some(Some("/next".to_string())), None)))));
    assert_eq!(err, "too many redirects (>5)");
    let (mut run, _) = FetchRun::begin("http://127.0.0.1/0", true);
    let err = finish_error(run.on_event(FetchEvent::Sent(Ok(head(302, None, None)))));
    assert_eq!(err, "redirect response missing Location header");
}

#[test]
fn fetch_url_redirect_to_blocked_host_is_refused() {
    let (mut run, action) = FetchRun::begin("http://93.184.216.34/start", false);
    assert!(matches!(action, FetchAction::Send { .. }));
    let err = finish_error(run.on_event(FetchEvent::Sent(Ok(head(302, Some(Some("http://127.0.0.1/admin".to_string())), None)))));
    assert_eq!(err, "url host is not allowed");
}

#[test]
fn fetch_url_rejects_oversized_body() {
    let err = check_content_length(Some((MAX_RESPONSE_BYTES + 1) as u64)).expect_err("oversized body should fail");
    assert!(err.contains("maximum allowed size"));
    assert!(check_content_length(Some(MAX_RESPONSE_BYTES as u64)).is_ok());
    let mut body = vec![0u8; MAX_RESPONSE_BYTES - 1];
    assert!(append_body_chunk(&mut body, b"x").is_ok());
    let err = append_body_chunk(&mut body, b"y").expect_err("oversized body should fail");
    assert!(err.contains("maximum allowed size"));
    assert_eq!(body.len(), MAX_RESPONSE_BYTES);
}

#[test]
fn fetch_url_extracts_readable_text_and_truncates_near_2000_chars() {
    let repeated = "Rust testing content for fetch_url tool. ".repeat(120);
    let html = format!(
        r#"<html><head><title>Example</title></head><body><main><h1>Header</h1><p>{repeated}</p></main></body></html>"#
    );
    let (mut run, _) = FetchRun::begin("http://127.0.0.1:8080/page", true);
    assert!(matches!(
        run.on_event(FetchEvent::Sent(Ok(head(200, None, Some("text/html; charset=utf-8"))))),
        FetchAction::ReadBody
    ));
    match run.on_event(FetchEvent::BodyRead(Ok(html.into_bytes()))) {
        FetchAction::Finish(Ok(result)) => {
            assert!(result.contains("Header"));
            assert!(result.contains("Rust testing content"));
            assert!(!result.contains("Example"));
            assert!(result.chars().count() <= 2100);
        }
        _ => panic!("expected a summary"),
    }
}

#[test]
fn summarize_body_plain_and_html() {
    assert_eq!(summarize_body("  a \n b ", false), Ok("Fetched URL content summary: a b".to_string()));
    assert_eq!(
        summarize_body("<html><body><p>x</p>  <p>y</p></body></html>", true),
        Ok("Fetched URL content summary: x y".to_string())
    );
    assert!(is_html_content(&Some("Text/HTML".to_string())));
    assert!(!is_html_content(&Some("application/json".to_string())));
    assert!(!is_html_content(&None));
}

#[test]
fn all_addresses_failed_lists_each_error() {
    let errs = vec!["1.2.3.4:80: refused".to_string(), "5.6.7.8:80: timeout".to_string()];
    assert_eq!(
        all_addresses_failed("h.test", &errs),
        "all resolved addresses failed for host h.test: 1.2.3.4:80: refused | 5.6.7.8:80: timeout"
    );
}

#[test]
fn ip_literal_grammar() {
    assert_eq!(parse_ip_literal("127.0.0.1"), Some(IpAddress::V4([127, 0, 0, 1])));
    assert_eq!(parse_ip_literal("01.2.3.4"), None);
    assert_eq!(parse_ip_literal("256.1.1.1"), None);
    assert_eq!(parse_ip_literal("1.2.3"), None);
    let mut loopback = [0u8; 16];
    loopback[15] = 1;
    assert_eq!(parse_ip_literal("::1"), Some(IpAddress::V6(loopback)));
    let mut mapped = [0u8; 16];
    mapped[10] = 0xff;
    mapped[11] = 0xff;
    mapped[12] = 10;
    mapped[15] = 7;
    assert_eq!(parse_ip_literal("::ffff:10.0.0.7"), Some(IpAddress::V6(mapped)));
    assert_eq!(parse_ip_literal("1:2:3:4:5:6:7:8:9"), None);
    assert_eq!(parse_ip_literal("1::2::3"), None);
    assert_eq!(parse_ip_literal("1.2.3.4::"), None);
    assert!(parse_ip_literal("2001:db8::ff00:42:8329").is_some());
    assert!(is_ip_literal("[fe80::1]"));
    assert!(!is_ip_literal("example.com"));
    assert!(is_blocked_host("LOCALHOST"));
    assert!(is_blocked_host("[::]"));
    assert!(!is_blocked_host("[2606:4700::1111]"));
    assert!(!is_blocked_host("172.32.0.1"));
    assert!(is_blocked_host("172.31.255.255"));
}

#[test]
fn truncate_chars_counts_characters() {
    assert_eq!(mini_agent::tools::fetch_url::truncate_chars("héllo", 2), "hé");
    assert_eq!(mini_agent::tools::fetch_url::truncate_chars("ab", 5), "ab");
}
