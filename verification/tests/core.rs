use mini_agent::agent::{build_messages_for_llm, is_openai_style_default_model, resolve_runtime_model_id, runtime_from_row, StoredMessage};
use mini_agent::commands::{api_key_var, check_config, default_provider_id, is_provider_configured, listed_providers, provider_not_found};
use mini_agent::db::{
    debug_mode_from_setting, debug_mode_value, default_provider_rows, new_conversation, resolve_default_model_id_for_base_url,
    now_unix_ts, unix_ts_from, Provider, ProviderEnv, DB_FILENAME, DEFAULT_PROVIDER_ID,
};
use mini_agent::llm::sse::collect_streamed_response_from_chunks;
use mini_agent::{chunk_assistant_content, greet, select_provider_id, tool_branch_for_name, ToolBranch};

fn provider(id: &str, created_at: i64) -> Provider {
    Provider {
        id: id.to_string(),
        name: id.to_string(),
        provider_type: "openai".to_string(),
        base_url: "http://example".to_string(),
        model_id: "m".to_string(),
        created_at,
    }
}

fn empty_env() -> ProviderEnv {
    ProviderEnv {
        deepseek_base_url: None,
        deepseek_model_id: None,
        minimax_base_url: None,
    }
}

#[test]
fn db_filename_matches_plan() {
    assert_eq!(DB_FILENAME, "mini-agent.db");
}

#[test]
fn tool_branch_for_name_routes_approval_tools_to_pending_path() {
    assert_eq!(tool_branch_for_name("create_directory"), ToolBranch::NeedsApproval);
    assert_eq!(tool_branch_for_name("write_file"), ToolBranch::NeedsApproval);
    assert_eq!(tool_branch_for_name("web_search"), ToolBranch::ExecuteImmediately);
}

#[test]
fn chunk_assistant_content_returns_non_empty_chunks_and_reconstructs_original() {
    let content = "Hello   world!\nThis is a long-ish response with punctuation...";
    let chunks = chunk_assistant_content(content, 8);

    assert!(!chunks.is_empty(), "expected at least one chunk");
    assert!(chunks.iter().all(|c| !c.is_empty()));
    assert_eq!(chunks.join(""), content);
}

#[test]
fn chunk_assistant_content_keeps_chunks_within_limit() {
    let content = "abcdefghijklmnop qr";
    let chunks = chunk_assistant_content(content, 5);
    assert_eq!(chunks, vec!["abcde", "fghij", "klmno", "p", " qr"]);
    assert!(chunk_assistant_content("", 5).is_empty());
    assert_eq!(chunk_assistant_content("ab", 0), vec!["a", "b"]);
}

#[test]
fn collects_split_multibyte_utf8_chunks() {
    let chunks = vec![
        b"data: {\"choices\":[{\"delta\":{\"content\":\"\xE4".to_vec(),
        b"\xBD\xA0\"}}]}\n\ndata: {\"choices\":[{\"delta\":{\"content\":\"\xE5\xA5".to_vec(),
        b"\xBD\"}}]}\n\ndata: [DONE]\n\n".to_vec(),
    ];

    let streamed = collect_streamed_response_from_chunks(chunks)
        .expect("split UTF-8 chunks should decode and parse correctly");

    assert_eq!(streamed.deltas, vec!["你".to_string(), "好".to_string()]);
    assert_eq!(streamed.collected_text, "你好");
}

#[test]
fn collects_streamed_text_deltas() {
    let chunks = vec![b"data: {\"choices\":[{\"delta\":{\"content\":\"Hello\"}}]}\n\ndata: {\"choices\":[{\"delta\":{\"content\":\" world\"}}]}\n\ndata: [DONE]\n\n".to_vec()];
    let streamed = collect_streamed_response_from_chunks(chunks).expect("streaming should parse SSE-style deltas");
    assert_eq!(streamed.deltas, vec!["Hello".to_string(), " world".to_string()]);
    assert_eq!(streamed.collected_text, "Hello world");
}

#[test]
fn streamed_invalid_utf8_is_an_error() {
    let chunks = vec![b"data: {\"choices\":[{\"delta\":{\"content\":\"\xFF\"}}]}\n\n".to_vec()];
    let err = collect_streamed_response_from_chunks(chunks).err().expect("invalid UTF-8 must fail");
    assert!(err.message().starts_with("stream chunk contained invalid utf-8: "));
}

#[test]
fn stream_result_does_not_depend_on_split() {
    let good: Vec<u8> = "data: {\"choices\":[{\"delta\":{\"content\":\"你好\"}}]}\n\ndata: {\"choices\":[{\"delta\":{\"content\":\" 世界\"}}]}\n\ndata: [DONE]\n\n"
        .as_bytes()
        .to_vec();
    let whole = collect_streamed_response_from_chunks(vec![good.clone()]).expect("the whole stream reads");
    assert_eq!(whole.deltas, vec!["你好".to_string(), " 世界".to_string()]);
    for cut in 0..=good.len() {
        for cut2 in cut..=good.len() {
            let chunks = vec![good[..cut].to_vec(), good[cut..cut2].to_vec(), good[cut2..].to_vec()];
            let split = collect_streamed_response_from_chunks(chunks).expect("every split reads");
            assert_eq!(split.deltas, whole.deltas);
            assert_eq!(split.collected_text, "你好 世界");
        }
    }
    let mut bad = good.clone();
    bad[40] = 0xFF;
    for cut in 0..=bad.len() {
        let chunks = vec![bad[..cut].to_vec(), bad[cut..].to_vec()];
        assert!(collect_streamed_response_from_chunks(chunks).is_err(), "split at {}", cut);
    }
    let truncated = good[..good.len() - 30].to_vec();
    let mut cut_char = truncated.clone();
    cut_char.push(0xE4);
    for cut in 0..=cut_char.len() {
        let chunks = vec![cut_char[..cut].to_vec(), cut_char[cut..].to_vec()];
        assert!(collect_streamed_response_from_chunks(chunks).is_err(), "a stream ending inside a character fails");
    }
}

#[test]
fn greet_says_hello() {
    assert_eq!(greet("Ada"), "Hello, Ada! You've been greeted from Rust!");
}

#[test]
fn select_provider_id_prefers_minimax_when_present() {
    let providers = vec![provider("other", 1), provider("minimax", 2)];
    let selected = select_provider_id(&providers).expect("provider selection should succeed");
    assert_eq!(selected, "minimax");
}

#[test]
fn select_provider_id_falls_back_to_first_provider() {
    let providers = vec![provider("other", 1)];
    let selected = select_provider_id(&providers).expect("provider selection should succeed");
    assert_eq!(selected, "other");
}

#[test]
fn select_provider_id_errors_when_no_provider_exists() {
    let err = select_provider_id(&[]).expect_err("provider selection should fail when no provider exists");
    assert!(err.contains("no providers configured"));
}

#[test]
fn resolve_runtime_model_id_uses_anthropic_fallback_for_openai_style_default() {
    let resolved = resolve_runtime_model_id("https://api.minimaxi.com/anthropic", "abab6.5", None);
    assert_eq!(resolved, "MiniMax-M2.5");
}

#[test]
fn resolve_runtime_model_id_prefers_env_override_in_anthropic_mode() {
    let resolved = resolve_runtime_model_id("https://api.minimaxi.com/anthropic", "abab6.5", Some("MiniMax-M2.5-Pro"));
    assert_eq!(resolved, "MiniMax-M2.5-Pro");
}

#[test]
fn resolve_runtime_model_id_keeps_existing_model_for_openai_mode() {
    let resolved = resolve_runtime_model_id("https://api.minimax.chat/v1", "abab6.5", None);
    assert_eq!(resolved, "abab6.5");
}

#[test]
fn resolve_runtime_model_id_trims_env_and_ignores_blank() {
    assert_eq!(resolve_runtime_model_id("https://x/Anthropic", " ABAB5 ", Some("  M3  ")), "M3");
    assert_eq!(resolve_runtime_model_id("https://x/anthropic", "abab6.5", Some("   ")), "MiniMax-M2.5");
    assert_eq!(resolve_runtime_model_id("https://x/anthropic", "gpt-4o", Some("M3")), "gpt-4o");
}

#[test]
fn openai_style_default_model_detection() {
    assert!(is_openai_style_default_model("abab6.5"));
    assert!(is_openai_style_default_model("  ABAB7-chat "));
    assert!(!is_openai_style_default_model("MiniMax-M2.5"));
    assert!(!is_openai_style_default_model("aba"));
}

#[test]
fn runtime_from_row_reports_missing_conversation() {
    let err = runtime_from_row("conv-9", None, None).err().expect("missing row is an error");
    assert_eq!(err, "conversation not found or provider missing: conv-9");
    let ok = runtime_from_row(
        "conv-1",
        Some(("minimax".to_string(), "https://api.minimaxi.com/anthropic".to_string(), "abab6.5".to_string())),
        None,
    )
    .ok()
    .expect("row gives a runtime");
    assert_eq!(ok.provider_id, "minimax");
    assert_eq!(ok.model_id, "MiniMax-M2.5");
}

#[test]
fn build_messages_for_llm_preserves_role_content_and_order() {
    let rows = vec![
        StoredMessage { role: "user".to_string(), content: "Hello".to_string() },
        StoredMessage { role: "assistant".to_string(), content: "Hi there".to_string() },
        StoredMessage { role: "user".to_string(), content: "Plan a trip".to_string() },
    ];
    let messages = build_messages_for_llm(rows);
    assert_eq!(messages.len(), 3);
    let pairs: Vec<(String, String)> = messages.iter().map(|m| (m.role.clone(), m.content.clone())).collect();
    assert_eq!(
        pairs,
        vec![
            ("user".to_string(), "Hello".to_string()),
            ("assistant".to_string(), "Hi there".to_string()),
            ("user".to_string(), "Plan a trip".to_string()),
        ]
    );
    assert!(messages.iter().all(|m| m.content_blocks.is_none()));
}

#[test]
fn debug_mode_defaults_to_false() {
    assert!(!debug_mode_from_setting(None));
}

#[test]
fn set_debug_mode_to_true() {
    assert!(debug_mode_from_setting(Some(debug_mode_value(true))));
}

#[test]
fn set_debug_mode_to_false() {
    assert!(!debug_mode_from_setting(Some(debug_mode_value(false))));
    assert!(!debug_mode_from_setting(Some("TRUE")));
}

#[test]
fn get_conversation_returns_saved_row() {
    let c = new_conversation("conv-1".to_string(), 42);
    assert_eq!(c.title, "New Chat");
    assert_eq!(c.id, "conv-1");
    assert_eq!(c.created_at, 42);
    assert_eq!(c.updated_at, 42);
    assert!(c.user_id.is_none());
}

#[test]
fn defaults_model_to_m2_5_when_anthropic_base_url_and_model_env_missing() {
    let mut env = empty_env();
    env.deepseek_base_url = Some("https://api.deepseek.com/anthropic".to_string());
    let rows = default_provider_rows(&env);
    assert_eq!(rows[0].id, DEFAULT_PROVIDER_ID);
    assert_eq!(rows[0].model_id, "deepseek-chat");
    assert_eq!(rows[0].base_url, "https://api.deepseek.com/anthropic");
}

#[test]
fn insert_default_provider_is_idempotent() {
    let rows = default_provider_rows(&empty_env());
    assert_eq!(rows.len(), 1);
    assert_eq!(rows[0].id, DEFAULT_PROVIDER_ID);
    assert_eq!(rows[0].name, "DeepSeek");
    assert_eq!(rows[0].base_url, "https://api.deepseek.com");
    assert_eq!(rows[0].model_id, "deepseek-chat");
}

#[test]
fn default_provider_rows_follow_environment() {
    let mut env = empty_env();
    env.minimax_base_url = Some("https://mm.example/v1".to_string());
    env.deepseek_model_id = Some("ds-custom".to_string());
    let rows = default_provider_rows(&env);
    assert_eq!(rows[0].base_url, "https://mm.example/v1");
    assert_eq!(rows[0].model_id, "ds-custom");
    env.deepseek_base_url = Some("https://ds.example".to_string());
    assert_eq!(default_provider_rows(&env)[0].base_url, "https://ds.example");
    assert_eq!(resolve_default_model_id_for_base_url("https://x", Some("  ")), "deepseek-chat");
}

#[test]
fn now_unix_ts_reads_the_clock() {
    assert!(now_unix_ts() > 1_600_000_000);
}

#[test]
fn unix_ts_conversion() {
    assert_eq!(unix_ts_from(None), 0);
    assert_eq!(unix_ts_from(Some(1_700_000_000)), 1_700_000_000);
}

#[test]
fn config_and_provider_listing() {
    assert!(check_config(Some("key")).has_api_key);
    assert!(!check_config(Some("   ")).has_api_key);
    assert!(!check_config(None).has_api_key);
    assert_eq!(api_key_var("deepseek"), Some("DEEPSEEK_API_KEY"));
    assert_eq!(api_key_var("other"), None);
    assert!(is_provider_configured("minimax", Some("k")));
    assert!(!is_provider_configured("other", Some("k")));
    assert!(!is_provider_configured("openai", None));
    let listed = listed_providers(&vec![provider("openai", 1), provider("deepseek", 2), provider("minimax", 3)]);
    let ids: Vec<&str> = listed.iter().map(|p| p.id.as_str()).collect();
    assert_eq!(ids, vec!["deepseek", "minimax"]);
    assert_eq!(default_provider_id(None), "deepseek");
    assert_eq!(default_provider_id(Some("minimax".to_string())), "minimax");
    assert_eq!(provider_not_found("x"), "provider x not found");
}
