//! The agent's view of a conversation: the messages handed to the model,
//! the provider it talks to, and the events shown to the user interface.
use vstd::prelude::*;
use crate::json::JsonValue;
use crate::llm::minimax::{anthropic_like, is_anthropic_like_base_url, ChatMessage};
use crate::turn::msg_view;
use crate::text::{ascii_lower, ascii_lower_chars, chars_of, concat2, owned, seq_eq, starts_with, starts_with_chars, trim, trim_chars, trim_str};

verus! {

/// The model used in Anthropic mode when the stored model is an
/// OpenAI-style default.
pub const DEFAULT_ANTHROPIC_RUNTIME_MODEL: &'static str = "MiniMax-M2.5";

/// The OpenAI-style default model of MiniMax.
pub const DEFAULT_OPENAI_STYLE_MINIMAX_MODEL: &'static str = "abab6.5";

/// A stored message as the model sees it.
pub struct StoredMessage {
    pub role: String,
    pub content: String,
}

/// The provider a conversation talks to, with the model to use.
pub struct ProviderRuntime {
    pub provider_id: String,
    pub base_url: String,
    pub model_id: String,
}

/// A piece of the assistant's reply, streamed to the user interface.
pub struct ChatDeltaEvent {
    pub conversation_id: String,
    pub message_id: String,
    pub delta: String,
}

/// The end of the assistant's reply.
pub struct ChatDoneEvent {
    pub conversation_id: String,
    pub message_id: String,
}

/// A failed agent turn.
pub struct ChatErrorEvent {
    pub conversation_id: String,
    pub message_id: String,
    pub message: String,
}

/// A tool call that waits for the user's approval.
pub struct PendingApprovalEvent {
    pub conversation_id: String,
    pub message_id: String,
    pub approval_id: String,
    pub action_type: String,
    pub payload: JsonValue,
}

/// The messages for the model: the stored ones, in their stored order, with
/// role and content.
pub fn build_messages_for_llm(rows: Vec<StoredMessage>) -> (r: Vec<ChatMessage>)
    ensures
        r@.len() == rows@.len(),
        forall|i: int|
            0 <= i < rows@.len() ==> #[trigger] msg_view(r@[i]) == (rows@[i].role@, rows@[i].content@)
                && r@[i].content_blocks is None,
{
    let mut out: Vec<ChatMessage> = Vec::new();
    let mut i: usize = 0;
    while i < rows.len()
        invariant
            i <= rows@.len(),
            out@.len() == i,
            forall|k: int|
                0 <= k < i ==> #[trigger] msg_view(out@[k]) == (rows@[k].role@, rows@[k].content@)
                    && out@[k].content_blocks is None,
        decreases rows@.len() - i,
    {
        out.push(
            ChatMessage {
                role: owned(rows[i].role.as_str()),
                content: owned(rows[i].content.as_str()),
                content_blocks: None,
            },
        );
        i = i + 1;
    }
    out
}

/// Whether `model_id` is an OpenAI-style MiniMax model: after trimming and
/// ASCII lower-casing, `abab6.5` or any name starting with `abab`.
pub open spec fn openai_style_default_model(model_id: Seq<char>) -> bool {
    let n = ascii_lower(trim(model_id));
    n == "abab6.5"@ || starts_with(n, "abab"@)
}

/// Whether `model_id` is an OpenAI-style MiniMax model.
pub fn is_openai_style_default_model(model_id: &str) -> (r: bool)
    ensures
        r == openai_style_default_model(model_id@),
{
    let v = chars_of(model_id);
    let t = trim_chars(v.as_slice());
    let n = ascii_lower_chars(t.as_slice());
    let exact = chars_of(DEFAULT_OPENAI_STYLE_MINIMAX_MODEL);
    let prefix = chars_of("abab");
    seq_eq(n.as_slice(), exact.as_slice()) || starts_with_chars(n.as_slice(), prefix.as_slice())
}

/// The model a conversation uses: in Anthropic mode an OpenAI-style stored
/// model is replaced by the trimmed `MINIMAX_MODEL_ID` (`env_model_id`) when
/// it is not blank, else by `MiniMax-M2.5`; otherwise the stored model.
pub open spec fn runtime_model_id(base_url: Seq<char>, stored: Seq<char>, env_model_id: Option<Seq<char>>) -> Seq<char> {
    if anthropic_like(base_url) && openai_style_default_model(stored) {
        match env_model_id {
            Some(m) => if trim(m).len() > 0 {
                trim(m)
            } else {
                "MiniMax-M2.5"@
            },
            None => "MiniMax-M2.5"@,
        }
    } else {
        stored
    }
}

/// The model a conversation uses (see `runtime_model_id`); `env_model_id` is
/// the value of `MINIMAX_MODEL_ID`, if set.
pub fn resolve_runtime_model_id(base_url: &str, stored_model_id: &str, env_model_id: Option<&str>) -> (r: String)
    ensures
        r@ == runtime_model_id(
            base_url@,
            stored_model_id@,
            match env_model_id {
                Some(m) => Some(m@),
                None => None,
            },
        ),
{
    if is_anthropic_like_base_url(base_url) && is_openai_style_default_model(stored_model_id) {
        if let Some(m) = env_model_id {
            let t = trim_str(m);
            if !t.as_str().is_empty() {
                return t;
            }
        }
        return owned(DEFAULT_ANTHROPIC_RUNTIME_MODEL);
    }
    owned(stored_model_id)
}

/// The provider of a conversation from its stored provider row (id, base URL,
/// stored model), with the model resolved; an error when there is none.
pub fn runtime_from_row(
    conversation_id: &str,
    row: Option<(String, String, String)>,
    env_model_id: Option<&str>,
) -> (r: Result<ProviderRuntime, String>)
    ensures
        match row {
            None => r matches Err(e) && e@ == "conversation not found or provider missing: "@ + conversation_id@,
            Some((id, url, model)) => r matches Ok(p) && p.provider_id@ == id@ && p.base_url@ == url@
                && p.model_id@ == runtime_model_id(
                url@,
                model@,
                match env_model_id {
                    Some(m) => Some(m@),
                    None => None,
                },
            ),
        },
{
    match row {
        None => Err(concat2("conversation not found or provider missing: ", conversation_id)),
        Some((id, url, model)) => {
            let model_id = resolve_runtime_model_id(url.as_str(), model.as_str(), env_model_id);
            Ok(ProviderRuntime { provider_id: id, base_url: url, model_id })
        },
    }
}

} // verus!
