//! The stored records of the application (conversations, messages,
//! providers, debug logs and settings) and the decisions made around them:
//! the seeded providers, the debug-mode flag, and the current time stamp.
use vstd::prelude::*;
use crate::text::{is_blank, owned, str_eq, trim};

verus! {

/// Name of the SQLite database file kept in the application's data directory.
pub const DB_FILENAME: &'static str = "mini-agent.db";

/// The provider seeded first and used by default.
pub const DEFAULT_PROVIDER_ID: &'static str = "deepseek";

/// The display name of the default provider.
pub const DEFAULT_PROVIDER_NAME: &'static str = "DeepSeek";

/// The API style of the default provider.
pub const DEFAULT_PROVIDER_TYPE: &'static str = "openai";

/// The base URL of the default provider.
pub const DEFAULT_BASE_URL: &'static str = "https://api.deepseek.com";

/// The model of the default provider.
pub const DEFAULT_MODEL_ID: &'static str = "deepseek-chat";

/// The settings key of the debug-mode flag.
pub const DEBUG_MODE_KEY: &'static str = "debug_mode";

/// The title of a new conversation.
pub const NEW_CONVERSATION_TITLE: &'static str = "New Chat";

/// A conversation.
pub struct Conversation {
    pub id: String,
    pub title: String,
    pub user_id: Option<String>,
    pub created_at: i64,
    pub updated_at: i64,
}

/// A stored chat message.
pub struct Message {
    pub id: String,
    pub conversation_id: String,
    pub role: String,
    pub content: String,
    pub created_at: i64,
}

/// A configured LLM provider.
pub struct Provider {
    pub id: String,
    pub name: String,
    pub provider_type: String,
    pub base_url: String,
    pub model_id: String,
    pub created_at: i64,
}

/// A logged LLM request and, once it came, its response.
pub struct LlmDebugLog {
    pub id: String,
    pub turn_id: String,
    pub request_json: String,
    pub response_json: Option<String>,
    pub created_at: i64,
}

/// A new, untitled conversation created at `now`.
pub fn new_conversation(id: String, now: i64) -> (c: Conversation)
    ensures
        c.id@ == id@,
        c.title@ == "New Chat"@,
        c.user_id is None,
        c.created_at == now,
        c.updated_at == now,
{
    Conversation { id, title: owned(NEW_CONVERSATION_TITLE), user_id: None, created_at: now, updated_at: now }
}

/// The environment values that shape the seeded provider (`None` when a
/// variable is unset).
pub struct ProviderEnv {
    pub deepseek_base_url: Option<String>,
    pub deepseek_model_id: Option<String>,
    pub minimax_base_url: Option<String>,
}

/// A provider row to insert, or to update when its id exists.
pub struct ProviderSeed {
    pub id: String,
    pub name: String,
    pub provider_type: String,
    pub base_url: String,
    pub model_id: String,
}

/// The model of a provider row: id, name, type, base URL and model.
pub type SeedView = (Seq<char>, Seq<char>, Seq<char>, Seq<char>, Seq<char>);

impl View for ProviderSeed {
    type V = SeedView;

    open spec fn view(&self) -> SeedView {
        (self.id@, self.name@, self.provider_type@, self.base_url@, self.model_id@)
    }
}

/// An environment value, or `default` when it is unset.
pub open spec fn env_or(v: Option<String>, default: Seq<char>) -> Seq<char> {
    match v {
        Some(s) => s@,
        None => default,
    }
}

/// The model of the default provider: `DEEPSEEK_MODEL_ID` when it is set
/// and not blank, else `deepseek-chat` (for Anthropic-style URLs too).
pub open spec fn default_model_id(base_url: Seq<char>, deepseek_model_id: Option<Seq<char>>) -> Seq<char> {
    match deepseek_model_id {
        Some(m) => if trim(m).len() > 0 {
            m
        } else {
            "deepseek-chat"@
        },
        None => "deepseek-chat"@,
    }
}

/// The model of the default provider for `base_url` (see
/// `default_model_id`).
pub fn resolve_default_model_id_for_base_url(base_url: &str, deepseek_model_id: Option<&str>) -> (r: String)
    ensures
        r@ == default_model_id(
            base_url@,
            match deepseek_model_id {
                Some(m) => Some(m@),
                None => None,
            },
        ),
{
    if let Some(m) = deepseek_model_id {
        if !is_blank(m) {
            return owned(m);
        }
    }
    owned(DEFAULT_MODEL_ID)
}

/// The provider row seeded at start-up: DeepSeek, its base URL from
/// `DEEPSEEK_BASE_URL`, else `MINIMAX_BASE_URL`, else the default, and its
/// model per `default_model_id`. Seeding it again updates the same row.
pub open spec fn seeded_providers(env: ProviderEnv) -> Seq<SeedView> {
    let ds_url = match env.deepseek_base_url {
        Some(u) => u@,
        None => env_or(env.minimax_base_url, "https://api.deepseek.com"@),
    };
    seq![
        (
            "deepseek"@,
            "DeepSeek"@,
            "openai"@,
            ds_url,
            default_model_id(
                ds_url,
                match env.deepseek_model_id {
                    Some(m) => Some(m@),
                    None => None,
                },
            ),
        ),
    ]
}

/// The value of an optional environment variable, or `default`.
fn env_value_or(v: &Option<String>, default: &str) -> (r: String)
    ensures
        r@ == env_or(*v, default@),
{
    match v {
        Some(s) => owned(s.as_str()),
        None => owned(default),
    }
}

/// The provider rows to seed from the environment values `env` (see
/// `seeded_providers`).
pub fn default_provider_rows(env: &ProviderEnv) -> (r: Vec<ProviderSeed>)
    ensures
        r@.map_values(|p: ProviderSeed| p@) == seeded_providers(*env),
{
    let ds_url = match &env.deepseek_base_url {
        Some(u) => owned(u.as_str()),
        None => env_value_or(&env.minimax_base_url, DEFAULT_BASE_URL),
    };
    let ds_model = resolve_default_model_id_for_base_url(
        ds_url.as_str(),
        match &env.deepseek_model_id {
            Some(m) => Some(m.as_str()),
            None => None,
        },
    );
    let mut rows: Vec<ProviderSeed> = Vec::new();
    rows.push(
        ProviderSeed {
            id: owned(DEFAULT_PROVIDER_ID),
            name: owned(DEFAULT_PROVIDER_NAME),
            provider_type: owned(DEFAULT_PROVIDER_TYPE),
            base_url: ds_url,
            model_id: ds_model,
        },
    );
    assert(rows@.map_values(|p: ProviderSeed| p@) =~= seeded_providers(*env));
    rows
}

/// The stored text of the debug-mode flag.
pub open spec fn debug_flag_text(enabled: bool) -> Seq<char> {
    if enabled {
        "true"@
    } else {
        "false"@
    }
}

/// Whether the stored setting `stored` turns debug mode on: only the text
/// `true` does; a missing setting leaves it off.
pub open spec fn debug_flag_on(stored: Option<Seq<char>>) -> bool {
    stored == Some("true"@)
}

/// The text stored for the debug-mode flag `enabled`.
pub fn debug_mode_value(enabled: bool) -> (r: &'static str)
    ensures
        r@ == debug_flag_text(enabled),
{
    if enabled {
        "true"
    } else {
        "false"
    }
}

/// Whether the stored setting `stored` turns debug mode on.
pub fn debug_mode_from_setting(stored: Option<&str>) -> (r: bool)
    ensures
        r == debug_flag_on(
            match stored {
                Some(s) => Some(s@),
                None => None,
            },
        ),
{
    match stored {
        Some(s) => str_eq(s, "true"),
        None => false,
    }
}

/// Reading the debug-mode flag gives back what was last stored.
pub proof fn lemma_debug_mode_round_trip(enabled: bool)
    ensures
        debug_flag_on(Some(debug_flag_text(enabled))) == enabled,
{
    reveal_strlit("true");
    reveal_strlit("false");
    if !enabled {
        assert(debug_flag_text(enabled)[0] != "true"@[0]);
    }
}

/// A reading of the system clock, as `std` holds it.
#[verifier::external_type_specification]
#[verifier::external_body]
pub struct ExSystemTime(std::time::SystemTime);

/// The system clock now (`SystemTime::now`); it depends on the moment, so
/// nothing is stated of it.
#[verifier::external_body]
fn system_now() -> (r: std::time::SystemTime) {
    std::time::SystemTime::now()
}

/// Whole seconds from the Unix epoch to `t`
/// (`SystemTime::duration_since(UNIX_EPOCH)`), `None` for a time before the
/// epoch; nothing is stated of a reading of the clock.
#[verifier::external_body]
fn seconds_since_epoch(t: &std::time::SystemTime) -> (r: Option<u64>) {
    t.duration_since(std::time::UNIX_EPOCH).ok().map(|d| d.as_secs())
}

/// The time stamp for a clock reading of `secs` seconds since the epoch:
/// zero for a clock before the epoch, else the seconds as `i64` (keeping
/// the low 64 bits).
pub fn unix_ts_from(secs: Option<u64>) -> (r: i64)
    ensures
        match secs {
            None => r == 0,
            Some(s) => r == s as i64,
        },
{
    match secs {
        None => 0,
        Some(s) => s as i64,
    }
}

/// The current time in seconds since the Unix epoch, zero when the clock
/// reads earlier.
pub fn now_unix_ts() -> (r: i64) {
    let now = system_now();
    unix_ts_from(seconds_since_epoch(&now))
}

} // verus!
