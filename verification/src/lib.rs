//! The verified core of a desktop chat agent: conversation and provider
//! records, the tool catalogue and its safety checks, the approval flow for
//! file-system actions, the LLM wire formats, and the agent turn.
use vstd::prelude::*;

pub mod agent;
pub mod approval;
pub mod chunks;
pub mod commands;
pub mod db;
pub mod json;
pub mod llm;
pub mod text;
pub mod tools;
pub mod turn;

pub use chunks::chunk_assistant_content;
pub use turn::{tool_branch_for_name, ToolBranch, CHAT_DELTA_MAX_CHARS, MAX_TOOL_LOOP_STEPS};

use crate::db::Provider;
use crate::text::{concat3, owned, str_eq};
use crate::tools::ToolRegistry;

verus! {

/// The tools available to every agent turn, each with what runs it.
pub struct ToolRegistryState<H> {
    pub registry: ToolRegistry<H>,
}

/// The provider a new conversation prefers when it is configured.
pub const PREFERRED_PROVIDER_ID: &'static str = "minimax";

/// A greeting for `name`.
pub fn greet(name: &str) -> (r: String)
    ensures
        r@ == "Hello, "@ + name@ + "! You've been greeted from Rust!"@,
{
    concat3("Hello, ", name, "! You've been greeted from Rust!")
}

/// The provider chosen for a new conversation among the providers with the
/// ids `ids` (in creation order): MiniMax when it is there, else the first.
pub open spec fn selected_provider(ids: Seq<Seq<char>>) -> Result<Seq<char>, Seq<char>> {
    if ids.contains("minimax"@) {
        Ok("minimax"@)
    } else if ids.len() > 0 {
        Ok(ids[0])
    } else {
        Err("no providers configured; configure at least one provider"@)
    }
}

/// The provider for a new conversation among `providers`, listed in
/// creation order (see `selected_provider`).
pub fn select_provider_id(providers: &[Provider]) -> (r: Result<String, String>)
    ensures
        match r {
            Ok(id) => selected_provider(providers@.map_values(|p: Provider| p.id@)) == Ok::<Seq<char>, Seq<char>>(id@),
            Err(e) => selected_provider(providers@.map_values(|p: Provider| p.id@)) == Err::<Seq<char>, Seq<char>>(e@),
        },
{
    let ghost ids = providers@.map_values(|p: Provider| p.id@);
    let mut i: usize = 0;
    while i < providers.len()
        invariant
            i <= providers@.len(),
            ids == providers@.map_values(|p: Provider| p.id@),
            forall|k: int| 0 <= k < i ==> ids[k] != "minimax"@,
        decreases providers@.len() - i,
    {
        if str_eq(providers[i].id.as_str(), PREFERRED_PROVIDER_ID) {
            assert(ids[i as int] == "minimax"@);
            return Ok(owned(PREFERRED_PROVIDER_ID));
        }
        i = i + 1;
    }
    assert(!ids.contains("minimax"@));
    if providers.len() > 0 {
        return Ok(owned(providers[0].id.as_str()));
    }
    Err(owned("no providers configured; configure at least one provider"))
}

} // verus!
