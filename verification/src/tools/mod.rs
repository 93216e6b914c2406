//! The tools offered to the model, their registry, and their checks.
use vstd::prelude::*;

pub mod create_directory;
pub mod fetch_url;
pub mod get_time;
pub mod html;
pub mod ip;
pub mod paths;
pub mod registry;
pub mod types;
pub mod web_search;
pub mod write_file;

pub use create_directory::CreateDirectoryTool;
pub use fetch_url::FetchUrlTool;
pub use get_time::GetTimeTool;
pub use registry::{BuiltinTool, ToolHandler, ToolRegistry};
pub use types::ToolDef;
pub use web_search::WebSearchTool;
pub use write_file::WriteFileTool;

use create_directory::create_directory_def;
use fetch_url::fetch_url_def;
use get_time::get_time_def;
use registry::{registered, registered_handlers};
use types::ToolDefView;
use web_search::web_search_def;
use write_file::write_file_def;

verus! {

/// The registry contents after registering the built-in tools, in order, on
/// top of `s`.
pub open spec fn with_default_tools(s: Seq<ToolDefView>) -> Seq<ToolDefView> {
    registered(
        registered(
            registered(registered(registered(s, create_directory_def()), fetch_url_def()), get_time_def()),
            web_search_def(),
        ),
        write_file_def(),
    )
}

/// The handlers after registering the built-in tools, in order, on top of
/// the tools `s` with handlers `hs`.
pub open spec fn with_default_handlers<H>(s: Seq<ToolDefView>, hs: Seq<ToolHandler<H>>) -> Seq<ToolHandler<H>> {
    let s1 = registered(s, create_directory_def());
    let s2 = registered(s1, fetch_url_def());
    let s3 = registered(s2, get_time_def());
    let s4 = registered(s3, web_search_def());
    let h1 = registered_handlers(s, hs, create_directory_def().name, ToolHandler::Builtin(BuiltinTool::CreateDirectory));
    let h2 = registered_handlers(s1, h1, fetch_url_def().name, ToolHandler::Builtin(BuiltinTool::FetchUrl));
    let h3 = registered_handlers(s2, h2, get_time_def().name, ToolHandler::Builtin(BuiltinTool::GetTime));
    let h4 = registered_handlers(s3, h3, web_search_def().name, ToolHandler::Builtin(BuiltinTool::WebSearch));
    registered_handlers(s4, h4, write_file_def().name, ToolHandler::Builtin(BuiltinTool::WriteFile))
}

/// Registers the built-in tools: `create_directory`, `fetch_url`,
/// `get_time`, `web_search` and `write_file`, each run by its built-in
/// handler.
pub fn register_default_tools<H>(registry: &mut ToolRegistry<H>) -> (r: Result<(), String>)
    requires
        old(registry).wf(),
    ensures
        r is Ok,
        final(registry).wf(),
        final(registry)@ == with_default_tools(old(registry)@),
        final(registry).handlers() == with_default_handlers(old(registry)@, old(registry).handlers()),
{
    registry.register(CreateDirectoryTool::new().definition(), ToolHandler::Builtin(BuiltinTool::CreateDirectory));
    registry.register(FetchUrlTool::new().definition(), ToolHandler::Builtin(BuiltinTool::FetchUrl));
    registry.register(GetTimeTool::new().definition(), ToolHandler::Builtin(BuiltinTool::GetTime));
    registry.register(WebSearchTool::new().definition(), ToolHandler::Builtin(BuiltinTool::WebSearch));
    registry.register(WriteFileTool::new().definition(), ToolHandler::Builtin(BuiltinTool::WriteFile));
    Ok(())
}

} // verus!
