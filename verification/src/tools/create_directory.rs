//! The `create_directory` tool: it asks for approval and creates nothing.
use vstd::prelude::*;
use crate::json::{json_entries, lemma_json_entries, render_json, render_json_text, Json, JsonValue};
use crate::text::{owned, trim, trim_str};
use crate::tools::paths::{
    check_view, portable_safe, safe_path_check, text_result_view, validate_safe_path, PathPart,
};
use crate::tools::types::{object_schema, object_schema_value, string_param, string_param_schema, ToolDef, ToolDefView};

verus! {

/// The tool that requests approval to create a directory.
pub struct CreateDirectoryTool;

/// The definition of the `create_directory` tool.
pub open spec fn create_directory_def() -> ToolDefView {
    ToolDefView {
        id: "create_directory"@,
        name: "create_directory"@,
        description: "Request approval to create a directory"@,
        parameters: object_schema(
            seq![("path"@, string_param("Directory path to create"@))],
            seq![Json::Str("path"@)],
        ),
    }
}

/// The trimmed string argument `key` of a tool call; empty when it is missing
/// or not a string.
pub open spec fn trimmed_arg(args: Json, key: Seq<char>) -> Seq<char> {
    match args.get_str(key) {
        Some(p) => trim(p),
        None => Seq::empty(),
    }
}

/// The reply of an approval tool: the action is pending, with its payload.
pub open spec fn pending_reply(payload: Seq<(Seq<char>, Json)>) -> Json {
    Json::Object(seq![("status"@, Json::Str("PENDING_APPROVAL"@)), ("payload"@, Json::Object(payload))])
}

/// What `create_directory` answers for the arguments `args`, where `parts`
/// are the components the platform reads in the path.
pub open spec fn create_directory_outcome(args: Json, parts: Seq<PathPart>) -> Result<Seq<char>, Seq<char>> {
    let path = trimmed_arg(args, "path"@);
    if path.len() == 0 {
        Err("missing required argument: path"@)
    } else {
        match safe_path_check(path, parts) {
            Err(e) => Err(e),
            Ok(_) => Ok(render_json_text(pending_reply(seq![("path"@, Json::Str(path))]))),
        }
    }
}

/// The trimmed string argument `key` of `args` (`""` when missing).
pub fn trimmed_arg_value(args: &JsonValue, key: &str) -> (r: String)
    ensures
        r@ == trimmed_arg(args@, key@),
{
    match args.get_str(key) {
        Some(p) => trim_str(p),
        None => {
            proof {
                reveal_strlit("");
            }
            owned("")
        },
    }
}

/// The pending-approval reply carrying the entries `payload`.
pub fn pending_reply_value(payload: Vec<(String, JsonValue)>) -> (r: JsonValue)
    ensures
        r@ == pending_reply(json_entries(payload@)),
{
    let ghost pv = json_entries(payload@);
    let mut e: Vec<(String, JsonValue)> = Vec::new();
    e.push((owned("status"), JsonValue::from_str("PENDING_APPROVAL")));
    e.push((owned("payload"), JsonValue::Object(payload)));
    proof {
        lemma_json_entries(e@);
        assert(json_entries(e@) =~= seq![
            ("status"@, Json::Str("PENDING_APPROVAL"@)),
            ("payload"@, Json::Object(pv)),
        ]);
    }
    JsonValue::Object(e)
}

impl CreateDirectoryTool {
    pub fn new() -> (r: CreateDirectoryTool) {
        CreateDirectoryTool
    }

    /// The tool's name, description and parameter schema.
    pub fn definition(&self) -> (r: ToolDef)
        ensures
            r@ == create_directory_def(),
    {
        let mut props: Vec<(String, JsonValue)> = Vec::new();
        props.push((owned("path"), string_param_schema("Directory path to create")));
        let mut required: Vec<JsonValue> = Vec::new();
        required.push(JsonValue::from_str("path"));
        proof {
            lemma_json_entries(props@);
            assert(json_entries(props@) =~= seq![("path"@, string_param("Directory path to create"@))]);
            crate::json::lemma_json_views(required@);
            assert(crate::json::json_views(required@) =~= seq![Json::Str("path"@)]);
        }
        ToolDef {
            id: owned("create_directory"),
            name: owned("create_directory"),
            description: owned("Request approval to create a directory"),
            parameters: object_schema_value(props, required),
        }
    }

    /// Checks the `path` argument and answers that the creation awaits
    /// approval; nothing is created. The path is read as the platform the
    /// program runs on reads it; on every platform an accepted path neither
    /// starts at `/` nor has a `/`-separated `..` component.
    pub fn execute(&self, args: &JsonValue) -> (r: Result<String, String>)
        ensures
            exists|parts: Seq<PathPart>| #[trigger] create_directory_outcome(args@, parts) == text_result_view(r),
            r is Ok ==> trimmed_arg(args@, "path"@).len() > 0 && portable_safe(trimmed_arg(args@, "path"@)),
    {
        let path = trimmed_arg_value(args, "path");
        if path.as_str().is_empty() {
            proof {
                assert(path@.len() == 0);
            }
            let r = Err(owned("missing required argument: path"));
            assert(create_directory_outcome(args@, Seq::empty()) == text_result_view(r));
            return r;
        }
        let checked = validate_safe_path(path.as_str());
        let ghost w = choose|parts: Seq<PathPart>| #[trigger] safe_path_check(path@, parts) == check_view(checked);
        match checked {
            Err(e) => {
                let r = Err(e);
                assert(create_directory_outcome(args@, w) == text_result_view(r));
                return r;
            },
            Ok(_) => {},
        }
        let mut payload: Vec<(String, JsonValue)> = Vec::new();
        let ghost p = path@;
        payload.push((owned("path"), JsonValue::Str(path)));
        proof {
            lemma_json_entries(payload@);
            assert(json_entries(payload@) =~= seq![("path"@, Json::Str(p))]);
        }
        let reply = pending_reply_value(payload);
        let r = Ok(render_json(&reply));
        assert(create_directory_outcome(args@, w) == text_result_view(r));
        r
    }
}

} // verus!
