//! The `write_file` tool: it asks for approval and writes nothing.
use vstd::prelude::*;
use crate::json::{json_entries, json_views, lemma_json_entries, lemma_json_views, render_json, render_json_text, Json, JsonValue};
use crate::text::owned;
use crate::tools::create_directory::{pending_reply, pending_reply_value, trimmed_arg, trimmed_arg_value};
use crate::tools::paths::{
    check_view, portable_safe, safe_path_check, text_result_view, validate_safe_path, PathPart,
};
use crate::tools::types::{object_schema, object_schema_value, string_param, string_param_schema, ToolDef, ToolDefView};

verus! {

/// The tool that requests approval to write a file.
pub struct WriteFileTool;

/// The definition of the `write_file` tool.
pub open spec fn write_file_def() -> ToolDefView {
    ToolDefView {
        id: "write_file"@,
        name: "write_file"@,
        description: "Request approval to write a file"@,
        parameters: object_schema(
            seq![
                ("path"@, string_param("File path to write"@)),
                ("content"@, string_param("Text content to write after approval"@)),
            ],
            seq![Json::Str("path"@), Json::Str("content"@)],
        ),
    }
}

/// What `write_file` answers for the arguments `args`, where `parts` are
/// the components the platform reads in the path.
pub open spec fn write_file_outcome(args: Json, parts: Seq<PathPart>) -> Result<Seq<char>, Seq<char>> {
    let path = trimmed_arg(args, "path"@);
    if path.len() == 0 {
        Err("missing required argument: path"@)
    } else {
        match args.get_str("content"@) {
            None => Err("missing required argument: content"@),
            Some(content) => match safe_path_check(path, parts) {
                Err(e) => Err(e),
                Ok(_) => Ok(
                    render_json_text(
                        pending_reply(
                            seq![("path"@, Json::Str(path)), ("content"@, Json::Str(content))],
                        ),
                    ),
                ),
            },
        }
    }
}

impl WriteFileTool {
    pub fn new() -> (r: WriteFileTool) {
        WriteFileTool
    }

    /// The tool's name, description and parameter schema.
    pub fn definition(&self) -> (r: ToolDef)
        ensures
            r@ == write_file_def(),
    {
        let mut props: Vec<(String, JsonValue)> = Vec::new();
        props.push((owned("path"), string_param_schema("File path to write")));
        props.push((owned("content"), string_param_schema("Text content to write after approval")));
        let mut required: Vec<JsonValue> = Vec::new();
        required.push(JsonValue::from_str("path"));
        required.push(JsonValue::from_str("content"));
        proof {
            lemma_json_entries(props@);
            assert(json_entries(props@) =~= seq![
                ("path"@, string_param("File path to write"@)),
                ("content"@, string_param("Text content to write after approval"@)),
            ]);
            lemma_json_views(required@);
            assert(json_views(required@) =~= seq![Json::Str("path"@), Json::Str("content"@)]);
        }
        ToolDef {
            id: owned("write_file"),
            name: owned("write_file"),
            description: owned("Request approval to write a file"),
            parameters: object_schema_value(props, required),
        }
    }

    /// Checks the `path` and `content` arguments and answers that the write
    /// awaits approval; nothing is written. The path is read as the platform
    /// the program runs on reads it; on every platform an accepted path
    /// neither starts at `/` nor has a `/`-separated `..` component.
    pub fn execute(&self, args: &JsonValue) -> (r: Result<String, String>)
        ensures
            exists|parts: Seq<PathPart>| #[trigger] write_file_outcome(args@, parts) == text_result_view(r),
            r is Ok ==> trimmed_arg(args@, "path"@).len() > 0 && portable_safe(trimmed_arg(args@, "path"@)),
    {
        let path = trimmed_arg_value(args, "path");
        if path.as_str().is_empty() {
            proof {
                assert(path@.len() == 0);
            }
            let r = Err(owned("missing required argument: path"));
            assert(write_file_outcome(args@, Seq::empty()) == text_result_view(r));
            return r;
        }
        let content = match args.get_str("content") {
            Some(c) => c,
            None => {
                let r = Err(owned("missing required argument: content"));
                assert(write_file_outcome(args@, Seq::empty()) == text_result_view(r));
                return r;
            },
        };
        let checked = validate_safe_path(path.as_str());
        let ghost w = choose|parts: Seq<PathPart>| #[trigger] safe_path_check(path@, parts) == check_view(checked);
        match checked {
            Err(e) => {
                let r = Err(e);
                assert(write_file_outcome(args@, w) == text_result_view(r));
                return r;
            },
            Ok(_) => {},
        }
        let mut payload: Vec<(String, JsonValue)> = Vec::new();
        let ghost p = path@;
        payload.push((owned("path"), JsonValue::Str(path)));
        payload.push((owned("content"), JsonValue::from_str(content)));
        proof {
            lemma_json_entries(payload@);
            assert(json_entries(payload@) =~= seq![("path"@, Json::Str(p)), ("content"@, Json::Str(content@))]);
        }
        let reply = pending_reply_value(payload);
        let r = Ok(render_json(&reply));
        assert(write_file_outcome(args@, w) == text_result_view(r));
        r
    }
}

} // verus!
