//! The definition of a tool as offered to the model.
use vstd::prelude::*;
use crate::json::{clone_json, json_entries, json_views, lemma_json_entries, Json, JsonValue};
use crate::text::owned;

verus! {

/// A tool's identity, description and JSON-schema parameters.
#[derive(Debug, PartialEq)]
pub struct ToolDef {
    pub id: String,
    pub name: String,
    pub description: String,
    pub parameters: JsonValue,
}

/// The model of a tool definition.
pub struct ToolDefView {
    pub id: Seq<char>,
    pub name: Seq<char>,
    pub description: Seq<char>,
    pub parameters: Json,
}

impl View for ToolDef {
    type V = ToolDefView;

    open spec fn view(&self) -> ToolDefView {
        ToolDefView {
            id: self.id@,
            name: self.name@,
            description: self.description@,
            parameters: self.parameters@,
        }
    }
}

impl ToolDef {
    /// A copy of this definition.
    pub fn duplicate(&self) -> (r: ToolDef)
        ensures
            r@ == self@,
    {
        ToolDef {
            id: self.id.clone(),
            name: self.name.clone(),
            description: self.description.clone(),
            parameters: clone_json(&self.parameters),
        }
    }
}

/// The schema of a string parameter with a description.
pub open spec fn string_param(desc: Seq<char>) -> Json {
    Json::Object(seq![("type"@, Json::Str("string"@)), ("description"@, Json::Str(desc))])
}

/// The schema of an object parameter list: its properties, the names it
/// requires, and no other properties.
pub open spec fn object_schema(props: Seq<(Seq<char>, Json)>, required: Seq<Json>) -> Json {
    Json::Object(
        seq![
            ("type"@, Json::Str("object"@)),
            ("properties"@, Json::Object(props)),
            ("required"@, Json::Array(required)),
            ("additionalProperties"@, Json::Bool(false)),
        ],
    )
}

/// The schema of a string parameter described by `desc`.
pub fn string_param_schema(desc: &str) -> (r: JsonValue)
    ensures
        r@ == string_param(desc@),
{
    let mut e: Vec<(String, JsonValue)> = Vec::new();
    e.push((owned("type"), JsonValue::from_str("string")));
    e.push((owned("description"), JsonValue::from_str(desc)));
    proof {
        lemma_json_entries(e@);
        assert(json_entries(e@) =~= seq![("type"@, Json::Str("string"@)), ("description"@, Json::Str(desc@))]);
    }
    JsonValue::Object(e)
}

/// The schema of an object parameter list with the properties `props` and
/// the required names `required`.
pub fn object_schema_value(props: Vec<(String, JsonValue)>, required: Vec<JsonValue>) -> (r: JsonValue)
    ensures
        r@ == object_schema(json_entries(props@), json_views(required@)),
{
    let ghost pv = json_entries(props@);
    let ghost rv = json_views(required@);
    let mut e: Vec<(String, JsonValue)> = Vec::new();
    e.push((owned("type"), JsonValue::from_str("object")));
    e.push((owned("properties"), JsonValue::Object(props)));
    e.push((owned("required"), JsonValue::Array(required)));
    e.push((owned("additionalProperties"), JsonValue::Bool(false)));
    proof {
        lemma_json_entries(e@);
        assert(json_entries(e@) =~= seq![
            ("type"@, Json::Str("object"@)),
            ("properties"@, Json::Object(pv)),
            ("required"@, Json::Array(rv)),
            ("additionalProperties"@, Json::Bool(false)),
        ]);
    }
    JsonValue::Object(e)
}

} // verus!
