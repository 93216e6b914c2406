//! The registry of the tools offered to the model, keyed by name.
use vstd::prelude::*;
use crate::json::{json_entries, json_views, lemma_json_entries, lemma_json_views_push, Json, JsonValue};
use crate::text::{concat2, owned, str_eq};
use crate::tools::types::{ToolDef, ToolDefView};

verus! {

/// A built-in tool of this library.
#[derive(Debug, Clone, Copy, PartialEq, Eq)]
pub enum BuiltinTool {
    CreateDirectory,
    FetchUrl,
    GetTime,
    WebSearch,
    WriteFile,
}

/// What runs a registered tool: one of the built-in tools, or a handler of
/// the caller's own (type `H`).
#[derive(Debug, Clone, Copy, PartialEq, Eq)]
pub enum ToolHandler<H> {
    Builtin(BuiltinTool),
    Custom(H),
}

/// The tools known by name, each with what runs it, in the order in which
/// their names were first registered.
pub struct ToolRegistry<H> {
    tools: Vec<(ToolDef, ToolHandler<H>)>,
}

impl<H> View for ToolRegistry<H> {
    type V = Seq<ToolDefView>;

    closed spec fn view(&self) -> Seq<ToolDefView> {
        self.tools@.map_values(|e: (ToolDef, ToolHandler<H>)| e.0@)
    }
}

/// Whether no two tools of `s` share a name.
pub open spec fn names_unique(s: Seq<ToolDefView>) -> bool {
    forall|i: int, j: int| 0 <= i < j < s.len() ==> #[trigger] s[i].name != #[trigger] s[j].name
}

/// Whether `s` holds a tool named `name`.
pub open spec fn has_tool(s: Seq<ToolDefView>, name: Seq<char>) -> bool {
    exists|i: int| 0 <= i < s.len() && #[trigger] s[i].name == name
}

/// The position of the tool named `name` in `s` (meaningful when `has_tool`).
pub open spec fn tool_position(s: Seq<ToolDefView>, name: Seq<char>) -> int {
    choose|i: int| 0 <= i < s.len() && #[trigger] s[i].name == name
}

/// The tool named `name`, if `s` has one.
pub open spec fn lookup_tool(s: Seq<ToolDefView>, name: Seq<char>) -> Option<ToolDefView> {
    if has_tool(s, name) {
        Some(s[tool_position(s, name)])
    } else {
        None
    }
}

/// `s` after registering `d`: it replaces the tool of the same name in its
/// place, or comes last.
pub open spec fn registered(s: Seq<ToolDefView>, d: ToolDefView) -> Seq<ToolDefView> {
    if has_tool(s, d.name) {
        s.update(tool_position(s, d.name), d)
    } else {
        s.push(d)
    }
}

/// How a tool is offered to the model: a function with its name,
/// description and parameter schema.
pub open spec fn llm_tool(d: ToolDefView) -> Json {
    Json::Object(
        seq![
            ("type"@, Json::Str("function"@)),
            (
                "function"@,
                Json::Object(
                    seq![
                        ("name"@, Json::Str(d.name)),
                        ("description"@, Json::Str(d.description)),
                        ("parameters"@, d.parameters),
                    ],
                ),
            ),
        ],
    )
}

/// The handlers `hs` (one per tool of `s`) after registering a tool named
/// `name` with `h`: `h` takes the place of that name's handler, or comes last.
pub open spec fn registered_handlers<H>(
    s: Seq<ToolDefView>,
    hs: Seq<ToolHandler<H>>,
    name: Seq<char>,
    h: ToolHandler<H>,
) -> Seq<ToolHandler<H>> {
    if has_tool(s, name) {
        hs.update(tool_position(s, name), h)
    } else {
        hs.push(h)
    }
}

/// The handler of the tool named `name`, if `s` has one.
pub open spec fn handler_for<H>(s: Seq<ToolDefView>, hs: Seq<ToolHandler<H>>, name: Seq<char>) -> Option<
    ToolHandler<H>,
> {
    if has_tool(s, name) {
        Some(hs[tool_position(s, name)])
    } else {
        None
    }
}

/// The message for a call of a tool that is not registered.
pub open spec fn tool_not_found(name: Seq<char>) -> Seq<char> {
    "tool not found: "@ + name
}

/// After registering `d`, looking up its name gives `d`, and names stay
/// unique.
pub proof fn lemma_lookup_after_register(s: Seq<ToolDefView>, d: ToolDefView)
    requires
        names_unique(s),
    ensures
        names_unique(registered(s, d)),
        lookup_tool(registered(s, d), d.name) == Some(d),
        tool_position(registered(s, d), d.name) == if has_tool(s, d.name) {
            tool_position(s, d.name)
        } else {
            s.len() as int
        },
{
    let r = registered(s, d);
    if has_tool(s, d.name) {
        let p = tool_position(s, d.name);
        assert(r[p].name == d.name);
        assert forall|i: int, j: int| 0 <= i < j < r.len() implies #[trigger] r[i].name != #[trigger] r[j].name by {
            if i == p {
                assert(s[j].name != s[p].name);
            } else if j == p {
                assert(s[i].name != s[p].name);
            } else {
                assert(s[i].name != s[j].name);
            }
        }
        assert(has_tool(r, d.name));
        let q = tool_position(r, d.name);
        if q != p {
            if q < p {
                assert(r[q].name != r[p].name);
            } else {
                assert(r[p].name != r[q].name);
            }
        }
    } else {
        let p = s.len() as int;
        assert(r[p].name == d.name);
        assert forall|i: int, j: int| 0 <= i < j < r.len() implies #[trigger] r[i].name != #[trigger] r[j].name by {
            if j == p {
                assert(s[i].name != d.name);
            } else {
                assert(s[i].name != s[j].name);
            }
        }
        assert(has_tool(r, d.name));
        let q = tool_position(r, d.name);
        if q != p {
            assert(s[q].name == d.name);
        }
    }
}

/// After registering `d` with the handler `h`, the handler found for `d`'s
/// name is `h`: the last tool registered under a name is the one that runs.
pub proof fn lemma_handler_after_register<H>(
    s: Seq<ToolDefView>,
    hs: Seq<ToolHandler<H>>,
    d: ToolDefView,
    h: ToolHandler<H>,
)
    requires
        names_unique(s),
        hs.len() == s.len(),
    ensures
        registered_handlers(s, hs, d.name, h).len() == registered(s, d).len(),
        handler_for(registered(s, d), registered_handlers(s, hs, d.name, h), d.name) == Some(h),
{
    lemma_lookup_after_register(s, d);
}

/// Registering `d` leaves the lookup of every other name unchanged.
pub proof fn lemma_register_keeps_others(s: Seq<ToolDefView>, d: ToolDefView, name: Seq<char>)
    requires
        names_unique(s),
        name != d.name,
    ensures
        lookup_tool(registered(s, d), name) == lookup_tool(s, name),
{
    let r = registered(s, d);
    lemma_lookup_after_register(s, d);
    if has_tool(s, name) {
        let p = tool_position(s, name);
        if has_tool(s, d.name) {
            assert(p != tool_position(s, d.name));
        }
        assert(r[p] == s[p]);
        assert(has_tool(r, name));
        let q = tool_position(r, name);
        if q != p {
            if q < p {
                assert(r[q].name != r[p].name);
            } else {
                assert(r[p].name != r[q].name);
            }
        }
    } else {
        if has_tool(r, name) {
            let q = tool_position(r, name);
            if has_tool(s, d.name) {
                if q == tool_position(s, d.name) {
                    assert(r[q].name == d.name);
                } else {
                    assert(s[q].name == name);
                }
            } else {
                if q == s.len() {
                    assert(r[q].name == d.name);
                } else {
                    assert(s[q].name == name);
                }
            }
        }
    }
}

/// Registering a new name adds one tool; registering a known one keeps the
/// count.
pub proof fn lemma_register_count(s: Seq<ToolDefView>, d: ToolDefView)
    ensures
        registered(s, d).len() == if has_tool(s, d.name) { s.len() } else { s.len() + 1 },
{
}

/// The model-to-model description of a tool for the model.
fn llm_tool_value(d: &ToolDef) -> (r: JsonValue)
    ensures
        r@ == llm_tool(d@),
{
    let mut f: Vec<(String, JsonValue)> = Vec::new();
    f.push((owned("name"), JsonValue::Str(d.name.clone())));
    f.push((owned("description"), JsonValue::Str(d.description.clone())));
    f.push((owned("parameters"), crate::json::clone_json(&d.parameters)));
    let mut e: Vec<(String, JsonValue)> = Vec::new();
    e.push((owned("type"), JsonValue::from_str("function")));
    proof {
        lemma_json_entries(f@);
        assert(json_entries(f@) =~= seq![
            ("name"@, Json::Str(d.name@)),
            ("description"@, Json::Str(d.description@)),
            ("parameters"@, d.parameters@),
        ]);
    }
    e.push((owned("function"), JsonValue::Object(f)));
    proof {
        lemma_json_entries(e@);
    }
    let r = JsonValue::Object(e);
    assert(r@ == llm_tool(d@)) by {
        assert(json_entries(e@) =~= llm_tool(d@)->Object_0);
    }
    r
}

impl<H> ToolRegistry<H> {
    /// What runs each tool, in registry order.
    pub closed spec fn handlers(&self) -> Seq<ToolHandler<H>> {
        self.tools@.map_values(|e: (ToolDef, ToolHandler<H>)| e.1)
    }

    /// Whether the registry holds no two tools of one name.
    pub open spec fn wf(&self) -> bool {
        &&& names_unique(self@)
        &&& self.handlers().len() == self@.len()
    }

    /// An empty registry.
    pub fn new() -> (r: ToolRegistry<H>)
        ensures
            r.wf(),
            r@ == Seq::<ToolDefView>::empty(),
            r.handlers() == Seq::<ToolHandler<H>>::empty(),
    {
        let r = ToolRegistry { tools: Vec::new() };
        assert(r@ =~= Seq::<ToolDefView>::empty());
        assert(r.handlers() =~= Seq::<ToolHandler<H>>::empty());
        r
    }

    /// The position of the tool named `name`, if there is one.
    fn position(&self, name: &str) -> (r: Option<usize>)
        requires
            self.wf(),
        ensures
            match r {
                Some(i) => has_tool(self@, name@) && i == tool_position(self@, name@) && i < self.tools@.len(),
                None => !has_tool(self@, name@),
            },
    {
        let ghost s = self@;
        let mut i: usize = 0;
        while i < self.tools.len()
            invariant
                s == self@,
                names_unique(s),
                s.len() == self.tools@.len(),
                i <= self.tools@.len(),
                forall|k: int| 0 <= k < i ==> #[trigger] s[k].name != name@,
            decreases self.tools@.len() - i,
        {
            assert(s[i as int] == self.tools@[i as int].0@);
            if str_eq(self.tools[i].0.name.as_str(), name) {
                proof {
                    assert(s[i as int].name == name@);
                    assert(has_tool(s, name@));
                    let p = tool_position(s, name@);
                    if p != i {
                        if p < i {
                            assert(s[p].name != name@);
                        } else {
                            assert(s[i as int].name != s[p].name);
                        }
                    }
                }
                return Some(i);
            }
            i = i + 1;
        }
        None
    }

    /// Registers `def` under its name, to be run by `handler`; a tool of the
    /// same name is replaced, definition and handler.
    pub fn register(&mut self, def: ToolDef, handler: ToolHandler<H>)
        requires
            old(self).wf(),
        ensures
            final(self).wf(),
            final(self)@ == registered(old(self)@, def@),
            final(self).handlers() == registered_handlers(old(self)@, old(self).handlers(), def@.name, handler),
    {
        let ghost s = self@;
        let ghost hs = self.handlers();
        let ghost dv = def@;
        let ghost h = handler;
        proof {
            lemma_lookup_after_register(s, dv);
        }
        match self.position(def.name.as_str()) {
            Some(i) => {
                self.tools.set(i, (def, handler));
                assert(self@ =~= s.update(i as int, dv));
                assert(self.handlers() =~= hs.update(i as int, h));
            },
            None => {
                self.tools.push((def, handler));
                assert(self@ =~= s.push(dv));
                assert(self.handlers() =~= hs.push(h));
            },
        }
    }

    /// The tools as offered to the model, in registry order.
    pub fn get_tools_for_llm(&self) -> (r: Vec<JsonValue>)
        ensures
            json_views(r@) == self@.map_values(|d: ToolDefView| llm_tool(d)),
    {
        let ghost s = self@;
        let mut out: Vec<JsonValue> = Vec::new();
        let mut i: usize = 0;
        while i < self.tools.len()
            invariant
                s == self@,
                s.len() == self.tools@.len(),
                i <= self.tools@.len(),
                json_views(out@) == s.take(i as int).map_values(|d: ToolDefView| llm_tool(d)),
            decreases self.tools@.len() - i,
        {
            let v = llm_tool_value(&self.tools[i].0);
            proof {
                lemma_json_views_push(out@, v);
                assert(s[i as int] == self.tools@[i as int].0@);
                assert(s.take(i + 1 as int).map_values(|d: ToolDefView| llm_tool(d)) =~= s.take(
                    i as int,
                ).map_values(|d: ToolDefView| llm_tool(d)).push(llm_tool(s[i as int])));
            }
            out.push(v);
            i = i + 1;
        }
        assert(s.take(i as int) =~= s);
        out
    }

    /// The tool named `name`, or the error for an unknown tool.
    pub fn lookup(&self, name: &str) -> (r: Result<&ToolDef, String>)
        requires
            self.wf(),
        ensures
            match r {
                Ok(d) => lookup_tool(self@, name@) == Some(d@),
                Err(e) => lookup_tool(self@, name@) is None && e@ == tool_not_found(name@),
            },
    {
        match self.position(name) {
            Some(i) => {
                assert(self@[i as int] == self.tools@[i as int].0@);
                Ok(&self.tools[i].0)
            },
            None => Err(concat2("tool not found: ", name)),
        }
    }

    /// What runs the tool named `name`, or the error for an unknown tool.
    pub fn handler(&self, name: &str) -> (r: Result<&ToolHandler<H>, String>)
        requires
            self.wf(),
        ensures
            match r {
                Ok(h) => handler_for(self@, self.handlers(), name@) == Some(*h),
                Err(e) => handler_for(self@, self.handlers(), name@) is None && e@ == tool_not_found(name@),
            },
    {
        match self.position(name) {
            Some(i) => {
                assert(self.handlers()[i as int] == self.tools@[i as int].1);
                Ok(&self.tools[i].1)
            },
            None => Err(concat2("tool not found: ", name)),
        }
    }
}

} // verus!
