//! One agent turn as a state machine: the model is asked for a completion,
//! tool calls it requests are run one by one (or the turn pauses for the
//! user's approval), and a text reply ends the turn. The caller performs each
//! action (database writes, LLM calls, tool runs, events) and feeds back what
//! happened.
use vstd::prelude::*;
use crate::chunks::{chunk_assistant_content, chunks_of, views};
use crate::json::{parse_json, parse_json_text, render_json, render_json_text, JsonValue};
use crate::llm::minimax::{ChatCompletionOutput, ChatMessage, ToolCall};
use crate::text::{concat2, owned, push_str, string_of};

verus! {

/// How many completions one turn may request.
pub const MAX_TOOL_LOOP_STEPS: usize = 6;

/// How often one turn runs the same tool call (same name, same argument
/// text); later repeats are answered with a steering message instead.
pub const MAX_IDENTICAL_TOOL_CALLS: usize = 2;

/// Most characters in one streamed delta.
pub const CHAT_DELTA_MAX_CHARS: usize = 24;

/// Whether a tool changes the file system and so waits for the user's
/// approval before it runs.
pub open spec fn needs_approval(name: Seq<char>) -> bool {
    name == "create_directory"@ || name == "write_file"@
}

/// How a requested tool call is handled.
#[derive(Debug, Clone, Copy, PartialEq, Eq)]
pub enum ToolBranch {
    NeedsApproval,
    ExecuteImmediately,
}

/// The branch for a tool: `create_directory` and `write_file` wait for
/// approval, every other tool runs at once.
pub fn tool_branch_for_name(name: &str) -> (r: ToolBranch)
    ensures
        (r == ToolBranch::NeedsApproval) <==> needs_approval(name@),
{
    proof {
        reveal_strlit("create_directory");
        reveal_strlit("write_file");
    }
    if crate::text::str_eq(name, "create_directory") || crate::text::str_eq(name, "write_file") {
        ToolBranch::NeedsApproval
    } else {
        ToolBranch::ExecuteImmediately
    }
}

/// Where a turn stands.
#[derive(Debug, Clone, Copy, PartialEq, Eq)]
pub enum TurnStatus {
    /// Not started yet.
    NotStarted,
    /// Waiting for the result of the last action.
    Running,
    /// Stopped on a tool call that waits for approval.
    Paused,
    /// Ended with a text reply.
    Completed,
    /// Ended with an error.
    Failed,
}

/// What the caller reports back.
pub enum TurnEvent {
    /// The provider answered the completion request.
    Completion(ChatCompletionOutput),
    /// The completion request failed with this message.
    CompletionFailed(String),
    /// The tool asked for by the last action finished.
    ToolFinished(Result<String, String>),
}

/// What the caller does next.
pub enum TurnAction {
    /// Record a new agent turn row and ask the provider for a completion over
    /// `llm_messages`, with the tool definitions.
    RequestCompletion,
    /// Run the tool `name` with `arguments` and report its result.
    ExecuteTool { name: String, arguments: JsonValue },
    /// Record a pending approval for `action_type` with `payload_json`,
    /// announce it, store the (empty) reply and stop without `chat-done`.
    PauseForApproval { action_type: String, payload_json: String },
    /// Send `deltas` in order, store `content` as the reply and emit `chat-done`.
    Complete { deltas: Vec<String>, content: String },
    /// Stop the turn with this error.
    Fail(String),
}

/// The message recorded when a tool call waits for approval.
pub open spec fn paused_text(name: Seq<char>, args: Seq<char>) -> Seq<char> {
    "Tool call paused for approval: "@ + name + "("@ + args + ")"@
}

/// The message recorded when a tool was called.
pub open spec fn called_text(name: Seq<char>, args: Seq<char>) -> Seq<char> {
    "Called tool "@ + name + "("@ + args + ")"@
}

/// The message carrying a tool's result back to the model.
pub open spec fn result_text(name: Seq<char>, result: Seq<char>) -> Seq<char> {
    "Tool result from "@ + name + ": "@ + result
}

/// The message that tells the model a repeated tool call was not run again.
pub open spec fn steering_text(name: Seq<char>, args: Seq<char>) -> Seq<char> {
    "Skipped tool call "@ + name + "("@ + args + ")"@
        + ": the same call already ran twice in this turn. Answer from its earlier results instead of calling it again."@
}

/// The reply of a turn that used up its completions without one: the latest
/// tool result when there is one, a fixed notice otherwise.
pub open spec fn fallback_text(latest: Option<Seq<char>>) -> Seq<char> {
    match latest {
        Some(r) => "I ran out of tool steps before finishing. The latest tool result was:\n"@ + r,
        None => "I ran out of tool steps before finishing, and no tool returned a result."@,
    }
}

/// The error for a tool call whose arguments are not JSON.
pub open spec fn bad_arguments_text(err: Seq<char>) -> Seq<char> {
    "failed to parse tool call arguments: "@ + err
}

/// A message's role and text.
pub open spec fn msg_view(m: ChatMessage) -> (Seq<char>, Seq<char>) {
    (m.role@, m.content@)
}

/// The roles and texts of `ms`.
pub open spec fn msgs_view(ms: Seq<ChatMessage>) -> Seq<(Seq<char>, Seq<char>)> {
    ms.map_values(|m: ChatMessage| msg_view(m))
}

/// The messages of `ms` from index `n` on carry no content blocks.
pub open spec fn plain_from(ms: Seq<ChatMessage>, n: int) -> bool {
    forall|i: int| n <= i < ms.len() ==> (#[trigger] ms[i]).content_blocks is None
}

/// An optional text by its characters.
pub open spec fn opt_view(o: Option<String>) -> Option<Seq<char>> {
    match o {
        Some(s) => Some(s@),
        None => None,
    }
}

/// Tool calls by name and argument text.
pub open spec fn calls_view(v: Seq<(String, String)>) -> Seq<(Seq<char>, Seq<char>)> {
    v.map_values(|p: (String, String)| (p.0@, p.1@))
}

/// A requested call by name and argument text.
pub open spec fn call_key(c: ToolCall) -> (Seq<char>, Seq<char>) {
    (c.function_name@, c.function_arguments@)
}

/// How often `call` occurs in `done`.
pub open spec fn times_run(done: Seq<(Seq<char>, Seq<char>)>, call: (Seq<char>, Seq<char>)) -> nat {
    done.filter(|d: (Seq<char>, Seq<char>)| d == call).len()
}

/// The requested call at `i` needs no approval and already ran
/// `MAX_IDENTICAL_TOOL_CALLS` times, so it is not run again.
pub open spec fn is_redundant(
    calls: Seq<ToolCall>,
    done: Seq<(Seq<char>, Seq<char>)>,
    i: int,
) -> bool {
    &&& !needs_approval(calls[i].function_name@)
    &&& times_run(done, call_key(calls[i])) >= MAX_IDENTICAL_TOOL_CALLS
}

/// The first call from `i` on that is not redundant (or the end).
pub open spec fn first_to_handle(calls: Seq<ToolCall>, done: Seq<(Seq<char>, Seq<char>)>, i: int) -> int
    decreases calls.len() - i,
{
    if 0 <= i < calls.len() && is_redundant(calls, done, i) {
        first_to_handle(calls, done, i + 1)
    } else {
        i
    }
}

/// The steering messages for the calls `from..to`, in order.
pub open spec fn steering(calls: Seq<ToolCall>, from: int, to: int) -> Seq<(Seq<char>, Seq<char>)> {
    Seq::new(
        (to - from) as nat,
        |j: int|
            ("user"@, steering_text(calls[from + j].function_name@, calls[from + j].function_arguments@)),
    )
}

/// One agent turn.
pub struct AgentTurn {
    /// The conversation as sent to the provider; the turn only appends to it.
    pub llm_messages: Vec<ChatMessage>,
    /// Completions requested so far.
    pub steps_taken: usize,
    pub status: TurnStatus,
    /// The reply, once the turn has completed.
    pub final_content: String,
    /// The tool calls of the last completion.
    pub pending_calls: Vec<ToolCall>,
    /// The first of `pending_calls` not yet handled.
    pub next_call: usize,
    /// The tool calls run so far in this turn, by name and argument text.
    pub executed_calls: Vec<(String, String)>,
    /// The result of the last tool run in this turn.
    pub latest_tool_result: Option<String>,
}

/// Whether the call `name(args)` is not run again: it already ran
/// `MAX_IDENTICAL_TOOL_CALLS` times among `executed`.
pub fn should_skip_redundant_tool_call(executed: &Vec<(String, String)>, name: &str, args: &str) -> (r: bool)
    ensures
        r == (times_run(calls_view(executed@), (name@, args@)) >= MAX_IDENTICAL_TOOL_CALLS),
{
    let mut count: usize = 0;
    let mut i: usize = 0;
    while i < executed.len()
        invariant
            i <= executed@.len(),
            count <= i,
            count == times_run(calls_view(executed@.take(i as int)), (name@, args@)),
        decreases executed@.len() - i,
    {
        let same = crate::text::str_eq(executed[i].0.as_str(), name) && crate::text::str_eq(
            executed[i].1.as_str(),
            args,
        );
        proof {
            assert(calls_view(executed@.take(i + 1)) =~= calls_view(executed@.take(i as int)).push(
                (executed@[i as int].0@, executed@[i as int].1@),
            ));
            lemma_times_run_push(
                calls_view(executed@.take(i as int)),
                (executed@[i as int].0@, executed@[i as int].1@),
                (name@, args@),
            );
        }
        if same {
            count = count + 1;
        }
        i = i + 1;
    }
    assert(executed@.take(executed@.len() as int) =~= executed@);
    count >= MAX_IDENTICAL_TOOL_CALLS
}

/// The reply of a turn that used up its completions: it carries the latest
/// tool result when there is one.
pub fn build_loop_exhausted_fallback(latest: &Option<String>) -> (r: String)
    ensures
        r@ == fallback_text(opt_view(*latest)),
{
    match latest {
        Some(result) => concat2(
            "I ran out of tool steps before finishing. The latest tool result was:\n",
            result.as_str(),
        ),
        None => owned("I ran out of tool steps before finishing, and no tool returned a result."),
    }
}

impl AgentTurn {
    /// The counters and the call cursor are consistent.
    pub open spec fn bookkeeping_ok(&self) -> bool {
        &&& self.steps_taken <= MAX_TOOL_LOOP_STEPS
        &&& self.next_call <= self.pending_calls@.len()
        &&& self.status == TurnStatus::Running ==> self.steps_taken > 0
    }

    /// No tool call has run more than `MAX_IDENTICAL_TOOL_CALLS` times.
    pub open spec fn runs_within_limit(&self) -> bool {
        forall|c: (Seq<char>, Seq<char>)|
            #[trigger] times_run(calls_view(self.executed_calls@), c) <= MAX_IDENTICAL_TOOL_CALLS
    }

    /// A call the turn is waiting on has run fewer than
    /// `MAX_IDENTICAL_TOOL_CALLS` times before.
    pub open spec fn awaited_call_ok(&self) -> bool {
        self.status == TurnStatus::Running && self.next_call < self.pending_calls@.len() ==> times_run(
            calls_view(self.executed_calls@),
            call_key(self.pending_calls@[self.next_call as int]),
        ) < MAX_IDENTICAL_TOOL_CALLS
    }

    /// The turn's state is consistent.
    pub open spec fn wf(&self) -> bool {
        &&& self.bookkeeping_ok()
        &&& self.runs_within_limit()
        &&& self.awaited_call_ok()
    }

    /// A turn over `messages` that has not asked for anything yet.
    pub fn new(messages: Vec<ChatMessage>) -> (t: AgentTurn)
        ensures
            t.wf(),
            t.llm_messages@ == messages@,
            t.steps_taken == 0,
            t.status == TurnStatus::NotStarted,
            t.pending_calls@.len() == 0,
            t.executed_calls@.len() == 0,
            t.latest_tool_result is None,
    {
        let t = AgentTurn {
            llm_messages: messages,
            steps_taken: 0,
            status: TurnStatus::NotStarted,
            final_content: String::new(),
            pending_calls: Vec::new(),
            next_call: 0,
            executed_calls: Vec::new(),
            latest_tool_result: None,
        };
        proof {
            reveal(Seq::filter);
        }
        t
    }

    /// Starts the turn: the first completion is requested.
    pub fn start(&mut self) -> (a: TurnAction)
        requires
            old(self).wf(),
            old(self).steps_taken == 0,
        ensures
            final(self).wf(),
            a is RequestCompletion,
            final(self).steps_taken == 1,
            final(self).status == TurnStatus::Running,
            final(self).llm_messages@ == old(self).llm_messages@,
            final(self).executed_calls == old(self).executed_calls,
            final(self).latest_tool_result == old(self).latest_tool_result,
    {
        self.steps_taken = 1;
        self.status = TurnStatus::Running;
        self.pending_calls = Vec::new();
        self.next_call = 0;
        TurnAction::RequestCompletion
    }

    /// Whether the next pending call is redundant.
    fn next_is_redundant(&self) -> (r: bool)
        requires
            self.next_call < self.pending_calls@.len(),
        ensures
            r == is_redundant(self.pending_calls@, calls_view(self.executed_calls@), self.next_call as int),
    {
        let call = &self.pending_calls[self.next_call];
        match tool_branch_for_name(call.function_name.as_str()) {
            ToolBranch::NeedsApproval => false,
            ToolBranch::ExecuteImmediately => should_skip_redundant_tool_call(
                &self.executed_calls,
                call.function_name.as_str(),
                call.function_arguments.as_str(),
            ),
        }
    }

    /// Skips the redundant calls, answering each with a steering message;
    /// then handles the next pending call, or asks for the next completion
    /// when none is left, or ends with the fallback reply when no completion
    /// is left.
    fn advance(&mut self) -> (a: TurnAction)
        requires
            old(self).bookkeeping_ok(),
            old(self).runs_within_limit(),
            old(self).status == TurnStatus::Running,
        ensures
            final(self).wf(),
            advance_post(*old(self), *final(self), a),
    {
        let ghost s0 = *self;
        let ghost n0 = self.llm_messages@.len() as int;
        let ghost done = calls_view(self.executed_calls@);
        while self.next_call < self.pending_calls.len() && self.next_is_redundant()
            invariant
                self.bookkeeping_ok(),
                self.runs_within_limit(),
                self.status == TurnStatus::Running,
                self.pending_calls == s0.pending_calls,
                self.executed_calls == s0.executed_calls,
                self.latest_tool_result == s0.latest_tool_result,
                self.steps_taken == s0.steps_taken,
                self.final_content == s0.final_content,
                done == calls_view(s0.executed_calls@),
                n0 == s0.llm_messages@.len(),
                s0.next_call <= self.next_call,
                first_to_handle(s0.pending_calls@, done, s0.next_call as int) == first_to_handle(
                    s0.pending_calls@,
                    done,
                    self.next_call as int,
                ),
                self.llm_messages@.len() == n0 + (self.next_call - s0.next_call),
                self.llm_messages@.take(n0) == s0.llm_messages@,
                msgs_view(self.llm_messages@.skip(n0)) == steering(
                    s0.pending_calls@,
                    s0.next_call as int,
                    self.next_call as int,
                ),
                plain_from(self.llm_messages@, n0),
            decreases self.pending_calls@.len() - self.next_call,
        {
            let call = &self.pending_calls[self.next_call];
            let text = call_text("Skipped tool call ", call.function_name.as_str(), call.function_arguments.as_str());
            let content = concat2(
                text.as_str(),
                ": the same call already ran twice in this turn. Answer from its earlier results instead of calling it again.",
            );
            let ghost before = self.llm_messages@;
            self.llm_messages.push(ChatMessage { role: owned("user"), content, content_blocks: None });
            proof {
                assert(self.llm_messages@.take(n0) =~= before.take(n0));
                assert(self.llm_messages@.skip(n0) =~= before.skip(n0).push(self.llm_messages@.last()));
                assert(steering(s0.pending_calls@, s0.next_call as int, self.next_call + 1) =~= steering(
                    s0.pending_calls@,
                    s0.next_call as int,
                    self.next_call as int,
                ).push(
                    (
                        "user"@,
                        steering_text(
                            s0.pending_calls@[self.next_call as int].function_name@,
                            s0.pending_calls@[self.next_call as int].function_arguments@,
                        ),
                    ),
                ));
            }
            self.next_call = self.next_call + 1;
        }
        let ghost n1 = self.llm_messages@.len() as int;
        assert(self.llm_messages@.subrange(n0, n1) =~= self.llm_messages@.skip(n0));
        if self.next_call < self.pending_calls.len() {
            let call = &self.pending_calls[self.next_call];
            match parse_json(call.function_arguments.as_str()) {
                Err(e) => {
                    let msg = concat2("failed to parse tool call arguments: ", e.as_str());
                    self.status = TurnStatus::Failed;
                    TurnAction::Fail(msg)
                },
                Ok(args) => {
                    let branch = tool_branch_for_name(call.function_name.as_str());
                    if let ToolBranch::NeedsApproval = branch {
                        let text = call_text(
                            "Tool call paused for approval: ",
                            call.function_name.as_str(),
                            call.function_arguments.as_str(),
                        );
                        let action_type = call.function_name.clone();
                        let payload_json = render_json(&args);
                        let ghost before = self.llm_messages@;
                        self.llm_messages.push(
                            ChatMessage { role: owned("assistant"), content: text, content_blocks: None },
                        );
                        assert(self.llm_messages@.take(n0) =~= before.take(n0));
                        assert(self.llm_messages@.subrange(n0, n1) =~= before.subrange(n0, n1));
                        self.status = TurnStatus::Paused;
                        TurnAction::PauseForApproval { action_type, payload_json }
                    } else {
                        TurnAction::ExecuteTool { name: call.function_name.clone(), arguments: args }
                    }
                },
            }
        } else if self.steps_taken < MAX_TOOL_LOOP_STEPS {
            self.steps_taken = self.steps_taken + 1;
            TurnAction::RequestCompletion
        } else {
            let content = build_loop_exhausted_fallback(&self.latest_tool_result);
            let deltas = chunk_assistant_content(content.as_str(), CHAT_DELTA_MAX_CHARS);
            self.final_content = content.clone();
            self.status = TurnStatus::Completed;
            TurnAction::Complete { deltas, content }
        }
    }

    /// Handles what the caller reports after a `RequestCompletion` or an
    /// `ExecuteTool` action.
    pub fn handle(&mut self, event: TurnEvent) -> (a: TurnAction)
        requires
            old(self).wf(),
            old(self).status == TurnStatus::Running,
        ensures
            final(self).wf(),
            handle_post(*old(self), event, *final(self), a),
    {
        match event {
            TurnEvent::CompletionFailed(msg) => {
                self.status = TurnStatus::Failed;
                TurnAction::Fail(msg)
            },
            TurnEvent::Completion(ChatCompletionOutput::Content(content)) => {
                if content.as_str().is_empty() {
                    self.status = TurnStatus::Failed;
                    TurnAction::Fail(owned("assistant response content was empty"))
                } else {
                    let deltas = chunk_assistant_content(content.as_str(), CHAT_DELTA_MAX_CHARS);
                    self.final_content = content.clone();
                    self.status = TurnStatus::Completed;
                    TurnAction::Complete { deltas, content }
                }
            },
            TurnEvent::Completion(ChatCompletionOutput::ToolCalls(calls)) => {
                self.pending_calls = calls;
                self.next_call = 0;
                self.advance()
            },
            TurnEvent::ToolFinished(Err(e)) => {
                self.status = TurnStatus::Failed;
                TurnAction::Fail(e)
            },
            TurnEvent::ToolFinished(Ok(result)) => {
                if self.next_call < self.pending_calls.len() {
                    let call = &self.pending_calls[self.next_call];
                    let called = call_text(
                        "Called tool ",
                        call.function_name.as_str(),
                        call.function_arguments.as_str(),
                    );
                    let mut out: Vec<char> = Vec::new();
                    push_str(&mut out, "Tool result from ");
                    push_str(&mut out, call.function_name.as_str());
                    push_str(&mut out, ": ");
                    push_str(&mut out, result.as_str());
                    let reported = string_of(out.as_slice());
                    let key = (call.function_name.clone(), call.function_arguments.clone());
                    self.llm_messages.push(
                        ChatMessage { role: owned("assistant"), content: called, content_blocks: None },
                    );
                    self.llm_messages.push(
                        ChatMessage { role: owned("user"), content: reported, content_blocks: None },
                    );
                    let ghost log_before = calls_view(self.executed_calls@);
                    self.executed_calls.push(key);
                    self.latest_tool_result = Some(result);
                    proof {
                        let k = call_key(old(self).pending_calls@[old(self).next_call as int]);
                        assert(calls_view(self.executed_calls@) =~= log_before.push(k));
                        assert forall|c: (Seq<char>, Seq<char>)|
                            #[trigger] times_run(calls_view(self.executed_calls@), c)
                                <= MAX_IDENTICAL_TOOL_CALLS by {
                            lemma_times_run_push(log_before, k, c);
                        }
                    }
                    self.next_call = self.next_call + 1;
                    assert(self.llm_messages@.take(old(self).llm_messages@.len() as int)
                        =~= old(self).llm_messages@);
                    let ghost mid = *self;
                    let a = self.advance();
                    assert(msgs_view(mid.llm_messages@.skip(old(self).llm_messages@.len() as int))
                        =~= seq![
                        (
                            "assistant"@,
                            called_text(
                                old(self).pending_calls@[old(self).next_call as int].function_name@,
                                old(self).pending_calls@[old(self).next_call as int].function_arguments@,
                            ),
                        ),
                        (
                            "user"@,
                            result_text(
                                old(self).pending_calls@[old(self).next_call as int].function_name@,
                                result@,
                            ),
                        ),
                    ]);
                    assert(after_result(*old(self), result@, mid));
                    a
                } else {
                    self.status = TurnStatus::Failed;
                    TurnAction::Fail(owned("no tool call was waiting for a result"))
                }
            },
        }
    }
}

/// `prefix`, the tool name, `(`, the arguments and `)`.
fn call_text(prefix: &str, name: &str, args: &str) -> (r: String)
    ensures
        r@ == prefix@ + name@ + "("@ + args@ + ")"@,
{
    let mut out: Vec<char> = Vec::new();
    push_str(&mut out, prefix);
    push_str(&mut out, name);
    push_str(&mut out, "(");
    push_str(&mut out, args);
    push_str(&mut out, ")");
    string_of(out.as_slice())
}

/// What `advance` does. The redundant calls from the cursor on are skipped,
/// each answered by a steering message; then the first call left whose
/// arguments are not JSON fails the turn, one that needs approval pauses it,
/// recording why, and any other is handed out to run. With no call left the
/// next completion is requested while completions remain; else the turn ends
/// with the fallback reply.
pub open spec fn advance_post(s: AgentTurn, t: AgentTurn, a: TurnAction) -> bool {
    let n0 = s.llm_messages@.len() as int;
    let k = first_to_handle(s.pending_calls@, calls_view(s.executed_calls@), s.next_call as int);
    let steer = steering(s.pending_calls@, s.next_call as int, k);
    let n1 = n0 + steer.len();
    &&& t.pending_calls == s.pending_calls
    &&& t.executed_calls == s.executed_calls
    &&& t.latest_tool_result == s.latest_tool_result
    &&& t.next_call == k
    &&& n1 <= t.llm_messages@.len()
    &&& t.llm_messages@.take(n0) == s.llm_messages@
    &&& msgs_view(t.llm_messages@.subrange(n0, n1)) == steer
    &&& plain_from(t.llm_messages@, n0)
    &&& if k < s.pending_calls@.len() {
        let call = s.pending_calls@[k];
        &&& t.steps_taken == s.steps_taken
        &&& match parse_json_text(call.function_arguments@) {
            Err(e) => {
                &&& t.status == TurnStatus::Failed
                &&& t.llm_messages@.len() == n1
                &&& a matches TurnAction::Fail(m) && m@ == bad_arguments_text(e)
            },
            Ok(v) => if needs_approval(call.function_name@) {
                &&& t.status == TurnStatus::Paused
                &&& t.llm_messages@.len() == n1 + 1
                &&& msg_view(t.llm_messages@.last()) == ("assistant"@, paused_text(
                    call.function_name@,
                    call.function_arguments@,
                ))
                &&& a matches TurnAction::PauseForApproval { action_type, payload_json }
                    && action_type@ == call.function_name@ && payload_json@ == render_json_text(v)
            } else {
                &&& t.status == TurnStatus::Running
                &&& t.llm_messages@.len() == n1
                &&& a matches TurnAction::ExecuteTool { name, arguments } && name@
                    == call.function_name@ && arguments@ == v
            },
        }
    } else if s.steps_taken < MAX_TOOL_LOOP_STEPS {
        &&& t.steps_taken == s.steps_taken + 1
        &&& t.status == TurnStatus::Running
        &&& t.llm_messages@.len() == n1
        &&& a is RequestCompletion
    } else {
        let reply = fallback_text(opt_view(s.latest_tool_result));
        &&& t.steps_taken == s.steps_taken
        &&& t.status == TurnStatus::Completed
        &&& t.llm_messages@.len() == n1
        &&& t.final_content@ == reply
        &&& a matches TurnAction::Complete { deltas, content } && content@ == reply && views(deltas@)
            == chunks_of(reply, CHAT_DELTA_MAX_CHARS as nat)
    }
}

/// The state right after the result `r` of the awaited call was recorded:
/// the call and its result are appended to the conversation, the call joins
/// the run log, `r` becomes the latest result and the cursor moves on.
pub open spec fn after_result(s: AgentTurn, r: Seq<char>, mid: AgentTurn) -> bool {
    let call = s.pending_calls@[s.next_call as int];
    let n0 = s.llm_messages@.len() as int;
    &&& mid.pending_calls == s.pending_calls
    &&& mid.next_call == s.next_call + 1
    &&& mid.steps_taken == s.steps_taken
    &&& mid.status == TurnStatus::Running
    &&& calls_view(mid.executed_calls@) == calls_view(s.executed_calls@).push(call_key(call))
    &&& opt_view(mid.latest_tool_result) == Some(r)
    &&& mid.llm_messages@.len() == n0 + 2
    &&& mid.llm_messages@.take(n0) == s.llm_messages@
    &&& msgs_view(mid.llm_messages@.skip(n0)) == seq![
        ("assistant"@, called_text(call.function_name@, call.function_arguments@)),
        ("user"@, result_text(call.function_name@, r)),
    ]
    &&& plain_from(mid.llm_messages@, n0)
}

/// The conversation, the run log and the latest result are as before.
pub open spec fn unchanged_record(s: AgentTurn, t: AgentTurn) -> bool {
    &&& t.llm_messages@ == s.llm_messages@
    &&& t.executed_calls == s.executed_calls
    &&& t.latest_tool_result == s.latest_tool_result
    &&& t.steps_taken == s.steps_taken
}

/// What `handle` does with each event.
pub open spec fn handle_post(s: AgentTurn, e: TurnEvent, t: AgentTurn, a: TurnAction) -> bool {
    match e {
        TurnEvent::CompletionFailed(m) => {
            &&& t.status == TurnStatus::Failed
            &&& unchanged_record(s, t)
            &&& a == TurnAction::Fail(m)
        },
        TurnEvent::Completion(ChatCompletionOutput::Content(c)) => {
            &&& unchanged_record(s, t)
            &&& if c@.len() == 0 {
                &&& t.status == TurnStatus::Failed
                &&& a matches TurnAction::Fail(m) && m@ == "assistant response content was empty"@
            } else {
                &&& t.status == TurnStatus::Completed
                &&& t.final_content@ == c@
                &&& a matches TurnAction::Complete { deltas, content } && content@ == c@ && views(
                    deltas@,
                ) == chunks_of(c@, CHAT_DELTA_MAX_CHARS as nat)
            }
        },
        TurnEvent::Completion(ChatCompletionOutput::ToolCalls(calls)) => {
            let s2 = AgentTurn { pending_calls: calls, next_call: 0, ..s };
            advance_post(s2, t, a)
        },
        TurnEvent::ToolFinished(Err(m)) => {
            &&& t.status == TurnStatus::Failed
            &&& unchanged_record(s, t)
            &&& a == TurnAction::Fail(m)
        },
        TurnEvent::ToolFinished(Ok(r)) => if s.next_call < s.pending_calls@.len() {
            exists|mid: AgentTurn| #[trigger] after_result(s, r@, mid) && advance_post(mid, t, a)
        } else {
            &&& t.status == TurnStatus::Failed
            &&& unchanged_record(s, t)
            &&& a is Fail
        },
    }
}

proof fn lemma_times_run_push(
    done: Seq<(Seq<char>, Seq<char>)>,
    x: (Seq<char>, Seq<char>),
    call: (Seq<char>, Seq<char>),
)
    ensures
        times_run(done.push(x), call) == times_run(done, call) + if x == call {
            1int
        } else {
            0int
        },
{
    reveal(Seq::filter);
    assert(done.push(x).drop_last() =~= done);
}

proof fn lemma_first_to_handle(calls: Seq<ToolCall>, done: Seq<(Seq<char>, Seq<char>)>, i: int)
    requires
        0 <= i <= calls.len(),
    ensures
        i <= first_to_handle(calls, done, i) <= calls.len(),
        first_to_handle(calls, done, i) < calls.len() ==> !is_redundant(
            calls,
            done,
            first_to_handle(calls, done, i),
        ),
    decreases calls.len() - i,
{
    if i < calls.len() && is_redundant(calls, done, i) {
        lemma_first_to_handle(calls, done, i + 1);
    }
}

/// A tool that changes the file system is never handed out to run: whatever
/// the turn is told, an `ExecuteTool` action names a tool that needs no
/// approval, and a `PauseForApproval` action names one that does.
pub proof fn lemma_approval_tools_never_run(s: AgentTurn, e: TurnEvent, t: AgentTurn, a: TurnAction)
    requires
        handle_post(s, e, t, a),
    ensures
        a matches TurnAction::ExecuteTool { name, .. } ==> !needs_approval(name@),
        a matches TurnAction::PauseForApproval { action_type, .. } ==> needs_approval(action_type@),
{
    match e {
        TurnEvent::ToolFinished(Ok(r)) => {
            if s.next_call < s.pending_calls@.len() {
                let mid = choose|mid: AgentTurn| #[trigger] after_result(s, r@, mid) && advance_post(mid, t, a);
                lemma_advance_gating(mid, t, a);
            }
        },
        TurnEvent::Completion(ChatCompletionOutput::ToolCalls(calls)) => {
            lemma_advance_gating(AgentTurn { pending_calls: calls, next_call: 0, ..s }, t, a);
        },
        _ => {},
    }
}

proof fn lemma_advance_gating(s: AgentTurn, t: AgentTurn, a: TurnAction)
    requires
        advance_post(s, t, a),
    ensures
        a matches TurnAction::ExecuteTool { name, .. } ==> !needs_approval(name@),
        a matches TurnAction::PauseForApproval { action_type, .. } ==> needs_approval(action_type@),
{
}

/// A turn never forgets what was said: whatever it is told, the messages it
/// will send next start with the messages it held before, and every message
/// it adds is plain text.
pub proof fn lemma_history_only_grows(s: AgentTurn, e: TurnEvent, t: AgentTurn, a: TurnAction)
    requires
        handle_post(s, e, t, a),
    ensures
        s.llm_messages@.len() <= t.llm_messages@.len(),
        t.llm_messages@.take(s.llm_messages@.len() as int) == s.llm_messages@,
        plain_from(t.llm_messages@, s.llm_messages@.len() as int),
{
    assert(s.llm_messages@.take(s.llm_messages@.len() as int) =~= s.llm_messages@);
    match e {
        TurnEvent::ToolFinished(Ok(r)) => {
            if s.next_call < s.pending_calls@.len() {
                let mid = choose|mid: AgentTurn| #[trigger] after_result(s, r@, mid) && advance_post(mid, t, a);
                let n0 = s.llm_messages@.len() as int;
                let n2 = mid.llm_messages@.len() as int;
                assert(t.llm_messages@.take(n0) =~= t.llm_messages@.take(n2).take(n0));
                assert forall|i: int| n0 <= i < t.llm_messages@.len() implies (
                #[trigger] t.llm_messages@[i]).content_blocks is None by {
                    if i < n2 {
                        assert(t.llm_messages@[i] == t.llm_messages@.take(n2)[i]);
                        assert(mid.llm_messages@[i].content_blocks is None);
                    }
                }
            }
        },
        _ => {},
    }
}

/// A turn asks for at most `MAX_TOOL_LOOP_STEPS` completions: a
/// `RequestCompletion` action counts one more, and never past the limit.
pub proof fn lemma_completions_bounded(s: AgentTurn, e: TurnEvent, t: AgentTurn, a: TurnAction)
    requires
        s.wf(),
        handle_post(s, e, t, a),
    ensures
        a is RequestCompletion ==> t.steps_taken == s.steps_taken + 1 && t.steps_taken
            <= MAX_TOOL_LOOP_STEPS,
        !(a is RequestCompletion) ==> t.steps_taken == s.steps_taken,
{
    match e {
        TurnEvent::ToolFinished(Ok(r)) => {
            if s.next_call < s.pending_calls@.len() {
                let mid = choose|mid: AgentTurn| #[trigger] after_result(s, r@, mid) && advance_post(mid, t, a);
            }
        },
        _ => {},
    }
}

/// The same tool call runs at most `MAX_IDENTICAL_TOOL_CALLS` times in a
/// turn. The run log grows only by the call whose result came back, a call
/// is handed out to run only while it has run fewer than
/// `MAX_IDENTICAL_TOOL_CALLS` times, and so no call ever exceeds the limit.
pub proof fn lemma_identical_calls_capped(s: AgentTurn, e: TurnEvent, t: AgentTurn, a: TurnAction)
    requires
        s.wf(),
        s.status == TurnStatus::Running,
        handle_post(s, e, t, a),
    ensures
        t.runs_within_limit(),
        a is ExecuteTool ==> t.next_call < t.pending_calls@.len() && times_run(
            calls_view(t.executed_calls@),
            call_key(t.pending_calls@[t.next_call as int]),
        ) < MAX_IDENTICAL_TOOL_CALLS,
        e matches TurnEvent::ToolFinished(Ok(_)) && s.next_call < s.pending_calls@.len() ==> calls_view(
            t.executed_calls@,
        ) == calls_view(s.executed_calls@).push(call_key(s.pending_calls@[s.next_call as int])),
        !(e matches TurnEvent::ToolFinished(Ok(_)) && s.next_call < s.pending_calls@.len())
            ==> t.executed_calls == s.executed_calls,
{
    match e {
        TurnEvent::ToolFinished(Ok(r)) => {
            if s.next_call < s.pending_calls@.len() {
                let mid = choose|mid: AgentTurn| #[trigger] after_result(s, r@, mid) && advance_post(mid, t, a);
                let k = call_key(s.pending_calls@[s.next_call as int]);
                assert forall|c: (Seq<char>, Seq<char>)|
                    #[trigger] times_run(calls_view(t.executed_calls@), c) <= MAX_IDENTICAL_TOOL_CALLS by {
                    lemma_times_run_push(calls_view(s.executed_calls@), k, c);
                    assert(times_run(calls_view(s.executed_calls@), c) <= MAX_IDENTICAL_TOOL_CALLS);
                }
                lemma_first_to_handle(mid.pending_calls@, calls_view(mid.executed_calls@), mid.next_call as int);
            }
        },
        TurnEvent::Completion(ChatCompletionOutput::ToolCalls(calls)) => {
            lemma_first_to_handle(calls@, calls_view(s.executed_calls@), 0);
        },
        _ => {},
    }
}

} // verus!
