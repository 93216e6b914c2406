//! Approving or rejecting a file-system action that a tool asked for: only
//! a pending approval is resolved, an approved action touches only a safe
//! relative path under the approval base directory, and a rejection only
//! records a message for the model.
use vstd::prelude::*;
use crate::json::{parse_json, parse_json_text, Json, JsonValue};
use crate::text::{concat2, concat3, concat5, owned, str_eq, trim, trim_str};
use crate::tools::paths::{
    check_view, has_parent_component, is_absolute_path, portable_safe, safe_path_check, text_result_view,
    validate_safe_path, PathPart,
};

verus! {

/// What the user interface is told once an approval is resolved.
pub struct ApprovalResolvedEvent {
    pub conversation_id: String,
    pub message_id: String,
    pub approval_id: String,
    pub status: String,
}

/// A stored approval request.
pub struct PendingApprovalRow {
    pub approval_id: String,
    pub conversation_id: String,
    pub turn_id: String,
    pub action_type: String,
    pub payload_json: String,
    pub status: String,
}

/// The model of a stored approval request.
pub struct ApprovalView {
    pub approval_id: Seq<char>,
    pub conversation_id: Seq<char>,
    pub turn_id: Seq<char>,
    pub action_type: Seq<char>,
    pub payload_json: Seq<char>,
    pub status: Seq<char>,
}

impl View for PendingApprovalRow {
    type V = ApprovalView;

    open spec fn view(&self) -> ApprovalView {
        ApprovalView {
            approval_id: self.approval_id@,
            conversation_id: self.conversation_id@,
            turn_id: self.turn_id@,
            action_type: self.action_type@,
            payload_json: self.payload_json@,
            status: self.status@,
        }
    }
}

/// A file-system action to perform once approved, on a path relative to
/// the approval base directory.
pub enum ApprovalAction {
    CreateDirectory { path: String },
    WriteFile { path: String, content: String },
}

/// The model of an approved action.
pub enum ApprovalActionView {
    CreateDirectory { path: Seq<char> },
    WriteFile { path: Seq<char>, content: Seq<char> },
}

impl View for ApprovalAction {
    type V = ApprovalActionView;

    open spec fn view(&self) -> ApprovalActionView {
        match self {
            ApprovalAction::CreateDirectory { path } => ApprovalActionView::CreateDirectory { path: path@ },
            ApprovalAction::WriteFile { path, content } => ApprovalActionView::WriteFile {
                path: path@,
                content: content@,
            },
        }
    }
}

/// The error for resolving an approval that is no longer pending.
pub open spec fn not_pending_text(row: ApprovalView) -> Seq<char> {
    "approval is not pending (id: "@ + row.approval_id + ", status: "@ + row.status + ")"@
}

/// Whether a stored approval is still pending.
pub open spec fn is_pending(row: ApprovalView) -> bool {
    row.status == "pending"@
}

/// The relative path an action may touch: `relative_path` trimmed, neither
/// empty, absolute, nor with a `..` component, where `parts` are the
/// components the platform reads in the trimmed path.
pub open spec fn target_path(relative_path: Seq<char>, parts: Seq<PathPart>) -> Result<Seq<char>, Seq<char>> {
    let t = trim(relative_path);
    if t.len() == 0 {
        Err("path cannot be empty"@)
    } else {
        match safe_path_check(t, parts) {
            Err(e) => Err(e),
            Ok(_) => Ok(t),
        }
    }
}

/// The action that an approval of `action_type` with the parsed payload
/// `payload` performs, where `parts` are the components the platform reads
/// in the payload's trimmed path.
pub open spec fn action_for(action_type: Seq<char>, payload: Json, parts: Seq<PathPart>) -> Result<ApprovalActionView, Seq<char>> {
    if action_type == "create_directory"@ {
        match payload.get_str("path"@) {
            None => Err("create_directory payload.path is required"@),
            Some(p) => match target_path(p, parts) {
                Err(e) => Err(e),
                Ok(t) => Ok(ApprovalActionView::CreateDirectory { path: t }),
            },
        }
    } else if action_type == "write_file"@ {
        match payload.get_str("path"@) {
            None => Err("write_file payload.path is required"@),
            Some(p) => match payload.get_str("content"@) {
                None => Err("write_file payload.content is required"@),
                Some(c) => match target_path(p, parts) {
                    Err(e) => Err(e),
                    Ok(t) => Ok(ApprovalActionView::WriteFile { path: t, content: c }),
                },
            },
        }
    } else {
        Err("unsupported approval action_type: "@ + action_type)
    }
}

/// A planned action by its model.
pub open spec fn action_result_view(r: Result<ApprovalAction, String>) -> Result<ApprovalActionView, Seq<char>> {
    match r {
        Ok(a) => Ok(a@),
        Err(e) => Err(e@),
    }
}

/// The path an action touches.
pub open spec fn action_path(a: ApprovalActionView) -> Seq<char> {
    match a {
        ApprovalActionView::CreateDirectory { path } => path,
        ApprovalActionView::WriteFile { path, .. } => path,
    }
}

/// What approving the stored request `row` does: a request that is not
/// pending is refused; otherwise its payload is parsed and its action
/// planned (`parts` as for `action_for`).
pub open spec fn approve_plan(row: ApprovalView, parts: Seq<PathPart>) -> Result<ApprovalActionView, Seq<char>> {
    if !is_pending(row) {
        Err(not_pending_text(row))
    } else {
        match parse_json_text(row.payload_json) {
            Err(e) => Err("invalid payload_json: "@ + e),
            Ok(payload) => action_for(row.action_type, payload, parts),
        }
    }
}

/// The path that a rejected request's payload names, when it has one.
pub open spec fn payload_path(payload_json: Seq<char>) -> Option<Seq<char>> {
    match parse_json_text(payload_json) {
        Ok(v) => v.get_str("path"@),
        Err(_) => None,
    }
}

/// The message recorded for the model when the user rejects `row`: the
/// action, and its path when the payload names a non-blank one.
pub open spec fn rejection_text(row: ApprovalView) -> Seq<char> {
    match payload_path(row.payload_json) {
        Some(p) => if trim(p).len() > 0 {
            "User rejected pending tool action: "@ + row.action_type + " on path "@ + p + "."@
        } else {
            "User rejected pending tool action: "@ + row.action_type + "."@
        },
        None => "User rejected pending tool action: "@ + row.action_type + "."@,
    }
}

/// What rejecting `row` does: a request that is not pending is refused;
/// otherwise the message for the model.
pub open spec fn reject_plan(row: ApprovalView) -> Result<Seq<char>, Seq<char>> {
    if !is_pending(row) {
        Err(not_pending_text(row))
    } else {
        Ok(rejection_text(row))
    }
}

/// Refuses a request that is no longer pending.
pub fn check_pending(row: &PendingApprovalRow) -> (r: Result<(), String>)
    ensures
        r is Ok <==> is_pending(row@),
        r matches Err(e) ==> e@ == not_pending_text(row@),
{
    if str_eq(row.status.as_str(), "pending") {
        return Ok(());
    }
    Err(concat5("approval is not pending (id: ", row.approval_id.as_str(), ", status: ", row.status.as_str(), ")"))
}

/// The relative path an approved action may touch (see `target_path`), as
/// the platform the program runs on reads it. On every platform an accepted
/// path is the trimmed input, not empty, neither starting at `/` nor with a
/// `/`-separated `..` component.
pub fn resolve_target_path(relative_path: &str) -> (r: Result<String, String>)
    ensures
        exists|parts: Seq<PathPart>| #[trigger] target_path(relative_path@, parts) == text_result_view(r),
        r matches Ok(t) ==> t@ == trim(relative_path@) && t@.len() > 0 && portable_safe(t@),
        trim(relative_path@).len() == 0 ==> (r matches Err(e) && e@ == "path cannot be empty"@),
        trim(relative_path@).len() > 0 && is_absolute_path(trim(relative_path@)) ==> (r matches Err(e) && e@
            == "absolute paths are not allowed"@),
        has_parent_component(trim(relative_path@)) ==> r is Err,
{
    let t = trim_str(relative_path);
    if t.as_str().is_empty() {
        proof {
            assert(t@.len() == 0);
        }
        let r = Err(owned("path cannot be empty"));
        assert(target_path(relative_path@, Seq::empty()) == text_result_view(r));
        return r;
    }
    let checked = validate_safe_path(t.as_str());
    let ghost w = choose|parts: Seq<PathPart>| #[trigger] safe_path_check(t@, parts) == check_view(checked);
    let r = match checked {
        Err(e) => Err(e),
        Ok(_) => Ok(t),
    };
    assert(target_path(relative_path@, w) == text_result_view(r));
    r
}

/// The action for an approval of `action_type` with the payload `payload`
/// (see `action_for`); an action's path passes the checks on every
/// platform.
pub fn approval_action(action_type: &str, payload: &JsonValue) -> (r: Result<ApprovalAction, String>)
    ensures
        exists|parts: Seq<PathPart>| #[trigger] action_for(action_type@, payload@, parts) == action_result_view(r),
        r matches Ok(a) ==> action_path(a@).len() > 0 && portable_safe(action_path(a@)),
{
    if str_eq(action_type, "create_directory") {
        let p = match payload.get_str("path") {
            Some(p) => p,
            None => {
                let r = Err(owned("create_directory payload.path is required"));
                assert(action_for(action_type@, payload@, Seq::empty()) == action_result_view(r));
                return r;
            },
        };
        let res = resolve_target_path(p);
        let ghost w = choose|parts: Seq<PathPart>| #[trigger] target_path(p@, parts) == text_result_view(res);
        let r = match res {
            Err(e) => Err(e),
            Ok(t) => Ok(ApprovalAction::CreateDirectory { path: t }),
        };
        assert(action_for(action_type@, payload@, w) == action_result_view(r));
        r
    } else if str_eq(action_type, "write_file") {
        let p = match payload.get_str("path") {
            Some(p) => p,
            None => {
                let r = Err(owned("write_file payload.path is required"));
                assert(action_for(action_type@, payload@, Seq::empty()) == action_result_view(r));
                return r;
            },
        };
        let c = match payload.get_str("content") {
            Some(c) => c,
            None => {
                let r = Err(owned("write_file payload.content is required"));
                assert(action_for(action_type@, payload@, Seq::empty()) == action_result_view(r));
                return r;
            },
        };
        let res = resolve_target_path(p);
        let ghost w = choose|parts: Seq<PathPart>| #[trigger] target_path(p@, parts) == text_result_view(res);
        let r = match res {
            Err(e) => Err(e),
            Ok(t) => Ok(ApprovalAction::WriteFile { path: t, content: owned(c) }),
        };
        assert(action_for(action_type@, payload@, w) == action_result_view(r));
        r
    } else {
        let r = Err(concat2("unsupported approval action_type: ", action_type));
        assert(action_for(action_type@, payload@, Seq::empty()) == action_result_view(r));
        r
    }
}

/// Plans the approval of the stored request `row` (see `approve_plan`):
/// only a pending request is approved, and its action touches only a
/// non-empty relative path without `..`.
pub fn plan_approve(row: &PendingApprovalRow) -> (r: Result<ApprovalAction, String>)
    ensures
        exists|parts: Seq<PathPart>| #[trigger] approve_plan(row@, parts) == action_result_view(r),
        r is Ok ==> is_pending(row@),
        r matches Ok(a) ==> action_path(a@).len() > 0 && portable_safe(action_path(a@)),
{
    match check_pending(row) {
        Err(e) => {
            let r = Err(e);
            assert(approve_plan(row@, Seq::empty()) == action_result_view(r));
            return r;
        },
        Ok(_) => {},
    }
    let payload = match parse_json(row.payload_json.as_str()) {
        Ok(v) => v,
        Err(e) => {
            let r = Err(concat2("invalid payload_json: ", e.as_str()));
            assert(approve_plan(row@, Seq::empty()) == action_result_view(r));
            return r;
        },
    };
    let r = approval_action(row.action_type.as_str(), &payload);
    let ghost w = choose|parts: Seq<PathPart>| #[trigger] action_for(row.action_type@, payload@, parts) == action_result_view(r);
    assert(approve_plan(row@, w) == action_result_view(r));
    r
}

/// The message for the model when the user rejects `row`.
pub fn rejection_message(row: &PendingApprovalRow) -> (r: String)
    ensures
        r@ == rejection_text(row@),
{
    let path: Option<String> = match parse_json(row.payload_json.as_str()) {
        Ok(v) => match v.get_str("path") {
            Some(p) => Some(owned(p)),
            None => None,
        },
        Err(_) => None,
    };
    match path {
        Some(p) => if !crate::text::is_blank(p.as_str()) {
            concat5("User rejected pending tool action: ", row.action_type.as_str(), " on path ", p.as_str(), ".")
        } else {
            concat3("User rejected pending tool action: ", row.action_type.as_str(), ".")
        },
        None => concat3("User rejected pending tool action: ", row.action_type.as_str(), "."),
    }
}

/// Plans the rejection of `row` (see `reject_plan`): only a pending request
/// is rejected, and a rejection performs no file-system action.
pub fn plan_reject(row: &PendingApprovalRow) -> (r: Result<String, String>)
    ensures
        match r {
            Ok(m) => reject_plan(row@) == Ok::<Seq<char>, Seq<char>>(m@),
            Err(e) => reject_plan(row@) == Err::<Seq<char>, Seq<char>>(e@),
        },
        r is Ok <==> is_pending(row@),
{
    match check_pending(row) {
        Err(e) => Err(e),
        Ok(_) => Ok(rejection_message(row)),
    }
}

/// The event for the resolved request `row`, whose assistant message is
/// `message_id`, with the new `status`.
pub fn resolved_event(row: PendingApprovalRow, message_id: String, status: &str) -> (r: ApprovalResolvedEvent)
    ensures
        r.conversation_id@ == row.conversation_id@,
        r.message_id@ == message_id@,
        r.approval_id@ == row.approval_id@,
        r.status@ == status@,
{
    ApprovalResolvedEvent {
        conversation_id: row.conversation_id,
        message_id,
        approval_id: row.approval_id,
        status: owned(status),
    }
}

/// A request that is not pending is neither approved nor rejected, however
/// the platform reads its path.
pub proof fn lemma_only_pending_resolved(row: ApprovalView, parts: Seq<PathPart>)
    requires
        !is_pending(row),
    ensures
        approve_plan(row, parts) == Err::<ApprovalActionView, Seq<char>>(not_pending_text(row)),
        reject_plan(row) == Err::<Seq<char>, Seq<char>>(not_pending_text(row)),
{
}

/// A pending request can always be rejected, whatever its payload.
pub proof fn lemma_pending_rejectable(row: ApprovalView)
    requires
        is_pending(row),
    ensures
        reject_plan(row) is Ok,
{
}


/// An approved write writes exactly the content the request carries: when
/// approving the stored request `row` plans a file write, the request's
/// payload parses, and the write's content is the payload's `content` string,
/// character for character, and its path is the payload's `path` trimmed.
/// A planned directory creation likewise uses the payload's `path` trimmed.
pub proof fn lemma_write_content_unchanged(row: ApprovalView, parts: Seq<PathPart>)
    ensures
        approve_plan(row, parts) matches Ok(ApprovalActionView::WriteFile { path, content }) ==> {
            &&& parse_json_text(row.payload_json) is Ok
            &&& row.action_type == "write_file"@
            &&& parse_json_text(row.payload_json)->Ok_0.get_str("content"@) == Some(content)
            &&& parse_json_text(row.payload_json)->Ok_0.get_str("path"@) is Some
            &&& trim(parse_json_text(row.payload_json)->Ok_0.get_str("path"@)->Some_0) == path
        },
        approve_plan(row, parts) matches Ok(ApprovalActionView::CreateDirectory { path }) ==> {
            &&& parse_json_text(row.payload_json) is Ok
            &&& row.action_type == "create_directory"@
            &&& parse_json_text(row.payload_json)->Ok_0.get_str("path"@) is Some
            &&& trim(parse_json_text(row.payload_json)->Ok_0.get_str("path"@)->Some_0) == path
        },
{
    reveal_strlit("write_file");
    reveal_strlit("create_directory");
}

} // verus!
