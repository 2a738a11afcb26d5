//! The decisions of the hook endpoint: answer at once for an auto-allowed
//! tool, or turn the call into a request that waits for the user; and, once
//! the wait is over, the reply that goes back to the hook.
use vstd::prelude::*;
use tokio::sync::oneshot::error::RecvError;

use crate::models::{
    allow_response, response_for, HookInput, HookResponse, PermissionDecision, PermissionRequest,
    PermissionRequestView,
};
use crate::stamps::{is_utc_rfc3339, is_uuid_v4_text, new_request_id, now_stamp};
use crate::state::AppState;

verus! {

/// The HTTP status of a hook call whose request was dropped without a
/// decision (dismissed, replaced, or the app closing): the hook script then
/// passes through and the agent falls back to its own prompt.
pub const STATUS_GONE: u16 = 410;

/// The HTTP status of a hook call that cannot be stamped because the system
/// clock reads before the Unix epoch: the hook script then passes through.
pub const STATUS_CLOCK_UNAVAILABLE: u16 = 500;

/// How a hook call proceeds.
pub enum Intake {
    /// Answer at once with this response.
    Respond(HookResponse),
    /// Show this request to the user and wait for the decision.
    Prompt(PermissionRequest),
    /// Give up on the call with this HTTP status.
    Fail(u16),
}

/// The request shown to the user for `input`, under the id `id`, received at
/// `received_at`.
pub fn prompt_for(input: HookInput, id: String, received_at: String) -> (r: PermissionRequest)
    ensures
        r@ == (PermissionRequestView {
            id: id@,
            tool_name: input.tool_name@,
            tool_input: input.tool_input@,
            received_at: received_at@,
        }),
{
    PermissionRequest {
        id,
        tool_name: input.tool_name,
        tool_input: input.tool_input,
        received_at,
    }
}

/// The next step for a call that is not auto-allowed, given its fresh id and
/// its timestamp (`None` when the clock could not be read): show it to the
/// user, or fail it when it has no timestamp.
pub fn prompt_or_fail(input: HookInput, id: String, stamp: Option<String>) -> (r: Intake)
    ensures
        stamp is None ==> r is Fail && r->Fail_0 == STATUS_CLOCK_UNAVAILABLE,
        stamp matches Some(t) ==> (r matches Intake::Prompt(p) && p@ == (PermissionRequestView {
            id: id@,
            tool_name: input.tool_name@,
            tool_input: input.tool_input@,
            received_at: t@,
        })),
{
    match stamp {
        Some(t) => Intake::Prompt(prompt_for(input, id, t)),
        None => Intake::Fail(STATUS_CLOCK_UNAVAILABLE),
    }
}

/// Screens a hook call: a tool on the auto-allow list is approved at once;
/// any other call becomes a request with a fresh random id (a spare id in the
/// rare case that the random one is already waiting), stamped with the
/// current UTC time, or fails when the clock cannot be read.
pub fn screen_request(state: &AppState, input: HookInput) -> (r: Intake)
    ensures
        (r is Respond) <==> state@.auto_allowed.contains(input.tool_name@),
        r matches Intake::Respond(h) ==> h@ == allow_response(),
        r matches Intake::Prompt(p) ==> {
            &&& p@.tool_name == input.tool_name@
            &&& p@.tool_input == input.tool_input@
            &&& is_uuid_v4_text(p@.id)
            &&& !state@.pending.contains_key(p@.id)
            &&& is_utc_rfc3339(p@.received_at)
        },
        r matches Intake::Fail(code) ==> code == STATUS_CLOCK_UNAVAILABLE,
{
    if state.is_auto_allowed(input.tool_name.as_str()) {
        return Intake::Respond(HookResponse::allow());
    }
    let id = state.fresh_id(new_request_id());
    let stamp = match now_stamp() {
        Ok(p) => Some(p.0),
        Err(_) => None,
    };
    prompt_or_fail(input, id, stamp)
}

/// The reply to a hook call once its wait is over: the response for the
/// user's decision, or the status "gone" when the request was dropped
/// without one.
pub fn hook_reply(received: Result<PermissionDecision, RecvError>) -> (r: Result<HookResponse, u16>)
    ensures
        received is Err ==> r == Err::<HookResponse, u16>(STATUS_GONE),
        received matches Ok(d) ==> (r matches Ok(h) && h@ == response_for(
            d.action,
            d.reason.deep_view(),
        )),
{
    match received {
        Ok(decision) => Ok(HookResponse::for_decision(decision)),
        Err(_) => Err(STATUS_GONE),
    }
}

} // verus!
