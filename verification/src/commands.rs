//! What the popup asks of the broker: to resolve a request with the user's
//! choice, or to dismiss it without one.
use vstd::prelude::*;
use vstd::string::StringExecFns;

use crate::channel::{discard_sender, Discarded, Handover};
use crate::models::{
    action_named, parse_action, DecisionAction, PermissionDecision, PermissionDecisionView,
    PermissionRequest,
};
use crate::pending::{has_id, keyed, lemma_keyed_domain, lemma_keyed_empty};
use crate::state::{
    handed, listing, nothing_pending, no_pending_text, send_failed_text, with_auto_allow, without_request,
    AppState, ResolveError, StateView,
};

verus! {

/// What the popup panel should do once a request has been handled.
#[derive(Debug, Clone, Copy, PartialEq, Eq, Structural)]
pub enum PanelAction {
    /// No request is left: hide the panel.
    Hide,
    /// Requests are still waiting: leave the panel as it is.
    KeepOpen,
}

/// The panel action for the state `v`: hide it exactly when nothing waits.
pub open spec fn panel_after(v: StateView) -> PanelAction {
    if nothing_pending(v) {
        PanelAction::Hide
    } else {
        PanelAction::KeepOpen
    }
}

/// A request resolved by the user's choice: what the panel should do, and
/// the receipt of the decision that went to the waiting hook call.
pub struct Resolved {
    pub panel: PanelAction,
    pub delivery: Handover,
}

/// The error text for an action name that the popup should never send.
pub open spec fn invalid_action_text(action: Seq<char>) -> Seq<char> {
    "Invalid action: "@ + action
}

/// The state after the user chose `action` for the request `id`: with
/// "allow all", the tool (when named) joins the auto-allow list; in every
/// case the request stops waiting.
pub open spec fn after_choice(
    v: StateView,
    id: Seq<char>,
    action: DecisionAction,
    tool_name: Option<Seq<char>>,
) -> StateView {
    let v1 = if action == DecisionAction::AllowAll && tool_name is Some {
        with_auto_allow(v, tool_name->0)
    } else {
        v
    };
    without_request(v1, id)
}

/// The panel action once the requests `remaining` are what is left.
fn panel_for(remaining: &Vec<PermissionRequest>, Ghost(v): Ghost<StateView>) -> (r: PanelAction)
    requires
        keyed(listing(remaining@)) == v.pending,
    ensures
        r == panel_after(v),
        (r == PanelAction::Hide) <==> (forall|k: Seq<char>| !v.pending.contains_key(k)),
{
    proof {
        lemma_keyed_empty(listing(remaining@));
        if remaining.len() > 0 {
            lemma_keyed_domain(listing(remaining@), listing(remaining@)[0].0);
            assert(has_id(listing(remaining@), listing(remaining@)[0].0));
        } else {
            assert forall|k: Seq<char>| !v.pending.contains_key(k) by {
                lemma_keyed_domain(listing(remaining@), k);
            }
        }
    }
    if remaining.len() == 0 {
        PanelAction::Hide
    } else {
        PanelAction::KeepOpen
    }
}

/// Applies the user's choice `action` (`allow`, `allow_all`, `deny`, `block`
/// or `bypass`) to the request `id`, and says what the panel should do.
///
/// An unknown action name changes nothing and is an error. With `allow_all`
/// and a tool name, the tool is auto-allowed for the rest of the session, even
/// when the request itself can no longer be resolved. Whenever a request waits
/// on `id`, the decision `(id, action, reason)` is handed to its hook call's
/// channel: success carries the receipt, and the failure of a hook call that
/// has gone away carries the receipt of the attempt.
pub fn resolve_permission(
    state: &mut AppState,
    id: String,
    action: String,
    reason: Option<String>,
    tool_name: Option<String>,
) -> (r: Result<Resolved, ResolveError>)
    ensures
        action_named(action@) is None ==> {
            &&& final(state)@ == old(state)@
            &&& r matches Err(e) && e.message@ == invalid_action_text(action@) && e.attempt is None
        },
        action_named(action@) matches Some(a) ==> {
            let decision = PermissionDecisionView { id: id@, action: a, reason: reason.deep_view() };
            &&& final(state)@ == after_choice(old(state)@, id@, a, tool_name.deep_view())
            &&& !old(state)@.pending.contains_key(id@) ==> (r matches Err(e) && e.message@
                == no_pending_text(id@) && e.attempt is None)
            &&& old(state)@.pending.contains_key(id@) ==> match r {
                Ok(res) => res.panel == panel_after(final(state)@) && ((res.panel
                    == PanelAction::Hide) <==> (forall|k: Seq<char>|
                    !final(state)@.pending.contains_key(k))) && handed(
                    res.delivery,
                    old(state)@.channels[id@],
                    decision,
                    true,
                ),
                Err(e) => e.message@ == send_failed_text() && (e.attempt matches Some(h)
                    && handed(h, old(state)@.channels[id@], decision, false)),
            }
        },
{
    let decision_action = match parse_action(action.as_str()) {
        Some(a) => a,
        None => {
            let msg = String::from_str("Invalid action: ");
            return Err(ResolveError { message: msg.concat(action.as_str()), attempt: None });
        },
    };
    if decision_action == DecisionAction::AllowAll {
        if let Some(name) = tool_name {
            state.add_auto_allow(name);
        }
    }
    let decision = PermissionDecision { id, action: decision_action, reason };
    let delivery = match state.resolve(decision) {
        Ok(d) => d,
        Err(e) => {
            return Err(e);
        },
    };
    let remaining = state.get_pending_requests();
    let panel = panel_for(&remaining, Ghost(state@));
    Ok(Resolved { panel, delivery })
}

/// Drops the request `id` without a decision: its channel end is dropped
/// unsent, so its hook call finds the channel closed and answers "gone". Says
/// what the panel should do, and gives the receipt of the drop when a request
/// waited under `id`.
pub fn dismiss_request(state: &mut AppState, id: String) -> (r: (PanelAction, Option<Discarded>))
    ensures
        final(state)@ == without_request(old(state)@, id@),
        r.0 == panel_after(final(state)@),
        (r.0 == PanelAction::Hide) <==> (forall|k: Seq<char>| !final(state)@.pending.contains_key(k)),
        r.1 is Some <==> old(state)@.pending.contains_key(id@),
        r.1 matches Some(d) ==> d.chan() == old(state)@.channels[id@],
{
    let discarded = match state.take_request(id.as_str()) {
        Some(entry) => Some(discard_sender(entry.sender)),
        None => None,
    };
    let remaining = state.get_pending_requests();
    (panel_for(&remaining, Ghost(state@)), discarded)
}

} // verus!
