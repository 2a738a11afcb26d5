//! Properties of the broker that span its operations, stated over the
//! transitions that the operations' contracts name.
use vstd::prelude::*;

use crate::commands::{after_choice, panel_after, PanelAction};
use crate::models::{
    allow_response, block_response, lets_through, pre_tool_use, response_for, DecisionAction,
    PermissionRequestView,
};
use crate::state::{with_auto_allow, with_request, without_request, StateView};

verus! {

/// Once a tool is auto-allowed it stays so for the rest of the session:
/// registering a request, resolving or dismissing one, answering a choice of
/// the user, and auto-allowing another tool all keep it on the list.
pub proof fn law_auto_allow_persists(
    v: StateView,
    tool: Seq<char>,
    request: PermissionRequestView,
    chan: int,
    id: Seq<char>,
    action: DecisionAction,
    tool_name: Option<Seq<char>>,
    other: Seq<char>,
)
    requires
        v.auto_allowed.contains(tool),
    ensures
        with_request(v, request, chan).auto_allowed.contains(tool),
        without_request(v, id).auto_allowed.contains(tool),
        with_auto_allow(v, other).auto_allowed.contains(tool),
        after_choice(v, id, action, tool_name).auto_allowed.contains(tool),
{
}

/// Choosing "allow all" for a request of a named tool puts that tool on the
/// auto-allow list, so that its later calls are approved without asking.
pub proof fn law_allow_all_auto_allows(v: StateView, id: Seq<char>, tool: Seq<char>)
    ensures
        after_choice(v, id, DecisionAction::AllowAll, Some(tool)).auto_allowed.contains(tool),
{
}

/// Only "allow all" with a tool name changes the auto-allow list.
pub proof fn law_only_allow_all_adds(
    v: StateView,
    id: Seq<char>,
    action: DecisionAction,
    tool_name: Option<Seq<char>>,
)
    requires
        action != DecisionAction::AllowAll || tool_name is None,
    ensures
        after_choice(v, id, action, tool_name).auto_allowed == v.auto_allowed,
{
}

/// A request is answered at most once: after a choice, a resolve or a
/// dismissal it no longer waits, so a second decision for it finds nothing,
/// and taking it away again changes nothing.
pub proof fn law_answered_once(
    v: StateView,
    id: Seq<char>,
    action: DecisionAction,
    tool_name: Option<Seq<char>>,
)
    ensures
        !without_request(v, id).pending.contains_key(id),
        !after_choice(v, id, action, tool_name).pending.contains_key(id),
        without_request(without_request(v, id), id) == without_request(v, id),
{
    assert(without_request(without_request(v, id), id).pending =~= without_request(
        v,
        id,
    ).pending);
    assert(without_request(without_request(v, id), id).channels =~= without_request(
        v,
        id,
    ).channels);
}

/// A registered request can be read back: it waits under its id, as it was
/// given, on the channel of the receiver that registering it returned.
pub proof fn law_registered_request_waits(v: StateView, request: PermissionRequestView, chan: int)
    ensures
        with_request(v, request, chan).pending.contains_key(request.id),
        with_request(v, request, chan).pending[request.id] == request,
        with_request(v, request, chan).channels[request.id] == chan,
{
}

/// Registering a request under a fresh id and then dropping it (by a decision
/// or a dismissal) gives back the state from before.
pub proof fn law_register_then_drop(v: StateView, request: PermissionRequestView, chan: int)
    requires
        !v.pending.contains_key(request.id),
        !v.channels.contains_key(request.id),
    ensures
        without_request(with_request(v, request, chan), request.id) == v,
{
    assert(without_request(with_request(v, request, chan), request.id).pending =~= v.pending);
    assert(without_request(with_request(v, request, chan), request.id).channels =~= v.channels);
}

/// Handling one request leaves every other waiting request as it was.
pub proof fn law_other_requests_untouched(
    v: StateView,
    id: Seq<char>,
    other: Seq<char>,
    action: DecisionAction,
    tool_name: Option<Seq<char>>,
    request: PermissionRequestView,
    chan: int,
)
    requires
        other != id,
        other != request.id,
    ensures
        without_request(v, id).pending.contains_key(other) == v.pending.contains_key(other),
        after_choice(v, id, action, tool_name).pending.contains_key(other)
            == v.pending.contains_key(other),
        with_request(v, request, chan).pending.contains_key(other) == v.pending.contains_key(other),
        v.pending.contains_key(other) ==> {
            &&& without_request(v, id).pending[other] == v.pending[other]
            &&& after_choice(v, id, action, tool_name).pending[other] == v.pending[other]
            &&& with_request(v, request, chan).pending[other] == v.pending[other]
        },
        v.channels.contains_key(other) ==> {
            &&& without_request(v, id).channels[other] == v.channels[other]
            &&& after_choice(v, id, action, tool_name).channels[other] == v.channels[other]
            &&& with_request(v, request, chan).channels[other] == v.channels[other]
        },
{
}

/// A choice of the user never makes a request wait.
pub proof fn law_choice_adds_no_request(
    v: StateView,
    id: Seq<char>,
    action: DecisionAction,
    tool_name: Option<Seq<char>>,
    k: Seq<char>,
)
    requires
        after_choice(v, id, action, tool_name).pending.contains_key(k),
    ensures
        v.pending.contains_key(k),
{
}

/// Every response answers the `PreToolUse` event; "allow", "allow all" and
/// "bypass" let the call through without a message, while "deny" and "block"
/// stop it and pass the user's explanation (if any) on to the agent.
pub proof fn law_response_follows_decision(action: DecisionAction, reason: Option<Seq<char>>)
    ensures
        response_for(action, reason).hook_event_name == pre_tool_use(),
        lets_through(action) <==> (action == DecisionAction::Allow || action
            == DecisionAction::AllowAll || action == DecisionAction::Bypass),
        lets_through(action) ==> response_for(action, reason) == allow_response(),
        !lets_through(action) ==> response_for(action, reason) == block_response(reason),
        response_for(action, reason).permission_decision == (if lets_through(action) {
            "allow"@
        } else {
            "block"@
        }),
{
}

/// One operation of a session on the broker's state, as its contract names it.
pub enum Step {
    /// `insert_request`: the request waits on the given channel.
    Register(PermissionRequestView, int),
    /// `resolve` or `dismiss_request`: the request with this id stops waiting.
    Drop(Seq<char>),
    /// `add_auto_allow`.
    AutoAllow(Seq<char>),
    /// `resolve_permission` with a known action name.
    Choose(Seq<char>, DecisionAction, Option<Seq<char>>),
}

/// The state after one step.
pub open spec fn step(v: StateView, s: Step) -> StateView {
    match s {
        Step::Register(request, chan) => with_request(v, request, chan),
        Step::Drop(id) => without_request(v, id),
        Step::AutoAllow(tool) => with_auto_allow(v, tool),
        Step::Choose(id, action, tool_name) => after_choice(v, id, action, tool_name),
    }
}

/// The state after a sequence of steps, in order.
pub open spec fn run(v: StateView, steps: Seq<Step>) -> StateView
    decreases steps.len(),
{
    if steps.len() == 0 {
        v
    } else {
        step(run(v, steps.drop_last()), steps.last())
    }
}

/// The step puts `tool` on the auto-allow list.
pub open spec fn grants(s: Step, tool: Seq<char>) -> bool {
    match s {
        Step::AutoAllow(t) => t == tool,
        Step::Choose(_, action, tool_name) => action == DecisionAction::AllowAll && tool_name
            == Some(tool),
        _ => false,
    }
}

/// The step concerns the request with id `id`.
pub open spec fn touches(s: Step, id: Seq<char>) -> bool {
    match s {
        Step::Register(request, _) => request.id == id,
        Step::Drop(i) => i == id,
        Step::Choose(i, _, _) => i == id,
        Step::AutoAllow(_) => false,
    }
}

/// Over a whole session, a tool is auto-allowed exactly when it was so at the
/// start or some step granted it (`add_auto_allow` of it, or "allow all" for a request
/// of it): nothing ever takes a tool off the list.
pub proof fn law_session_auto_allow(v: StateView, steps: Seq<Step>, tool: Seq<char>)
    ensures
        run(v, steps).auto_allowed.contains(tool) <==> (v.auto_allowed.contains(tool) || exists|
            i: int,
        | 0 <= i < steps.len() && #[trigger] grants(steps[i], tool)),
    decreases steps.len(),
{
    if steps.len() > 0 {
        let t = steps.drop_last();
        law_session_auto_allow(v, t, tool);
        if exists|i: int| 0 <= i < t.len() && #[trigger] grants(t[i], tool) {
            let i = choose|i: int| 0 <= i < t.len() && #[trigger] grants(t[i], tool);
            assert(grants(steps[i], tool));
        }
        if exists|i: int| 0 <= i < steps.len() && #[trigger] grants(steps[i], tool) {
            let i = choose|i: int| 0 <= i < steps.len() && #[trigger] grants(steps[i], tool);
            if i < steps.len() - 1 {
                assert(grants(t[i], tool));
            }
        }
        if grants(steps.last(), tool) {
            assert(grants(steps[steps.len() - 1], tool));
        }
    }
}

/// After "allow all" for a request of `tool`, every later call of that tool in
/// the session is answered at once, whatever happens in between.
pub proof fn law_allow_all_lasts(
    v: StateView,
    id: Seq<char>,
    tool: Seq<char>,
    later: Seq<Step>,
)
    ensures
        run(after_choice(v, id, DecisionAction::AllowAll, Some(tool)), later).auto_allowed.contains(
            tool,
        ),
{
    law_session_auto_allow(after_choice(v, id, DecisionAction::AllowAll, Some(tool)), later, tool);
}

/// A registered request keeps waiting, as given and under the channel tag of
/// the receiver that registering returned, through every step that does not
/// concern its id. So the receipt of the decision that resolves it names that
/// receiver's channel tag.
pub proof fn law_request_keeps_its_channel(
    v: StateView,
    request: PermissionRequestView,
    chan: int,
    later: Seq<Step>,
)
    requires
        forall|i: int| 0 <= i < later.len() ==> !touches(#[trigger] later[i], request.id),
    ensures
        run(with_request(v, request, chan), later).pending.contains_key(request.id),
        run(with_request(v, request, chan), later).pending[request.id] == request,
        run(with_request(v, request, chan), later).channels.contains_key(request.id),
        run(with_request(v, request, chan), later).channels[request.id] == chan,
    decreases later.len(),
{
    if later.len() > 0 {
        let t = later.drop_last();
        assert forall|i: int| 0 <= i < t.len() implies !touches(#[trigger] t[i], request.id) by {
            assert(t[i] == later[i]);
        }
        law_request_keeps_its_channel(v, request, chan, t);
        assert(!touches(later[later.len() - 1], request.id));
    }
}

/// The popup is hidden exactly when no request waits any more: as long as
/// at least one request (of any number) waits, it stays open.
pub proof fn law_panel_hides_exactly_when_empty(v: StateView)
    ensures
        (panel_after(v) == PanelAction::Hide) <==> (forall|k: Seq<char>|
            !v.pending.contains_key(k)),
        (exists|k: Seq<char>| v.pending.contains_key(k)) ==> panel_after(v)
            == PanelAction::KeepOpen,
{
    if exists|k: Seq<char>| v.pending.contains_key(k) {
        let k = choose|k: Seq<char>| v.pending.contains_key(k);
        assert(v.pending.dom().contains(k));
        assert(v.pending != Map::<Seq<char>, PermissionRequestView>::empty());
    } else {
        assert(v.pending =~= Map::<Seq<char>, PermissionRequestView>::empty());
    }
}

} // verus!
