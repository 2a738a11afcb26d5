use vstd::prelude::*;
use vstd::string::StringExecFns;

verus! {

/// Raw input received from the coding agent's `PreToolUse` hook.
///
/// `tool_input` holds the tool's arguments as JSON text: nothing in the broker
/// looks inside them, they are only carried to the popup.
#[derive(Debug, Clone)]
pub struct HookInput {
    pub tool_name: String,
    pub tool_input: String,
    pub hook_event_name: Option<String>,
}

/// A permission request that waits for the user's decision.
#[derive(Debug, Clone)]
pub struct PermissionRequest {
    pub id: String,
    pub tool_name: String,
    pub tool_input: String,
    pub received_at: String,
}

/// The mathematical content of a [`PermissionRequest`].
pub struct PermissionRequestView {
    pub id: Seq<char>,
    pub tool_name: Seq<char>,
    pub tool_input: Seq<char>,
    pub received_at: Seq<char>,
}

impl View for PermissionRequest {
    type V = PermissionRequestView;

    open spec fn view(&self) -> PermissionRequestView {
        PermissionRequestView {
            id: self.id@,
            tool_name: self.tool_name@,
            tool_input: self.tool_input@,
            received_at: self.received_at@,
        }
    }
}

impl PermissionRequest {
    /// A field-by-field copy whose view is the original's.
    pub fn duplicate(&self) -> (r: PermissionRequest)
        ensures
            r@ == self@,
    {
        PermissionRequest {
            id: self.id.clone(),
            tool_name: self.tool_name.clone(),
            tool_input: self.tool_input.clone(),
            received_at: self.received_at.clone(),
        }
    }
}

/// What the user chose in the popup.
#[derive(Debug, Clone, Copy, PartialEq, Eq, Structural)]
pub enum DecisionAction {
    Allow,
    AllowAll,
    Deny,
    Block,
    Bypass,
}

/// A decision sent from the popup for the request `id`.
#[derive(Debug, Clone)]
pub struct PermissionDecision {
    pub id: String,
    pub action: DecisionAction,
    pub reason: Option<String>,
}

/// The mathematical content of a [`PermissionDecision`].
pub struct PermissionDecisionView {
    pub id: Seq<char>,
    pub action: DecisionAction,
    pub reason: Option<Seq<char>>,
}

impl View for PermissionDecision {
    type V = PermissionDecisionView;

    open spec fn view(&self) -> PermissionDecisionView {
        PermissionDecisionView { id: self.id@, action: self.action, reason: self.reason.deep_view() }
    }
}

/// The part of a hook response that the coding agent acts on.
#[derive(Debug)]
pub struct HookSpecificOutput {
    pub hook_event_name: String,
    pub permission_decision: String,
}

/// The response sent back to the hook script as the HTTP body.
#[derive(Debug)]
pub struct HookResponse {
    pub hook_specific_output: HookSpecificOutput,
    pub system_message: Option<String>,
}

/// The mathematical content of a [`HookResponse`].
pub struct HookResponseView {
    pub hook_event_name: Seq<char>,
    pub permission_decision: Seq<char>,
    pub system_message: Option<Seq<char>>,
}

impl View for HookResponse {
    type V = HookResponseView;

    open spec fn view(&self) -> HookResponseView {
        HookResponseView {
            hook_event_name: self.hook_specific_output.hook_event_name@,
            permission_decision: self.hook_specific_output.permission_decision@,
            system_message: self.system_message.deep_view(),
        }
    }
}

/// The hook event that every response answers.
pub open spec fn pre_tool_use() -> Seq<char> {
    "PreToolUse"@
}

/// The response that lets the tool call go ahead.
pub open spec fn allow_response() -> HookResponseView {
    HookResponseView {
        hook_event_name: pre_tool_use(),
        permission_decision: "allow"@,
        system_message: None,
    }
}

/// The response that stops the tool call, telling the agent `reason` if there is one.
pub open spec fn block_response(reason: Option<Seq<char>>) -> HookResponseView {
    HookResponseView {
        hook_event_name: pre_tool_use(),
        permission_decision: "block"@,
        system_message: reason,
    }
}

/// Whether a decision lets the tool call go ahead.
pub open spec fn lets_through(action: DecisionAction) -> bool {
    match action {
        DecisionAction::Allow | DecisionAction::AllowAll | DecisionAction::Bypass => true,
        DecisionAction::Deny | DecisionAction::Block => false,
    }
}

/// The response that a decision with `action` and `reason` produces.
pub open spec fn response_for(action: DecisionAction, reason: Option<Seq<char>>) -> HookResponseView {
    if lets_through(action) {
        allow_response()
    } else {
        block_response(reason)
    }
}

/// The action that the popup names by `name`, if any.
pub open spec fn action_named(name: Seq<char>) -> Option<DecisionAction> {
    if name == "allow"@ {
        Some(DecisionAction::Allow)
    } else if name == "allow_all"@ {
        Some(DecisionAction::AllowAll)
    } else if name == "deny"@ {
        Some(DecisionAction::Deny)
    } else if name == "block"@ {
        Some(DecisionAction::Block)
    } else if name == "bypass"@ {
        Some(DecisionAction::Bypass)
    } else {
        None
    }
}

/// Whether two strings hold the same text.
pub fn same_text(a: &str, b: &str) -> (r: bool)
    ensures
        r == (a@ == b@),
{
    let a = String::from_str(a);
    let b = String::from_str(b);
    a == b
}

/// Reads the action name that the popup sends.
pub fn parse_action(name: &str) -> (r: Option<DecisionAction>)
    ensures
        r == action_named(name@),
{
    if same_text(name, "allow") {
        Some(DecisionAction::Allow)
    } else if same_text(name, "allow_all") {
        Some(DecisionAction::AllowAll)
    } else if same_text(name, "deny") {
        Some(DecisionAction::Deny)
    } else if same_text(name, "block") {
        Some(DecisionAction::Block)
    } else if same_text(name, "bypass") {
        Some(DecisionAction::Bypass)
    } else {
        None
    }
}

impl HookResponse {
    /// The response that approves the tool call.
    pub fn allow() -> (r: Self)
        ensures
            r@ == allow_response(),
    {
        HookResponse {
            hook_specific_output: HookSpecificOutput {
                hook_event_name: String::from_str("PreToolUse"),
                permission_decision: String::from_str("allow"),
            },
            system_message: None,
        }
    }

    /// The response that blocks the tool call, with `reason` as the message to the agent.
    pub fn block(reason: Option<String>) -> (r: Self)
        ensures
            r@ == block_response(reason.deep_view()),
    {
        HookResponse {
            hook_specific_output: HookSpecificOutput {
                hook_event_name: String::from_str("PreToolUse"),
                permission_decision: String::from_str("block"),
            },
            system_message: reason,
        }
    }

    /// The response that answers the hook once the user has decided.
    pub fn for_decision(decision: PermissionDecision) -> (r: Self)
        ensures
            r@ == response_for(decision.action, decision.reason.deep_view()),
    {
        match decision.action {
            DecisionAction::Allow | DecisionAction::AllowAll => HookResponse::allow(),
            DecisionAction::Bypass => HookResponse::allow(),
            DecisionAction::Deny | DecisionAction::Block => HookResponse::block(decision.reason),
        }
    }
}

} // verus!
