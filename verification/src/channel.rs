//! The one-shot channel that carries a decision from the popup to the hook
//! call that waits for it. Each end carries a ghost channel identity, set
//! only here, so that contracts can say which waiting call a decision goes to.
use vstd::prelude::*;
use tokio::sync::oneshot::error::RecvError;
use tokio::sync::oneshot::{Receiver, Sender};

use crate::models::{PermissionDecision, PermissionDecisionView};

verus! {

/// The sending half of tokio's one-shot channel, carried opaquely.
#[verifier::external_type_specification]
#[verifier::external_body]
#[verifier::reject_recursive_types(T)]
pub struct ExOneshotSender<T>(Sender<T>);

/// The receiving half of tokio's one-shot channel, carried opaquely.
#[verifier::external_type_specification]
#[verifier::external_body]
#[verifier::reject_recursive_types(T)]
pub struct ExOneshotReceiver<T>(Receiver<T>);

/// The error that awaiting a receiver gives when its sender was dropped.
#[verifier::external_type_specification]
#[verifier::external_body]
pub struct ExOneshotRecvError(RecvError);

/// The end that a decision is sent into.
pub struct DecisionSender {
    tx: Sender<PermissionDecision>,
    chan: Ghost<int>,
}

/// The end on which a waiting hook call receives its decision.
pub struct DecisionReceiver {
    rx: Receiver<PermissionDecision>,
    chan: Ghost<int>,
}

/// Proof that a decision was handed to a channel: which channel, what was
/// handed over, and whether the channel accepted it (its receiver was alive).
pub struct Handover {
    chan: Ghost<int>,
    sent: Ghost<PermissionDecisionView>,
    accepted: Ghost<bool>,
}

/// Proof that a channel end was dropped without anything sent on it, so that
/// its hook call finds the channel closed and answers "gone".
pub struct Discarded {
    chan: Ghost<int>,
}

impl Discarded {
    /// The channel whose sending end was dropped.
    pub closed spec fn chan(&self) -> int {
        self.chan@
    }
}

impl DecisionSender {
    /// The channel this end belongs to.
    pub closed spec fn chan(&self) -> int {
        self.chan@
    }
}

impl DecisionReceiver {
    /// The channel this end belongs to.
    pub closed spec fn chan(&self) -> int {
        self.chan@
    }

    /// The tokio receiver, to be awaited by the hook call.
    pub fn into_receiver(self) -> Receiver<PermissionDecision> {
        self.rx
    }
}

impl Handover {
    /// The channel the decision was handed to.
    pub closed spec fn chan(&self) -> int {
        self.chan@
    }

    /// The decision that was handed over.
    pub closed spec fn sent(&self) -> PermissionDecisionView {
        self.sent@
    }

    /// Whether the channel took the decision.
    pub closed spec fn accepted(&self) -> bool {
        self.accepted@
    }
}

/// Calls `tokio::sync::oneshot::channel` and tags both ends with one ghost
/// channel identity: the claim is only that the two ends belong together,
/// which `channel` guarantees. Nothing is claimed about identities of other
/// channels.
#[verifier::external_body]
pub(crate) fn decision_channel() -> (r: (DecisionSender, DecisionReceiver))
    ensures
        r.0.chan() == r.1.chan(),
{
    let (tx, rx) = tokio::sync::oneshot::channel();
    let chan: Ghost<int> = Ghost(arbitrary());
    (DecisionSender { tx, chan }, DecisionReceiver { rx, chan })
}

/// Calls `tokio::sync::oneshot::Sender::send`, which consumes the sender.
/// Whether the send succeeds depends on whether the receiver is still alive,
/// which is not known here. Either way the receipt records the sender's
/// channel, the value handed to `send`, and whether `send` took it; on
/// failure tokio also hands back the very value that was given to it.
#[verifier::external_body]
pub(crate) fn send_decision(sender: DecisionSender, decision: PermissionDecision) -> (r: Result<Handover, (Handover, PermissionDecision)>)
    ensures
        r matches Ok(h) ==> h.chan() == sender.chan() && h.sent() == decision@ && h.accepted(),
        r matches Err(p) ==> p.0.chan() == sender.chan() && p.0.sent() == decision@
            && !p.0.accepted() && p.1 == decision,
{
    let chan = sender.chan;
    let sent: Ghost<PermissionDecisionView> = Ghost(decision@);
    match sender.tx.send(decision) {
        Ok(()) => Ok(Handover { chan, sent, accepted: Ghost(true) }),
        Err(back) => Err((Handover { chan, sent, accepted: Ghost(false) }, back)),
    }
}

/// Drops the tokio sender (`core::mem::drop`) without sending: the receiver
/// then sees the channel closed. The receipt names the channel; since the
/// sender is consumed, nothing can be sent on it afterwards.
#[verifier::external_body]
pub(crate) fn discard_sender(sender: DecisionSender) -> (r: Discarded)
    ensures
        r.chan() == sender.chan(),
{
    let chan = sender.chan;
    drop(sender.tx);
    Discarded { chan }
}

} // verus!
