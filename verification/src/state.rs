use vstd::prelude::*;
use vstd::hash_set::StringHashSet;
use vstd::string::StringExecFns;

use crate::channel::{
    decision_channel, discard_sender, send_decision, DecisionReceiver, DecisionSender, Discarded,
    Handover,
};
use crate::stamps::{
    is_uuid_v4_text, lemma_spare_id_injective, lemma_spare_id_shape, spare_id, spare_id_text,
};
use crate::models::{
    same_text, PermissionDecision, PermissionDecisionView, PermissionRequest, PermissionRequestView,
};
use crate::pending::{
    distinct_ids, has_id, keyed, lemma_keyed_domain, lemma_keyed_len, lemma_keyed_push,
    lemma_keyed_remove, lemma_keyed_value, lemma_pigeonhole,
};

verus! {

/// A request that waits for a decision, with the channel end that delivers
/// the decision to the hook call that is holding its HTTP connection open.
pub struct PendingRequest {
    pub request: PermissionRequest,
    pub sender: DecisionSender,
}

/// The broker's state as mathematics: the waiting requests by id, the
/// channel that each waiting hook call listens on, and the tool names that are
/// approved without asking for the rest of the session.
pub struct StateView {
    pub pending: Map<Seq<char>, PermissionRequestView>,
    pub channels: Map<Seq<char>, int>,
    pub auto_allowed: Set<Seq<char>>,
}

/// The state right after start-up.
pub open spec fn initial_state() -> StateView {
    StateView { pending: Map::empty(), channels: Map::empty(), auto_allowed: Set::empty() }
}

/// `v` with `request` waiting under its id on channel `chan` (replacing any
/// request with that id).
pub open spec fn with_request(v: StateView, request: PermissionRequestView, chan: int) -> StateView {
    StateView {
        pending: v.pending.insert(request.id, request),
        channels: v.channels.insert(request.id, chan),
        auto_allowed: v.auto_allowed,
    }
}

/// `v` with no request waiting under `id`.
pub open spec fn without_request(v: StateView, id: Seq<char>) -> StateView {
    StateView {
        pending: v.pending.remove(id),
        channels: v.channels.remove(id),
        auto_allowed: v.auto_allowed,
    }
}

/// `v` with `tool` approved for the rest of the session.
pub open spec fn with_auto_allow(v: StateView, tool: Seq<char>) -> StateView {
    StateView { pending: v.pending, channels: v.channels, auto_allowed: v.auto_allowed.insert(tool) }
}

/// No request is waiting.
pub open spec fn nothing_pending(v: StateView) -> bool {
    v.pending == Map::<Seq<char>, PermissionRequestView>::empty()
}

/// The error text for a decision about an id that is not waiting.
pub open spec fn no_pending_text(id: Seq<char>) -> Seq<char> {
    "No pending request with id: "@ + id
}

/// The error text for a decision whose hook call has already gone away.
pub open spec fn send_failed_text() -> Seq<char> {
    "Failed to send decision through channel"@
}

/// `h` records that `decision` was handed to channel `chan`, and whether the
/// channel took it.
pub open spec fn handed(h: Handover, chan: int, decision: PermissionDecisionView, accepted: bool) -> bool {
    h.chan() == chan && h.sent() == decision && h.accepted() == accepted
}

/// Why a decision could not be delivered: the message for the popup, and,
/// when the decision was handed to a channel whose hook call had gone away,
/// the receipt of that attempt.
pub struct ResolveError {
    pub message: String,
    pub attempt: Option<Handover>,
}

/// A list of requests as (id, request) pairs, in order.
pub open spec fn listing(requests: Seq<PermissionRequest>) -> Seq<(Seq<char>, PermissionRequestView)> {
    requests.map_values(|q: PermissionRequest| (q.id@, q@))
}

/// The requests held in a sequence of entries, as (id, request) pairs, in order.
pub open spec fn requests_of(entries: Seq<PendingRequest>) -> Seq<(Seq<char>, PermissionRequestView)> {
    entries.map_values(|e: PendingRequest| (e.request.id@, e.request@))
}

/// The channels held in a sequence of entries, as (id, channel) pairs, in order.
pub open spec fn chans_of(entries: Seq<PendingRequest>) -> Seq<(Seq<char>, int)> {
    entries.map_values(|e: PendingRequest| (e.request.id@, e.sender.chan()))
}

/// The two readings of a sequence of entries have the same ids, position by position.
proof fn lemma_same_ids(s: Seq<PendingRequest>)
    ensures
        distinct_ids(requests_of(s)) ==> distinct_ids(chans_of(s)),
        forall|k: Seq<char>| has_id(requests_of(s), k) <==> has_id(chans_of(s), k),
{
    assert forall|k: Seq<char>| has_id(requests_of(s), k) implies has_id(chans_of(s), k) by {
        let i = choose|i: int| 0 <= i < requests_of(s).len() && #[trigger] requests_of(s)[i].0 == k;
        assert(chans_of(s)[i].0 == k);
    }
    assert forall|k: Seq<char>| has_id(chans_of(s), k) implies has_id(requests_of(s), k) by {
        let i = choose|i: int| 0 <= i < chans_of(s).len() && #[trigger] chans_of(s)[i].0 == k;
        assert(requests_of(s)[i].0 == k);
    }
    if distinct_ids(requests_of(s)) {
        assert forall|i: int, j: int| 0 <= i < j < chans_of(s).len() implies #[trigger] chans_of(
            s,
        )[i].0 != #[trigger] chans_of(s)[j].0 by {
            assert(requests_of(s)[i].0 != requests_of(s)[j].0);
        }
    }
}

/// The broker's state: the requests waiting for a decision, and the session's
/// auto-allow list.
///
/// The waiting requests are a vector with no id twice, read as a table by id.
/// vstd's `StringHashMap` cannot hold them: its `remove` gives nothing back,
/// and `resolve` must take the request's channel end out to send on it (the
/// tokio sender is consumed by `send` and cannot be cloned), nor can it list
/// its values for `get_pending_requests`. std's `HashMap<String, _>` has no
/// usable specification in vstd, since `String` is not known to obey its key
/// model.
pub struct AppState {
    pending: Vec<PendingRequest>,
    auto_allowed: StringHashSet,
}

impl View for AppState {
    type V = StateView;

    closed spec fn view(&self) -> StateView {
        StateView {
            pending: keyed(requests_of(self.pending@)),
            channels: keyed(chans_of(self.pending@)),
            auto_allowed: self.auto_allowed@,
        }
    }
}

/// Every waiting request has the channel of its hook call, and only waiting
/// requests have one.
pub proof fn lemma_waiting_have_channels(state: &AppState)
    ensures
        state@.pending.dom() == state@.channels.dom(),
{
    lemma_same_ids(state.pending@);
    assert forall|k: Seq<char>| #[trigger] state@.pending.contains_key(k) <==> state@.channels.contains_key(k) by {
        lemma_keyed_domain(requests_of(state.pending@), k);
        lemma_keyed_domain(chans_of(state.pending@), k);
    }
    assert(state@.pending.dom() =~= state@.channels.dom());
}

/// The index of the entry whose request has id `id`, if there is one.
fn find_entry(entries: &Vec<PendingRequest>, id: &str) -> (r: Option<usize>)
    ensures
        r matches Some(i) ==> i < entries@.len() && requests_of(entries@)[i as int].0 == id@,
        r is None ==> !has_id(requests_of(entries@), id@),
{
    let n = entries.len();
    let mut i: usize = 0;
    while i < n
        invariant
            n == entries@.len(),
            i <= n,
            forall|j: int| 0 <= j < i ==> requests_of(entries@)[j].0 != id@,
        decreases n - i,
    {
        if same_text(entries[i].request.id.as_str(), id) {
            return Some(i);
        }
        i = i + 1;
    }
    proof {
        if has_id(requests_of(entries@), id@) {
            let j = choose|j: int|
                0 <= j < requests_of(entries@).len() && #[trigger] requests_of(entries@)[j].0
                    == id@;
            assert(requests_of(entries@)[j].0 != id@);
        }
    }
    None
}

impl AppState {
    #[verifier::type_invariant]
    spec fn well_formed(self) -> bool {
        distinct_ids(requests_of(self.pending@))
    }

    /// An empty broker: nothing waiting, nothing auto-allowed.
    pub fn new() -> (r: Self)
        ensures
            r@ == initial_state(),
    {
        let r = AppState { pending: Vec::new(), auto_allowed: StringHashSet::new() };
        assert(requests_of(r.pending@) =~= Seq::<(Seq<char>, PermissionRequestView)>::empty());
        assert(chans_of(r.pending@) =~= Seq::<(Seq<char>, int)>::empty());
        assert(r@.pending =~= Map::<Seq<char>, PermissionRequestView>::empty());
        assert(r@.channels =~= Map::<Seq<char>, int>::empty());
        r
    }

    /// Whether `tool_name` is approved without asking.
    pub fn is_auto_allowed(&self, tool_name: &str) -> (r: bool)
        ensures
            r == self@.auto_allowed.contains(tool_name@),
    {
        self.auto_allowed.contains(tool_name)
    }

    /// Approves `tool_name` without asking for the rest of the session.
    pub fn add_auto_allow(&mut self, tool_name: String)
        ensures
            final(self)@ == with_auto_allow(old(self)@, tool_name@),
    {
        proof {
            use_type_invariant(&*self);
        }
        let mut allowed = StringHashSet::new();
        std::mem::swap(&mut allowed, &mut self.auto_allowed);
        allowed.insert(tool_name);
        self.auto_allowed = allowed;
    }

    /// Registers `request` as waiting and returns the receiver on which its
    /// decision will arrive: the request waits on that receiver's channel. A
    /// request already waiting under the same id is replaced: its channel end
    /// is dropped unsent, so its hook call answers "gone", and the receipt of
    /// that is returned too.
    pub fn insert_request(&mut self, request: PermissionRequest) -> (r: (DecisionReceiver, Option<Discarded>))
        ensures
            final(self)@ == with_request(old(self)@, request@, r.0.chan()),
            r.1 is Some <==> old(self)@.pending.contains_key(request.id@),
            r.1 matches Some(d) ==> d.chan() == old(self)@.channels[request.id@],
    {
        proof {
            use_type_invariant(&*self);
        }
        let (sender, receiver) = decision_channel();
        let mut entries: Vec<PendingRequest> = Vec::new();
        std::mem::swap(&mut entries, &mut self.pending);
        let ghost s = entries@;
        let ghost id = request.id@;
        proof {
            lemma_same_ids(s);
        }
        let discarded = match find_entry(&entries, request.id.as_str()) {
            Some(i) => {
                proof {
                    lemma_keyed_remove(requests_of(s), i as int);
                    lemma_keyed_remove(chans_of(s), i as int);
                    lemma_keyed_value(requests_of(s), i as int);
                    lemma_keyed_value(chans_of(s), i as int);
                }
                let replaced = entries.remove(i);
                assert(requests_of(entries@) =~= requests_of(s).remove(i as int));
                assert(chans_of(entries@) =~= chans_of(s).remove(i as int));
                assert(chans_of(s)[i as int].1 == replaced.sender.chan());
                Some(discard_sender(replaced.sender))
            },
            None => {
                proof {
                    lemma_keyed_domain(requests_of(s), id);
                    lemma_keyed_domain(chans_of(s), id);
                }
                assert(keyed(requests_of(s)).remove(id) =~= keyed(requests_of(s)));
                assert(keyed(chans_of(s)).remove(id) =~= keyed(chans_of(s)));
                None
            },
        };
        let ghost r = entries@;
        proof {
            lemma_same_ids(r);
            lemma_keyed_domain(requests_of(r), id);
            lemma_keyed_domain(chans_of(r), id);
        }
        let ghost rv = request@;
        let ghost c = sender.chan();
        let entry = PendingRequest { request, sender };
        entries.push(entry);
        proof {
            assert(requests_of(entries@) =~= requests_of(r).push((id, rv)));
            assert(chans_of(entries@) =~= chans_of(r).push((id, c)));
            lemma_keyed_push(requests_of(r), (id, rv));
            lemma_keyed_push(chans_of(r), (id, c));
            assert(keyed(requests_of(entries@)) =~= keyed(requests_of(s)).insert(id, rv));
            assert(keyed(chans_of(entries@)) =~= keyed(chans_of(s)).insert(id, c));
        }
        self.pending = entries;
        (receiver, discarded)
    }

    /// Takes the request waiting under `id` out of the table, with its channel end.
    pub(crate) fn take_request(&mut self, id: &str) -> (r: Option<PendingRequest>)
        ensures
            final(self)@ == without_request(old(self)@, id@),
            r is Some <==> old(self)@.pending.contains_key(id@),
            r matches Some(e) ==> e.request@ == old(self)@.pending[id@] && e.sender.chan()
                == old(self)@.channels[id@],
    {
        proof {
            use_type_invariant(&*self);
        }
        let mut entries: Vec<PendingRequest> = Vec::new();
        std::mem::swap(&mut entries, &mut self.pending);
        let ghost s = entries@;
        proof {
            lemma_same_ids(s);
        }
        let r = match find_entry(&entries, id) {
            Some(i) => {
                proof {
                    lemma_keyed_remove(requests_of(s), i as int);
                    lemma_keyed_value(requests_of(s), i as int);
                    lemma_keyed_remove(chans_of(s), i as int);
                    lemma_keyed_value(chans_of(s), i as int);
                }
                let e = entries.remove(i);
                assert(requests_of(entries@) =~= requests_of(s).remove(i as int));
                assert(chans_of(entries@) =~= chans_of(s).remove(i as int));
                Some(e)
            },
            None => {
                proof {
                    lemma_keyed_domain(requests_of(s), id@);
                    lemma_keyed_domain(chans_of(s), id@);
                }
                assert(keyed(requests_of(s)).remove(id@) =~= keyed(requests_of(s)));
                assert(keyed(chans_of(s)).remove(id@) =~= keyed(chans_of(s)));
                None
            },
        };
        self.pending = entries;
        r
    }

    /// Delivers `decision` to the hook call that waits for it and removes the
    /// request. Whenever a request waits under the decision's id, exactly
    /// `decision` is handed to that request's channel: success carries the
    /// receipt, and failure (the hook call has already gone away; the request
    /// is removed then too) carries the receipt of the attempt. When no request
    /// waits under the id, nothing is sent and the call fails.
    pub fn resolve(&mut self, decision: PermissionDecision) -> (r: Result<Handover, ResolveError>)
        ensures
            final(self)@ == without_request(old(self)@, decision.id@),
            !old(self)@.pending.contains_key(decision.id@) ==> (r matches Err(e) && e.message@
                == no_pending_text(decision.id@) && e.attempt is None),
            old(self)@.pending.contains_key(decision.id@) ==> match r {
                Ok(h) => handed(h, old(self)@.channels[decision.id@], decision@, true),
                Err(e) => e.message@ == send_failed_text() && (e.attempt matches Some(h) && handed(
                    h,
                    old(self)@.channels[decision.id@],
                    decision@,
                    false,
                )),
            },
    {
        match self.take_request(decision.id.as_str()) {
            None => {
                let msg = String::from_str("No pending request with id: ");
                Err(ResolveError { message: msg.concat(decision.id.as_str()), attempt: None })
            },
            Some(entry) => match send_decision(entry.sender, decision) {
                Ok(receipt) => Ok(receipt),
                Err((attempt, _back)) => Err(
                    ResolveError {
                        message: String::from_str("Failed to send decision through channel"),
                        attempt: Some(attempt),
                    },
                ),
            },
        }
    }

    /// The requests that wait for a decision, each once, in no promised order.
    pub fn get_pending_requests(&self) -> (r: Vec<PermissionRequest>)
        ensures
            distinct_ids(listing(r@)),
            keyed(listing(r@)) == self@.pending,
            r@.len() == self@.pending.len(),
    {
        proof {
            use_type_invariant(self);
        }
        let n = self.pending.len();
        let mut out: Vec<PermissionRequest> = Vec::new();
        let mut i: usize = 0;
        while i < n
            invariant
                n == self.pending@.len(),
                i <= n,
                listing(out@) =~= requests_of(self.pending@).take(i as int),
            decreases n - i,
        {
            let q = self.pending[i].request.duplicate();
            let ghost before = out@;
            out.push(q);
            assert(requests_of(self.pending@)[i as int] == (q.id@, q@));
            assert(out@ =~= before.push(q));
            assert(listing(out@) =~= listing(before).push((q.id@, q@)));
            i = i + 1;
            assert(listing(out@) =~= requests_of(self.pending@).take(i as int));
        }
        assert(requests_of(self.pending@).take(n as int) =~= requests_of(self.pending@));
        proof {
            lemma_keyed_len(listing(out@));
        }
        out
    }

    /// Whether a request waits under `id`.
    pub fn has_request(&self, id: &str) -> (r: bool)
        ensures
            r == self@.pending.contains_key(id@),
    {
        proof {
            lemma_keyed_domain(requests_of(self.pending@), id@);
        }
        find_entry(&self.pending, id).is_some()
    }

    /// An id under which no request waits: `proposed` itself when it is free,
    /// and otherwise the first spare id (`spare_id(0)`, `spare_id(1)`, ...)
    /// that is free. One of the first n + 1 spare ids is always free when n
    /// requests wait, so the search ends.
    pub fn fresh_id(&self, proposed: String) -> (r: String)
        ensures
            !self@.pending.contains_key(r@),
            !self@.pending.contains_key(proposed@) ==> r == proposed,
            r == proposed || is_uuid_v4_text(r@),
    {
        proof {
            use_type_invariant(self);
        }
        if !self.has_request(proposed.as_str()) {
            return proposed;
        }
        let n = self.pending.len();
        let mut k: u64 = 0;
        loop
            invariant
                k as int <= n as int,
                n == self.pending@.len(),
                self@.pending.contains_key(proposed@),
                distinct_ids(requests_of(self.pending@)),
                forall|j: int| 0 <= j < k ==> #[trigger] self@.pending.contains_key(spare_id(j as u64)),
            decreases n as int - k as int,
        {
            let candidate = spare_id_text(k);
            proof {
                lemma_spare_id_shape(k);
            }
            if !self.has_request(candidate.as_str()) {
                return candidate;
            }
            if k as usize == n {
                proof {
                    let f = |j: int| spare_id(j as u64);
                    let s = requests_of(self.pending@);
                    assert forall|j: int| 0 <= j < k + 1 implies #[trigger] has_id(s, f(j)) by {
                        lemma_keyed_domain(s, spare_id(j as u64));
                        assert(self@.pending.contains_key(spare_id(j as u64)));
                    }
                    assert forall|a: int, b: int| 0 <= a < b < k + 1 implies #[trigger] f(a) != #[trigger] f(b) by {
                        if f(a) == f(b) {
                            lemma_spare_id_injective(a as u64, b as u64);
                        }
                    }
                    lemma_pigeonhole(s, f, k + 1);
                    assert(false);
                }
                return candidate;
            }
            k = k + 1;
        }
    }

}

} // verus!
