//! The events streamed to the browser while a diagram is generated or
//! changed: in which order the model's results are announced, and how the
//! service relays them once the diagram is stored.
use vstd::prelude::*;
use vstd::string::*;
use crate::entities::errors::{domain_error_message, DomainError, DomainErrorView};
use crate::events::GenerateEventType;

verus! {

/// `n` events of kind `t`, numbered from 0.
pub open spec fn numbered(t: GenerateEventType, n: nat) -> Seq<(GenerateEventType, nat)> {
    Seq::new(n, |i: int| (t, i as nat))
}

/// The events announcing a generated diagram: each node, then each edge,
/// then the completion. Each event names its kind and the position of its
/// item in the list of that kind.
pub open spec fn generation_events(nodes: nat, edges: nat) -> Seq<(GenerateEventType, nat)> {
    numbered(GenerateEventType::NodeAdded, nodes) + numbered(GenerateEventType::EdgeAdded, edges)
        + seq![(GenerateEventType::Complete, 0nat)]
}

/// The events announcing a change: removed nodes, removed edges, updated
/// nodes, added nodes, added edges, then the completion.
pub open spec fn change_events(removed_nodes: nat, removed_edges: nat, updated: nat, added_nodes: nat, added_edges: nat) -> Seq<(GenerateEventType, nat)> {
    numbered(GenerateEventType::NodeRemoved, removed_nodes) + numbered(
        GenerateEventType::EdgeRemoved,
        removed_edges,
    ) + numbered(GenerateEventType::NodeUpdated, updated) + numbered(
        GenerateEventType::NodeAdded,
        added_nodes,
    ) + numbered(GenerateEventType::EdgeAdded, added_edges) + seq![(GenerateEventType::Complete, 0nat)]
}

pub open spec fn plan_view(v: Seq<(GenerateEventType, usize)>) -> Seq<(GenerateEventType, nat)> {
    v.map_values(|e: (GenerateEventType, usize)| (e.0, e.1 as nat))
}

fn push_numbered(out: &mut Vec<(GenerateEventType, usize)>, t: GenerateEventType, n: usize)
    ensures
        plan_view(final(out)@) == plan_view(old(out)@) + numbered(t, n as nat),
{
    let ghost start = plan_view(out@);
    let mut i: usize = 0;
    while i < n
        invariant
            i <= n,
            plan_view(out@) == start + numbered(t, i as nat),
        decreases n - i,
    {
        let ghost before = out@;
        out.push((t, i));
        assert(plan_view(out@) =~= plan_view(before).push((t, i as nat)));
        assert(numbered(t, (i + 1) as nat) =~= numbered(t, i as nat).push((t, i as nat)));
        i = i + 1;
    }
    assert(plan_view(out@) =~= start + numbered(t, n as nat));
}

/// The order in which a generated diagram is announced.
pub fn plan_generation_events(nodes: usize, edges: usize) -> (r: Vec<(GenerateEventType, usize)>)
    ensures
        plan_view(r@) == generation_events(nodes as nat, edges as nat),
{
    let mut out: Vec<(GenerateEventType, usize)> = Vec::new();
    assert(plan_view(out@) =~= Seq::<(GenerateEventType, nat)>::empty());
    push_numbered(&mut out, GenerateEventType::NodeAdded, nodes);
    push_numbered(&mut out, GenerateEventType::EdgeAdded, edges);
    let ghost before = out@;
    out.push((GenerateEventType::Complete, 0));
    assert(plan_view(out@) =~= plan_view(before).push((GenerateEventType::Complete, 0nat)));
    assert(plan_view(out@) =~= generation_events(nodes as nat, edges as nat));
    out
}

/// The order in which a change is announced.
pub fn plan_change_events(
    removed_nodes: usize,
    removed_edges: usize,
    updated: usize,
    added_nodes: usize,
    added_edges: usize,
) -> (r: Vec<(GenerateEventType, usize)>)
    ensures
        plan_view(r@) == change_events(
            removed_nodes as nat,
            removed_edges as nat,
            updated as nat,
            added_nodes as nat,
            added_edges as nat,
        ),
{
    let mut out: Vec<(GenerateEventType, usize)> = Vec::new();
    assert(plan_view(out@) =~= Seq::<(GenerateEventType, nat)>::empty());
    push_numbered(&mut out, GenerateEventType::NodeRemoved, removed_nodes);
    push_numbered(&mut out, GenerateEventType::EdgeRemoved, removed_edges);
    push_numbered(&mut out, GenerateEventType::NodeUpdated, updated);
    push_numbered(&mut out, GenerateEventType::NodeAdded, added_nodes);
    push_numbered(&mut out, GenerateEventType::EdgeAdded, added_edges);
    let ghost before = out@;
    out.push((GenerateEventType::Complete, 0));
    assert(plan_view(out@) =~= plan_view(before).push((GenerateEventType::Complete, 0nat)));
    assert(plan_view(out@) =~= change_events(
        removed_nodes as nat,
        removed_edges as nat,
        updated as nat,
        added_nodes as nat,
        added_edges as nat,
    ));
    out
}

/// What the service does with an event from the model while it relays a
/// generation or a change.
#[derive(Clone, Copy, Debug, PartialEq, Eq, Structural)]
pub enum RelayAction {
    /// Send it on at once.
    Forward,
    /// Keep it until the diagram is stored.
    Hold,
    /// Store the diagram it carries.
    Persist,
}

pub open spec fn relay_action(t: GenerateEventType) -> RelayAction {
    match t {
        GenerateEventType::Complete => RelayAction::Persist,
        GenerateEventType::Error => RelayAction::Forward,
        _ => RelayAction::Hold,
    }
}

/// The positions of the events that are sent again once the diagram is
/// stored: all received so far but completions, in order.
pub open spec fn replayed(received: Seq<GenerateEventType>, k: nat) -> Seq<nat>
    decreases k,
{
    if k == 0 {
        Seq::empty()
    } else {
        let rest = replayed(received, (k - 1) as nat);
        if received[k - 1] == GenerateEventType::Complete {
            rest
        } else {
            rest.push((k - 1) as nat)
        }
    }
}

/// The kinds of the events received so far from the model.
pub struct EventRelay {
    received: Vec<GenerateEventType>,
}

impl EventRelay {
    pub closed spec fn received(&self) -> Seq<GenerateEventType> {
        self.received@
    }

    pub fn new() -> (r: Self)
        ensures
            r.received() == Seq::<GenerateEventType>::empty(),
    {
        EventRelay { received: Vec::new() }
    }

    /// Notes an event and says what to do with it.
    pub fn on_event(&mut self, t: GenerateEventType) -> (a: RelayAction)
        ensures
            final(self).received() == old(self).received().push(t),
            a == relay_action(t),
    {
        self.received.push(t);
        match t {
            GenerateEventType::Complete => RelayAction::Persist,
            GenerateEventType::Error => RelayAction::Forward,
            _ => RelayAction::Hold,
        }
    }

    /// The positions of the events to send again after the diagram was stored.
    pub fn replay(&self) -> (r: Vec<usize>)
        ensures
            r@.map_values(|i: usize| i as nat) == replayed(self.received(), self.received().len()),
    {
        let mut out: Vec<usize> = Vec::new();
        let mut k: usize = 0;
        assert(out@.map_values(|i: usize| i as nat) =~= Seq::<nat>::empty());
        while k < self.received.len()
            invariant
                k <= self.received@.len(),
                out@.map_values(|i: usize| i as nat) == replayed(self.received@, k as nat),
            decreases self.received.len() - k,
        {
            if self.received[k] != GenerateEventType::Complete {
                let ghost before = out@;
                out.push(k);
                assert(out@.map_values(|i: usize| i as nat) =~= before.map_values(|i: usize| i as nat).push(k as nat));
            }
            k = k + 1;
        }
        out
    }
}

/// The message of an error event sent when storing the diagram failed at
/// `stage` ("create", "load" or "persist").
pub fn failure_message(stage: &str, e: &DomainError) -> (s: String)
    ensures
        s@ == "Failed to "@ + stage@ + " diagram: "@ + domain_error_message(e@),
{
    String::from_str("Failed to ").concat(stage).concat(" diagram: ").concat(e.message().as_str())
}

/// Why storing the diagram a completion carries failed.
pub enum StoreFailure {
    /// The completion's nodes or edges could not be read.
    Deserialize,
    /// Creating the new diagram failed.
    Create(DomainError),
    /// Loading the diagram to change failed.
    Load(DomainError),
    /// Writing the diagram failed.
    Persist(DomainError),
}

/// The message of the error event for a storing failure, and whether the
/// relay stops: it stops only when the diagram to change could not be loaded.
pub open spec fn store_failure_outcome(f: StoreFailure) -> (Seq<char>, bool) {
    match f {
        StoreFailure::Deserialize => ("Failed to deserialize diagram data"@, false),
        StoreFailure::Create(e) => ("Failed to create diagram: "@ + domain_error_message(e@), false),
        StoreFailure::Load(e) => ("Failed to load diagram: "@ + domain_error_message(e@), true),
        StoreFailure::Persist(e) => ("Failed to persist diagram: "@ + domain_error_message(e@), false),
    }
}

/// The error event's message for a storing failure, and whether to stop.
pub fn store_failure_event(f: &StoreFailure) -> (r: (String, bool))
    ensures
        r.0@ == store_failure_outcome(*f).0,
        r.1 == store_failure_outcome(*f).1,
{
    proof {
        reveal_strlit("create");
        reveal_strlit("load");
        reveal_strlit("persist");
        reveal_strlit("Failed to ");
        reveal_strlit(" diagram: ");
        reveal_strlit("Failed to create diagram: ");
        reveal_strlit("Failed to load diagram: ");
        reveal_strlit("Failed to persist diagram: ");
    }
    match f {
        StoreFailure::Deserialize => (String::from_str("Failed to deserialize diagram data"), false),
        StoreFailure::Create(e) => {
            let m = failure_message("create", e);
            assert(m@ =~= "Failed to create diagram: "@ + domain_error_message(e@));
            (m, false)
        },
        StoreFailure::Load(e) => {
            let m = failure_message("load", e);
            assert(m@ =~= "Failed to load diagram: "@ + domain_error_message(e@));
            (m, true)
        },
        StoreFailure::Persist(e) => {
            let m = failure_message("persist", e);
            assert(m@ =~= "Failed to persist diagram: "@ + domain_error_message(e@));
            (m, false)
        },
    }
}

/// The name a generated diagram is created under: the name the model gave,
/// else `Untitled Diagram`.
pub fn generated_name(name: Option<&str>) -> (r: String)
    ensures
        r@ == match name {
            Some(n) => n@,
            None => "Untitled Diagram"@,
        },
{
    match name {
        Some(n) => n.to_owned(),
        None => String::from_str("Untitled Diagram"),
    }
}

/// A replay never sends a completion; the completion with the stored
/// diagram follows it.
pub proof fn law_replay_holds_no_completion(received: Seq<GenerateEventType>, k: nat)
    requires
        k <= received.len(),
    ensures
        forall|j: int| 0 <= j < replayed(received, k).len() ==> #[trigger] replayed(received, k)[j] < k
            && received[replayed(received, k)[j] as int] != GenerateEventType::Complete,
        forall|j: int, l: int| 0 <= j < l < replayed(received, k).len() ==> replayed(received, k)[j] < replayed(received, k)[l],
    decreases k,
{
    if k > 0 {
        law_replay_holds_no_completion(received, (k - 1) as nat);
    }
}

/// A generation is announced by exactly one event per node and edge and a
/// single completion, which comes last.
pub proof fn law_generation_events_complete_last(nodes: nat, edges: nat)
    ensures
        generation_events(nodes, edges).len() == nodes + edges + 1,
        generation_events(nodes, edges).last() == (GenerateEventType::Complete, 0nat),
        forall|i: int| 0 <= i < nodes + edges ==> (#[trigger] generation_events(nodes, edges)[i]).0 != GenerateEventType::Complete,
{
}

} // verus!
