//! Decisions around the model: when a prompt is usable, whether a generated
//! diagram is accepted, retried or given up on, and the diagram a set of
//! proposed changes leaves behind.
use vstd::prelude::*;
use vstd::string::*;
use crate::entities::diagram::Diagram;
use crate::entities::edge::{edges_view, Edge, EdgeView};
use crate::entities::errors::{domain_error_message, DomainError, DomainErrorView};
use crate::entities::node::{find_node_index, first_with_id, nodes_view, Node, NodeView};
use crate::text::{blank, is_blank};

verus! {

/// The number of retries after the first attempt: a diagram is generated at
/// most `MAX_GENERATION_ATTEMPTS + 1` times, since a retry is allowed while the
/// conversation holds fewer than `2 * MAX_GENERATION_ATTEMPTS` messages and
/// each attempt adds two. The final error message still says "3 attempts".
pub const MAX_GENERATION_ATTEMPTS: usize = 3;

/// A prompt is usable unless it is blank.
pub fn check_prompt(prompt: &str) -> (r: Result<(), DomainError>)
    ensures
        r is Ok <==> !is_blank(prompt@),
        r matches Err(e) ==> e@ == DomainErrorView::Validation("Prompt cannot be empty"@),
{
    if blank(prompt) {
        Err(DomainError::Validation(String::from_str("Prompt cannot be empty")))
    } else {
        Ok(())
    }
}

/// What to do with a generated diagram once it has been validated.
pub enum GenerationStep {
    /// The diagram passed; use it.
    Accept,
    /// Ask the model again, telling it what was wrong.
    Retry { feedback: String },
    /// Stop with this error.
    GiveUp(DomainError),
}

pub enum GenerationStepView {
    Accept,
    Retry { feedback: Seq<char> },
    GiveUp(DomainErrorView),
}

impl View for GenerationStep {
    type V = GenerationStepView;

    open spec fn view(&self) -> GenerationStepView {
        match self {
            GenerationStep::Accept => GenerationStepView::Accept,
            GenerationStep::Retry { feedback } => GenerationStepView::Retry { feedback: feedback@ },
            GenerationStep::GiveUp(e) => GenerationStepView::GiveUp(e@),
        }
    }
}

/// The next step after a validation, with `messages` messages in the
/// conversation so far: accept a valid diagram; retry while fewer than two
/// messages per allowed attempt have been exchanged; give up otherwise.
pub open spec fn generation_step(messages: nat, validation: Result<(), DomainErrorView>) -> GenerationStepView {
    match validation {
        Ok(()) => GenerationStepView::Accept,
        Err(e) => if messages < MAX_GENERATION_ATTEMPTS * 2 {
            GenerationStepView::Retry {
                feedback: "The diagram had a validation error: "@ + domain_error_message(e)
                    + ". Please fix it and try again."@,
            }
        } else {
            GenerationStepView::GiveUp(
                DomainErrorView::AiError(
                    "Validation failed after 3 attempts: "@ + domain_error_message(e),
                ),
            )
        },
    }
}

pub open spec fn unit_result_view(r: Result<(), DomainError>) -> Result<(), DomainErrorView> {
    match r {
        Ok(()) => Ok(()),
        Err(e) => Err(e@),
    }
}

/// Decides what follows the validation of a generated diagram.
pub fn next_generation_step(messages: usize, validation: &Result<(), DomainError>) -> (s: GenerationStep)
    ensures
        s@ == generation_step(messages as nat, unit_result_view(*validation)),
{
    match validation {
        Ok(()) => GenerationStep::Accept,
        Err(e) => {
            let m = e.message();
            if messages < MAX_GENERATION_ATTEMPTS * 2 {
                GenerationStep::Retry {
                    feedback: String::from_str("The diagram had a validation error: ").concat(
                        m.as_str(),
                    ).concat(". Please fix it and try again."),
                }
            } else {
                GenerationStep::GiveUp(
                    DomainError::AiError(
                        String::from_str("Validation failed after 3 attempts: ").concat(m.as_str()),
                    ),
                )
            }
        },
    }
}

/// The nodes among the first `k` whose id is not in `removed`.
pub open spec fn kept_nodes(nodes: Seq<NodeView>, removed: Seq<u128>, k: nat) -> Seq<NodeView>
    decreases k,
{
    if k == 0 {
        Seq::empty()
    } else {
        let rest = kept_nodes(nodes, removed, (k - 1) as nat);
        if removed.contains(nodes[k - 1].id) {
            rest
        } else {
            rest.push(nodes[k - 1])
        }
    }
}

/// The edges among the first `k` whose id is not in `removed`.
pub open spec fn kept_edges(edges: Seq<EdgeView>, removed: Seq<u128>, k: nat) -> Seq<EdgeView>
    decreases k,
{
    if k == 0 {
        Seq::empty()
    } else {
        let rest = kept_edges(edges, removed, (k - 1) as nat);
        if removed.contains(edges[k - 1].id) {
            rest
        } else {
            rest.push(edges[k - 1])
        }
    }
}

/// `nodes` after the first `k` updated nodes each replace the first node
/// with their id; an update whose id is absent changes nothing.
pub open spec fn with_updates(nodes: Seq<NodeView>, updated: Seq<NodeView>, k: nat) -> Seq<NodeView>
    decreases k,
{
    if k == 0 {
        nodes
    } else {
        let acc = with_updates(nodes, updated, (k - 1) as nat);
        let u = updated[k - 1];
        match first_with_id(acc, u.id, acc.len() as int) {
            Some(j) => acc.update(j, u),
            None => acc,
        }
    }
}

/// The nodes of `d` after a set of changes: the nodes not removed, updated,
/// then the added nodes.
pub open spec fn changed_nodes(d: Seq<NodeView>, added: Seq<NodeView>, removed: Seq<u128>, updated: Seq<NodeView>) -> Seq<NodeView> {
    let kept = kept_nodes(d, removed, d.len());
    with_updates(kept, updated, updated.len()) + added
}

/// The edges of `d` after a set of changes: the edges not removed, then the
/// added edges.
pub open spec fn changed_edges(d: Seq<EdgeView>, added: Seq<EdgeView>, removed: Seq<u128>) -> Seq<EdgeView> {
    kept_edges(d, removed, d.len()) + added
}

fn contains_id(ids: &Vec<u128>, id: u128) -> (b: bool)
    ensures
        b == ids@.contains(id),
{
    let mut i: usize = 0;
    while i < ids.len()
        invariant
            i <= ids.len(),
            forall|j: int| 0 <= j < i ==> ids@[j] != id,
        decreases ids.len() - i,
    {
        if ids[i] == id {
            assert(ids@[i as int] == id);
            return true;
        }
        i = i + 1;
    }
    false
}

/// The nodes and edges of `existing` once the proposed changes are applied.
pub fn apply_changes(
    existing: &Diagram,
    added_nodes: Vec<Node>,
    removed_node_ids: &Vec<u128>,
    updated_nodes: &Vec<Node>,
    added_edges: Vec<Edge>,
    removed_edge_ids: &Vec<u128>,
) -> (r: (Vec<Node>, Vec<Edge>))
    ensures
        nodes_view(r.0@) == changed_nodes(
            existing@.nodes,
            nodes_view(added_nodes@),
            removed_node_ids@,
            nodes_view(updated_nodes@),
        ),
        edges_view(r.1@) == changed_edges(existing@.edges, edges_view(added_edges@), removed_edge_ids@),
{
    let ghost dn = existing@.nodes;
    let mut nodes: Vec<Node> = Vec::new();
    let mut i: usize = 0;
    assert(nodes_view(nodes@) =~= Seq::<NodeView>::empty());
    while i < existing.nodes.len()
        invariant
            i <= existing.nodes.len(),
            dn == existing@.nodes,
            nodes_view(nodes@) == kept_nodes(dn, removed_node_ids@, i as nat),
        decreases existing.nodes.len() - i,
    {
        assert(dn[i as int] == existing.nodes@[i as int]@);
        if !contains_id(removed_node_ids, existing.nodes[i].id) {
            let ghost before = nodes@;
            nodes.push(existing.nodes[i].clone());
            assert(nodes_view(nodes@) =~= nodes_view(before).push(dn[i as int]));
        }
        i = i + 1;
    }
    let ghost kept = nodes_view(nodes@);
    let ghost uv = nodes_view(updated_nodes@);
    let mut k: usize = 0;
    while k < updated_nodes.len()
        invariant
            k <= updated_nodes.len(),
            uv == nodes_view(updated_nodes@),
            nodes_view(nodes@) == with_updates(kept, uv, k as nat),
        decreases updated_nodes.len() - k,
    {
        assert(uv[k as int] == updated_nodes@[k as int]@);
        match find_node_index(&nodes, updated_nodes[k].id) {
            Some(j) => {
                let ghost before = nodes@;
                nodes.set(j, updated_nodes[k].clone());
                assert(nodes_view(nodes@) =~= nodes_view(before).update(j as int, uv[k as int]));
            },
            None => {},
        }
        k = k + 1;
    }
    let ghost updated_part = nodes@;
    let ghost added_view = nodes_view(added_nodes@);
    let mut added_nodes = added_nodes;
    nodes.append(&mut added_nodes);
    assert(nodes_view(nodes@) =~= nodes_view(updated_part) + added_view);

    let ghost de = existing@.edges;
    let mut edges: Vec<Edge> = Vec::new();
    let mut e: usize = 0;
    assert(edges_view(edges@) =~= Seq::<EdgeView>::empty());
    while e < existing.edges.len()
        invariant
            e <= existing.edges.len(),
            de == existing@.edges,
            edges_view(edges@) == kept_edges(de, removed_edge_ids@, e as nat),
        decreases existing.edges.len() - e,
    {
        assert(de[e as int] == existing.edges@[e as int]@);
        if !contains_id(removed_edge_ids, existing.edges[e].id) {
            let ghost before = edges@;
            edges.push(existing.edges[e].clone());
            assert(edges_view(edges@) =~= edges_view(before).push(de[e as int]));
        }
        e = e + 1;
    }
    let ghost kept_part = edges@;
    let ghost added_edges_view = edges_view(added_edges@);
    let mut added_edges = added_edges;
    edges.append(&mut added_edges);
    assert(edges_view(edges@) =~= edges_view(kept_part) + added_edges_view);
    (nodes, edges)
}

// ---------------------------------------------------------------------------
// Laws of applying changes.

proof fn lemma_first_with_id_some(nodes: Seq<NodeView>, id: u128, k: int)
    requires
        k <= nodes.len(),
        first_with_id(nodes, id, k) is Some,
    ensures
        0 <= first_with_id(nodes, id, k)->0 < k,
        nodes[first_with_id(nodes, id, k)->0].id == id,
    decreases k,
{
    if k > 0 && first_with_id(nodes, id, k - 1) is Some {
        lemma_first_with_id_some(nodes, id, k - 1);
    }
}

proof fn lemma_kept_nodes_not_removed(nodes: Seq<NodeView>, removed: Seq<u128>, k: nat)
    requires
        k <= nodes.len(),
    ensures
        forall|i: int| 0 <= i < kept_nodes(nodes, removed, k).len()
            ==> !removed.contains(#[trigger] kept_nodes(nodes, removed, k)[i].id),
    decreases k,
{
    if k > 0 {
        lemma_kept_nodes_not_removed(nodes, removed, (k - 1) as nat);
    }
}

proof fn lemma_kept_edges_not_removed(edges: Seq<EdgeView>, removed: Seq<u128>, k: nat)
    requires
        k <= edges.len(),
    ensures
        forall|i: int| 0 <= i < kept_edges(edges, removed, k).len()
            ==> !removed.contains(#[trigger] kept_edges(edges, removed, k)[i].id),
    decreases k,
{
    if k > 0 {
        lemma_kept_edges_not_removed(edges, removed, (k - 1) as nat);
    }
}

proof fn lemma_updates_keep_ids(nodes: Seq<NodeView>, updated: Seq<NodeView>, k: nat)
    requires
        k <= updated.len(),
    ensures
        with_updates(nodes, updated, k).len() == nodes.len(),
        forall|i: int| 0 <= i < nodes.len() ==> (#[trigger] with_updates(nodes, updated, k)[i]).id == nodes[i].id,
    decreases k,
{
    if k > 0 {
        lemma_updates_keep_ids(nodes, updated, (k - 1) as nat);
        let acc = with_updates(nodes, updated, (k - 1) as nat);
        let u = updated[k - 1];
        if first_with_id(acc, u.id, acc.len() as int) is Some {
            lemma_first_with_id_some(acc, u.id, acc.len() as int);
        }
    }
}

proof fn lemma_kept_nodes_all(nodes: Seq<NodeView>, k: nat)
    requires
        k <= nodes.len(),
    ensures
        kept_nodes(nodes, Seq::empty(), k) == nodes.subrange(0, k as int),
    decreases k,
{
    if k > 0 {
        lemma_kept_nodes_all(nodes, (k - 1) as nat);
        assert(nodes.subrange(0, k as int) =~= nodes.subrange(0, k - 1).push(nodes[k - 1]));
    } else {
        assert(nodes.subrange(0, 0) =~= Seq::<NodeView>::empty());
    }
}

proof fn lemma_kept_edges_all(edges: Seq<EdgeView>, k: nat)
    requires
        k <= edges.len(),
    ensures
        kept_edges(edges, Seq::empty(), k) == edges.subrange(0, k as int),
    decreases k,
{
    if k > 0 {
        lemma_kept_edges_all(edges, (k - 1) as nat);
        assert(edges.subrange(0, k as int) =~= edges.subrange(0, k - 1).push(edges[k - 1]));
    } else {
        assert(edges.subrange(0, 0) =~= Seq::<EdgeView>::empty());
    }
}

/// Applying no changes leaves the nodes and edges as they were.
pub proof fn law_no_changes_keep_diagram(nodes: Seq<NodeView>, edges: Seq<EdgeView>)
    ensures
        changed_nodes(nodes, Seq::empty(), Seq::empty(), Seq::empty()) == nodes,
        changed_edges(edges, Seq::empty(), Seq::empty()) == edges,
{
    lemma_kept_nodes_all(nodes, nodes.len());
    lemma_kept_edges_all(edges, edges.len());
    assert(nodes.subrange(0, nodes.len() as int) =~= nodes);
    assert(edges.subrange(0, edges.len() as int) =~= edges);
    let kept = kept_nodes(nodes, Seq::empty(), nodes.len());
    assert(with_updates(kept, Seq::empty(), 0) + Seq::<NodeView>::empty() =~= kept);
    assert(kept_edges(edges, Seq::empty(), edges.len()) + Seq::<EdgeView>::empty() =~= edges);
}

/// After the changes, the nodes and edges that came from the diagram come
/// first and none of them has a removed id; the added ones follow, all of
/// them; an update never changes which ids are present.
pub proof fn law_removed_ids_are_gone(
    d_nodes: Seq<NodeView>,
    d_edges: Seq<EdgeView>,
    added: Seq<NodeView>,
    removed: Seq<u128>,
    updated: Seq<NodeView>,
    added_edges: Seq<EdgeView>,
    removed_edges: Seq<u128>,
)
    ensures
        ({
            let kept = kept_nodes(d_nodes, removed, d_nodes.len());
            let result = changed_nodes(d_nodes, added, removed, updated);
            &&& result.len() == kept.len() + added.len()
            &&& forall|i: int| 0 <= i < kept.len() ==> !removed.contains(#[trigger] result[i].id)
            &&& forall|i: int| 0 <= i < kept.len() ==> (#[trigger] result[i]).id == kept[i].id
            &&& forall|i: int| 0 <= i < added.len() ==> #[trigger] result[kept.len() + i] == added[i]
        }),
        ({
            let kept = kept_edges(d_edges, removed_edges, d_edges.len());
            let result = changed_edges(d_edges, added_edges, removed_edges);
            &&& result.len() == kept.len() + added_edges.len()
            &&& forall|i: int| 0 <= i < kept.len() ==> !removed_edges.contains(#[trigger] result[i].id)
            &&& forall|i: int| 0 <= i < added_edges.len() ==> #[trigger] result[kept.len() + i] == added_edges[i]
        }),
{
    let kept = kept_nodes(d_nodes, removed, d_nodes.len());
    lemma_kept_nodes_not_removed(d_nodes, removed, d_nodes.len());
    lemma_updates_keep_ids(kept, updated, updated.len());
    lemma_kept_edges_not_removed(d_edges, removed_edges, d_edges.len());
    let result = changed_nodes(d_nodes, added, removed, updated);
    assert forall|i: int| 0 <= i < kept.len() implies !removed.contains(#[trigger] result[i].id) by {
        assert(result[i] == with_updates(kept, updated, updated.len())[i]);
        assert(!removed.contains(kept[i].id));
    }
}

} // verus!
