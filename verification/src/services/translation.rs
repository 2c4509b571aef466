use vstd::prelude::*;
use crate::entities::cloud_catalog::{cloud_mapping_for, lookup_mapping, CloudMappingView};
use crate::entities::diagram::{CloudProvider, Diagram, DiagramView};
use crate::entities::edge::clone_edges;
use crate::entities::node::{
    clone_opt_mapping, clone_opt_string, is_group, is_group_type, nodes_view, Node, NodeType,
    NodeView, ProviderMapping, ProviderMappingView, ProviderMappings, ProviderMappingsView,
};

verus! {

/// The mapping a catalog entry gives a node.
pub open spec fn mapping_from_entry(e: CloudMappingView) -> ProviderMappingView {
    ProviderMappingView {
        service_name: e.display_name,
        icon_key: e.icon_key,
        config: e.default_config,
        terraform_resource_type: Some(e.terraform_resource_type),
    }
}

/// The mapping of a node type on a provider after translation: the catalog
/// entry when there is one, else what was there before.
pub open spec fn translated_mapping(
    t: NodeType,
    p: CloudProvider,
    before: Option<ProviderMappingView>,
) -> Option<ProviderMappingView> {
    match cloud_mapping_for(t, p) {
        Some(e) => Some(mapping_from_entry(e)),
        None => before,
    }
}

/// A node after translation: group nodes are unchanged; every other node gets
/// the catalog mapping of its type on each of the three providers.
pub open spec fn translated_node(n: NodeView) -> NodeView {
    if is_group(n.node_type) {
        n
    } else {
        let before = match n.provider_mappings {
            Some(m) => m,
            None => ProviderMappingsView { aws: None, gcp: None, azure: None },
        };
        NodeView {
            provider_mappings: Some(ProviderMappingsView {
                aws: translated_mapping(n.node_type, CloudProvider::Aws, before.aws),
                gcp: translated_mapping(n.node_type, CloudProvider::Gcp, before.gcp),
                azure: translated_mapping(n.node_type, CloudProvider::Azure, before.azure),
            }),
            ..n
        }
    }
}

/// A diagram translated to a provider: every node translated, the provider
/// made active, everything else kept.
pub open spec fn translated(d: DiagramView, p: CloudProvider) -> DiagramView {
    DiagramView {
        nodes: d.nodes.map_values(|n: NodeView| translated_node(n)),
        active_provider: Some(p),
        ..d
    }
}

/// A diagram with no active provider, everything else kept.
pub open spec fn cleared(d: DiagramView) -> DiagramView {
    DiagramView { active_provider: None, ..d }
}

pub struct TranslationService;

fn translated_mapping_exec(
    t: &NodeType,
    p: &CloudProvider,
    before: &Option<ProviderMapping>,
) -> (r: Option<ProviderMapping>)
    ensures
        crate::entities::node::opt_mapping_view(r) == translated_mapping(
            *t,
            *p,
            crate::entities::node::opt_mapping_view(*before),
        ),
{
    match lookup_mapping(t, p) {
        Some(entry) => Some(
            ProviderMapping {
                service_name: entry.display_name.clone(),
                icon_key: entry.icon_key.clone(),
                config: entry.default_config.clone(),
                terraform_resource_type: Some(entry.terraform_resource_type.clone()),
            },
        ),
        None => clone_opt_mapping(before),
    }
}

fn translate_node(n: &Node) -> (r: Node)
    ensures
        r@ == translated_node(n@),
{
    let mut node = n.clone();
    if is_group_type(&n.node_type) {
        return node;
    }
    let (aws, gcp, azure) = match &n.provider_mappings {
        Some(m) => (
            translated_mapping_exec(&n.node_type, &CloudProvider::Aws, &m.aws),
            translated_mapping_exec(&n.node_type, &CloudProvider::Gcp, &m.gcp),
            translated_mapping_exec(&n.node_type, &CloudProvider::Azure, &m.azure),
        ),
        None => (
            translated_mapping_exec(&n.node_type, &CloudProvider::Aws, &None),
            translated_mapping_exec(&n.node_type, &CloudProvider::Gcp, &None),
            translated_mapping_exec(&n.node_type, &CloudProvider::Azure, &None),
        ),
    };
    node.provider_mappings = Some(ProviderMappings { aws, gcp, azure });
    node
}

impl TranslationService {
    /// The diagram with catalog mappings for the three providers filled in on
    /// every non-group node, and `active_provider` made active.
    pub fn translate(diagram: &Diagram, active_provider: CloudProvider) -> (r: Diagram)
        ensures
            r@ == translated(diagram@, active_provider),
    {
        let mut nodes: Vec<Node> = Vec::new();
        let mut i: usize = 0;
        while i < diagram.nodes.len()
            invariant
                i <= diagram.nodes@.len(),
                nodes@.len() == i,
                forall|j: int| 0 <= j < i ==> nodes@[j]@ == translated_node(diagram.nodes@[j]@),
            decreases diagram.nodes.len() - i,
        {
            nodes.push(translate_node(&diagram.nodes[i]));
            i = i + 1;
        }
        let r = Diagram {
            id: diagram.id,
            name: diagram.name.clone(),
            description: clone_opt_string(&diagram.description),
            nodes,
            edges: clone_edges(&diagram.edges),
            viewport: diagram.viewport,
            active_provider: Some(active_provider),
            created_at_micros: diagram.created_at_micros,
            updated_at_micros: diagram.updated_at_micros,
        };
        assert(r@.nodes =~= diagram@.nodes.map_values(|n: NodeView| translated_node(n)));
        r
    }

    /// The diagram with no active provider; the mappings stay.
    pub fn clear_translation(diagram: &Diagram) -> (r: Diagram)
        ensures
            r@ == cleared(diagram@),
    {
        let mut d = diagram.clone();
        d.active_provider = None;
        d
    }
}

/// Translating a node twice is translating it once.
pub proof fn law_translate_node_idempotent(n: NodeView)
    ensures
        translated_node(translated_node(n)) == translated_node(n),
{
}

/// Translating a translated diagram again only changes the active provider:
/// the mappings are already those of the catalog.
pub proof fn law_translate_twice(d: DiagramView, p: CloudProvider, q: CloudProvider)
    ensures
        translated(translated(d, p), q) == translated(d, q),
{
    let once = translated(d, p);
    assert forall|i: int| 0 <= i < d.nodes.len() implies #[trigger] translated(once, q).nodes[i]
        == translated(d, q).nodes[i] by {
        law_translate_node_idempotent(d.nodes[i]);
    }
    assert(translated(once, q).nodes =~= translated(d, q).nodes);
}

/// Clearing forgets only the active provider, so clearing first makes no
/// difference to a translation, and clearing twice is clearing once.
pub proof fn law_clear_then_translate(d: DiagramView, p: CloudProvider)
    ensures
        translated(cleared(d), p) == translated(d, p),
        cleared(cleared(d)) == cleared(d),
        cleared(translated(d, p)).nodes == translated(d, p).nodes,
{
}

/// The mapping recorded for provider `p`.
pub open spec fn mapping_on(pm: ProviderMappingsView, p: CloudProvider) -> Option<ProviderMappingView> {
    match p {
        CloudProvider::Aws => pm.aws,
        CloudProvider::Gcp => pm.gcp,
        CloudProvider::Azure => pm.azure,
    }
}

/// The catalog has an entry for every non-group node type on every provider,
/// and the entry for (type, provider) is one for that type and that provider.
pub proof fn law_catalog_entries(t: NodeType, p: CloudProvider)
    ensures
        cloud_mapping_for(t, p) is Some <==> !is_group(t),
        cloud_mapping_for(t, p) matches Some(e) ==> e.generic_type == t && e.provider == p,
{
}

/// After translation, a non-group node keeps its id, type, label and parent,
/// and the mapping stored under each provider `p` is the catalog entry for
/// its type on `p`: the entry's display name, icon, default configuration
/// and Terraform resource type.
pub proof fn law_translation_uses_catalog(n: NodeView, p: CloudProvider)
    requires
        !is_group(n.node_type),
    ensures
        translated_node(n).id == n.id,
        translated_node(n).node_type == n.node_type,
        translated_node(n).label == n.label,
        translated_node(n).parent_id == n.parent_id,
        translated_node(n).provider_mappings is Some,
        ({
            let e = cloud_mapping_for(n.node_type, p).unwrap();
            &&& e.provider == p
            &&& e.generic_type == n.node_type
            &&& mapping_on(translated_node(n).provider_mappings.unwrap(), p) == Some(
                ProviderMappingView {
                    service_name: e.display_name,
                    icon_key: e.icon_key,
                    config: e.default_config,
                    terraform_resource_type: Some(e.terraform_resource_type),
                },
            )
        }),
{
    law_catalog_entries(n.node_type, p);
}

/// Translating a diagram to any provider `q` stores, on every non-group node
/// and for every provider `p`, the catalog's Terraform resource type for the
/// node's type on `p`.
pub proof fn law_translated_diagram_types(d: DiagramView, q: CloudProvider, p: CloudProvider, i: int)
    requires
        0 <= i < d.nodes.len(),
        !is_group(d.nodes[i].node_type),
    ensures
        mapping_on(translated(d, q).nodes[i].provider_mappings.unwrap(), p) matches Some(m)
            && m.terraform_resource_type == Some(
            cloud_mapping_for(d.nodes[i].node_type, p).unwrap().terraform_resource_type,
        ),
        translated(d, q).active_provider == Some(q),
{
    law_translation_uses_catalog(d.nodes[i], p);
}

} // verus!
