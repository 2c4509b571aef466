use vstd::prelude::*;

verus! {

/// A node of a diagram. Coordinates, sizes and opacity are IEEE-754 `f64`
/// values held as their bit patterns; `config` is JSON text.
pub struct Node {
    pub id: u128,
    pub node_type: NodeType,
    pub label: String,
    pub position: Position,
    pub size: Size,
    pub properties: NodeProperties,
    pub parent_id: Option<u128>,
    pub provider_mappings: Option<ProviderMappings>,
}

/// Bit patterns of the `f64` coordinates of a node.
#[derive(Clone, Copy, Debug, PartialEq, Eq, Structural)]
pub struct Position {
    pub x_bits: u64,
    pub y_bits: u64,
}

/// Bit patterns of the `f64` extent of a node.
#[derive(Clone, Copy, Debug, PartialEq, Eq, Structural)]
pub struct Size {
    pub width_bits: u64,
    pub height_bits: u64,
}

#[derive(Clone, Copy, Debug, PartialEq, Eq, Structural)]
pub enum NodeType {
    Compute(ComputeComponent),
    Networking(NetworkingComponent),
    Data(DataComponent),
    Caching(CachingComponent),
    Messaging(MessagingComponent),
    Storage(StorageComponent),
    Security(SecurityComponent),
    Observability(ObservabilityComponent),
    Group(GroupType),
}

#[derive(Clone, Copy, Debug, PartialEq, Eq, Structural)]
pub enum ComputeComponent {
    ApplicationServer,
    Worker,
    Function,
    Container,
    VirtualMachine,
    Scheduler,
}

#[derive(Clone, Copy, Debug, PartialEq, Eq, Structural)]
pub enum NetworkingComponent {
    LoadBalancer,
    ApiGateway,
    Cdn,
    Dns,
    Firewall,
    Vpn,
    ServiceMesh,
    ReverseProxy,
}

#[derive(Clone, Copy, Debug, PartialEq, Eq, Structural)]
pub enum DataComponent {
    RelationalDb,
    DocumentDb,
    KeyValueStore,
    GraphDb,
    DataWarehouse,
    SearchEngine,
    TimeSeriesDb,
}

#[derive(Clone, Copy, Debug, PartialEq, Eq, Structural)]
pub enum CachingComponent {
    Cache,
    SessionStore,
}

#[derive(Clone, Copy, Debug, PartialEq, Eq, Structural)]
pub enum MessagingComponent {
    MessageQueue,
    EventBus,
    PubSub,
    StreamProcessor,
    JobBroker,
}

#[derive(Clone, Copy, Debug, PartialEq, Eq, Structural)]
pub enum StorageComponent {
    ObjectStorage,
    BlockStorage,
    FileStorage,
}

#[derive(Clone, Copy, Debug, PartialEq, Eq, Structural)]
pub enum SecurityComponent {
    IdentityProvider,
    SecretManager,
    CertificateManager,
    Waf,
}

#[derive(Clone, Copy, Debug, PartialEq, Eq, Structural)]
pub enum ObservabilityComponent {
    Logging,
    Monitoring,
    Tracing,
    Alerting,
}

#[derive(Clone, Copy, Debug, PartialEq, Eq, Structural)]
pub enum GroupType {
    NetworkBoundary,
    AvailabilityZone,
    Region,
    ServiceCluster,
    Custom,
}

/// Free-form configuration (JSON text) and style of a node.
pub struct NodeProperties {
    pub config: String,
    pub style: Option<NodeStyle>,
}

pub struct NodeStyle {
    pub color: Option<String>,
    pub icon: Option<String>,
    /// Bit pattern of the `f64` opacity.
    pub opacity_bits: Option<u64>,
}

/// The concrete service of a node on each cloud provider.
pub struct ProviderMappings {
    pub aws: Option<ProviderMapping>,
    pub gcp: Option<ProviderMapping>,
    pub azure: Option<ProviderMapping>,
}

pub struct ProviderMapping {
    pub service_name: String,
    pub icon_key: String,
    /// JSON text.
    pub config: String,
    pub terraform_resource_type: Option<String>,
}

pub open spec fn opt_str_view(o: Option<String>) -> Option<Seq<char>> {
    match o {
        Some(s) => Some(s@),
        None => None,
    }
}

pub fn clone_opt_string(o: &Option<String>) -> (r: Option<String>)
    ensures
        opt_str_view(r) == opt_str_view(*o),
{
    match o {
        Some(s) => Some(s.clone()),
        None => None,
    }
}

pub struct NodeStyleView {
    pub color: Option<Seq<char>>,
    pub icon: Option<Seq<char>>,
    pub opacity_bits: Option<u64>,
}

impl View for NodeStyle {
    type V = NodeStyleView;

    open spec fn view(&self) -> NodeStyleView {
        NodeStyleView {
            color: opt_str_view(self.color),
            icon: opt_str_view(self.icon),
            opacity_bits: self.opacity_bits,
        }
    }
}

impl Clone for NodeStyle {
    fn clone(&self) -> (r: Self)
        ensures
            r@ == self@,
    {
        NodeStyle {
            color: clone_opt_string(&self.color),
            icon: clone_opt_string(&self.icon),
            opacity_bits: self.opacity_bits,
        }
    }
}

pub struct NodePropertiesView {
    pub config: Seq<char>,
    pub style: Option<NodeStyleView>,
}

impl View for NodeProperties {
    type V = NodePropertiesView;

    open spec fn view(&self) -> NodePropertiesView {
        NodePropertiesView {
            config: self.config@,
            style: match self.style {
                Some(s) => Some(s@),
                None => None,
            },
        }
    }
}

impl Clone for NodeProperties {
    fn clone(&self) -> (r: Self)
        ensures
            r@ == self@,
    {
        NodeProperties {
            config: self.config.clone(),
            style: match &self.style {
                Some(s) => Some(s.clone()),
                None => None,
            },
        }
    }
}

pub struct ProviderMappingView {
    pub service_name: Seq<char>,
    pub icon_key: Seq<char>,
    pub config: Seq<char>,
    pub terraform_resource_type: Option<Seq<char>>,
}

impl View for ProviderMapping {
    type V = ProviderMappingView;

    open spec fn view(&self) -> ProviderMappingView {
        ProviderMappingView {
            service_name: self.service_name@,
            icon_key: self.icon_key@,
            config: self.config@,
            terraform_resource_type: opt_str_view(self.terraform_resource_type),
        }
    }
}

impl Clone for ProviderMapping {
    fn clone(&self) -> (r: Self)
        ensures
            r@ == self@,
    {
        ProviderMapping {
            service_name: self.service_name.clone(),
            icon_key: self.icon_key.clone(),
            config: self.config.clone(),
            terraform_resource_type: clone_opt_string(&self.terraform_resource_type),
        }
    }
}

pub open spec fn opt_mapping_view(o: Option<ProviderMapping>) -> Option<ProviderMappingView> {
    match o {
        Some(m) => Some(m@),
        None => None,
    }
}

pub fn clone_opt_mapping(o: &Option<ProviderMapping>) -> (r: Option<ProviderMapping>)
    ensures
        opt_mapping_view(r) == opt_mapping_view(*o),
{
    match o {
        Some(m) => Some(m.clone()),
        None => None,
    }
}

pub struct ProviderMappingsView {
    pub aws: Option<ProviderMappingView>,
    pub gcp: Option<ProviderMappingView>,
    pub azure: Option<ProviderMappingView>,
}

impl View for ProviderMappings {
    type V = ProviderMappingsView;

    open spec fn view(&self) -> ProviderMappingsView {
        ProviderMappingsView {
            aws: opt_mapping_view(self.aws),
            gcp: opt_mapping_view(self.gcp),
            azure: opt_mapping_view(self.azure),
        }
    }
}

impl Clone for ProviderMappings {
    fn clone(&self) -> (r: Self)
        ensures
            r@ == self@,
    {
        ProviderMappings {
            aws: clone_opt_mapping(&self.aws),
            gcp: clone_opt_mapping(&self.gcp),
            azure: clone_opt_mapping(&self.azure),
        }
    }
}

pub open spec fn opt_mappings_view(o: Option<ProviderMappings>) -> Option<ProviderMappingsView> {
    match o {
        Some(m) => Some(m@),
        None => None,
    }
}

pub struct NodeView {
    pub id: u128,
    pub node_type: NodeType,
    pub label: Seq<char>,
    pub position: Position,
    pub size: Size,
    pub properties: NodePropertiesView,
    pub parent_id: Option<u128>,
    pub provider_mappings: Option<ProviderMappingsView>,
}

impl View for Node {
    type V = NodeView;

    open spec fn view(&self) -> NodeView {
        NodeView {
            id: self.id,
            node_type: self.node_type,
            label: self.label@,
            position: self.position,
            size: self.size,
            properties: self.properties@,
            parent_id: self.parent_id,
            provider_mappings: opt_mappings_view(self.provider_mappings),
        }
    }
}

impl Clone for Node {
    fn clone(&self) -> (r: Self)
        ensures
            r@ == self@,
    {
        Node {
            id: self.id,
            node_type: self.node_type,
            label: self.label.clone(),
            position: self.position,
            size: self.size,
            properties: self.properties.clone(),
            parent_id: self.parent_id,
            provider_mappings: match &self.provider_mappings {
                Some(m) => Some(m.clone()),
                None => None,
            },
        }
    }
}

/// The views of a sequence of nodes.
pub open spec fn nodes_view(s: Seq<Node>) -> Seq<NodeView> {
    s.map_values(|n: Node| n@)
}

pub fn clone_nodes(v: &Vec<Node>) -> (r: Vec<Node>)
    ensures
        nodes_view(r@) == nodes_view(v@),
{
    let mut r: Vec<Node> = Vec::new();
    let mut i: usize = 0;
    while i < v.len()
        invariant
            i <= v.len(),
            r@.len() == i,
            forall|j: int| 0 <= j < i ==> r@[j]@ == v@[j]@,
        decreases v.len() - i,
    {
        r.push(v[i].clone());
        i = i + 1;
    }
    assert(nodes_view(r@) =~= nodes_view(v@));
    r
}

/// Group nodes only organise other nodes; they are not services.
pub open spec fn is_group(t: NodeType) -> bool {
    t is Group
}

pub fn is_group_type(t: &NodeType) -> (b: bool)
    ensures
        b == is_group(*t),
{
    match t {
        NodeType::Group(_) => true,
        _ => false,
    }
}

/// The first of the first `k` nodes with id `id`.
pub open spec fn first_with_id(nodes: Seq<NodeView>, id: u128, k: int) -> Option<int>
    decreases k,
{
    if k <= 0 {
        None
    } else {
        match first_with_id(nodes, id, k - 1) {
            Some(j) => Some(j),
            None => if nodes[k - 1].id == id { Some(k - 1) } else { None },
        }
    }
}

pub proof fn lemma_first_with_id_found(nodes: Seq<NodeView>, id: u128, k: int, i: int)
    requires
        0 <= i < k <= nodes.len(),
        nodes[i].id == id,
        forall|j: int| 0 <= j < i ==> nodes[j].id != id,
    ensures
        first_with_id(nodes, id, k) == Some(i),
    decreases k,
{
    if k - 1 > i {
        lemma_first_with_id_found(nodes, id, k - 1, i);
    } else {
        lemma_first_with_id_none(nodes, id, i);
    }
}

pub proof fn lemma_first_with_id_none(nodes: Seq<NodeView>, id: u128, k: int)
    requires
        0 <= k <= nodes.len(),
        forall|j: int| 0 <= j < k ==> nodes[j].id != id,
    ensures
        first_with_id(nodes, id, k) is None,
    decreases k,
{
    if k > 0 {
        lemma_first_with_id_none(nodes, id, k - 1);
    }
}

/// The index of the first node with id `id`; there is one.
/// The position of the first node with id `id`, if any.
pub fn find_node_index(nodes: &Vec<Node>, id: u128) -> (r: Option<usize>)
    ensures
        match r {
            Some(i) => i < nodes.len() && nodes@[i as int].id == id
                && first_with_id(nodes_view(nodes@), id, nodes@.len() as int) == Some(i as int),
            None => first_with_id(nodes_view(nodes@), id, nodes@.len() as int) is None,
        },
{
    let ghost nv = nodes_view(nodes@);
    let mut i: usize = 0;
    while i < nodes.len()
        invariant
            i <= nodes.len(),
            nv == nodes_view(nodes@),
            forall|j: int| 0 <= j < i ==> nv[j].id != id,
        decreases nodes.len() - i,
    {
        assert(nv[i as int].id == nodes@[i as int].id);
        if nodes[i].id == id {
            proof {
                lemma_first_with_id_found(nv, id, nv.len() as int, i as int);
            }
            return Some(i);
        }
        i = i + 1;
    }
    proof {
        lemma_first_with_id_none(nv, id, nv.len() as int);
    }
    None
}

/// The positions of the non-group nodes among the first `n`, in order.
pub open spec fn non_group_positions(nodes: Seq<NodeView>, n: int) -> Seq<int>
    decreases n,
{
    if n <= 0 {
        Seq::empty()
    } else if is_group(nodes[n - 1].node_type) {
        non_group_positions(nodes, n - 1)
    } else {
        non_group_positions(nodes, n - 1).push(n - 1)
    }
}

} // verus!
