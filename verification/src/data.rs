//! The inventory graph: devices as nodes, relationships as edges, and the
//! counters read for each device.
use vstd::prelude::*;

use crate::table::{table_get, table_insert, table_view};

verus! {

/// RDMA port counters from sysfs (ports/1/counters + ports/1/hw_counters).
#[derive(Debug, Clone, Copy, PartialEq, Eq, Structural)]
pub struct RdmaCounters {
    pub port_rcv_data: u64,
    pub port_xmit_data: u64,
    pub port_rcv_packets: u64,
    pub port_xmit_packets: u64,
    pub port_rcv_errors: u64,
    pub port_xmit_discards: u64,
    pub port_xmit_wait: u64,
    pub np_cnp_sent: u64,
    pub np_ecn_marked_roce_packets: u64,
    pub rp_cnp_handled: u64,
    pub rp_cnp_ignored: u64,
    pub out_of_buffer: u64,
    pub out_of_sequence: u64,
    pub packet_seq_err: u64,
    pub rnr_nak_retry_err: u64,
    pub req_transport_retries_exceeded: u64,
    pub local_ack_timeout_err: u64,
    pub rx_icrc_encapsulated: u64,
}

/// Traffic counters for a network interface (from /sys/class/net/<dev>/statistics/).
#[derive(Debug, Clone, Copy, PartialEq, Eq, Structural)]
pub struct IfaceCounters {
    pub rx_bytes: u64,
    pub tx_bytes: u64,
    pub rx_packets: u64,
    pub tx_packets: u64,
    pub rx_errors: u64,
    pub tx_errors: u64,
    pub rx_dropped: u64,
    pub tx_dropped: u64,
    pub rx_missed: u64,
    pub collisions: u64,
}

/// PFC (Priority Flow Control) settings and counters for a network device.
#[derive(Debug, Clone, Copy, PartialEq, Eq)]
pub struct PfcInfo {
    /// Per-priority PFC enabled state (index 0-7)
    pub prio_enabled: [bool; 8],
    /// PFC capability (max priorities)
    pub pfc_cap: u8,
    /// Per-priority RX PFC pause frames received (index 0-7)
    pub rx_pfc: [u64; 8],
    /// Per-priority TX PFC pause frames sent (index 0-7)
    pub tx_pfc: [u64; 8],
    /// Global RX pause frames
    pub rx_pause: u64,
    /// Global TX pause frames
    pub tx_pause: u64,
}

impl View for RdmaCounters {
    type V = RdmaCounters;

    open spec fn view(&self) -> RdmaCounters {
        *self
    }
}

impl View for IfaceCounters {
    type V = IfaceCounters;

    open spec fn view(&self) -> IfaceCounters {
        *self
    }
}

/// What PFC information is: per-priority flags and counters as sequences.
pub struct PfcModel {
    pub prio_enabled: Seq<bool>,
    pub pfc_cap: u8,
    pub rx_pfc: Seq<u64>,
    pub tx_pfc: Seq<u64>,
    pub rx_pause: u64,
    pub tx_pause: u64,
}

impl PfcModel {
    /// No priority enabled, no capability, all counters at zero.
    pub open spec fn zero() -> PfcModel {
        PfcModel {
            prio_enabled: seq![false, false, false, false, false, false, false, false],
            pfc_cap: 0,
            rx_pfc: seq![0, 0, 0, 0, 0, 0, 0, 0],
            tx_pfc: seq![0, 0, 0, 0, 0, 0, 0, 0],
            rx_pause: 0,
            tx_pause: 0,
        }
    }
}

impl View for PfcInfo {
    type V = PfcModel;

    open spec fn view(&self) -> PfcModel {
        PfcModel {
            prio_enabled: self.prio_enabled@,
            pfc_cap: self.pfc_cap,
            rx_pfc: self.rx_pfc@,
            tx_pfc: self.tx_pfc@,
            rx_pause: self.rx_pause,
            tx_pause: self.tx_pause,
        }
    }
}

impl IfaceCounters {
    /// All counters at zero.
    pub open spec fn spec_zero() -> IfaceCounters {
        IfaceCounters {
            rx_bytes: 0,
            tx_bytes: 0,
            rx_packets: 0,
            tx_packets: 0,
            rx_errors: 0,
            tx_errors: 0,
            rx_dropped: 0,
            tx_dropped: 0,
            rx_missed: 0,
            collisions: 0,
        }
    }
}

impl Default for IfaceCounters {
    fn default() -> (r: IfaceCounters)
        ensures
            r == IfaceCounters::spec_zero(),
    {
        IfaceCounters {
            rx_bytes: 0,
            tx_bytes: 0,
            rx_packets: 0,
            tx_packets: 0,
            rx_errors: 0,
            tx_errors: 0,
            rx_dropped: 0,
            tx_dropped: 0,
            rx_missed: 0,
            collisions: 0,
        }
    }
}

impl RdmaCounters {
    /// All counters at zero.
    pub open spec fn spec_zero() -> RdmaCounters {
        RdmaCounters {
            port_rcv_data: 0,
            port_xmit_data: 0,
            port_rcv_packets: 0,
            port_xmit_packets: 0,
            port_rcv_errors: 0,
            port_xmit_discards: 0,
            port_xmit_wait: 0,
            np_cnp_sent: 0,
            np_ecn_marked_roce_packets: 0,
            rp_cnp_handled: 0,
            rp_cnp_ignored: 0,
            out_of_buffer: 0,
            out_of_sequence: 0,
            packet_seq_err: 0,
            rnr_nak_retry_err: 0,
            req_transport_retries_exceeded: 0,
            local_ack_timeout_err: 0,
            rx_icrc_encapsulated: 0,
        }
    }
}

impl Default for RdmaCounters {
    fn default() -> (r: RdmaCounters)
        ensures
            r == RdmaCounters::spec_zero(),
    {
        RdmaCounters {
            port_rcv_data: 0,
            port_xmit_data: 0,
            port_rcv_packets: 0,
            port_xmit_packets: 0,
            port_rcv_errors: 0,
            port_xmit_discards: 0,
            port_xmit_wait: 0,
            np_cnp_sent: 0,
            np_ecn_marked_roce_packets: 0,
            rp_cnp_handled: 0,
            rp_cnp_ignored: 0,
            out_of_buffer: 0,
            out_of_sequence: 0,
            packet_seq_err: 0,
            rnr_nak_retry_err: 0,
            req_transport_retries_exceeded: 0,
            local_ack_timeout_err: 0,
            rx_icrc_encapsulated: 0,
        }
    }
}

impl Default for PfcInfo {
    fn default() -> (r: PfcInfo)
        ensures
            r@ == PfcModel::zero(),
    {
        let r = PfcInfo {
            prio_enabled: [false, false, false, false, false, false, false, false],
            pfc_cap: 0,
            rx_pfc: [0, 0, 0, 0, 0, 0, 0, 0],
            tx_pfc: [0, 0, 0, 0, 0, 0, 0, 0],
            rx_pause: 0,
            tx_pause: 0,
        };
        assert(r.prio_enabled@ =~= PfcModel::zero().prio_enabled);
        assert(r.rx_pfc@ =~= PfcModel::zero().rx_pfc);
        assert(r.tx_pfc@ =~= PfcModel::zero().tx_pfc);
        r
    }
}

#[derive(Debug, Clone, Copy, PartialEq, Eq, Structural)]
pub enum NodeType {
    NetworkInterface,
    PciDevice,
    RdmaDevice,
    DpdkDevice,
}

#[derive(Debug, Clone, Copy, PartialEq, Eq, Structural)]
pub enum EdgeType {
    PciBinding,
    RdmaMapping,
    DpdkBinding,
    PhysicalConnection,
}

/// A device of the inventory.
#[derive(Debug, Clone)]
pub struct Node {
    pub id: String,
    pub node_type: NodeType,
    /// Named attributes; a later entry for a name replaces an earlier one.
    pub properties: Vec<(String, String)>,
}

/// A relationship between two devices, named by their ids.
#[derive(Debug, Clone)]
pub struct Edge {
    pub from: String,
    pub to: String,
    pub edge_type: EdgeType,
    /// Named attributes; a later entry for a name replaces an earlier one.
    pub properties: Vec<(String, String)>,
}

/// What a node is: its id, its type and its attributes as a map.
pub struct NodeModel {
    pub id: Seq<char>,
    pub node_type: NodeType,
    pub properties: Map<Seq<char>, Seq<char>>,
}

/// What an edge is: its two ends, its type and its attributes as a map.
pub struct EdgeModel {
    pub from: Seq<char>,
    pub to: Seq<char>,
    pub edge_type: EdgeType,
    pub properties: Map<Seq<char>, Seq<char>>,
}

impl View for Node {
    type V = NodeModel;

    open spec fn view(&self) -> NodeModel {
        NodeModel {
            id: self.id@,
            node_type: self.node_type,
            properties: table_view(self.properties@),
        }
    }
}

impl View for Edge {
    type V = EdgeModel;

    open spec fn view(&self) -> EdgeModel {
        EdgeModel {
            from: self.from@,
            to: self.to@,
            edge_type: self.edge_type,
            properties: table_view(self.properties@),
        }
    }
}

/// The nodes of a list, each taken by its model.
pub open spec fn node_models(ns: Seq<Node>) -> Seq<NodeModel> {
    ns.map_values(|n: Node| n@)
}

/// The edges of a list, each taken by its model.
pub open spec fn edge_models(es: Seq<Edge>) -> Seq<EdgeModel> {
    es.map_values(|e: Edge| e@)
}

/// The node with attribute `key` set to `value`, everything else kept.
pub open spec fn set_property(n: NodeModel, key: Seq<char>, value: Seq<char>) -> NodeModel {
    NodeModel { properties: n.properties.insert(key, value), ..n }
}

impl Node {
    pub fn new(id: String, node_type: NodeType) -> (r: Self)
        ensures
            r@ == (NodeModel { id: id@, node_type, properties: Map::empty() }),
    {
        Node { id, node_type, properties: Vec::new() }
    }

    /// The node with attribute `key` set to `value`.
    pub fn with_property(self, key: &str, value: &str) -> (r: Self)
        ensures
            r@ == set_property(self@, key@, value@),
    {
        let mut node = self;
        table_insert(&mut node.properties, String::from_str(key), String::from_str(value));
        node
    }

    /// The value of attribute `key`, if the node has it.
    pub fn get_property(&self, key: &str) -> (r: Option<&String>)
        ensures
            match r {
                Some(v) => self@.properties.contains_key(key@) && v@ == self@.properties[key@],
                None => !self@.properties.contains_key(key@),
            },
    {
        table_get(&self.properties, &String::from_str(key))
    }
}

impl Edge {
    pub fn new(from: String, to: String, edge_type: EdgeType) -> (r: Self)
        ensures
            r@ == (EdgeModel { from: from@, to: to@, edge_type, properties: Map::empty() }),
    {
        Edge { from, to, edge_type, properties: Vec::new() }
    }

    /// The edge with attribute `key` set to `value`.
    pub fn with_property(self, key: &str, value: &str) -> (r: Self)
        ensures
            r@ == (EdgeModel { properties: self@.properties.insert(key@, value@), ..self@ }),
    {
        let mut edge = self;
        table_insert(&mut edge.properties, String::from_str(key), String::from_str(value));
        edge
    }
}

} // verus!

verus! {

/// Everything collected about the machine: devices, their relationships, and
/// counters keyed by device name.
#[derive(Debug, Clone)]
pub struct Inventory {
    pub nodes: Vec<Node>,
    pub edges: Vec<Edge>,
    /// PFC info keyed by netdev name
    pub pfc_info: Vec<(String, PfcInfo)>,
    /// Interface counters keyed by netdev name
    pub iface_counters: Vec<(String, IfaceCounters)>,
    /// RDMA port counters keyed by RDMA device name
    pub rdma_counters: Vec<(String, RdmaCounters)>,
}

/// The id at the other end of `e` from `id`, if `e` touches `id`; an edge
/// whose `from` is `id` names its `to`.
pub open spec fn other_end(e: EdgeModel, id: Seq<char>) -> Option<Seq<char>> {
    if e.from == id {
        Some(e.to)
    } else if e.to == id {
        Some(e.from)
    } else {
        None
    }
}

/// Some edge of `edges` links `id` to `other`.
pub open spec fn linked(edges: Seq<Edge>, id: Seq<char>, other: Seq<char>) -> bool {
    exists|j: int| 0 <= j < edges.len() && other_end((#[trigger] edges[j])@, id) == Some(other)
}

/// The ids that the edges link to `id`, in edge order.
pub open spec fn neighbor_ids(edges: Seq<Edge>, id: Seq<char>) -> Seq<Seq<char>>
    decreases edges.len(),
{
    if edges.len() == 0 {
        Seq::empty()
    } else {
        let rest = neighbor_ids(edges.drop_last(), id);
        match other_end(edges.last()@, id) {
            Some(o) => rest.push(o),
            None => rest,
        }
    }
}

pub proof fn lemma_neighbor_ids_contains(edges: Seq<Edge>, id: Seq<char>, other: Seq<char>)
    ensures
        neighbor_ids(edges, id).contains(other) <==> linked(edges, id, other),
    decreases edges.len(),
{
    if edges.len() > 0 {
        let e2 = edges.drop_last();
        let last = edges[edges.len() - 1];
        let rest = neighbor_ids(e2, id);
        lemma_neighbor_ids_contains(e2, id, other);
        assert(forall|j: int| 0 <= j < e2.len() ==> e2[j] == edges[j]);
        if linked(edges, id, other) {
            let j = choose|j: int|
                0 <= j < edges.len() && other_end((#[trigger] edges[j])@, id) == Some(other);
            if j < edges.len() - 1 {
                assert(linked(e2, id, other));
                let k = choose|k: int| 0 <= k < rest.len() && rest[k] == other;
                match other_end(last@, id) {
                    Some(o) => {
                        assert(rest.push(o)[k] == other);
                    },
                    None => {},
                }
            } else {
                assert(rest.push(other)[rest.len() as int] == other);
            }
        }
        if neighbor_ids(edges, id).contains(other) {
            match other_end(last@, id) {
                Some(o) => {
                    let k = choose|k: int|
                        0 <= k < rest.len() + 1 && rest.push(o)[k] == other;
                    if k < rest.len() {
                        assert(rest[k] == other);
                        assert(rest.contains(other));
                    } else {
                        assert(other_end(edges[edges.len() - 1]@, id) == Some(other));
                    }
                },
                None => {
                    assert(rest.contains(other));
                },
            }
            if rest.contains(other) {
                let j = choose|j: int|
                    0 <= j < e2.len() && other_end((#[trigger] e2[j])@, id) == Some(other);
                assert(edges[j] == e2[j]);
            }
        }
    }
}

/// The name of a node, if it has one.
pub open spec fn name_of(n: Node) -> Option<Seq<char>> {
    if n@.properties.contains_key("name"@) {
        Some(n@.properties["name"@])
    } else {
        None
    }
}

/// The names of the nodes that have one, in order.
pub open spec fn node_names(ns: Seq<Node>) -> Seq<Seq<char>> {
    ns.filter_map(|n: Node| name_of(n))
}

/// The nodes that a list of references points to.
pub open spec fn deref_nodes(s: Seq<&Node>) -> Seq<Node> {
    s.map_values(|n: &Node| *n)
}

/// The nodes of `ns` of type `t`, in order.
pub open spec fn nodes_of_type(ns: Seq<Node>, t: NodeType) -> Seq<Node> {
    ns.filter(|n: Node| n.node_type == t)
}

impl Inventory {
    pub fn new() -> (r: Self)
        ensures
            r.nodes@.len() == 0,
            r.edges@.len() == 0,
            table_view(r.pfc_info@) == Map::<Seq<char>, PfcModel>::empty(),
            table_view(r.iface_counters@) == Map::<Seq<char>, IfaceCounters>::empty(),
            table_view(r.rdma_counters@) == Map::<Seq<char>, RdmaCounters>::empty(),
    {
        Inventory {
            nodes: Vec::new(),
            edges: Vec::new(),
            pfc_info: Vec::new(),
            iface_counters: Vec::new(),
            rdma_counters: Vec::new(),
        }
    }

    pub fn add_node(&mut self, node: Node)
        ensures
            final(self).nodes@ == old(self).nodes@.push(node),
            final(self).edges@ == old(self).edges@,
            final(self).pfc_info@ == old(self).pfc_info@,
            final(self).iface_counters@ == old(self).iface_counters@,
            final(self).rdma_counters@ == old(self).rdma_counters@,
    {
        self.nodes.push(node);
    }

    pub fn add_edge(&mut self, edge: Edge)
        ensures
            final(self).edges@ == old(self).edges@.push(edge),
            final(self).nodes@ == old(self).nodes@,
            final(self).pfc_info@ == old(self).pfc_info@,
            final(self).iface_counters@ == old(self).iface_counters@,
            final(self).rdma_counters@ == old(self).rdma_counters@,
    {
        self.edges.push(edge);
    }

    /// The nodes of the given type, in inventory order.
    pub fn get_nodes_by_type(&self, node_type: &NodeType) -> (r: Vec<&Node>)
        ensures
            deref_nodes(r@) == nodes_of_type(self.nodes@, *node_type),
    {
        let mut r: Vec<&Node> = Vec::new();
        let ghost pred = |n: Node| n.node_type == *node_type;
        let mut i: usize = 0;
        while i < self.nodes.len()
            invariant
                i <= self.nodes@.len(),
                deref_nodes(r@) == self.nodes@.take(i as int).filter(pred),
                pred == (|n: Node| n.node_type == *node_type),
            decreases self.nodes@.len() - i,
        {
            let node = &self.nodes[i];
            proof {
                assert(self.nodes@.take(i + 1) =~= self.nodes@.take(i as int).push(self.nodes@[i as int]));
                self.nodes@.take(i as int).lemma_filter_push(self.nodes@[i as int], pred);
            }
            let ghost prev = deref_nodes(r@);
            if node.node_type == *node_type {
                r.push(node);
                assert(deref_nodes(r@) =~= prev.push(self.nodes@[i as int]));
            }
            i += 1;
        }
        assert(self.nodes@.take(i as int) =~= self.nodes@);
        r
    }

    /// The nodes that some edge links to `node_id`, in inventory order.
    pub fn find_connected_nodes(&self, node_id: &str) -> (r: Vec<&Node>)
        ensures
            deref_nodes(r@) == self.nodes@.filter(|n: Node| linked(self.edges@, node_id@, n.id@)),
    {
        let id = String::from_str(node_id);
        let mut connected_ids: Vec<&String> = Vec::new();
        let mut j: usize = 0;
        while j < self.edges.len()
            invariant
                j <= self.edges@.len(),
                id@ == node_id@,
                connected_ids@.map_values(|s: &String| s@) == neighbor_ids(
                    self.edges@.take(j as int),
                    id@,
                ),
            decreases self.edges@.len() - j,
        {
            let edge = &self.edges[j];
            let ghost prev = connected_ids@.map_values(|s: &String| s@);
            assert(self.edges@.take(j + 1).drop_last() =~= self.edges@.take(j as int));
            if edge.from == id {
                connected_ids.push(&edge.to);
                assert(connected_ids@.map_values(|s: &String| s@) =~= prev.push(edge.to@));
            } else if edge.to == id {
                connected_ids.push(&edge.from);
                assert(connected_ids@.map_values(|s: &String| s@) =~= prev.push(edge.from@));
            }
            j += 1;
        }
        assert(self.edges@.take(j as int) =~= self.edges@);
        let ghost ids = connected_ids@.map_values(|s: &String| s@);
        let ghost pred = |n: Node| linked(self.edges@, node_id@, n.id@);
        let mut r: Vec<&Node> = Vec::new();
        let mut i: usize = 0;
        while i < self.nodes.len()
            invariant
                i <= self.nodes@.len(),
                ids == connected_ids@.map_values(|s: &String| s@),
                ids == neighbor_ids(self.edges@, node_id@),
                pred == (|n: Node| linked(self.edges@, node_id@, n.id@)),
                deref_nodes(r@) == self.nodes@.take(i as int).filter(pred),
            decreases self.nodes@.len() - i,
        {
            let node = &self.nodes[i];
            let mut found = false;
            let mut k: usize = 0;
            while k < connected_ids.len()
                invariant
                    k <= connected_ids@.len(),
                    ids == connected_ids@.map_values(|s: &String| s@),
                    found <==> exists|m: int| 0 <= m < k && ids[m] == node.id@,
                decreases connected_ids@.len() - k,
            {
                assert(ids[k as int] == connected_ids@[k as int]@);
                if *connected_ids[k] == node.id {
                    found = true;
                }
                k += 1;
            }
            proof {
                lemma_neighbor_ids_contains(self.edges@, node_id@, node.id@);
                if found {
                    let m = choose|m: int| 0 <= m < k && ids[m] == node.id@;
                    assert(ids.contains(node.id@));
                }
                assert(self.nodes@.take(i + 1) =~= self.nodes@.take(i as int).push(self.nodes@[i as int]));
                self.nodes@.take(i as int).lemma_filter_push(self.nodes@[i as int], pred);
            }
            let ghost prev = deref_nodes(r@);
            if found {
                r.push(node);
                assert(deref_nodes(r@) =~= prev.push(self.nodes@[i as int]));
            }
            i += 1;
        }
        assert(self.nodes@.take(i as int) =~= self.nodes@);
        r
    }

    /// Records the counters of interface `name`.
    pub fn insert_iface_counters(&mut self, name: String, counters: IfaceCounters)
        ensures
            table_view(final(self).iface_counters@) == table_view(old(self).iface_counters@).insert(
                name@,
                counters,
            ),
            final(self).nodes@ == old(self).nodes@,
            final(self).edges@ == old(self).edges@,
            final(self).pfc_info@ == old(self).pfc_info@,
            final(self).rdma_counters@ == old(self).rdma_counters@,
    {
        table_insert(&mut self.iface_counters, name, counters);
    }

    /// Records the counters of RDMA device `name`.
    pub fn insert_rdma_counters(&mut self, name: String, counters: RdmaCounters)
        ensures
            table_view(final(self).rdma_counters@) == table_view(old(self).rdma_counters@).insert(
                name@,
                counters,
            ),
            final(self).nodes@ == old(self).nodes@,
            final(self).edges@ == old(self).edges@,
            final(self).pfc_info@ == old(self).pfc_info@,
            final(self).iface_counters@ == old(self).iface_counters@,
    {
        table_insert(&mut self.rdma_counters, name, counters);
    }

    /// Records the PFC information of netdev `name`.
    pub fn insert_pfc_info(&mut self, name: String, info: PfcInfo)
        ensures
            table_view(final(self).pfc_info@) == table_view(old(self).pfc_info@).insert(
                name@,
                info@,
            ),
            final(self).nodes@ == old(self).nodes@,
            final(self).edges@ == old(self).edges@,
            final(self).iface_counters@ == old(self).iface_counters@,
            final(self).rdma_counters@ == old(self).rdma_counters@,
    {
        table_insert(&mut self.pfc_info, name, info);
    }

    /// The counters recorded for interface `name`.
    pub fn iface_counters_of(&self, name: &str) -> (r: Option<IfaceCounters>)
        ensures
            r == (if table_view(self.iface_counters@).contains_key(name@) {
                Some(table_view(self.iface_counters@)[name@])
            } else {
                None
            }),
    {
        match table_get(&self.iface_counters, &String::from_str(name)) {
            Some(c) => Some(*c),
            None => None,
        }
    }

    /// The counters recorded for RDMA device `name`.
    pub fn rdma_counters_of(&self, name: &str) -> (r: Option<RdmaCounters>)
        ensures
            r == (if table_view(self.rdma_counters@).contains_key(name@) {
                Some(table_view(self.rdma_counters@)[name@])
            } else {
                None
            }),
    {
        match table_get(&self.rdma_counters, &String::from_str(name)) {
            Some(c) => Some(*c),
            None => None,
        }
    }

    /// Whether PFC information is recorded for netdev `name`.
    pub fn has_pfc_info(&self, name: &str) -> (r: bool)
        ensures
            r == table_view(self.pfc_info@).contains_key(name@),
    {
        table_get(&self.pfc_info, &String::from_str(name)).is_some()
    }

    /// The PFC information recorded for netdev `name`.
    pub fn pfc_info_of(&self, name: &str) -> (r: Option<PfcInfo>)
        ensures
            match r {
                Some(i) => table_view(self.pfc_info@).contains_key(name@) && i@ == table_view(
                    self.pfc_info@,
                )[name@],
                None => !table_view(self.pfc_info@).contains_key(name@),
            },
    {
        match table_get(&self.pfc_info, &String::from_str(name)) {
            Some(i) => Some(*i),
            None => None,
        }
    }

    /// The names of the nodes of a type, in inventory order (nodes without a
    /// name are skipped).
    pub fn device_names(&self, node_type: &NodeType) -> (r: Vec<String>)
        ensures
            r@.map_values(|s: String| s@) == node_names(nodes_of_type(self.nodes@, *node_type)),
    {
        let typed = self.get_nodes_by_type(node_type);
        let ghost src = deref_nodes(typed@);
        let ghost f = |n: Node| name_of(n);
        let mut r: Vec<String> = Vec::new();
        let mut i: usize = 0;
        while i < typed.len()
            invariant
                i <= typed@.len(),
                src == deref_nodes(typed@),
                src == nodes_of_type(self.nodes@, *node_type),
                f == (|n: Node| name_of(n)),
                r@.map_values(|s: String| s@) == src.take(i as int).filter_map(f),
            decreases typed@.len() - i,
        {
            let node = typed[i];
            proof {
                assert(src[i as int] == *node);
                src.lemma_filter_map_take_succ(f, i as int);
            }
            let ghost prev = r@.map_values(|s: String| s@);
            match node.get_property("name") {
                Some(name) => {
                    r.push(name.clone());
                    assert(r@.map_values(|s: String| s@) =~= prev + seq![name@]);
                },
                None => {
                    assert(prev + Seq::<Seq<char>>::empty() =~= prev);
                },
            }
            i += 1;
        }
        assert(src.take(i as int) =~= src);
        r
    }
}

} // verus!
