//! Which nodes each tab lists under a search, and how to move from a node to
//! the devices it is connected to.
use vstd::prelude::*;

use crate::data::{
    Inventory, Node, NodeModel, NodeType, deref_nodes, linked, nodes_of_type,
};
use crate::text::{chars_of, contains_chars, contains_sub, lowercase, to_lowercase};
use crate::ui::Tab;

verus! {

/// The node type that a tab lists (the raw tab lists none).
pub open spec fn tab_node_type(tab: Tab) -> NodeType {
    match tab {
        Tab::Rdma => NodeType::RdmaDevice,
        Tab::Pci => NodeType::PciDevice,
        _ => NodeType::NetworkInterface,
    }
}

/// The node has property `key`, and its lower-cased value holds `q`.
pub open spec fn prop_contains(props: Map<Seq<char>, Seq<char>>, key: Seq<char>, q: Seq<char>) -> bool {
    props.contains_key(key) && contains_sub(lowercase(props[key]), q)
}

/// A node is listed under search `q` (already lower-cased): every node when
/// `q` is empty; otherwise one whose name holds `q` (interfaces), whose name,
/// display name or port does (RDMA), or whose PCI id, vendor, device, class
/// or driver does (PCI).
pub open spec fn query_matches(n: NodeModel, tab: Tab, q: Seq<char>) -> bool {
    q.len() == 0 || match tab {
        Tab::Interfaces => prop_contains(n.properties, "name"@, q),
        Tab::Rdma => prop_contains(n.properties, "name"@, q) || prop_contains(
            n.properties,
            "display_name"@,
            q,
        ) || prop_contains(n.properties, "port"@, q),
        Tab::Pci => prop_contains(n.properties, "pci_id"@, q) || prop_contains(
            n.properties,
            "vendor"@,
            q,
        ) || prop_contains(n.properties, "device"@, q) || prop_contains(
            n.properties,
            "class"@,
            q,
        ) || prop_contains(n.properties, "driver"@, q),
        Tab::Raw => false,
    }
}

/// The nodes a tab lists under search `q`, in inventory order.
pub open spec fn filtered_nodes(nodes: Seq<Node>, tab: Tab, q: Seq<char>) -> Seq<Node> {
    if tab == Tab::Raw {
        Seq::empty()
    } else {
        nodes_of_type(nodes, tab_node_type(tab)).filter(|n: Node| query_matches(n@, tab, q))
    }
}

fn prop_contains_in(node: &Node, key: &str, q: &Vec<char>) -> (r: bool)
    ensures
        r == prop_contains(node@.properties, key@, q@),
{
    match node.get_property(key) {
        Some(v) => contains_chars(&chars_of(to_lowercase(v.as_str()).as_str()), q),
        None => false,
    }
}

fn query_matches_in(node: &Node, tab: Tab, q: &Vec<char>) -> (r: bool)
    ensures
        r == query_matches(node@, tab, q@),
{
    if q.len() == 0 {
        return true;
    }
    match tab {
        Tab::Interfaces => prop_contains_in(node, "name", q),
        Tab::Rdma => prop_contains_in(node, "name", q) || prop_contains_in(node, "display_name", q)
            || prop_contains_in(node, "port", q),
        Tab::Pci => prop_contains_in(node, "pci_id", q) || prop_contains_in(node, "vendor", q)
            || prop_contains_in(node, "device", q) || prop_contains_in(node, "class", q)
            || prop_contains_in(node, "driver", q),
        Tab::Raw => false,
    }
}

/// The nodes that `tab` lists under the (lower-cased) search `q`.
pub fn filtered_nodes_for_query<'a>(inventory: &'a Inventory, tab: Tab, q: &str) -> (r: Vec<&'a Node>)
    ensures
        deref_nodes(r@) == filtered_nodes(inventory.nodes@, tab, q@),
{
    let mut r: Vec<&'a Node> = Vec::new();
    if tab == Tab::Raw {
        assert(deref_nodes(r@) =~= Seq::<Node>::empty());
        return r;
    }
    let nt = match tab {
        Tab::Rdma => NodeType::RdmaDevice,
        Tab::Pci => NodeType::PciDevice,
        _ => NodeType::NetworkInterface,
    };
    let typed = inventory.get_nodes_by_type(&nt);
    let qc = chars_of(q);
    let ghost src = deref_nodes(typed@);
    let ghost pred = |n: Node| query_matches(n@, tab, q@);
    let mut i: usize = 0;
    while i < typed.len()
        invariant
            i <= typed@.len(),
            src == deref_nodes(typed@),
            src == nodes_of_type(inventory.nodes@, tab_node_type(tab)),
            qc@ == q@,
            pred == (|n: Node| query_matches(n@, tab, q@)),
            deref_nodes(r@) == src.take(i as int).filter(pred),
        decreases typed@.len() - i,
    {
        let node = typed[i];
        proof {
            assert(src[i as int] == *node);
            assert(src.take(i + 1) =~= src.take(i as int).push(*node));
            src.take(i as int).lemma_filter_push(*node, pred);
        }
        let ghost prev = deref_nodes(r@);
        if query_matches_in(node, tab, &qc) {
            r.push(node);
            assert(deref_nodes(r@) =~= prev.push(*node));
        }
        i += 1;
    }
    assert(src.take(i as int) =~= src);
    r
}

/// Both node types are the same variant.
pub fn same_node_type(a: &NodeType, b: &NodeType) -> (r: bool)
    ensures
        r == (*a == *b),
{
    *a == *b
}

/// The tab that lists nodes of a type (interfaces for any type without a tab).
pub open spec fn tab_of_type(t: NodeType) -> Tab {
    match t {
        NodeType::RdmaDevice => Tab::Rdma,
        NodeType::PciDevice => Tab::Pci,
        _ => Tab::Interfaces,
    }
}

/// The tab that lists nodes of the given type.
pub fn tab_for_node_type(node_type: &NodeType) -> (r: Tab)
    ensures
        r == tab_of_type(*node_type),
{
    match node_type {
        NodeType::RdmaDevice => Tab::Rdma,
        NodeType::PciDevice => Tab::Pci,
        _ => Tab::Interfaces,
    }
}

/// The nodes that some edge links to `id`, in inventory order.
pub open spec fn connected_nodes(inv: Inventory, id: Seq<char>) -> Seq<Node> {
    inv.nodes@.filter(|n: Node| linked(inv.edges@, id, n.id@))
}

/// The first node of type `t` that some edge links to `id`.
pub open spec fn first_connected(inv: Inventory, id: Seq<char>, t: NodeType) -> Option<Node> {
    let cs = nodes_of_type(connected_nodes(inv, id), t);
    if cs.len() > 0 {
        Some(cs[0])
    } else {
        None
    }
}

/// The first node of type `node_type` connected to `node_id`, in inventory order.
pub fn first_connected_node<'a>(inventory: &'a Inventory, node_id: &str, node_type: &NodeType) -> (r:
    Option<&'a Node>)
    ensures
        match r {
            Some(n) => first_connected(*inventory, node_id@, *node_type) == Some(*n),
            None => first_connected(*inventory, node_id@, *node_type) is None,
        },
{
    let cs = inventory.find_connected_nodes(node_id);
    let ghost all = deref_nodes(cs@);
    let ghost pred = |n: Node| n.node_type == *node_type;
    let mut i: usize = 0;
    while i < cs.len() && !same_node_type(&cs[i].node_type, node_type)
        invariant
            i <= cs@.len(),
            all == deref_nodes(cs@),
            all == connected_nodes(*inventory, node_id@),
            pred == (|n: Node| n.node_type == *node_type),
            all.take(i as int).filter(pred) =~= Seq::<Node>::empty(),
        decreases cs@.len() - i,
    {
        proof {
            assert(all[i as int] == *cs@[i as int]);
            assert(all.take(i + 1) =~= all.take(i as int).push(all[i as int]));
            all.take(i as int).lemma_filter_push(all[i as int], pred);
        }
        i += 1;
    }
    if i == cs.len() {
        assert(all.take(i as int) =~= all);
        None
    } else {
        proof {
            assert(all[i as int] == *cs@[i as int]);
            assert(all.take(i + 1) =~= all.take(i as int).push(all[i as int]));
            all.take(i as int).lemma_filter_push(all[i as int], pred);
            lemma_filter_prefix_first(all, pred, i + 1);
        }
        Some(cs[i])
    }
}

/// When the filter of a prefix is not empty, its first element is the first
/// element of the whole filter.
pub proof fn lemma_filter_prefix_first(s: Seq<Node>, pred: spec_fn(Node) -> bool, k: int)
    requires
        0 <= k <= s.len(),
        s.take(k).filter(pred).len() > 0,
    ensures
        s.filter(pred).len() > 0,
        s.filter(pred)[0] == s.take(k).filter(pred)[0],
    decreases s.len() - k,
{
    if k < s.len() {
        assert(s.take(k + 1) =~= s.take(k).push(s[k]));
        s.take(k).lemma_filter_push(s[k], pred);
        lemma_filter_prefix_first(s, pred, k + 1);
    } else {
        assert(s.take(k) =~= s);
    }
}

/// The position of the first node with id `id`.
pub open spec fn node_position(ns: Seq<Node>, id: Seq<char>) -> Option<int>
    decreases ns.len(),
{
    if ns.len() == 0 {
        None
    } else if ns[0].id@ == id {
        Some(0)
    } else {
        match node_position(ns.drop_first(), id) {
            Some(i) => Some(i + 1),
            None => None,
        }
    }
}

/// `node_position` finds the first node with the id, if any.
pub proof fn lemma_node_position(ns: Seq<Node>, id: Seq<char>)
    ensures
        match node_position(ns, id) {
            Some(i) => 0 <= i < ns.len() && ns[i].id@ == id,
            None => true,
        },
    decreases ns.len(),
{
    if ns.len() > 0 && ns[0].id@ != id {
        lemma_node_position(ns.drop_first(), id);
    }
}

/// The position of the first node with id `id`.
pub fn position_of_node(ns: &Vec<&Node>, id: &String) -> (r: Option<usize>)
    ensures
        match r {
            Some(i) => node_position(deref_nodes(ns@), id@) == Some(i as int),
            None => node_position(deref_nodes(ns@), id@) is None,
        },
{
    let ghost s = deref_nodes(ns@);
    let mut i: usize = 0;
    assert(s.skip(0) =~= s);
    while i < ns.len() && !(ns[i].id == *id)
        invariant
            i <= ns@.len(),
            s == deref_nodes(ns@),
            node_position(s, id@) == match node_position(s.skip(i as int), id@) {
                Some(k) => Some(k + i),
                None => None,
            },
        decreases ns@.len() - i,
    {
        assert(s.skip(i as int).drop_first() =~= s.skip(i + 1));
        assert(s.skip(i as int)[0] == *ns@[i as int]);
        i += 1;
    }
    if i == ns.len() {
        assert(s.skip(i as int) =~= Seq::<Node>::empty());
        None
    } else {
        assert(s.skip(i as int)[0] == *ns@[i as int]);
        Some(i)
    }
}

} // verus!
