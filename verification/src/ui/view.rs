//! What the tabs show of a device: attribute values with their placeholders,
//! the interfaces a device is connected to, and PCIe link summaries.
use vstd::prelude::*;

use crate::data::{Inventory, Node, NodeModel, NodeType, deref_nodes, name_of, node_names, nodes_of_type};
use crate::text::{
    all_ascii, ascii_lowercase, chars_eq, chars_of, concat_chars, contains_chars, contains_sub,
    lowercase, replace_all, replace_all_in, string_of, to_lowercase,
};
use crate::ui::nav::connected_nodes;

verus! {

/// The value of attribute `key`, or `default` when the node has none.
pub open spec fn property_or(n: NodeModel, key: Seq<char>, default: Seq<char>) -> Seq<char> {
    if n.properties.contains_key(key) {
        n.properties[key]
    } else {
        default
    }
}

/// The value of attribute `key`, or `default` when the node has none.
pub fn property_or_default(node: &Node, key: &str, default: &str) -> (r: String)
    ensures
        r@ == property_or(node@, key@, default@),
{
    match node.get_property(key) {
        Some(v) => v.clone(),
        None => String::from_str(default),
    }
}

/// The names of the interfaces that some edge links to `id`, in inventory order.
pub open spec fn connected_netdevs(inv: Inventory, id: Seq<char>) -> Seq<Seq<char>> {
    node_names(nodes_of_type(connected_nodes(inv, id), NodeType::NetworkInterface))
}

/// The names of the interfaces connected to the device `node_id`.
pub fn connected_netdev_names(inventory: &Inventory, node_id: &str) -> (r: Vec<String>)
    ensures
        r@.map_values(|s: String| s@) == connected_netdevs(*inventory, node_id@),
{
    let cs = inventory.find_connected_nodes(node_id);
    let ghost all = deref_nodes(cs@);
    let ghost pred = |n: Node| n.node_type == NodeType::NetworkInterface;
    let ghost f = |n: Node| name_of(n);
    let mut r: Vec<String> = Vec::new();
    let mut i: usize = 0;
    while i < cs.len()
        invariant
            i <= cs@.len(),
            all == deref_nodes(cs@),
            all == connected_nodes(*inventory, node_id@),
            pred == (|n: Node| n.node_type == NodeType::NetworkInterface),
            f == (|n: Node| name_of(n)),
            r@.map_values(|s: String| s@) == all.take(i as int).filter(pred).filter_map(f),
        decreases cs@.len() - i,
    {
        let node = cs[i];
        let ghost prev = r@.map_values(|s: String| s@);
        proof {
            assert(all[i as int] == *node);
            assert(all.take(i + 1) =~= all.take(i as int).push(*node));
            all.take(i as int).lemma_filter_push(*node, pred);
        }
        if node.node_type == NodeType::NetworkInterface {
            let ghost fl = all.take(i as int).filter(pred);
            proof {
                assert(fl.push(*node).drop_last() =~= fl);
                assert(fl.push(*node).filter_map(f) == fl.filter_map(f) + match f(*node) {
                    Some(x) => seq![x],
                    None => Seq::empty(),
                }) by {
                    reveal_with_fuel(Seq::filter_map, 1);
                }
            }
            match node.get_property("name") {
                Some(name) => {
                    r.push(name.clone());
                    assert(r@.map_values(|s: String| s@) =~= prev + seq![name@]);
                },
                None => {
                    assert(prev + Seq::<Seq<char>>::empty() =~= prev);
                },
            }
        }
        i += 1;
    }
    assert(all.take(i as int) =~= all);
    r
}

/// The link column of the PCI list: `-` when the speed is unknown (`-`),
/// else the speed without ` PCIe`, then ` x` and the width.
pub open spec fn link_summary(speed: Seq<char>, width: Seq<char>) -> Seq<char> {
    if speed == "-"@ {
        "-"@
    } else {
        replace_all(speed, " PCIe"@, Seq::empty()) + " x"@ + width
    }
}

/// The PCIe link as a table cell: the speed without its ` PCIe` suffix and
/// the width after an `x`, or `-` when the speed is unknown.
pub fn pci_link_summary(speed: &str, width: &str) -> (r: String)
    ensures
        r@ == link_summary(speed@, width@),
{
    let sc = chars_of(speed);
    if chars_eq(&sc, &chars_of("-")) {
        return String::from_str("-");
    }
    let pat = chars_of(" PCIe");
    proof {
        reveal_strlit(" PCIe");
    }
    let empty: Vec<char> = Vec::new();
    let stripped = replace_all_in(&sc, &pat, &empty);
    let with_x = concat_chars(&stripped, &chars_of(" x"));
    string_of(&concat_chars(&with_x, &chars_of(width)))
}

/// A lower-cased PCI class names Ethernet, network or InfiniBand.
pub open spec fn names_network_class(lower_class: Seq<char>) -> bool {
    contains_sub(lower_class, "ethernet"@) || contains_sub(lower_class, "network"@)
        || contains_sub(lower_class, "infiniband"@)
}

/// A PCI device is shown as a network device when an interface is bound to
/// it or its class names Ethernet, network or InfiniBand (in any case).
pub open spec fn is_network_device(has_netdevs: bool, class: Seq<char>) -> bool {
    has_netdevs || names_network_class(lowercase(class))
}

/// Whether a PCI device is shown as a network device.
pub fn pci_is_network(has_netdevs: bool, class: &str) -> (r: bool)
    ensures
        r == is_network_device(has_netdevs, class@),
        all_ascii(class@) ==> r == (has_netdevs || names_network_class(ascii_lowercase(class@))),
{
    lowercase_class_is_network(has_netdevs, to_lowercase(class).as_str())
}

/// Whether a PCI device with an already lower-cased class is shown as a
/// network device.
pub fn lowercase_class_is_network(has_netdevs: bool, lower_class: &str) -> (r: bool)
    ensures
        r == (has_netdevs || names_network_class(lower_class@)),
{
    let lc = chars_of(lower_class);
    has_netdevs || contains_chars(&lc, &chars_of("ethernet")) || contains_chars(
        &lc,
        &chars_of("network"),
    ) || contains_chars(&lc, &chars_of("infiniband"))
}

/// The selected index kept within a list of `len` items (0 for an empty list).
pub open spec fn clamped_index(index: usize, len: usize) -> usize {
    if len == 0 {
        0
    } else if index < len {
        index
    } else {
        (len - 1) as usize
    }
}

/// Keeps a selected index within a list of `len` items.
pub fn clamp_index(index: usize, len: usize) -> (r: usize)
    ensures
        r == clamped_index(index, len),
{
    let last = len.saturating_sub(1);
    if index < last {
        index
    } else {
        last
    }
}

/// The character of a decimal digit.
pub open spec fn digit_char(d: nat) -> char {
    if d == 0 {
        '0'
    } else if d == 1 {
        '1'
    } else if d == 2 {
        '2'
    } else if d == 3 {
        '3'
    } else if d == 4 {
        '4'
    } else if d == 5 {
        '5'
    } else if d == 6 {
        '6'
    } else if d == 7 {
        '7'
    } else if d == 8 {
        '8'
    } else {
        '9'
    }
}

/// A number in decimal, as `{}` prints it.
pub open spec fn decimal(n: nat) -> Seq<char>
    decreases n,
{
    if n < 10 {
        seq![digit_char(n)]
    } else {
        decimal(n / 10).push(digit_char(n % 10))
    }
}

fn digit_of(d: usize) -> (c: char)
    requires
        d < 10,
    ensures
        c == digit_char(d as nat),
{
    if d == 0 {
        '0'
    } else if d == 1 {
        '1'
    } else if d == 2 {
        '2'
    } else if d == 3 {
        '3'
    } else if d == 4 {
        '4'
    } else if d == 5 {
        '5'
    } else if d == 6 {
        '6'
    } else if d == 7 {
        '7'
    } else if d == 8 {
        '8'
    } else {
        '9'
    }
}

/// The decimal digits of `n`.
pub fn decimal_chars(n: usize) -> (r: Vec<char>)
    ensures
        r@ == decimal(n as nat),
    decreases n,
{
    if n < 10 {
        vec![digit_of(n)]
    } else {
        let mut r = decimal_chars(n / 10);
        r.push(digit_of(n % 10));
        r
    }
}

/// The title of a tab's list: `what (shown)` and the suffix without a
/// search, else `what (shown/total) - Search: 'query'`.
pub open spec fn list_title_text(
    what: Seq<char>,
    shown: nat,
    total: nat,
    query: Seq<char>,
    suffix: Seq<char>,
) -> Seq<char> {
    if query.len() == 0 {
        what + " ("@ + decimal(shown) + ")"@ + suffix
    } else {
        what + " ("@ + decimal(shown) + "/"@ + decimal(total) + ") - Search: '"@ + query + "'"@
    }
}

/// The title of a tab's list.
pub fn list_title(what: &str, shown: usize, total: usize, query: &str, suffix: &str) -> (r: String)
    ensures
        r@ == list_title_text(what@, shown as nat, total as nat, query@, suffix@),
{
    let q = chars_of(query);
    let head = concat_chars(&concat_chars(&chars_of(what), &chars_of(" (")), &decimal_chars(shown));
    let out = if q.len() == 0 {
        concat_chars(&concat_chars(&head, &chars_of(")")), &chars_of(suffix))
    } else {
        let with_total = concat_chars(&concat_chars(&head, &chars_of("/")), &decimal_chars(total));
        let with_search = concat_chars(&with_total, &chars_of(") - Search: '"));
        concat_chars(&concat_chars(&with_search, &q), &chars_of("'"))
    };
    string_of(&out)
}

/// A PCIe link runs at its maximum (speed or width) when the current value
/// is the maximum one; otherwise the detail view marks it degraded.
pub fn link_at_max(current: &str, max: &str) -> (r: bool)
    ensures
        r == (current@ == max@),
{
    chars_eq(&chars_of(current), &chars_of(max))
}

} // verus!
