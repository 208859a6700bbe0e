//! PCI devices: `lspci -vmm` records and the sysfs links that bind network
//! interfaces to them.
use vstd::prelude::*;

use crate::data::{Edge, EdgeModel, EdgeType, Node, NodeModel, NodeType, node_models};
use crate::text::{
    all_ascii, ascii_lowercase, chars_of, count_char, count_char_in, find_char, find_char_in,
    find_sub, find_sub_in, lemma_find_char, lemma_find_sub, lemma_lines_ascii, lemma_rfind_char,
    lemma_take_ascii, lemma_trim_ascii, lines, lowercase, prefixed_string,
    rfind_char, rfind_char_in, split_lines, split_once_char, split_once_char_in, string_of,
    sub_chars, to_lowercase, trim, trim_chars, views,
};

verus! {

/// Collects PCI devices.
pub struct PciCollector;

impl PciCollector {
    pub fn new() -> (r: Self) {
        PciCollector
    }
}

/// The texts of a list of string pairs.
pub open spec fn pair_views(ps: Seq<(String, String)>) -> Seq<(Seq<char>, Seq<char>)> {
    ps.map_values(|p: (String, String)| (p.0@, p.1@))
}

/// A slot as `lspci` prints it, with the PCI domain `0000` added when it has
/// fewer than two colons.
pub open spec fn normalized_slot(slot: Seq<char>) -> Seq<char> {
    if count_char(slot, ':') >= 2 {
        slot
    } else {
        "0000:"@ + slot
    }
}

/// Adds the PCI domain to a slot that `lspci` printed without one.
pub fn normalize_lspci_slot(slot: &str) -> (r: String)
    ensures
        r@ == normalized_slot(slot@),
{
    let cs = chars_of(slot);
    if count_char_in(&cs, ':') >= 2 {
        string_of(&cs)
    } else {
        prefixed_string("0000:", &cs)
    }
}

/// The value of the first entry named `key`.
pub open spec fn first_value(props: Seq<(Seq<char>, Seq<char>)>, key: Seq<char>) -> Option<
    Seq<char>,
>
    decreases props.len(),
{
    if props.len() == 0 {
        None
    } else if props[0].0 == key {
        Some(props[0].1)
    } else {
        first_value(props.drop_first(), key)
    }
}

/// The lower-cased name of a field: `lowercase` of it, or, where all names
/// are known to be ASCII (`ascii_keys`), its ASCII lower-case.
pub open spec fn key_name(key: Seq<char>, ascii_keys: bool) -> Seq<char> {
    if ascii_keys {
        ascii_lowercase(key)
    } else {
        lowercase(key)
    }
}

/// Every field name of the record is ASCII.
pub open spec fn keys_ascii(props: Seq<(Seq<char>, Seq<char>)>) -> bool {
    forall|i: int| 0 <= i < props.len() ==> all_ascii(#[trigger] props[i].0)
}

/// `m` with each entry of `props` inserted in order under its lower-cased name.
pub open spec fn with_lowered_keys(
    m: Map<Seq<char>, Seq<char>>,
    props: Seq<(Seq<char>, Seq<char>)>,
    ascii_keys: bool,
) -> Map<Seq<char>, Seq<char>>
    decreases props.len(),
{
    if props.len() == 0 {
        m
    } else {
        with_lowered_keys(m, props.drop_last(), ascii_keys).insert(
            key_name(props.last().0, ascii_keys),
            props.last().1,
        )
    }
}

/// The device node of one `lspci -vmm` record, before sysfs attributes are
/// added: a record without a `Slot` field gives none. The field names are
/// lower-cased as `key_name` says.
pub open spec fn lspci_node(props: Seq<(Seq<char>, Seq<char>)>, ascii_keys: bool) -> Option<
    NodeModel,
> {
    match first_value(props, "Slot"@) {
        None => None,
        Some(slot) => {
            let id = normalized_slot(slot);
            let m0 = Map::<Seq<char>, Seq<char>>::empty().insert("pci_id"@, id);
            let m1 = if id != slot {
                m0.insert("pci_slot"@, slot)
            } else {
                m0
            };
            Some(
                NodeModel {
                    id: "pci:"@ + id,
                    node_type: NodeType::PciDevice,
                    properties: with_lowered_keys(m1, props, ascii_keys),
                },
            )
        },
    }
}

/// The device node of one `lspci -vmm` record (field name and value pairs),
/// before sysfs attributes are added; where every field name is ASCII, the
/// names are lower-cased by ASCII.
pub fn node_from_lspci_props(props: &Vec<(String, String)>) -> (r: Option<Node>)
    ensures
        match r {
            Some(n) => {
                &&& lspci_node(pair_views(props@), false) == Some(n@)
                &&& keys_ascii(pair_views(props@)) ==> lspci_node(pair_views(props@), true)
                    == Some(n@)
            },
            None => lspci_node(pair_views(props@), false) is None,
        },
{
    let ghost pv = pair_views(props@);
    let slot_key = String::from_str("Slot");
    let mut k: usize = 0;
    assert(pv.skip(0) =~= pv);
    while k < props.len() && !(props[k].0 == slot_key)
        invariant
            k <= props@.len(),
            pv == pair_views(props@),
            slot_key@ == "Slot"@,
            first_value(pv, "Slot"@) == first_value(pv.skip(k as int), "Slot"@),
        decreases props@.len() - k,
    {
        assert(pv.skip(k as int).drop_first() =~= pv.skip(k + 1));
        assert(pv.skip(k as int)[0] == (props@[k as int].0@, props@[k as int].1@));
        k += 1;
    }
    if k == props.len() {
        assert(pv.skip(k as int) =~= Seq::<(Seq<char>, Seq<char>)>::empty());
        return None;
    }
    assert(pv.skip(k as int)[0] == (props@[k as int].0@, props@[k as int].1@));
    let slot = &props[k].1;
    let pci_id = normalize_lspci_slot(slot.as_str());
    let mut node = Node::new(prefixed_string("pci:", &chars_of(pci_id.as_str())), NodeType::PciDevice)
        .with_property("pci_id", pci_id.as_str());
    if pci_id != *slot {
        node = node.with_property("pci_slot", slot.as_str());
    }
    let ghost m1 = node@.properties;
    let mut j: usize = 0;
    while j < props.len()
        invariant
            j <= props@.len(),
            pv == pair_views(props@),
            node@.id == "pci:"@ + normalized_slot(slot@),
            node@.node_type == NodeType::PciDevice,
            node@.properties == with_lowered_keys(m1, pv.take(j as int), false),
            keys_ascii(pv) ==> node@.properties == with_lowered_keys(m1, pv.take(j as int), true),
        decreases props@.len() - j,
    {
        let key = to_lowercase(props[j].0.as_str());
        proof {
            assert(pv.take(j + 1).drop_last() =~= pv.take(j as int));
            assert(pv.take(j + 1).last() == (props@[j as int].0@, props@[j as int].1@));
            assert(pv[j as int].0 == props@[j as int].0@);
        }
        node = node.with_property(key.as_str(), props[j].1.as_str());
        j += 1;
    }
    assert(pv.take(j as int) =~= pv);
    Some(node)
}

/// The fields that `lspci -vmm` output holds, record by record, as the
/// records seen so far and the fields of the current one.
pub open spec fn lspci_flush(
    props: Seq<(Seq<char>, Seq<char>)>,
    nodes: Seq<NodeModel>,
    ascii_keys: bool,
) -> Seq<NodeModel> {
    if props.len() > 0 {
        match lspci_node(props, ascii_keys) {
            Some(n) => nodes.push(n),
            None => nodes,
        }
    } else {
        nodes
    }
}

/// What one line of `lspci -vmm` output does: a blank line ends a record, a
/// `name: value` line adds a field to it, any other line is ignored.
pub open spec fn lspci_step(
    st: (Seq<(Seq<char>, Seq<char>)>, Seq<NodeModel>),
    line: Seq<char>,
    ascii_keys: bool,
) -> (Seq<(Seq<char>, Seq<char>)>, Seq<NodeModel>) {
    if trim(line).len() == 0 {
        (Seq::empty(), lspci_flush(st.0, st.1, ascii_keys))
    } else {
        match split_once_char(line, ':') {
            Some((k, v)) => (st.0.push((trim(k), trim(v))), st.1),
            None => st,
        }
    }
}

pub open spec fn lspci_fold(ls: Seq<Seq<char>>, ascii_keys: bool) -> (
    Seq<(Seq<char>, Seq<char>)>,
    Seq<NodeModel>,
)
    decreases ls.len(),
{
    if ls.len() == 0 {
        (Seq::empty(), Seq::empty())
    } else {
        lspci_step(lspci_fold(ls.drop_last(), ascii_keys), ls.last(), ascii_keys)
    }
}

/// The device nodes of `lspci -vmm` output, one for each record with a slot,
/// before sysfs attributes are added.
pub open spec fn lspci_nodes(output: Seq<char>, ascii_keys: bool) -> Seq<NodeModel> {
    let st = lspci_fold(lines(output), ascii_keys);
    lspci_flush(st.0, st.1, ascii_keys)
}

/// The field that a line of `lspci -vmm` output holds: the trimmed text
/// before and after its first colon.
pub open spec fn lspci_field(line: Seq<char>) -> Option<(Seq<char>, Seq<char>)> {
    match split_once_char(line, ':') {
        Some((k, v)) => Some((trim(k), trim(v))),
        None => None,
    }
}

/// The fields of a block of lines, in order (lines without a colon hold none).
pub open spec fn block_fields(block: Seq<Seq<char>>) -> Seq<(Seq<char>, Seq<char>)> {
    block.filter_map(|l: Seq<char>| lspci_field(l))
}

/// The blocks of lines that blank lines separate so far, and the lines of
/// the block still open.
pub open spec fn split_blocks(ls: Seq<Seq<char>>) -> (Seq<Seq<Seq<char>>>, Seq<Seq<char>>)
    decreases ls.len(),
{
    if ls.len() == 0 {
        (Seq::empty(), Seq::empty())
    } else {
        let (done, open) = split_blocks(ls.drop_last());
        if trim(ls.last()).len() == 0 {
            (
                if open.len() > 0 {
                    done.push(open)
                } else {
                    done
                },
                Seq::empty(),
            )
        } else {
            (done, open.push(ls.last()))
        }
    }
}

/// The maximal runs of non-blank lines, in order.
pub open spec fn line_blocks(ls: Seq<Seq<char>>) -> Seq<Seq<Seq<char>>> {
    let (done, open) = split_blocks(ls);
    if open.len() > 0 {
        done.push(open)
    } else {
        done
    }
}

/// Appends the node of the record `props`, if it has one, to `nodes`.
fn flush_record(props: &Vec<(String, String)>, nodes: &mut Vec<Node>)
    ensures
        node_models(final(nodes)@) == lspci_flush(
            pair_views(props@),
            node_models(old(nodes)@),
            false,
        ),
        keys_ascii(pair_views(props@)) ==> node_models(final(nodes)@) == lspci_flush(
            pair_views(props@),
            node_models(old(nodes)@),
            true,
        ),
{
    if props.len() > 0 {
        assert(pair_views(props@).len() > 0);
        let ghost prev = node_models(nodes@);
        match node_from_lspci_props(props) {
            Some(n) => {
                nodes.push(n);
                assert(node_models(nodes@) =~= prev.push(n@));
            },
            None => {},
        }
    } else {
        assert(pair_views(props@).len() == 0);
    }
}

/// Parses `lspci -vmm` output into device nodes (sysfs attributes are added
/// afterwards by whoever reads sysfs). For ASCII output the field names are
/// lower-cased by ASCII.
pub fn parse_lspci_vmm(output: &str) -> (r: Vec<Node>)
    ensures
        node_models(r@) == lspci_nodes(output@, false),
        all_ascii(output@) ==> node_models(r@) == lspci_nodes(output@, true),
{
    let text = chars_of(output);
    let ls = split_lines(&text);
    let mut nodes: Vec<Node> = Vec::new();
    let mut props: Vec<(String, String)> = Vec::new();
    let mut i: usize = 0;
    assert(pair_views(props@) =~= Seq::<(Seq<char>, Seq<char>)>::empty());
    assert(node_models(nodes@) =~= Seq::<NodeModel>::empty());
    while i < ls.len()
        invariant
            i <= ls@.len(),
            views(ls@) == lines(output@),
            (pair_views(props@), node_models(nodes@)) == lspci_fold(
                views(ls@).take(i as int),
                false,
            ),
            all_ascii(output@) ==> (pair_views(props@), node_models(nodes@)) == lspci_fold(
                views(ls@).take(i as int),
                true,
            ),
            all_ascii(output@) ==> keys_ascii(pair_views(props@)),
        decreases ls@.len() - i,
    {
        let line = &ls[i];
        proof {
            assert(views(ls@).take(i + 1).drop_last() =~= views(ls@).take(i as int));
            assert(views(ls@).take(i + 1).last() == line@);
            assert(views(ls@)[i as int] == line@);
            if all_ascii(output@) {
                lemma_lines_ascii(output@);
                assert(all_ascii(line@));
            }
        }
        if trim_chars(line).len() == 0 {
            flush_record(&props, &mut nodes);
            props = Vec::new();
            assert(pair_views(props@) =~= Seq::<(Seq<char>, Seq<char>)>::empty());
        } else {
            match split_once_char_in(line, ':') {
                Some((k, v)) => {
                    let ghost prev = pair_views(props@);
                    let kt = string_of(&trim_chars(&k));
                    let vt = string_of(&trim_chars(&v));
                    proof {
                        if all_ascii(line@) {
                            lemma_find_char(line@, ':');
                            lemma_take_ascii(line@, find_char(line@, ':')->Some_0);
                            lemma_trim_ascii(k@);
                        }
                    }
                    props.push((kt, vt));
                    assert(pair_views(props@) =~= prev.push((kt@, vt@)));
                },
                None => {},
            }
        }
        i += 1;
    }
    assert(views(ls@).take(i as int) =~= views(ls@));
    flush_record(&props, &mut nodes);
    nodes
}

/// The sysfs attribute files read for a PCI device, each with the property
/// name it is stored under.
pub open spec fn pci_sysfs_attributes() -> Seq<(Seq<char>, Seq<char>)> {
    seq![
        ("current_link_speed"@, "link_speed"@),
        ("current_link_width"@, "link_width"@),
        ("max_link_speed"@, "max_link_speed"@),
        ("max_link_width"@, "max_link_width"@),
        ("numa_node"@, "numa_node"@),
        ("iommu_group"@, "iommugroup"@),
    ]
}

/// The sysfs attribute files read for a PCI device, with their property names.
pub fn pci_sysfs_files() -> (r: Vec<(String, String)>)
    ensures
        pair_views(r@) == pci_sysfs_attributes(),
{
    let mut r: Vec<(String, String)> = Vec::new();
    r.push((String::from_str("current_link_speed"), String::from_str("link_speed")));
    r.push((String::from_str("current_link_width"), String::from_str("link_width")));
    r.push((String::from_str("max_link_speed"), String::from_str("max_link_speed")));
    r.push((String::from_str("max_link_width"), String::from_str("max_link_width")));
    r.push((String::from_str("numa_node"), String::from_str("numa_node")));
    r.push((String::from_str("iommu_group"), String::from_str("iommugroup")));
    assert(pair_views(r@) =~= pci_sysfs_attributes());
    r
}

/// The node with property `prop` set to the trimmed content of a sysfs file.
pub fn with_sysfs_value(node: Node, prop: &str, content: &str) -> (r: Node)
    ensures
        r@ == (NodeModel { properties: node@.properties.insert(prop@, trim(content@)), ..node@ }),
{
    let v = string_of(&trim_chars(&chars_of(content)));
    node.with_property(prop, v.as_str())
}

/// The PCI address that a `/sys/class/net/<iface>` link target names: the
/// path component just before `/net/`, if it is not empty and holds a colon.
pub open spec fn pci_address_of_link(path: Seq<char>) -> Option<Seq<char>> {
    match find_sub(path, "/net/"@) {
        Some(p) => {
            let before = path.take(p);
            match rfind_char(before, '/') {
                Some(s) => {
                    let addr = before.skip(s + 1);
                    if addr.len() > 0 && find_char(addr, ':') is Some {
                        Some(addr)
                    } else {
                        None
                    }
                },
                None => None,
            }
        },
        None => None,
    }
}

/// The netdev-to-PCI binding that the sysfs link of interface `iface` shows, if any.
pub fn pci_edge_from_link(iface: &str, link: &str) -> (r: Option<Edge>)
    ensures
        match r {
            Some(e) => pci_address_of_link(link@) matches Some(addr) && e@ == (EdgeModel {
                from: "netdev:"@ + iface@,
                to: "pci:"@ + addr,
                edge_type: EdgeType::PciBinding,
                properties: Map::empty(),
            }),
            None => pci_address_of_link(link@) is None,
        },
{
    let path = chars_of(link);
    let p = match find_sub_in(&path, &chars_of("/net/")) {
        Some(p) => p,
        None => return None,
    };
    proof {
        lemma_find_sub(path@, "/net/"@);
    }
    let before = sub_chars(&path, 0, p);
    assert(before@ =~= path@.take(p as int));
    let s = match rfind_char_in(&before, '/') {
        Some(s) => s,
        None => return None,
    };
    proof {
        lemma_rfind_char(before@, '/');
    }
    let addr = sub_chars(&before, s + 1, before.len());
    assert(addr@ =~= before@.skip(s + 1));
    if addr.len() > 0 && find_char_in(&addr, ':').is_some() {
        Some(
            Edge::new(
                prefixed_string("netdev:", &chars_of(iface)),
                prefixed_string("pci:", &addr),
                EdgeType::PciBinding,
            ),
        )
    } else {
        None
    }
}

} // verus!
