//! Collectors turn what the system reports (command output, sysfs files)
//! into inventory nodes and edges.  The reading itself happens outside this
//! library; these functions take what was read.
use vstd::prelude::*;

use crate::data::{Node, NodeModel, NodeType, node_models};
use crate::table::{table_get, table_insert, table_view};
use crate::text::{
    chars_eq, chars_of, concat_chars, contains_chars, contains_sub, find_char, find_char_in, find_sub,
    find_sub_in, lemma_find_char, lemma_find_sub, lines, parse_unsigned, parse_unsigned_in,
    prefixed_string, split_lines, split_words, starts_with, starts_with_chars, string_of,
    sub_chars, trim, trim_chars, trim_end_char, trim_end_char_in, views, words,
};
use crate::collectors::pci::pair_views;
use crate::collectors::rdma::word_index;

pub mod pci;
pub mod rdma;

verus! {

/// Collects network interfaces.
pub struct NetworkCollector;

/// The value of the `state` property for a flags list.
pub open spec fn state_of_flags(flags: Seq<char>) -> Seq<char> {
    if contains_sub(flags, "UP"@) {
        "up"@
    } else {
        "down"@
    }
}

/// The MTU that follows `mtu ` on an interface line: up to the next space,
/// or the trimmed rest of the line.
pub open spec fn mtu_after(part: Seq<char>) -> Seq<char> {
    match find_char(part, ' ') {
        Some(e) => part.take(e),
        None => trim(part),
    }
}

/// A line of `ip addr show` output on which a flags list would be cut at a
/// `>` that comes before its `<`.
pub open spec fn ip_line_misordered(line: Seq<char>) -> bool {
    &&& !(trim(line).len() == 0 || starts_with(line, " "@))
    &&& words(line).len() >= 2
    &&& match (find_char(line, '<'), find_char(line, '>')) {
        (Some(a), Some(b)) => b < a,
        _ => false,
    }
}

/// The interface node that a line of `ip addr show` output describes: lines
/// that are blank or indented, or have fewer than two words, describe none.
pub open spec fn ip_line_node(line: Seq<char>) -> Option<NodeModel> {
    if trim(line).len() == 0 || starts_with(line, " "@) {
        None
    } else if words(line).len() < 2 {
        None
    } else {
        let name = trim_end_char(words(line)[1], ':');
        let p0 = Map::<Seq<char>, Seq<char>>::empty().insert("name"@, name).insert(
            "type"@,
            "network_interface"@,
        );
        let p1 = match (find_char(line, '<'), find_char(line, '>')) {
            (Some(a), Some(b)) => {
                let flags = line.subrange(a + 1, b);
                p0.insert("flags"@, flags).insert("state"@, state_of_flags(flags))
            },
            _ => p0,
        };
        let p2 = match find_sub(line, "mtu "@) {
            Some(m) => p1.insert("mtu"@, mtu_after(line.skip(m + 4))),
            None => p1,
        };
        Some(
            NodeModel {
                id: "netdev:"@ + name,
                node_type: NodeType::NetworkInterface,
                properties: p2,
            },
        )
    }
}

/// The address that the words of an address line give, with the property
/// it is listed under: `inet <addr>` gives `ip`, `inet6 <addr>` gives `ipv6`.
pub open spec fn address_of_words(ws: Seq<Seq<char>>) -> Option<(Seq<char>, Seq<char>)> {
    if ws.len() < 2 {
        None
    } else if ws[0] == "inet"@ {
        Some(("ip"@, ws[1]))
    } else if ws[0] == "inet6"@ {
        Some(("ipv6"@, ws[1]))
    } else {
        None
    }
}

/// The address that an indented `inet` or `inet6` line of `ip addr show`
/// output gives the interface above it.
pub open spec fn ip_line_address(line: Seq<char>) -> Option<(Seq<char>, Seq<char>)> {
    if starts_with(line, " "@) {
        address_of_words(words(line))
    } else {
        None
    }
}

/// The node with `addr` added to the addresses listed under `key`: after a
/// comma and a space when it already lists some.
pub open spec fn with_address(n: NodeModel, key: Seq<char>, addr: Seq<char>) -> NodeModel {
    NodeModel {
        properties: n.properties.insert(
            key,
            if n.properties.contains_key(key) {
                n.properties[key] + ", "@ + addr
            } else {
                addr
            },
        ),
        ..n
    }
}

/// What one line of `ip addr show` output does to the nodes read so far: an
/// interface line adds its node, an address line adds its address to the
/// last node (if there is one), any other line does nothing.
pub open spec fn ip_step(nodes: Seq<NodeModel>, line: Seq<char>) -> Seq<NodeModel> {
    match ip_line_node(line) {
        Some(n) => nodes.push(n),
        None => match ip_line_address(line) {
            Some((key, addr)) => if nodes.len() > 0 {
                nodes.update(nodes.len() - 1, with_address(nodes.last(), key, addr))
            } else {
                nodes
            },
            None => nodes,
        },
    }
}

pub open spec fn ip_fold(ls: Seq<Seq<char>>) -> Seq<NodeModel>
    decreases ls.len(),
{
    if ls.len() == 0 {
        Seq::empty()
    } else {
        ip_step(ip_fold(ls.drop_last()), ls.last())
    }
}

/// The interface nodes of `ip addr show` output, in order, each with the
/// IPv4 (`ip`) and IPv6 (`ipv6`) addresses of the lines below it.
pub open spec fn ip_output_nodes(output: Seq<char>) -> Seq<NodeModel> {
    ip_fold(lines(output))
}

/// `ip addr show` output that some interface line of cuts a flags list at a `>`
/// before its `<`.
pub open spec fn ip_output_misordered(output: Seq<char>) -> bool {
    exists|i: int| 0 <= i < lines(output).len() && ip_line_misordered(#[trigger] lines(output)[i])
}

/// The node with the flags (and the state they imply) of `line[a+1..b]`.
fn with_flags(node: Node, line: &Vec<char>, a: usize, b: usize) -> (r: Node)
    requires
        a < b <= line@.len(),
    ensures
        r@ == (NodeModel {
            properties: node@.properties.insert("flags"@, line@.subrange(a + 1, b as int)).insert(
                "state"@,
                state_of_flags(line@.subrange(a + 1, b as int)),
            ),
            ..node@
        }),
{
    let flags = sub_chars(line, a + 1, b);
    let flags_s = string_of(&flags);
    let state = if contains_chars(&flags, &chars_of("UP")) {
        "up"
    } else {
        "down"
    };
    node.with_property("flags", flags_s.as_str()).with_property("state", state)
}

/// The node with the MTU found after position `m` of `line`.
fn with_mtu(node: Node, line: &Vec<char>, m: usize) -> (r: Node)
    requires
        m <= line@.len(),
    ensures
        r@ == (NodeModel {
            properties: node@.properties.insert("mtu"@, mtu_after(line@.skip(m as int))),
            ..node@
        }),
{
    let part = sub_chars(line, m, line.len());
    assert(part@ =~= line@.skip(m as int));
    let mtu = match find_char_in(&part, ' ') {
        Some(e) => {
            proof {
                lemma_find_char(part@, ' ');
            }
            sub_chars(&part, 0, e)
        },
        None => trim_chars(&part),
    };
    assert(mtu@ =~= mtu_after(part@));
    let mtu_s = string_of(&mtu);
    node.with_property("mtu", mtu_s.as_str())
}

/// The interface node of one line of `ip addr show` output.
pub fn ip_line_to_node(line: &Vec<char>) -> (r: Option<Node>)
    requires
        !ip_line_misordered(line@),
    ensures
        match r {
            Some(n) => ip_line_node(line@) == Some(n@),
            None => ip_line_node(line@) is None,
        },
{
    if trim_chars(line).len() == 0 || starts_with_chars(line, &chars_of(" ")) {
        return None;
    }
    let parts = split_words(line);
    assert(views(parts@) == words(line@));
    if parts.len() < 2 {
        return None;
    }
    assert(parts@[1]@ == words(line@)[1]);
    let name = trim_end_char_in(&parts[1], ':');
    let name_s = string_of(&name);
    let mut node = Node::new(prefixed_string("netdev:", &name), NodeType::NetworkInterface)
        .with_property("name", name_s.as_str())
        .with_property("type", "network_interface");
    match find_char_in(line, '<') {
        Some(a) => match find_char_in(line, '>') {
            Some(b) => {
                proof {
                    lemma_find_char(line@, '<');
                    lemma_find_char(line@, '>');
                }
                node = with_flags(node, line, a, b);
            },
            None => {},
        },
        None => {},
    }
    match find_sub_in(line, &chars_of("mtu ")) {
        Some(m) => {
            proof {
                lemma_find_sub(line@, "mtu "@);
                reveal_strlit("mtu ");
            }
            assert(m + 4 <= line.len());
            node = with_mtu(node, line, m + 4);
        },
        None => {},
    }
    Some(node)
}

/// The address (and the property it goes under) that the words of an
/// address line give.
pub fn address_of_words_in(ws: &Vec<Vec<char>>) -> (r: Option<(&'static str, Vec<char>)>)
    ensures
        match r {
            Some((k, a)) => address_of_words(views(ws@)) == Some((k@, a@)),
            None => address_of_words(views(ws@)) is None,
        },
{
    if ws.len() < 2 {
        return None;
    }
    assert(views(ws@)[0] == ws@[0]@ && views(ws@)[1] == ws@[1]@);
    proof {
        reveal_strlit("ip");
        reveal_strlit("ipv6");
    }
    if chars_eq(&ws[0], &chars_of("inet")) {
        Some(("ip", sub_chars(&ws[1], 0, ws[1].len())))
    } else if chars_eq(&ws[0], &chars_of("inet6")) {
        Some(("ipv6", sub_chars(&ws[1], 0, ws[1].len())))
    } else {
        None
    }
}

/// The node with `addr` added to the addresses listed under `key`.
pub fn add_address(node: Node, key: &str, addr: &Vec<char>) -> (r: Node)
    ensures
        r@ == with_address(node@, key@, addr@),
{
    let joined = match node.get_property(key) {
        Some(v) => concat_chars(&concat_chars(&chars_of(v.as_str()), &chars_of(", ")), addr),
        None => {
            let a = sub_chars(addr, 0, addr.len());
            assert(a@ =~= addr@);
            a
        },
    };
    let joined_s = string_of(&joined);
    node.with_property(key, joined_s.as_str())
}

impl NetworkCollector {
    pub fn new() -> (r: Self) {
        NetworkCollector
    }

    /// The interface nodes of `ip addr show` output, one for each line that
    /// starts an interface, with the addresses of the lines below it.
    pub fn parse_ip_output(&self, output: &str) -> (r: Vec<Node>)
        requires
            !ip_output_misordered(output@),
        ensures
            node_models(r@) == ip_output_nodes(output@),
    {
        let text = chars_of(output);
        let ls = split_lines(&text);
        let mut nodes: Vec<Node> = Vec::new();
        let mut i: usize = 0;
        assert(node_models(nodes@) =~= Seq::<NodeModel>::empty());
        while i < ls.len()
            invariant
                i <= ls@.len(),
                views(ls@) == lines(output@),
                !ip_output_misordered(output@),
                node_models(nodes@) == ip_fold(views(ls@).take(i as int)),
            decreases ls@.len() - i,
        {
            let line = &ls[i];
            proof {
                assert(views(ls@)[i as int] == line@);
                assert(views(ls@).take(i + 1).drop_last() =~= views(ls@).take(i as int));
                assert(views(ls@).take(i + 1).last() == line@);
            }
            assert(!ip_line_misordered(line@));
            let ghost prev = node_models(nodes@);
            match ip_line_to_node(line) {
                Some(n) => {
                    nodes.push(n);
                    assert(node_models(nodes@) =~= prev.push(n@));
                },
                None => {
                    if starts_with_chars(line, &chars_of(" ")) {
                        let parts = split_words(line);
                        assert(views(parts@) == words(line@));
                        match address_of_words_in(&parts) {
                            Some((key, addr)) => {
                                if nodes.len() > 0 {
                                    let last = nodes.pop().unwrap();
                                    assert(prev.last() == last@);
                                    let updated = add_address(last, key, &addr);
                                    nodes.push(updated);
                                    assert(node_models(nodes@) =~= prev.update(
                                        prev.len() - 1,
                                        with_address(prev.last(), key@, addr@),
                                    ));
                                }
                            },
                            None => {},
                        }
                    }
                },
            }
            i += 1;
        }
        assert(views(ls@).take(i as int) =~= views(ls@));
        nodes
    }
}

/// Whether some line of `ip addr show` output would cut a flags list at a
/// `>` before its `<`.
pub fn ip_output_is_misordered(output: &str) -> (r: bool)
    ensures
        r == ip_output_misordered(output@),
{
    let ls = split_lines(&chars_of(output));
    let mut i: usize = 0;
    while i < ls.len()
        invariant
            i <= ls@.len(),
            views(ls@) == lines(output@),
            forall|j: int| 0 <= j < i ==> !ip_line_misordered(#[trigger] lines(output@)[j]),
        decreases ls@.len() - i,
    {
        assert(views(ls@)[i as int] == ls@[i as int]@);
        if line_is_misordered(&ls[i]) {
            return true;
        }
        i += 1;
    }
    false
}

fn line_is_misordered(line: &Vec<char>) -> (r: bool)
    ensures
        r == ip_line_misordered(line@),
{
    if trim_chars(line).len() == 0 || starts_with_chars(line, &chars_of(" ")) {
        return false;
    }
    let parts = split_words(line);
    assert(views(parts@) == words(line@));
    if parts.len() < 2 {
        return false;
    }
    match (find_char_in(line, '<'), find_char_in(line, '>')) {
        (Some(a), Some(b)) => b < a,
        _ => false,
    }
}

/// What one line of `ip link show` output does to the MAC table: an
/// unindented line with two words names the current interface, an indented
/// `link/ether` line gives it the MAC that is its second word.
pub open spec fn mac_step_linux(
    st: (Option<Seq<char>>, Map<Seq<char>, Seq<char>>),
    line: Seq<char>,
) -> (Option<Seq<char>>, Map<Seq<char>, Seq<char>>) {
    if !starts_with(line, " "@) {
        if words(line).len() >= 2 {
            (Some(trim_end_char(words(line)[1], ':')), st.1)
        } else {
            st
        }
    } else if contains_sub(line, "link/ether"@) {
        match st.0 {
            Some(iface) => if words(line).len() >= 2 {
                (st.0, st.1.insert(iface, words(line)[1]))
            } else {
                st
            },
            None => st,
        }
    } else {
        st
    }
}

pub open spec fn mac_fold_linux(ls: Seq<Seq<char>>) -> (
    Option<Seq<char>>,
    Map<Seq<char>, Seq<char>>,
)
    decreases ls.len(),
{
    if ls.len() == 0 {
        (None, Map::empty())
    } else {
        mac_step_linux(mac_fold_linux(ls.drop_last()), ls.last())
    }
}

/// The MAC address of each interface that `ip link show` output shows.
pub open spec fn macs_linux(output: Seq<char>) -> Map<Seq<char>, Seq<char>> {
    mac_fold_linux(lines(output)).1
}

/// A line of `ifconfig` output that starts an interface block.
pub open spec fn ifconfig_header(line: Seq<char>) -> bool {
    !starts_with(line, "\t"@) && !starts_with(line, " "@) && find_char(line, ':') is Some
}

/// What one line of `ifconfig` output does to the MAC table: a header line
/// names the current interface (up to its first colon), an `ether ` line
/// gives it the MAC that follows the word `ether`.
pub open spec fn mac_step_macos(
    st: (Option<Seq<char>>, Map<Seq<char>, Seq<char>>),
    line: Seq<char>,
) -> (Option<Seq<char>>, Map<Seq<char>, Seq<char>>) {
    if ifconfig_header(line) {
        (Some(line.take(find_char(line, ':').unwrap())), st.1)
    } else if contains_sub(line, "ether "@) {
        match st.0 {
            Some(iface) => match word_index(words(line), "ether"@) {
                Some(p) => if p + 1 < words(line).len() {
                    (st.0, st.1.insert(iface, words(line)[p + 1]))
                } else {
                    st
                },
                None => st,
            },
            None => st,
        }
    } else {
        st
    }
}

pub open spec fn mac_fold_macos(ls: Seq<Seq<char>>) -> (
    Option<Seq<char>>,
    Map<Seq<char>, Seq<char>>,
)
    decreases ls.len(),
{
    if ls.len() == 0 {
        (None, Map::empty())
    } else {
        mac_step_macos(mac_fold_macos(ls.drop_last()), ls.last())
    }
}

/// The MAC address of each interface that `ifconfig` output shows.
pub open spec fn macs_macos(output: Seq<char>) -> Map<Seq<char>, Seq<char>> {
    mac_fold_macos(lines(output)).1
}

/// The node with the MAC of its interface, if `macs` has one for its name.
pub open spec fn with_mac(n: NodeModel, macs: Map<Seq<char>, Seq<char>>) -> NodeModel {
    if n.properties.contains_key("name"@) && macs.contains_key(n.properties["name"@]) {
        NodeModel {
            properties: n.properties.insert("mac"@, macs[n.properties["name"@]]),
            ..n
        }
    } else {
        n
    }
}

/// The interface nodes, each with the MAC of its interface added.
pub open spec fn with_macs(ns: Seq<NodeModel>, macs: Map<Seq<char>, Seq<char>>) -> Seq<NodeModel> {
    ns.map_values(|n: NodeModel| with_mac(n, macs))
}

impl NetworkCollector {
    /// The MAC address of each interface in `ip link show` output.
    pub fn parse_mac_addresses_linux(&self, output: &str) -> (r: Vec<(String, String)>)
        ensures
            table_view(r@) == macs_linux(output@),
    {
        let ls = split_lines(&chars_of(output));
        let space = chars_of(" ");
        let ether = chars_of("link/ether");
        let mut macs: Vec<(String, String)> = Vec::new();
        let mut current: Option<String> = None;
        let mut i: usize = 0;
        while i < ls.len()
            invariant
                i <= ls@.len(),
                views(ls@) == lines(output@),
                space@ == " "@,
                ether@ == "link/ether"@,
                (match current {
                    Some(c) => Some(c@),
                    None => None,
                }, table_view(macs@)) == mac_fold_linux(views(ls@).take(i as int)),
            decreases ls@.len() - i,
        {
            let line = &ls[i];
            proof {
                assert(views(ls@).take(i + 1).drop_last() =~= views(ls@).take(i as int));
                assert(views(ls@).take(i + 1).last() == line@);
            }
            if !starts_with_chars(line, &space) {
                let parts = split_words(line);
                assert(views(parts@) == words(line@));
                if parts.len() >= 2 {
                    assert(parts@[1]@ == words(line@)[1]);
                    current = Some(string_of(&trim_end_char_in(&parts[1], ':')));
                }
            } else if contains_chars(line, &ether) {
                match &current {
                    Some(iface) => {
                        let parts = split_words(line);
                        assert(views(parts@) == words(line@));
                        if parts.len() >= 2 {
                            assert(parts@[1]@ == words(line@)[1]);
                            table_insert(&mut macs, iface.clone(), string_of(&parts[1]));
                        }
                    },
                    None => {},
                }
            }
            i += 1;
        }
        assert(views(ls@).take(i as int) =~= views(ls@));
        macs
    }

    /// The MAC address of each interface in `ifconfig` output.
    pub fn parse_mac_addresses_macos(&self, output: &str) -> (r: Vec<(String, String)>)
        ensures
            table_view(r@) == macs_macos(output@),
    {
        let ls = split_lines(&chars_of(output));
        let ether_sp = chars_of("ether ");
        let ether = chars_of("ether");
        let mut macs: Vec<(String, String)> = Vec::new();
        let mut current: Option<String> = None;
        let mut i: usize = 0;
        while i < ls.len()
            invariant
                i <= ls@.len(),
                views(ls@) == lines(output@),
                ether_sp@ == "ether "@,
                ether@ == "ether"@,
                (match current {
                    Some(c) => Some(c@),
                    None => None,
                }, table_view(macs@)) == mac_fold_macos(views(ls@).take(i as int)),
            decreases ls@.len() - i,
        {
            let line = &ls[i];
            proof {
                assert(views(ls@).take(i + 1).drop_last() =~= views(ls@).take(i as int));
                assert(views(ls@).take(i + 1).last() == line@);
            }
            if is_ifconfig_header(line) {
                let c = find_char_in(line, ':').unwrap();
                proof {
                    lemma_find_char(line@, ':');
                }
                current = Some(string_of(&sub_chars(line, 0, c)));
                assert(line@.subrange(0, c as int) =~= line@.take(c as int));
            } else if contains_chars(line, &ether_sp) {
                match &current {
                    Some(iface) => {
                        let parts = split_words(line);
                        let ghost ws = views(parts@);
                        assert(ws == words(line@));
                        let mut k: usize = 0;
                        assert(ws.skip(0) =~= ws);
                        while k < parts.len() && !chars_eq(&parts[k], &ether)
                            invariant
                                k <= parts@.len(),
                                ws == views(parts@),
                                ether@ == "ether"@,
                                word_index(ws, "ether"@) == match word_index(
                                    ws.skip(k as int),
                                    "ether"@,
                                ) {
                                    Some(j) => Some(j + k),
                                    None => None,
                                },
                            decreases parts@.len() - k,
                        {
                            assert(ws.skip(k as int).drop_first() =~= ws.skip(k + 1));
                            assert(ws.skip(k as int)[0] == parts@[k as int]@);
                            k += 1;
                        }
                        if k < parts.len() {
                            assert(ws.skip(k as int)[0] == parts@[k as int]@);
                            if k + 1 < parts.len() {
                                assert(ws[k + 1] == parts@[k + 1]@);
                                table_insert(&mut macs, iface.clone(), string_of(&parts[k + 1]));
                            }
                        } else {
                            assert(ws.skip(k as int) =~= Seq::<Seq<char>>::empty());
                        }
                    },
                    None => {},
                }
            }
            i += 1;
        }
        assert(views(ls@).take(i as int) =~= views(ls@));
        macs
    }
}

/// Whether a line of `ifconfig` output starts an interface block.
pub fn is_ifconfig_header(line: &Vec<char>) -> (r: bool)
    ensures
        r == ifconfig_header(line@),
{
    !starts_with_chars(line, &chars_of("\t")) && !starts_with_chars(line, &chars_of(" "))
        && find_char_in(line, ':').is_some()
}

/// Gives each interface node the MAC of its interface, where `macs` has one
/// for its name.
pub fn add_mac_addresses(nodes: &mut Vec<Node>, macs: &Vec<(String, String)>)
    ensures
        node_models(final(nodes)@) == with_macs(node_models(old(nodes)@), table_view(macs@)),
{
    let ghost before = node_models(nodes@);
    let ghost m = table_view(macs@);
    let name_key = String::from_str("name");
    let mut i: usize = 0;
    while i < nodes.len()
        invariant
            i <= nodes@.len(),
            nodes@.len() == before.len(),
            name_key@ == "name"@,
            m == table_view(macs@),
            forall|j: int| 0 <= j < i ==> (#[trigger] nodes@[j])@ == with_mac(before[j], m),
            forall|j: int| i <= j < nodes@.len() ==> (#[trigger] nodes@[j])@ == before[j],
        decreases nodes@.len() - i,
    {
        let mac = match table_get(&nodes[i].properties, &name_key) {
            Some(name) => match table_get(macs, name) {
                Some(mac) => Some(mac.clone()),
                None => None,
            },
            None => None,
        };
        match mac {
            Some(mac) => {
                table_insert(&mut nodes[i].properties, String::from_str("mac"), mac);
            },
            None => {},
        }
        assert(nodes@[i as int]@ == with_mac(before[i as int], m));
        i += 1;
    }
    assert(node_models(nodes@) =~= with_macs(before, m));
}

/// The value of a sysfs counter file: its trimmed content read as an
/// unsigned number, or 0 when it is none or the file could not be read.
pub open spec fn stat_value(content: Option<Seq<char>>) -> u64 {
    match content {
        Some(s) => match parse_unsigned(trim(s), u64::MAX as int) {
            Some(v) => v as u64,
            None => 0,
        },
        None => 0,
    }
}

/// A counter read from a sysfs statistics file: its trimmed content as a
/// `u64`, or 0 when the file could not be read or holds no such number.
pub fn parse_stat_value(content: Option<&str>) -> (r: u64)
    ensures
        r == stat_value(
            match content {
                Some(s) => Some(s@),
                None => None,
            },
        ),
{
    match content {
        Some(s) => match parse_unsigned_in(&trim_chars(&chars_of(s)), u64::MAX) {
            Some(v) => v,
            None => 0,
        },
        None => 0,
    }
}


/// The interface node of an `ifconfig` block with the given name, flags and MTU.
pub open spec fn ifconfig_node(
    name: Seq<char>,
    flags: Option<Seq<char>>,
    mtu: Option<Seq<char>>,
) -> NodeModel {
    let p0 = Map::<Seq<char>, Seq<char>>::empty().insert("name"@, name).insert(
        "type"@,
        "network_interface"@,
    );
    let p1 = match flags {
        Some(f) => p0.insert("flags"@, f).insert("state"@, state_of_flags(f)),
        None => p0,
    };
    let p2 = match mtu {
        Some(m) => p1.insert("mtu"@, m),
        None => p1,
    };
    NodeModel { id: "netdev:"@ + name, node_type: NodeType::NetworkInterface, properties: p2 }
}

/// The node with each address of `addrs` added in order under its property.
pub open spec fn with_addresses(n: NodeModel, addrs: Seq<(Seq<char>, Seq<char>)>) -> NodeModel
    decreases addrs.len(),
{
    if addrs.len() == 0 {
        n
    } else {
        with_address(with_addresses(n, addrs.drop_last()), addrs.last().0, addrs.last().1)
    }
}

/// The address that an `inet` or `inet6` line within an `ifconfig` block
/// gives its interface.
pub open spec fn ifconfig_line_address(line: Seq<char>) -> Option<(Seq<char>, Seq<char>)> {
    if ifconfig_header(line) {
        None
    } else {
        address_of_words(words(line))
    }
}

/// What `ifconfig` output has shown so far: the name, flags, MTU and
/// addresses of the current block, and the nodes of the blocks before it.
pub struct IfconfigState {
    pub name: Option<Seq<char>>,
    pub flags: Option<Seq<char>>,
    pub mtu: Option<Seq<char>>,
    pub addrs: Seq<(Seq<char>, Seq<char>)>,
    pub nodes: Seq<NodeModel>,
}

/// The current block ended: its node is added, and its name, flags, MTU and
/// addresses cleared.
pub open spec fn ifconfig_flush(st: IfconfigState) -> IfconfigState {
    match st.name {
        Some(n) => IfconfigState {
            name: None,
            flags: None,
            mtu: None,
            addrs: Seq::empty(),
            nodes: st.nodes.push(with_addresses(ifconfig_node(n, st.flags, st.mtu), st.addrs)),
        },
        None => st,
    }
}

/// What one line of `ifconfig` output does: a header line ends the current
/// block and starts one named by the text before its first colon, with the
/// flags between `<` and `>` and the MTU after `mtu ` where the line has them;
/// an `inet` or `inet6` line adds its address to the block.
pub open spec fn ifconfig_step(st: IfconfigState, line: Seq<char>) -> IfconfigState {
    if ifconfig_header(line) {
        let f = ifconfig_flush(st);
        let name = line.take(find_char(line, ':').unwrap());
        let flags = match (find_char(line, '<'), find_char(line, '>')) {
            (Some(a), Some(b)) => Some(line.subrange(a + 1, b)),
            _ => f.flags,
        };
        let mtu = match find_sub(line, "mtu "@) {
            Some(m) => Some(mtu_after(line.skip(m + 4))),
            None => f.mtu,
        };
        IfconfigState { name: Some(name), flags, mtu, addrs: Seq::empty(), nodes: f.nodes }
    } else {
        match ifconfig_line_address(line) {
            Some(a) => IfconfigState { addrs: st.addrs.push(a), ..st },
            None => st,
        }
    }
}

pub open spec fn ifconfig_fold(ls: Seq<Seq<char>>) -> IfconfigState
    decreases ls.len(),
{
    if ls.len() == 0 {
        IfconfigState {
            name: None,
            flags: None,
            mtu: None,
            addrs: Seq::empty(),
            nodes: Seq::empty(),
        }
    } else {
        ifconfig_step(ifconfig_fold(ls.drop_last()), ls.last())
    }
}

/// The interface nodes of `ifconfig` output, one per block.
pub open spec fn ifconfig_nodes(output: Seq<char>) -> Seq<NodeModel> {
    ifconfig_flush(ifconfig_fold(lines(output))).nodes
}

/// A header line of `ifconfig` output with a `>` before its `<`.
pub open spec fn ifconfig_line_misordered(line: Seq<char>) -> bool {
    ifconfig_header(line) && match (find_char(line, '<'), find_char(line, '>')) {
        (Some(a), Some(b)) => b < a,
        _ => false,
    }
}

/// `ifconfig` output that some header line of cuts a flags list at a `>` before its `<`.
pub open spec fn ifconfig_output_misordered(output: Seq<char>) -> bool {
    exists|i: int|
        0 <= i < lines(output).len() && ifconfig_line_misordered(#[trigger] lines(output)[i])
}

/// Whether some header line of `ifconfig` output would cut a flags list at a
/// `>` before its `<`.
pub fn ifconfig_output_is_misordered(output: &str) -> (r: bool)
    ensures
        r == ifconfig_output_misordered(output@),
{
    let ls = split_lines(&chars_of(output));
    let mut i: usize = 0;
    while i < ls.len()
        invariant
            i <= ls@.len(),
            views(ls@) == lines(output@),
            forall|j: int| 0 <= j < i ==> !ifconfig_line_misordered(#[trigger] lines(output@)[j]),
        decreases ls@.len() - i,
    {
        let line = &ls[i];
        assert(views(ls@)[i as int] == line@);
        if is_ifconfig_header(line) {
            match (find_char_in(line, '<'), find_char_in(line, '>')) {
                (Some(a), Some(b)) => {
                    if b < a {
                        return true;
                    }
                },
                _ => {},
            }
        }
        i += 1;
    }
    false
}

/// Adds the node of the current `ifconfig` block: its name, flags, MTU and
/// addresses.
fn ifconfig_emit(
    nodes: &mut Vec<Node>,
    name: &Option<String>,
    flags: &Option<String>,
    mtu: &Option<String>,
    addrs: &Vec<(String, String)>,
)
    requires
        name is Some,
    ensures
        node_models(final(nodes)@) == node_models(old(nodes)@).push(
            with_addresses(
                ifconfig_node(
                    name.unwrap()@,
                    match flags {
                        Some(f) => Some(f@),
                        None => None,
                    },
                    match mtu {
                        Some(m) => Some(m@),
                        None => None,
                    },
                ),
                pair_views(addrs@),
            ),
        ),
{
    let n = name.as_ref().unwrap();
    let mut node = Node::new(prefixed_string("netdev:", &chars_of(n.as_str())), NodeType::NetworkInterface)
        .with_property("name", n.as_str())
        .with_property("type", "network_interface");
    match flags {
        Some(f) => {
            let fc = chars_of(f.as_str());
            let state = if contains_chars(&fc, &chars_of("UP")) {
                "up"
            } else {
                "down"
            };
            node = node.with_property("flags", f.as_str()).with_property("state", state);
        },
        None => {},
    }
    match mtu {
        Some(m) => {
            node = node.with_property("mtu", m.as_str());
        },
        None => {},
    }
    let ghost base = node@;
    let ghost pv = pair_views(addrs@);
    let mut j: usize = 0;
    assert(pv.take(0) =~= Seq::<(Seq<char>, Seq<char>)>::empty());
    while j < addrs.len()
        invariant
            j <= addrs@.len(),
            pv == pair_views(addrs@),
            node@ == with_addresses(base, pv.take(j as int)),
        decreases addrs@.len() - j,
    {
        assert(pv.take(j + 1).drop_last() =~= pv.take(j as int));
        assert(pv[j as int] == (addrs@[j as int].0@, addrs@[j as int].1@));
        let a = chars_of(addrs[j].1.as_str());
        node = add_address(node, addrs[j].0.as_str(), &a);
        j += 1;
    }
    assert(pv.take(j as int) =~= pv);
    let ghost prev = node_models(nodes@);
    nodes.push(node);
    assert(node_models(nodes@) =~= prev.push(node@));
}

pub open spec fn opt_view(o: Option<String>) -> Option<Seq<char>> {
    match o {
        Some(s) => Some(s@),
        None => None,
    }
}

impl NetworkCollector {
    /// The interface nodes of `ifconfig` output, one for each block.
    pub fn parse_ifconfig_output(&self, output: &str) -> (r: Vec<Node>)
        requires
            !ifconfig_output_misordered(output@),
        ensures
            node_models(r@) == ifconfig_nodes(output@),
    {
        let ls = split_lines(&chars_of(output));
        let mut nodes: Vec<Node> = Vec::new();
        let mut name: Option<String> = None;
        let mut flags: Option<String> = None;
        let mut mtu: Option<String> = None;
        let mut addrs: Vec<(String, String)> = Vec::new();
        let mut i: usize = 0;
        assert(node_models(nodes@) =~= Seq::<NodeModel>::empty());
        assert(pair_views(addrs@) =~= Seq::<(Seq<char>, Seq<char>)>::empty());
        while i < ls.len()
            invariant
                i <= ls@.len(),
                views(ls@) == lines(output@),
                !ifconfig_output_misordered(output@),
                (IfconfigState {
                    name: opt_view(name),
                    flags: opt_view(flags),
                    mtu: opt_view(mtu),
                    addrs: pair_views(addrs@),
                    nodes: node_models(nodes@),
                }) == ifconfig_fold(views(ls@).take(i as int)),
            decreases ls@.len() - i,
        {
            let line = &ls[i];
            proof {
                assert(views(ls@).take(i + 1).drop_last() =~= views(ls@).take(i as int));
                assert(views(ls@).take(i + 1).last() == line@);
                assert(views(ls@)[i as int] == line@);
                assert(!ifconfig_line_misordered(line@));
            }
            if is_ifconfig_header(line) {
                if name.is_some() {
                    ifconfig_emit(&mut nodes, &name, &flags, &mtu, &addrs);
                    flags = None;
                    mtu = None;
                }
                addrs = Vec::new();
                assert(pair_views(addrs@) =~= Seq::<(Seq<char>, Seq<char>)>::empty());
                let c = find_char_in(line, ':').unwrap();
                proof {
                    lemma_find_char(line@, ':');
                }
                let nm = sub_chars(line, 0, c);
                assert(nm@ =~= line@.take(c as int));
                name = Some(string_of(&nm));
                match (find_char_in(line, '<'), find_char_in(line, '>')) {
                    (Some(a), Some(b)) => {
                        proof {
                            lemma_find_char(line@, '<');
                            lemma_find_char(line@, '>');
                        }
                        flags = Some(string_of(&sub_chars(line, a + 1, b)));
                    },
                    _ => {},
                }
                match find_sub_in(line, &chars_of("mtu ")) {
                    Some(m) => {
                        proof {
                            lemma_find_sub(line@, "mtu "@);
                            reveal_strlit("mtu ");
                        }
                        assert(m + 4 <= line.len());
                        let part = sub_chars(line, m + 4, line.len());
                        assert(part@ =~= line@.skip(m + 4));
                        let v = match find_char_in(&part, ' ') {
                            Some(e) => {
                                proof {
                                    lemma_find_char(part@, ' ');
                                }
                                sub_chars(&part, 0, e)
                            },
                            None => trim_chars(&part),
                        };
                        assert(v@ =~= mtu_after(part@));
                        mtu = Some(string_of(&v));
                    },
                    None => {},
                }
            } else {
                let parts = split_words(line);
                assert(views(parts@) == words(line@));
                match address_of_words_in(&parts) {
                    Some((key, addr)) => {
                        let ghost pa = pair_views(addrs@);
                        addrs.push((String::from_str(key), string_of(&addr)));
                        assert(pair_views(addrs@) =~= pa.push((key@, addr@)));
                    },
                    None => {},
                }
            }
            i += 1;
        }
        assert(views(ls@).take(i as int) =~= views(ls@));
        if name.is_some() {
            ifconfig_emit(&mut nodes, &name, &flags, &mtu, &addrs);
        }
        nodes
    }
}

} // verus!
