//! Properties that hold across the library's operations.
use vstd::prelude::*;

use crate::collectors::pci::{
    block_fields, line_blocks, lspci_field, lspci_flush, lspci_fold, lspci_node, lspci_nodes,
    normalized_slot, split_blocks, with_lowered_keys,
};
use crate::collectors::rdma::{devinfo_step, ethtool_line, rdma_link_edge, rdma_link_edges};
use crate::collectors::{ip_fold, ip_line_address, ip_line_node, ip_output_nodes, with_address};
use crate::data::{
    Edge, EdgeType, IfaceCounters, Inventory, Node, NodeModel, NodeType, PfcModel, RdmaCounters, linked,
    nodes_of_type, other_end,
    set_property,
};
use crate::text::{
    contains_sub, count_char, lemma_contains_prefix, lemma_contains_sub_trans, lemma_find_sub,
    all_ascii, ascii_lower_char, ascii_lowercase, ascii_upper_char, ascii_uppercase, is_ascii_char,
    find_sub, is_digit, lines, lowercase, parse_unsigned, split_once_char, split_once_sub,
    unsigned_digits, starts_with, strip_prefix, trim, words,
};
use crate::ui::nav::{
    connected_nodes, filtered_nodes, first_connected, lemma_node_position, node_position,
    prop_contains, query_matches, tab_node_type, tab_of_type,
};
use crate::ui::{
    CounterRecording, DirectionHint, Tab, UiAction, after_navigate, after_select, selected_id, UiKey, UiModel, after_scroll, char_key,
    current_nodes, iface_delta, key_effect, next_tab_of, poll_timeout_after, prev_tab_of,
    rdma_counters_delta, refresh_due_after, tab_named, tab_title, tabs_shown,
};

verus! {

/// Reading an attribute gives back the value last written under its name,
/// and writing one name leaves every other name, the id and the type as they
/// were.
pub proof fn law_property_read_after_write(n: NodeModel, key: Seq<char>, value: Seq<char>, other: Seq<char>)
    ensures
        set_property(n, key, value).properties.contains_key(key),
        set_property(n, key, value).properties[key] == value,
        other != key ==> (set_property(n, key, value).properties.contains_key(other)
            == n.properties.contains_key(other)),
        other != key && n.properties.contains_key(other) ==> set_property(
            n,
            key,
            value,
        ).properties[other] == n.properties[other],
        set_property(n, key, value).id == n.id,
        set_property(n, key, value).node_type == n.node_type,
{
}

/// Connection is symmetric: an edge that links `a` to `b` links `b` to `a`.
pub proof fn law_connection_symmetric(edges: Seq<Edge>, a: Seq<char>, b: Seq<char>)
    ensures
        linked(edges, a, b) == linked(edges, b, a),
{
    if linked(edges, a, b) {
        let j = choose|j: int| 0 <= j < edges.len() && other_end((#[trigger] edges[j])@, a) == Some(b);
        assert(other_end(edges[j]@, b) == Some(a));
    }
    if linked(edges, b, a) {
        let j = choose|j: int| 0 <= j < edges.len() && other_end((#[trigger] edges[j])@, b) == Some(a);
        assert(other_end(edges[j]@, a) == Some(b));
    }
}

proof fn lemma_filter_true(s: Seq<Node>, pred: spec_fn(Node) -> bool)
    requires
        forall|n: Node| #[trigger] pred(n),
    ensures
        s.filter(pred) == s,
    decreases s.len(),
{
    if s.len() > 0 {
        lemma_filter_true(s.drop_last(), pred);
        assert(s.drop_last().push(s.last()) =~= s);
        s.drop_last().lemma_filter_push(s.last(), pred);
    } else {
        assert(s.filter(pred) =~= s) by {
            reveal(Seq::filter);
        }
    }
}

/// Without a search a tab lists every node of its type; a search only ever
/// narrows that list, keeping the nodes' order.
pub proof fn law_search_narrows(nodes: Seq<Node>, tab: Tab, q: Seq<char>)
    requires
        tab != Tab::Raw,
    ensures
        filtered_nodes(nodes, tab, Seq::empty()) == nodes_of_type(nodes, tab_node_type(tab)),
        forall|n: Node|
            filtered_nodes(nodes, tab, q).contains(n) ==> #[trigger] filtered_nodes(
                nodes,
                tab,
                Seq::empty(),
            ).contains(n),
{
    let all = nodes_of_type(nodes, tab_node_type(tab));
    let p0 = |n: Node| query_matches(n@, tab, Seq::empty());
    assert forall|n: Node| #[trigger] p0(n) by {}
    lemma_filter_true(all, p0);
    assert forall|n: Node|
        filtered_nodes(nodes, tab, q).contains(n) implies #[trigger] filtered_nodes(
            nodes,
            tab,
            Seq::empty(),
        ).contains(n) by {
        all.lemma_filter_contains_rev(|m: Node| query_matches(m@, tab, q), n);
    }
}

/// Over a recording whose counters did not go down, each change is the end
/// value less the start value; a counter that did not move changes by 0.
pub proof fn law_delta_of_growing_counters(s: IfaceCounters, e: IfaceCounters)
    requires
        e.rx_bytes >= s.rx_bytes,
        e.tx_bytes >= s.tx_bytes,
        e.rx_packets >= s.rx_packets,
        e.tx_packets >= s.tx_packets,
        e.rx_errors >= s.rx_errors,
        e.tx_errors >= s.tx_errors,
        e.rx_dropped >= s.rx_dropped,
        e.tx_dropped >= s.tx_dropped,
        e.rx_missed >= s.rx_missed,
        e.collisions >= s.collisions,
    ensures
        s.rx_bytes + iface_delta(s, e).rx_bytes == e.rx_bytes,
        s.tx_bytes + iface_delta(s, e).tx_bytes == e.tx_bytes,
        s.rx_packets + iface_delta(s, e).rx_packets == e.rx_packets,
        s.tx_packets + iface_delta(s, e).tx_packets == e.tx_packets,
        s.rx_errors + iface_delta(s, e).rx_errors == e.rx_errors,
        s.tx_errors + iface_delta(s, e).tx_errors == e.tx_errors,
        s.rx_dropped + iface_delta(s, e).rx_dropped == e.rx_dropped,
        s.tx_dropped + iface_delta(s, e).tx_dropped == e.tx_dropped,
        s.rx_missed + iface_delta(s, e).rx_missed == e.rx_missed,
        s.collisions + iface_delta(s, e).collisions == e.collisions,
{
}

/// Snapshots that agree give no change at all.
pub proof fn law_delta_of_same_snapshot(c: IfaceCounters, r: RdmaCounters)
    ensures
        iface_delta(c, c) == IfaceCounters::spec_zero(),
        rdma_counters_delta(r, r) == RdmaCounters::spec_zero(),
{
}

/// Going to the next tab and back returns to the tab one started on, when
/// that tab is shown.
pub proof fn law_next_then_prev_tab(u: UiModel)
    requires
        u.current_tab != Tab::Raw || u.show_raw_tab,
    ensures
        prev_tab_of(UiModel { current_tab: next_tab_of(u), ..u }) == u.current_tab,
{
    assert(tabs_shown(true).len() == 4);
    assert(tabs_shown(false).len() == 3);
    assert(1int % 4 == 1 && 2int % 4 == 2 && 3int % 4 == 3 && 4int % 4 == 0) by (nonlinear_arith);
    assert(1int % 3 == 1 && 2int % 3 == 2 && 3int % 3 == 0) by (nonlinear_arith);
    if u.show_raw_tab {
        match u.current_tab {
            Tab::Interfaces => assert(next_tab_of(u) == Tab::Rdma),
            Tab::Rdma => assert(next_tab_of(u) == Tab::Pci),
            Tab::Pci => assert(next_tab_of(u) == Tab::Raw),
            Tab::Raw => assert(next_tab_of(u) == Tab::Interfaces),
        }
    } else {
        match u.current_tab {
            Tab::Interfaces => assert(next_tab_of(u) == Tab::Rdma),
            Tab::Rdma => assert(next_tab_of(u) == Tab::Pci),
            Tab::Pci => assert(next_tab_of(u) == Tab::Interfaces),
            Tab::Raw => {},
        }
    }
}

/// While searching, backspace takes back the character just typed.
pub proof fn law_backspace_undoes_typing(u: UiModel, c: char, inv: crate::data::Inventory, page_step: u16)
    requires
        u.search_mode,
    ensures
        key_effect(key_effect(u, UiKey::Char(c), inv, page_step).0, UiKey::Backspace, inv, page_step).0.search_query
            == u.search_query,
{
    assert(u.search_query.push(c).drop_last() =~= u.search_query);
}

/// Outside a search, keys that move the selection keep it on an item of the
/// list when the list is not empty and the selection was on one.
pub proof fn law_selection_stays_in_list(u: UiModel, key: UiKey, inv: crate::data::Inventory, page_step: u16)
    requires
        !u.search_mode,
        u.current_tab != Tab::Raw,
        key == UiKey::Up || key == UiKey::Down || key == UiKey::PageUp || key == UiKey::PageDown
            || key == UiKey::Home || key == UiKey::End,
        u.selected_index < current_nodes(u, inv).len(),
    ensures
        key_effect(u, key, inv, page_step).0.selected_index < current_nodes(u, inv).len(),
        key_effect(u, key, inv, page_step).0.current_tab == u.current_tab,
        key_effect(u, key, inv, page_step).0.search_query == u.search_query,
{
}

/// The mouse wheel always leaves the selection on an item of a non-empty
/// list, wherever it was before.
pub proof fn law_scroll_stays_in_list(u: UiModel, inv: crate::data::Inventory, amount: i16, page_step: u16)
    requires
        u.current_tab != Tab::Raw,
        current_nodes(u, inv).len() > 0,
    ensures
        after_scroll(u, inv, amount, page_step).selected_index < current_nodes(u, inv).len(),
{
}

/// `]` finishes a recording only after `[` started one: on a started
/// recording it asks for the end snapshot and changes nothing yet; otherwise
/// it drops whatever recording there is.
pub proof fn law_recording_keys(u: UiModel)
    ensures
        char_key(u, '[').1 == UiAction::StartRecording,
        char_key(u, '[').0 == u,
        u.recording matches Some(CounterRecording::Started(_)) ==> char_key(u, ']') == (
            u,
            UiAction::FinishRecording,
        ),
        !(u.recording matches Some(CounterRecording::Started(_))) ==> char_key(u, ']') == (
            UiModel { recording: None, ..u },
            UiAction::Continue,
        ),
{
}

/// `q` quits, and changes nothing, only outside a search; while searching it
/// is typed into the search.
pub proof fn law_quit_only_outside_search(u: UiModel, inv: crate::data::Inventory, page_step: u16)
    ensures
        !u.search_mode ==> key_effect(u, UiKey::Char('q'), inv, page_step) == (u, UiAction::Quit),
        u.search_mode ==> key_effect(u, UiKey::Char('q'), inv, page_step).1 == UiAction::Continue,
        u.search_mode ==> key_effect(u, UiKey::Char('q'), inv, page_step).0.search_query
            == u.search_query.push('q'),
{
}

/// Outside a search, `1`, `2` and `3` show the interfaces, RDMA and PCI tabs
/// and `4` the raw tab (from its top) when that tab is shown, each with the
/// first item selected; while the raw tab is hidden `4` changes nothing.
pub proof fn law_digit_keys_jump_to_tabs(u: UiModel, inv: crate::data::Inventory, page_step: u16)
    requires
        !u.search_mode,
    ensures
        key_effect(u, UiKey::Char('1'), inv, page_step) == (
            UiModel { current_tab: Tab::Interfaces, selected_index: 0, ..u },
            UiAction::Continue,
        ),
        key_effect(u, UiKey::Char('2'), inv, page_step) == (
            UiModel { current_tab: Tab::Rdma, selected_index: 0, ..u },
            UiAction::Continue,
        ),
        key_effect(u, UiKey::Char('3'), inv, page_step) == (
            UiModel { current_tab: Tab::Pci, selected_index: 0, ..u },
            UiAction::Continue,
        ),
        u.show_raw_tab ==> key_effect(u, UiKey::Char('4'), inv, page_step) == (
            UiModel { current_tab: Tab::Raw, selected_index: 0, raw_scroll_offset: 0, ..u },
            UiAction::Continue,
        ),
        !u.show_raw_tab ==> key_effect(u, UiKey::Char('4'), inv, page_step) == (
            u,
            UiAction::Continue,
        ),
{
}

/// Esc outside a search clears the search, closes the help and drops the
/// recording, changing nothing else; while searching it leaves the search,
/// clears it and selects the first item.
pub proof fn law_escape_clears(u: UiModel, inv: crate::data::Inventory, page_step: u16)
    ensures
        !u.search_mode ==> key_effect(u, UiKey::Esc, inv, page_step) == (
            UiModel { search_query: Seq::empty(), show_help: false, recording: None, ..u },
            UiAction::Continue,
        ),
        u.search_mode ==> key_effect(u, UiKey::Esc, inv, page_step) == (
            UiModel { search_mode: false, search_query: Seq::empty(), selected_index: 0, ..u },
            UiAction::Continue,
        ),
{
}

/// The configured start tab is never the raw tab while that tab is hidden.
pub proof fn law_start_tab_is_shown(name: Seq<char>)
    ensures
        tab_named(name, false) != Tab::Raw,
{
}

/// A collection is due exactly when no time is left to wait for input.
pub proof fn law_refresh_due_iff_no_wait(interval_ms: u64, elapsed_nanos: int)
    requires
        elapsed_nanos >= 0,
    ensures
        refresh_due_after(interval_ms, elapsed_nanos) <==> poll_timeout_after(interval_ms, elapsed_nanos) == 0,
        !refresh_due_after(interval_ms, elapsed_nanos) ==> elapsed_nanos + poll_timeout_after(
            interval_ms,
            elapsed_nanos,
        ) == interval_ms * 1_000_000,
{
}

/// Normalizing a slot that has a colon twice gives what normalizing it once
/// does.
pub proof fn law_normalize_slot_stable(slot: Seq<char>)
    requires
        count_char(slot, ':') >= 1,
    ensures
        normalized_slot(normalized_slot(slot)) == normalized_slot(slot),
{
    if count_char(slot, ':') < 2 {
        lemma_count_prefix(slot);
    }
}

proof fn lemma_count_concat(a: Seq<char>, b: Seq<char>, c: char)
    ensures
        count_char(a + b, c) == count_char(a, c) + count_char(b, c),
    decreases b.len(),
{
    if b.len() == 0 {
        assert(a + b =~= a);
    } else {
        lemma_count_concat(a, b.drop_last(), c);
        assert((a + b).drop_last() =~= a + b.drop_last());
        assert((a + b).last() == b.last());
    }
}

proof fn lemma_count_prefix(slot: Seq<char>)
    ensures
        count_char("0000:"@ + slot, ':') == count_char(slot, ':') + 1,
{
    reveal_strlit("0000:");
    lemma_count_concat("0000:"@, slot, ':');
    assert(count_char("0000:"@, ':') == 1) by {
        reveal_with_fuel(count_char, 6);
        assert("0000:"@.drop_last() =~= seq!['0', '0', '0', '0']);
        assert(seq!['0', '0', '0', '0'].drop_last() =~= seq!['0', '0', '0']);
        assert(seq!['0', '0', '0'].drop_last() =~= seq!['0', '0']);
        assert(seq!['0', '0'].drop_last() =~= seq!['0']);
        assert(seq!['0'].drop_last() =~= Seq::<char>::empty());
    }
}

/// What every interface node read from `ip addr show` output is: a network
/// interface whose id is `netdev:` followed by its name.
pub open spec fn is_named_interface(n: NodeModel) -> bool {
    &&& n.node_type == NodeType::NetworkInterface
    &&& n.properties.contains_key("name"@)
    &&& n.id == "netdev:"@ + n.properties["name"@]
}

proof fn lemma_ip_fold_named(ls: Seq<Seq<char>>)
    ensures
        forall|k: int| 0 <= k < ip_fold(ls).len() ==> is_named_interface(#[trigger] ip_fold(ls)[k]),
    decreases ls.len(),
{
    if ls.len() > 0 {
        lemma_ip_fold_named(ls.drop_last());
        let prev = ip_fold(ls.drop_last());
        let line = ls.last();
        lemma_ip_line_node_named(line);
        if ip_line_node(line) is None {
            if let Some((key, addr)) = ip_line_address(line) {
                if prev.len() > 0 {
                    reveal_strlit("name");
                    reveal_strlit("ip");
                    reveal_strlit("ipv6");
                    assert(key != "name"@) by {
                        assert(key == "ip"@ || key == "ipv6"@);
                        assert("ip"@.len() != "name"@.len());
                        assert("ipv6"@[0] != "name"@[0]);
                    }
                    assert(is_named_interface(prev.last()));
                    assert(is_named_interface(with_address(prev.last(), key, addr)));
                }
            }
        }
    }
}

/// Every interface node read from `ip addr show` output is a network
/// interface whose id is `netdev:` followed by its name.
pub proof fn law_ip_nodes_named_by_id(output: Seq<char>)
    ensures
        forall|k: int|
            0 <= k < ip_output_nodes(output).len() ==> is_named_interface(
                #[trigger] ip_output_nodes(output)[k],
            ),
{
    lemma_ip_fold_named(lines(output));
}

proof fn lemma_ip_line_node_named(line: Seq<char>)
    ensures
        ip_line_node(line) matches Some(n) ==> {
            &&& n.node_type == NodeType::NetworkInterface
            &&& n.properties.contains_key("name"@)
            &&& n.id == "netdev:"@ + n.properties["name"@]
        },
{
    reveal_strlit("name");
    reveal_strlit("type");
    reveal_strlit("flags");
    reveal_strlit("state");
    reveal_strlit("mtu");
    assert("type"@[0] != "name"@[0]);
    assert("flags"@.len() != "name"@.len());
    assert("state"@.len() != "name"@.len());
    assert("mtu"@.len() != "name"@.len());
}

/// Every mapping read from `rdma link` output leads from an `rdma:` id to a
/// `netdev:` id, so the netdev at its far end can always be named.
pub proof fn law_rdma_link_edges_lead_to_netdevs(output: Seq<char>)
    ensures
        forall|k: int|
            0 <= k < rdma_link_edges(output).len() ==> {
                let e = #[trigger] rdma_link_edges(output)[k];
                &&& e.edge_type == EdgeType::RdmaMapping
                &&& starts_with(e.from, "rdma:"@)
                &&& strip_prefix(e.to, "netdev:"@) is Some
            },
{
    let f = |l: Seq<char>| rdma_link_edge(l);
    assert forall|k: int| 0 <= k < rdma_link_edges(output).len() implies {
        let e = #[trigger] rdma_link_edges(output)[k];
        &&& e.edge_type == EdgeType::RdmaMapping
        &&& starts_with(e.from, "rdma:"@)
        &&& strip_prefix(e.to, "netdev:"@) is Some
    } by {
        let e = rdma_link_edges(output)[k];
        assert(rdma_link_edges(output).contains(e));
        lines(output).lemma_filter_map_contains(f, e);
        let i = choose|i: int| 0 <= i < lines(output).len() && f(lines(output)[i]) == Some(e);
        lemma_rdma_link_edge_ends(lines(output)[i]);
    }
}

proof fn lemma_prefixed(p: Seq<char>, w: Seq<char>)
    ensures
        starts_with(p + w, p),
        strip_prefix(p + w, p) == Some(w),
{
    assert((p + w).take(p.len() as int) =~= p);
    assert((p + w).skip(p.len() as int) =~= w);
}

proof fn lemma_rdma_link_edge_ends(line: Seq<char>)
    ensures
        rdma_link_edge(line) matches Some(e) ==> {
            &&& e.edge_type == EdgeType::RdmaMapping
            &&& starts_with(e.from, "rdma:"@)
            &&& strip_prefix(e.to, "netdev:"@) is Some
        },
{
    if let Some(e) = rdma_link_edge(line) {
        let from_rest = e.from.skip(5);
        let to_rest = e.to.skip(7);
        reveal_strlit("rdma:");
        reveal_strlit("netdev:");
        assert(e.from == "rdma:"@ + from_rest);
        assert(e.to == "netdev:"@ + to_rest);
        lemma_prefixed("rdma:"@, from_rest);
        lemma_prefixed("netdev:"@, to_rest);
    }
}

/// Inserting entries never removes a name from a map.
proof fn lemma_lowered_keys_keep(
    m: Map<Seq<char>, Seq<char>>,
    props: Seq<(Seq<char>, Seq<char>)>,
    k: Seq<char>,
    ascii_keys: bool,
)
    requires
        m.contains_key(k),
    ensures
        with_lowered_keys(m, props, ascii_keys).contains_key(k),
    decreases props.len(),
{
    if props.len() > 0 {
        lemma_lowered_keys_keep(m, props.drop_last(), k, ascii_keys);
    }
}

/// What every node read from `lspci -vmm` output is.
pub open spec fn is_pci_node(n: NodeModel) -> bool {
    &&& n.node_type == NodeType::PciDevice
    &&& starts_with(n.id, "pci:"@)
    &&& n.properties.contains_key("pci_id"@)
}

proof fn lemma_lspci_node_is_pci(props: Seq<(Seq<char>, Seq<char>)>, ascii_keys: bool)
    ensures
        lspci_node(props, ascii_keys) matches Some(n) ==> is_pci_node(n),
{
    if let Some(n) = lspci_node(props, ascii_keys) {
        let slot = crate::collectors::pci::first_value(props, "Slot"@)->Some_0;
        let id = normalized_slot(slot);
        let m0 = Map::<Seq<char>, Seq<char>>::empty().insert("pci_id"@, id);
        let m1 = if id != slot {
            m0.insert("pci_slot"@, slot)
        } else {
            m0
        };
        assert(m1.contains_key("pci_id"@));
        lemma_lowered_keys_keep(m1, props, "pci_id"@, ascii_keys);
        reveal_strlit("pci:");
        lemma_prefixed("pci:"@, id);
    }
}

proof fn lemma_lspci_flush_pci(
    props: Seq<(Seq<char>, Seq<char>)>,
    nodes: Seq<NodeModel>,
    ascii_keys: bool,
)
    requires
        forall|k: int| 0 <= k < nodes.len() ==> is_pci_node(#[trigger] nodes[k]),
    ensures
        forall|k: int|
            0 <= k < lspci_flush(props, nodes, ascii_keys).len() ==> is_pci_node(
                #[trigger] lspci_flush(props, nodes, ascii_keys)[k],
            ),
{
    lemma_lspci_node_is_pci(props, ascii_keys);
}

proof fn lemma_lspci_fold_pci(ls: Seq<Seq<char>>, ascii_keys: bool)
    ensures
        forall|k: int|
            0 <= k < lspci_fold(ls, ascii_keys).1.len() ==> is_pci_node(
                #[trigger] lspci_fold(ls, ascii_keys).1[k],
            ),
    decreases ls.len(),
{
    if ls.len() > 0 {
        lemma_lspci_fold_pci(ls.drop_last(), ascii_keys);
        let st = lspci_fold(ls.drop_last(), ascii_keys);
        lemma_lspci_flush_pci(st.0, st.1, ascii_keys);
    }
}

/// Every node read from `lspci -vmm` output is a PCI device with a `pci:`
/// id and a `pci_id` attribute, by which its sysfs directory is found.
pub proof fn law_lspci_nodes_are_pci_devices(output: Seq<char>, ascii_keys: bool)
    ensures
        forall|k: int|
            0 <= k < lspci_nodes(output, ascii_keys).len() ==> is_pci_node(
                #[trigger] lspci_nodes(output, ascii_keys)[k],
            ),
{
    let st = lspci_fold(lines(output), ascii_keys);
    lemma_lspci_fold_pci(lines(output), ascii_keys);
    lemma_lspci_flush_pci(st.0, st.1, ascii_keys);
}

/// Filtering by a stricter test after a weaker one is filtering by the
/// stricter one alone.
proof fn lemma_filter_stricter(s: Seq<Node>, weak: spec_fn(Node) -> bool, strict: spec_fn(Node) -> bool)
    requires
        forall|n: Node| #[trigger] strict(n) ==> weak(n),
    ensures
        s.filter(strict) == s.filter(weak).filter(strict),
    decreases s.len(),
{
    reveal(Seq::filter);
    if s.len() > 0 {
        let t = s.drop_last();
        let e = s.last();
        lemma_filter_stricter(t, weak, strict);
        assert(t.push(e) =~= s);
        t.lemma_filter_push(e, strict);
        t.lemma_filter_push(e, weak);
        if weak(e) {
            t.filter(weak).lemma_filter_push(e, strict);
        }
    } else {
        assert(s.filter(strict) =~= Seq::<Node>::empty());
        assert(s.filter(weak) =~= Seq::<Node>::empty());
        assert(s.filter(weak).filter(strict) =~= Seq::<Node>::empty());
    }
}

proof fn lemma_prop_contains_narrows(props: Map<Seq<char>, Seq<char>>, key: Seq<char>, q1: Seq<char>, q2: Seq<char>)
    requires
        contains_sub(q2, q1),
        prop_contains(props, key, q2),
    ensures
        prop_contains(props, key, q1),
{
    lemma_contains_sub_trans(crate::text::lowercase(props[key]), q2, q1);
}

/// A node that a search lists is also listed under any search that the
/// first one holds.
proof fn lemma_query_matches_narrows(n: NodeModel, tab: Tab, q1: Seq<char>, q2: Seq<char>)
    requires
        contains_sub(q2, q1),
        query_matches(n, tab, q2),
    ensures
        query_matches(n, tab, q1),
{
    lemma_find_sub(q2, q1);
    if q1.len() > 0 && q2.len() > 0 {
        let ks: Seq<Seq<char>> = seq!["name"@, "display_name"@, "port"@, "pci_id"@, "vendor"@, "device"@, "class"@, "driver"@];
        assert forall|k: int| 0 <= k < ks.len() && prop_contains(n.properties, #[trigger] ks[k], q2)
            implies prop_contains(n.properties, ks[k], q1) by {
            lemma_prop_contains_narrows(n.properties, ks[k], q1, q2);
        }
        assert(ks[0] == "name"@ && ks[1] == "display_name"@ && ks[2] == "port"@ && ks[3] == "pci_id"@);
        assert(ks[4] == "vendor"@ && ks[5] == "device"@ && ks[6] == "class"@ && ks[7] == "driver"@);
    }
}

/// Searching for more never lists more: when the longer (lower-cased) search
/// `q2` holds the shorter one `q1`, its list is the shorter search's list
/// filtered further, so a subsequence of it in the same order.
pub proof fn law_longer_search_narrows(nodes: Seq<Node>, tab: Tab, q1: Seq<char>, q2: Seq<char>)
    requires
        contains_sub(q2, q1),
    ensures
        filtered_nodes(nodes, tab, q2) == filtered_nodes(nodes, tab, q1).filter(
            |n: Node| query_matches(n@, tab, q2),
        ),
{
    if tab == Tab::Raw {
        assert(Seq::<Node>::empty().filter(|n: Node| query_matches(n@, tab, q2)) =~= Seq::<Node>::empty()) by {
            reveal(Seq::filter);
        }
    } else {
        let weak = |n: Node| query_matches(n@, tab, q1);
        let strict = |n: Node| query_matches(n@, tab, q2);
        assert forall|n: Node| #[trigger] strict(n) implies weak(n) by {
            lemma_query_matches_narrows(n@, tab, q1, q2);
        }
        lemma_filter_stricter(nodes_of_type(nodes, tab_node_type(tab)), weak, strict);
    }
}

/// Typing one more character into a search keeps, in order, only nodes that
/// the search listed before.
pub proof fn law_typing_narrows_search(nodes: Seq<Node>, tab: Tab, q: Seq<char>, c: char)
    ensures
        filtered_nodes(nodes, tab, q.push(c)) == filtered_nodes(nodes, tab, q).filter(
            |n: Node| query_matches(n@, tab, q.push(c)),
        ),
{
    lemma_contains_prefix(q.push(c), q.len() as int);
    assert(q.push(c).take(q.len() as int) =~= q);
    law_longer_search_narrows(nodes, tab, q, q.push(c));
}

/// The node that a block of `lspci -vmm` lines describes, if any.
pub open spec fn block_node(block: Seq<Seq<char>>, ascii_keys: bool) -> Option<NodeModel> {
    lspci_node(block_fields(block), ascii_keys)
}

/// Closing a block adds its node, if it has one.
proof fn lemma_close_block(done: Seq<Seq<Seq<char>>>, open: Seq<Seq<char>>, ascii_keys: bool)
    ensures
        lspci_flush(
            block_fields(open),
            done.filter_map(|b: Seq<Seq<char>>| block_node(b, ascii_keys)),
            ascii_keys,
        )
            == (if open.len() > 0 {
            done.push(open)
        } else {
            done
        }).filter_map(|b: Seq<Seq<char>>| block_node(b, ascii_keys)),
{
    let f = |l: Seq<char>| lspci_field(l);
    if open.len() > 0 {
        assert(done.push(open).drop_last() =~= done);
        assert(done.push(open).last() == open);
        if block_fields(open).len() == 0 {
            assert(crate::collectors::pci::first_value(block_fields(open), "Slot"@) is None);
        }
    } else {
        assert(open.filter_map(f) =~= Seq::<(Seq<char>, Seq<char>)>::empty());
    }
}

proof fn lemma_lspci_fold_blocks(ls: Seq<Seq<char>>, ascii_keys: bool)
    ensures
        lspci_fold(ls, ascii_keys) == (
            block_fields(split_blocks(ls).1),
            split_blocks(ls).0.filter_map(|b: Seq<Seq<char>>| block_node(b, ascii_keys)),
        ),
    decreases ls.len(),
{
    let g = |b: Seq<Seq<char>>| block_node(b, ascii_keys);
    let f = |l: Seq<char>| lspci_field(l);
    if ls.len() == 0 {
        assert(Seq::<Seq<char>>::empty().filter_map(f) =~= Seq::<(Seq<char>, Seq<char>)>::empty());
        assert(Seq::<Seq<Seq<char>>>::empty().filter_map(g) =~= Seq::<NodeModel>::empty());
    } else {
        lemma_lspci_fold_blocks(ls.drop_last(), ascii_keys);
        let (done, open) = split_blocks(ls.drop_last());
        let l = ls.last();
        if trim(l).len() == 0 {
            lemma_close_block(done, open, ascii_keys);
            assert(Seq::<Seq<char>>::empty().filter_map(f) =~= Seq::<(Seq<char>, Seq<char>)>::empty());
        } else {
            assert(open.push(l).drop_last() =~= open);
            assert(open.push(l).last() == l);
            match lspci_field(l) {
                Some(fl) => {
                    assert(block_fields(open.push(l)) =~= block_fields(open) + seq![fl]);
                    assert(block_fields(open) + seq![fl] =~= block_fields(open).push(fl));
                },
                None => {},
            }
        }
    }
}

/// `lspci -vmm` output gives one node per block of non-blank lines whose
/// fields have a `Slot`, in block order: a block without a slot, and lines
/// without a colon, add nothing, extra blank lines add nothing, and the last
/// block counts without a blank line after it.
pub proof fn law_lspci_one_node_per_block(output: Seq<char>, ascii_keys: bool)
    ensures
        lspci_nodes(output, ascii_keys) == line_blocks(lines(output)).filter_map(
            |b: Seq<Seq<char>>| block_node(b, ascii_keys),
        ),
{
    let ls = lines(output);
    lemma_lspci_fold_blocks(ls, ascii_keys);
    let (done, open) = split_blocks(ls);
    lemma_close_block(done, open, ascii_keys);
}

proof fn lemma_ascii_case_char(c: char)
    requires
        is_ascii_char(c),
    ensures
        is_ascii_char(ascii_upper_char(c)),
        ascii_lower_char(ascii_upper_char(c)) == ascii_lower_char(c),
{
    let u = c as u32;
    if 97 <= u && u <= 122 {
        let d = (u - 32) as char;
        assert(d as u32 == u - 32);
        assert(ascii_lower_char(d) as u32 == u);
    }
}

proof fn lemma_lower_title(t: Tab)
    ensures
        ascii_lowercase(tab_title(t)) == match t {
            Tab::Interfaces => "interfaces"@,
            Tab::Rdma => "rdma"@,
            Tab::Pci => "pci"@,
            Tab::Raw => "raw"@,
        },
{
    reveal_strlit("Interfaces");
    reveal_strlit("interfaces");
    reveal_strlit("RDMA");
    reveal_strlit("rdma");
    reveal_strlit("PCI");
    reveal_strlit("pci");
    reveal_strlit("Raw");
    reveal_strlit("raw");
    assert(ascii_lowercase("Interfaces"@) =~= "interfaces"@);
    assert(ascii_lowercase("RDMA"@) =~= "rdma"@);
    assert(ascii_lowercase("PCI"@) =~= "pci"@);
    assert(ascii_lowercase("Raw"@) =~= "raw"@);
}

/// For an ASCII configured name (which is what `Tab::from_config` reads as
/// `tab_named` of its ASCII lower-case): the name's case does not matter,
/// each tab's title selects that tab (the raw tab when it is shown), and the
/// raw tab is never selected while it is hidden.
pub proof fn law_config_tab_names(name: Seq<char>, t: Tab, show_raw: bool)
    requires
        all_ascii(name),
    ensures
        all_ascii(ascii_uppercase(name)),
        tab_named(ascii_lowercase(ascii_uppercase(name)), show_raw) == tab_named(
            ascii_lowercase(name),
            show_raw,
        ),
        all_ascii(tab_title(t)),
        tab_named(ascii_lowercase(tab_title(t)), true) == t,
        tab_named(ascii_lowercase(name), false) != Tab::Raw,
{
    assert forall|i: int| 0 <= i < ascii_uppercase(name).len() implies is_ascii_char(
        #[trigger] ascii_uppercase(name)[i],
    ) by {
        lemma_ascii_case_char(name[i]);
    }
    assert(ascii_lowercase(ascii_uppercase(name)) =~= ascii_lowercase(name)) by {
        assert forall|i: int| 0 <= i < name.len() implies #[trigger] ascii_lowercase(
            ascii_uppercase(name),
        )[i] == ascii_lowercase(name)[i] by {
            lemma_ascii_case_char(name[i]);
        }
    }
    reveal_strlit("Interfaces");
    reveal_strlit("RDMA");
    reveal_strlit("PCI");
    reveal_strlit("Raw");
    assert(all_ascii(tab_title(t)));
    lemma_lower_title(t);
    reveal_strlit("interfaces");
    reveal_strlit("rdma");
    reveal_strlit("pci");
    reveal_strlit("raw");
    assert("interfaces"@.len() != "rdma"@.len() && "interfaces"@.len() != "pci"@.len());
    assert("interfaces"@.len() != "raw"@.len() && "rdma"@.len() != "pci"@.len());
    assert("rdma"@.len() != "raw"@.len() && "pci"@[0] != "raw"@[0]);
}


/// Over a recording whose RDMA counters did not go down, each counter's
/// change is its own end value less its own start value.
pub proof fn law_rdma_delta_of_growing_counters(s: RdmaCounters, e: RdmaCounters)
    requires
        e.port_rcv_data >= s.port_rcv_data,
        e.port_xmit_data >= s.port_xmit_data,
        e.port_rcv_packets >= s.port_rcv_packets,
        e.port_xmit_packets >= s.port_xmit_packets,
        e.port_rcv_errors >= s.port_rcv_errors,
        e.port_xmit_discards >= s.port_xmit_discards,
        e.port_xmit_wait >= s.port_xmit_wait,
        e.np_cnp_sent >= s.np_cnp_sent,
        e.np_ecn_marked_roce_packets >= s.np_ecn_marked_roce_packets,
        e.rp_cnp_handled >= s.rp_cnp_handled,
        e.rp_cnp_ignored >= s.rp_cnp_ignored,
        e.out_of_buffer >= s.out_of_buffer,
        e.out_of_sequence >= s.out_of_sequence,
        e.packet_seq_err >= s.packet_seq_err,
        e.rnr_nak_retry_err >= s.rnr_nak_retry_err,
        e.req_transport_retries_exceeded >= s.req_transport_retries_exceeded,
        e.local_ack_timeout_err >= s.local_ack_timeout_err,
        e.rx_icrc_encapsulated >= s.rx_icrc_encapsulated,
    ensures
        s.port_rcv_data + rdma_counters_delta(s, e).port_rcv_data == e.port_rcv_data,
        s.port_xmit_data + rdma_counters_delta(s, e).port_xmit_data == e.port_xmit_data,
        s.port_rcv_packets + rdma_counters_delta(s, e).port_rcv_packets == e.port_rcv_packets,
        s.port_xmit_packets + rdma_counters_delta(s, e).port_xmit_packets == e.port_xmit_packets,
        s.port_rcv_errors + rdma_counters_delta(s, e).port_rcv_errors == e.port_rcv_errors,
        s.port_xmit_discards + rdma_counters_delta(s, e).port_xmit_discards == e.port_xmit_discards,
        s.port_xmit_wait + rdma_counters_delta(s, e).port_xmit_wait == e.port_xmit_wait,
        s.np_cnp_sent + rdma_counters_delta(s, e).np_cnp_sent == e.np_cnp_sent,
        s.np_ecn_marked_roce_packets + rdma_counters_delta(s, e).np_ecn_marked_roce_packets == e.np_ecn_marked_roce_packets,
        s.rp_cnp_handled + rdma_counters_delta(s, e).rp_cnp_handled == e.rp_cnp_handled,
        s.rp_cnp_ignored + rdma_counters_delta(s, e).rp_cnp_ignored == e.rp_cnp_ignored,
        s.out_of_buffer + rdma_counters_delta(s, e).out_of_buffer == e.out_of_buffer,
        s.out_of_sequence + rdma_counters_delta(s, e).out_of_sequence == e.out_of_sequence,
        s.packet_seq_err + rdma_counters_delta(s, e).packet_seq_err == e.packet_seq_err,
        s.rnr_nak_retry_err + rdma_counters_delta(s, e).rnr_nak_retry_err == e.rnr_nak_retry_err,
        s.req_transport_retries_exceeded + rdma_counters_delta(s, e).req_transport_retries_exceeded == e.req_transport_retries_exceeded,
        s.local_ack_timeout_err + rdma_counters_delta(s, e).local_ack_timeout_err == e.local_ack_timeout_err,
        s.rx_icrc_encapsulated + rdma_counters_delta(s, e).rx_icrc_encapsulated == e.rx_icrc_encapsulated,
{
}

/// Inside the `ibv_devinfo` block of a device, an indented `key: value` line
/// sets `fw_ver`, `node_guid` or `port_count` to its trimmed value exactly when
/// its trimmed key is `fw_ver`, `node_guid` or `phys_port_cnt`; a line with any
/// other key (such as `sys_image_guid`) changes no attribute.
pub proof fn law_devinfo_keys_are_exact(
    st: (bool, Map<Seq<char>, Seq<char>>),
    line: Seq<char>,
    device: Seq<char>,
    k: Seq<char>,
    v: Seq<char>,
    name: Seq<char>,
)
    requires
        st.0,
        starts_with(line, "\t"@) || starts_with(line, " "@),
        !starts_with(trim(line), "hca_id:"@),
        split_once_char(trim(line), ':') == Some((k, v)),
    ensures
        devinfo_step(st, line, device).0,
        devinfo_step(st, line, device).1.contains_key("fw_ver"@) == (trim(k) == "fw_ver"@
            || st.1.contains_key("fw_ver"@)),
        devinfo_step(st, line, device).1.contains_key("node_guid"@) == (trim(k) == "node_guid"@
            || st.1.contains_key("node_guid"@)),
        devinfo_step(st, line, device).1.contains_key("port_count"@) == (trim(k)
            == "phys_port_cnt"@ || st.1.contains_key("port_count"@)),
        trim(k) == "fw_ver"@ ==> devinfo_step(st, line, device).1["fw_ver"@] == trim(v),
        trim(k) == "node_guid"@ ==> devinfo_step(st, line, device).1["node_guid"@] == trim(v),
        trim(k) == "phys_port_cnt"@ ==> devinfo_step(st, line, device).1["port_count"@] == trim(v),
        trim(k) != "fw_ver"@ ==> devinfo_step(st, line, device).1["fw_ver"@] == st.1["fw_ver"@],
        trim(k) != "node_guid"@ ==> devinfo_step(st, line, device).1["node_guid"@]
            == st.1["node_guid"@],
        trim(k) != "phys_port_cnt"@ ==> devinfo_step(st, line, device).1["port_count"@]
            == st.1["port_count"@],
        name != "fw_ver"@ && name != "node_guid"@ && name != "port_count"@ ==> (devinfo_step(
            st,
            line,
            device,
        ).1.contains_key(name) == st.1.contains_key(name) && devinfo_step(st, line, device).1[name]
            == st.1[name]),
{
    reveal_strlit("fw_ver");
    reveal_strlit("node_guid");
    reveal_strlit("phys_port_cnt");
    reveal_strlit("port_count");
    assert("fw_ver"@ != "node_guid"@) by {
        assert("fw_ver"@[0] != "node_guid"@[0]);
    }
    assert("fw_ver"@ != "phys_port_cnt"@) by {
        assert("fw_ver"@[0] != "phys_port_cnt"@[0]);
    }
    assert("node_guid"@ != "phys_port_cnt"@) by {
        assert("node_guid"@[0] != "phys_port_cnt"@[0]);
    }
    assert("fw_ver"@ != "port_count"@) by {
        assert("fw_ver"@[0] != "port_count"@[0]);
    }
    assert("node_guid"@ != "port_count"@) by {
        assert("node_guid"@[0] != "port_count"@[0]);
    }
}


proof fn lemma_filter_membership(s: Seq<Node>, pred: spec_fn(Node) -> bool, x: Node)
    ensures
        s.filter(pred).contains(x) <==> s.contains(x) && pred(x),
{
    if s.filter(pred).contains(x) {
        s.lemma_filter_contains_rev(pred, x);
        let i = choose|i: int| 0 <= i < s.filter(pred).len() && s.filter(pred)[i] == x;
        s.lemma_filter_pred(pred, i);
    }
    if s.contains(x) && pred(x) {
        let i = choose|i: int| 0 <= i < s.len() && s[i] == x;
        s.lemma_filter_contains(pred, i);
    }
}

/// Which fields a search looks at: under a non-empty (lower-cased) search `q`
/// a node is listed exactly when the inventory holds it, it is of the tab's
/// type, and the lower-cased value of one of these attributes holds `q`: the
/// name (interfaces); the name, display name or port (RDMA); the PCI id,
/// vendor, device, class or driver (PCI).
pub proof fn law_search_fields(nodes: Seq<Node>, q: Seq<char>, n: Node)
    requires
        q.len() > 0,
    ensures
        filtered_nodes(nodes, Tab::Interfaces, q).contains(n) <==> nodes.contains(n)
            && n.node_type == NodeType::NetworkInterface && (n@.properties.contains_key("name"@)
            && contains_sub(lowercase(n@.properties["name"@]), q)),
        filtered_nodes(nodes, Tab::Rdma, q).contains(n) <==> nodes.contains(n) && n.node_type
            == NodeType::RdmaDevice && ((n@.properties.contains_key("name"@) && contains_sub(
            lowercase(n@.properties["name"@]),
            q,
        )) || (n@.properties.contains_key("display_name"@) && contains_sub(
            lowercase(n@.properties["display_name"@]),
            q,
        )) || (n@.properties.contains_key("port"@) && contains_sub(
            lowercase(n@.properties["port"@]),
            q,
        ))),
        filtered_nodes(nodes, Tab::Pci, q).contains(n) <==> nodes.contains(n) && n.node_type
            == NodeType::PciDevice && ((n@.properties.contains_key("pci_id"@) && contains_sub(
            lowercase(n@.properties["pci_id"@]),
            q,
        )) || (n@.properties.contains_key("vendor"@) && contains_sub(
            lowercase(n@.properties["vendor"@]),
            q,
        )) || (n@.properties.contains_key("device"@) && contains_sub(
            lowercase(n@.properties["device"@]),
            q,
        )) || (n@.properties.contains_key("class"@) && contains_sub(
            lowercase(n@.properties["class"@]),
            q,
        )) || (n@.properties.contains_key("driver"@) && contains_sub(
            lowercase(n@.properties["driver"@]),
            q,
        ))),
{
    let tabs = seq![Tab::Interfaces, Tab::Rdma, Tab::Pci];
    assert forall|i: int| 0 <= i < 3 implies {
        let tab = #[trigger] tabs[i];
        filtered_nodes(nodes, tab, q).contains(n) <==> nodes.contains(n) && n.node_type
            == tab_node_type(tab) && query_matches(n@, tab, q)
    } by {
        let tab = tabs[i];
        let t = tab_node_type(tab);
        lemma_filter_membership(nodes, |m: Node| m.node_type == t, n);
        lemma_filter_membership(nodes_of_type(nodes, t), |m: Node| query_matches(m@, tab, q), n);
    }
    assert(tabs[0] == Tab::Interfaces);
    assert(tabs[1] == Tab::Rdma);
    assert(tabs[2] == Tab::Pci);
}


/// A pattern that begins with a character absent from `a` is first found in
/// `a + p + r` right after `a`.
proof fn lemma_find_sub_after(a: Seq<char>, p: Seq<char>, r: Seq<char>)
    requires
        p.len() > 0,
        forall|i: int| 0 <= i < a.len() ==> #[trigger] a[i] != p[0],
    ensures
        find_sub(a + p + r, p) == Some(a.len() as int),
    decreases a.len(),
{
    let s = a + p + r;
    if a.len() == 0 {
        assert(s.take(p.len() as int) =~= p);
    } else {
        assert(s.take(p.len() as int)[0] == a[0]);
        assert(!starts_with(s, p));
        lemma_find_sub_after(a.drop_first(), p, r);
        assert(s.drop_first() =~= a.drop_first() + p + r);
    }
}

/// The digits of a number, after an optional `+`, hold no `_`.
proof fn lemma_number_has_no_underscore(ps: Seq<char>, max: int)
    requires
        parse_unsigned(ps, max) is Some,
    ensures
        forall|i: int| 0 <= i < ps.len() ==> #[trigger] ps[i] != '_',
{
    let d = unsigned_digits(ps);
    assert forall|i: int| 0 <= i < ps.len() implies #[trigger] ps[i] != '_' by {
        if ps.len() > 0 && ps[0] == '+' {
            if i > 0 {
                assert(d[i - 1] == ps[i]);
                assert(is_digit(d[i - 1]));
            }
        } else {
            assert(is_digit(d[i]));
        }
    }
}

/// An `ethtool -S` line `rx_prio<p>_packets: <v>` (or `tx_prio...`) sets the
/// received (or sent) pause counter of priority `p` to `v`, for every
/// priority below 8, and changes nothing else.
pub proof fn law_prio_counter_line_sets_its_priority(
    info: PfcModel,
    raw: Seq<char>,
    rx: bool,
    ps: Seq<char>,
    vs: Seq<char>,
    p: int,
    v: int,
)
    requires
        trim(raw) == (if rx {
            "rx_prio"@
        } else {
            "tx_prio"@
        }) + ps + "_packets:"@ + vs,
        parse_unsigned(ps, usize::MAX as int) == Some(p),
        p < 8,
        parse_unsigned(trim(vs), u64::MAX as int) == Some(v),
    ensures
        rx ==> ethtool_line(info, raw) == (PfcModel { rx_pfc: info.rx_pfc.update(p, v as u64), ..info }),
        !rx ==> ethtool_line(info, raw) == (PfcModel { tx_pfc: info.tx_pfc.update(p, v as u64), ..info }),
{
    reveal_strlit("rx_prio");
    reveal_strlit("tx_prio");
    reveal_strlit("_packets:");
    reveal_strlit("rx_global_pause:");
    reveal_strlit("tx_global_pause:");
    let pre = if rx {
        "rx_prio"@
    } else {
        "tx_prio"@
    };
    let line = trim(raw);
    let pat = "_packets:"@;
    let rest = ps + pat + vs;
    assert(line =~= pre + rest);
    assert(line.take(7) =~= pre);
    assert(line.skip(7) =~= rest);
    assert(strip_prefix(line, pre) == Some(rest));
    lemma_number_has_no_underscore(ps, usize::MAX as int);
    lemma_find_sub_after(ps, pat, vs);
    assert(rest.take(ps.len() as int) =~= ps);
    assert(rest.skip(ps.len() + pat.len() as int) =~= vs);
    assert(split_once_sub(rest, pat) == Some((ps, vs)));
    let other = if rx {
        "tx_prio"@
    } else {
        "rx_prio"@
    };
    assert(line.take(7)[0] != other[0]);
    assert(strip_prefix(line, other) is None);
    if line.len() >= 16 {
        assert(line.take(16)[3] != "rx_global_pause:"@[3]);
        assert(line.take(16)[3] != "tx_global_pause:"@[3]);
    }
    assert(strip_prefix(line, "rx_global_pause:"@) is None);
    assert(strip_prefix(line, "tx_global_pause:"@) is None);
}


/// A node that a list holds has a position there under its id.
proof fn lemma_node_position_of_member(ns: Seq<Node>, x: Node)
    requires
        ns.contains(x),
    ensures
        node_position(ns, x.id@) is Some,
    decreases ns.len(),
{
    if ns[0].id@ != x.id@ {
        let j = choose|j: int| 0 <= j < ns.len() && ns[j] == x;
        assert(j > 0);
        assert(ns.drop_first()[j - 1] == x);
        lemma_node_position_of_member(ns.drop_first(), x);
    }
}

/// The nodes connected to `id` of type `t` are those of the inventory of
/// that type that an edge links to `id`.
proof fn lemma_connected_of_type(inv: Inventory, id: Seq<char>, t: NodeType, m: Node)
    ensures
        nodes_of_type(connected_nodes(inv, id), t).contains(m) <==> inv.nodes@.contains(m)
            && linked(inv.edges@, id, m.id@) && m.node_type == t,
{
    lemma_filter_membership(inv.nodes@, |n: Node| linked(inv.edges@, id, n.id@), m);
    lemma_filter_membership(connected_nodes(inv, id), |n: Node| n.node_type == t, m);
}

/// Selecting a node of type `t` that the inventory holds shows it on the tab
/// of its type, selected, with the search cleared.
proof fn lemma_select_member(u: UiModel, inv: Inventory, t: Node)
    requires
        inv.nodes@.len() <= usize::MAX,
        inv.nodes@.contains(t),
        t.node_type != NodeType::DpdkDevice,
    ensures
        ({
            let a = after_select(u, inv, tab_of_type(t.node_type), t.id@);
            let listed = nodes_of_type(inv.nodes@, tab_node_type(tab_of_type(t.node_type)));
            &&& a.current_tab == tab_of_type(t.node_type)
            &&& a.search_query == Seq::<char>::empty()
            &&& a.selected_index < listed.len()
            &&& listed[a.selected_index as int].id@ == t.id@
        }),
{
    let tab = tab_of_type(t.node_type);
    let listed = nodes_of_type(inv.nodes@, tab_node_type(tab));
    law_search_narrows(inv.nodes@, tab, Seq::empty());
    assert(tab_node_type(tab) == t.node_type);
    lemma_filter_membership(inv.nodes@, |n: Node| n.node_type == t.node_type, t);
    lemma_node_position_of_member(listed, t);
    lemma_node_position(listed, t.id@);
    inv.nodes@.lemma_filter_len(|n: Node| n.node_type == t.node_type);
}

/// Moving left or right from an interface selects a device that an edge
/// links to it: one of the preferred type (PCI for left, RDMA for right) when
/// there is one, else one of the other type; the view moves to that type's
/// tab, with the search cleared.
pub proof fn law_navigation_reaches_connected_device(
    u: UiModel,
    inv: Inventory,
    dir: DirectionHint,
    id: Seq<char>,
    d: Node,
)
    requires
        inv.nodes@.len() <= usize::MAX,
        u.current_tab == Tab::Interfaces,
        selected_id(u, inv) == Some(id),
        inv.nodes@.contains(d),
        linked(inv.edges@, id, d.id@),
        d.node_type == NodeType::PciDevice || d.node_type == NodeType::RdmaDevice,
    ensures
        ({
            let primary = match dir {
                DirectionHint::Left => NodeType::PciDevice,
                DirectionHint::Right => NodeType::RdmaDevice,
            };
            let fallback = match dir {
                DirectionHint::Left => NodeType::RdmaDevice,
                DirectionHint::Right => NodeType::PciDevice,
            };
            let want = if exists|m: Node|
                #![trigger linked(inv.edges@, id, m.id@)]
                inv.nodes@.contains(m) && linked(inv.edges@, id, m.id@) && m.node_type == primary {
                primary
            } else {
                fallback
            };
            let a = after_navigate(u, inv, dir);
            let listed = nodes_of_type(inv.nodes@, want);
            &&& a.current_tab == (if want == NodeType::PciDevice {
                Tab::Pci
            } else {
                Tab::Rdma
            })
            &&& a.search_query == Seq::<char>::empty()
            &&& a.selected_index < listed.len()
            &&& linked(inv.edges@, id, listed[a.selected_index as int].id@)
        }),
{
    let primary = match dir {
        DirectionHint::Left => NodeType::PciDevice,
        DirectionHint::Right => NodeType::RdmaDevice,
    };
    let fallback = match dir {
        DirectionHint::Left => NodeType::RdmaDevice,
        DirectionHint::Right => NodeType::PciDevice,
    };
    let has_primary = exists|m: Node|
        #![trigger linked(inv.edges@, id, m.id@)]
        inv.nodes@.contains(m) && linked(inv.edges@, id, m.id@) && m.node_type == primary;
    let want = if has_primary {
        primary
    } else {
        fallback
    };
    let cp = nodes_of_type(connected_nodes(inv, id), primary);
    let cf = nodes_of_type(connected_nodes(inv, id), fallback);
    let t = if has_primary {
        let m = choose|m: Node|
            #![trigger linked(inv.edges@, id, m.id@)]
            inv.nodes@.contains(m) && linked(inv.edges@, id, m.id@) && m.node_type == primary;
        lemma_connected_of_type(inv, id, primary, m);
        assert(cp.len() > 0);
        lemma_connected_of_type(inv, id, primary, cp[0]);
        assert(cp.contains(cp[0]));
        assert(first_connected(inv, id, primary) == Some(cp[0]));
        cp[0]
    } else {
        if cp.len() > 0 {
            assert(cp.contains(cp[0]));
            lemma_connected_of_type(inv, id, primary, cp[0]);
            assert(linked(inv.edges@, id, cp[0].id@));
            assert(false);
        }
        assert(first_connected(inv, id, primary) is None);
        assert(d.node_type == fallback);
        lemma_connected_of_type(inv, id, fallback, d);
        assert(cf.len() > 0);
        lemma_connected_of_type(inv, id, fallback, cf[0]);
        assert(cf.contains(cf[0]));
        assert(first_connected(inv, id, fallback) == Some(cf[0]));
        cf[0]
    };
    assert(inv.nodes@.contains(t) && linked(inv.edges@, id, t.id@) && t.node_type == want);
    lemma_select_member(u, inv, t);
    assert(after_navigate(u, inv, dir) == after_select(u, inv, tab_of_type(t.node_type), t.id@));
    let a = after_navigate(u, inv, dir);
    let listed = nodes_of_type(inv.nodes@, want);
    assert(tab_node_type(tab_of_type(want)) == want) by {
        match dir {
            DirectionHint::Left => {},
            DirectionHint::Right => {},
        }
    }
    assert(listed[a.selected_index as int].id@ == t.id@);
}


/// Moving left or right from an RDMA or PCI device that an edge links to an
/// interface selects such an interface on the interfaces tab, with the search
/// cleared.
pub proof fn law_navigation_back_to_interface(
    u: UiModel,
    inv: Inventory,
    dir: DirectionHint,
    id: Seq<char>,
    d: Node,
)
    requires
        inv.nodes@.len() <= usize::MAX,
        u.current_tab == Tab::Rdma || u.current_tab == Tab::Pci,
        selected_id(u, inv) == Some(id),
        inv.nodes@.contains(d),
        linked(inv.edges@, id, d.id@),
        d.node_type == NodeType::NetworkInterface,
    ensures
        ({
            let a = after_navigate(u, inv, dir);
            let listed = nodes_of_type(inv.nodes@, NodeType::NetworkInterface);
            &&& a.current_tab == Tab::Interfaces
            &&& a.search_query == Seq::<char>::empty()
            &&& a.selected_index < listed.len()
            &&& linked(inv.edges@, id, listed[a.selected_index as int].id@)
        }),
{
    let t = NodeType::NetworkInterface;
    let cs = nodes_of_type(connected_nodes(inv, id), t);
    lemma_connected_of_type(inv, id, t, d);
    assert(cs.len() > 0);
    lemma_connected_of_type(inv, id, t, cs[0]);
    assert(cs.contains(cs[0]));
    assert(first_connected(inv, id, t) == Some(cs[0]));
    lemma_select_member(u, inv, cs[0]);
}

/// An `ethtool -S` line `rx_global_pause: <v>` (or `tx_global_pause:`) sets
/// the received (or sent) global pause count to `v` and changes nothing else.
pub proof fn law_global_pause_line(info: PfcModel, raw: Seq<char>, rx: bool, vs: Seq<char>, v: int)
    requires
        trim(raw) == (if rx {
            "rx_global_pause:"@
        } else {
            "tx_global_pause:"@
        }) + vs,
        parse_unsigned(trim(vs), u64::MAX as int) == Some(v),
    ensures
        rx ==> ethtool_line(info, raw) == (PfcModel { rx_pause: v as u64, ..info }),
        !rx ==> ethtool_line(info, raw) == (PfcModel { tx_pause: v as u64, ..info }),
{
    reveal_strlit("rx_prio");
    reveal_strlit("tx_prio");
    reveal_strlit("rx_global_pause:");
    reveal_strlit("tx_global_pause:");
    let pre = if rx {
        "rx_global_pause:"@
    } else {
        "tx_global_pause:"@
    };
    let line = trim(raw);
    assert(line.take(16) =~= pre);
    assert(line.skip(16) =~= vs);
    assert(line.take(7)[3] != "rx_prio"@[3]);
    assert(line.take(7)[3] != "tx_prio"@[3]);
    assert(strip_prefix(line, "rx_prio"@) is None);
    assert(strip_prefix(line, "tx_prio"@) is None);
    if rx {
        assert(strip_prefix(line, "rx_global_pause:"@) == Some(vs));
    } else {
        assert(line.take(16)[0] != "rx_global_pause:"@[0]);
        assert(strip_prefix(line, "rx_global_pause:"@) is None);
        assert(strip_prefix(line, "tx_global_pause:"@) == Some(vs));
    }
}

/// `ibv_devinfo` blocks: an `hca_id:` line opens the block of the device it
/// names and closes any other, changing no attribute; outside the block of
/// the device, lines change nothing.
pub proof fn law_devinfo_blocks(
    st: (bool, Map<Seq<char>, Seq<char>>),
    line: Seq<char>,
    device: Seq<char>,
    rest: Seq<char>,
)
    ensures
        trim(line) == "hca_id:"@ + rest ==> devinfo_step(st, line, device) == (
            words(trim(line)).len() > 1 && words(trim(line))[1] == device,
            st.1,
        ),
        !st.0 && !starts_with(trim(line), "hca_id:"@) ==> devinfo_step(st, line, device) == st,
{
    if trim(line) == "hca_id:"@ + rest {
        assert(trim(line).take("hca_id:"@.len() as int) =~= "hca_id:"@);
    }
}

} // verus!
