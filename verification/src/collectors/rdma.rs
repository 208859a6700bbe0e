//! RDMA devices: their transport, `ibv_devinfo` attributes, the netdevs that
//! `rdma link` maps them to, and the PFC state of those netdevs.
use vstd::prelude::*;

use crate::data::{
    Edge, EdgeModel, EdgeType, Node, NodeModel, NodeType, PfcInfo, PfcModel, edge_models,
};
use crate::text::{
    chars_of, chars_eq, find_char, find_char_in, lemma_find_char, lines, parse_unsigned,
    parse_unsigned_in, prefixed_string, split_lines, split_once_char, split_once_char_in,
    split_once_sub, split_once_sub_in, split_words, starts_with, starts_with_chars,
    strip_prefix, strip_prefix_in, string_of, sub_chars, trim, trim_chars, views, words,
};

verus! {

/// Collects RDMA devices.
pub struct RdmaCollector;

impl RdmaCollector {
    pub fn new() -> (r: Self) {
        RdmaCollector
    }
}

/// The transport that a port's `link_layer` file names: `InfiniBand`, or
/// `RoCE` for `Ethernet`, and `Unknown` otherwise or when it could not be read.
pub open spec fn transport_of(link_layer: Option<Seq<char>>) -> Seq<char> {
    match link_layer {
        Some(s) => if trim(s) == "InfiniBand"@ {
            "InfiniBand"@
        } else if trim(s) == "Ethernet"@ {
            "RoCE"@
        } else {
            "Unknown"@
        },
        None => "Unknown"@,
    }
}

/// The RDMA transport that a port's link layer file names.
pub fn transport_from_link_layer(link_layer: Option<&str>) -> (r: &'static str)
    ensures
        r@ == transport_of(
            match link_layer {
                Some(s) => Some(s@),
                None => None,
            },
        ),
{
    match link_layer {
        Some(s) => {
            let t = trim_chars(&chars_of(s));
            if chars_eq(&t, &chars_of("InfiniBand")) {
                "InfiniBand"
            } else if chars_eq(&t, &chars_of("Ethernet")) {
                "RoCE"
            } else {
                "Unknown"
            }
        },
        None => "Unknown",
    }
}

/// What one line of `ibv_devinfo` output does to the attributes of `device`:
/// an `hca_id:` line starts the block of the device it names; inside the
/// block of `device`, an indented `fw_ver`, `node_guid` or `phys_port_cnt`
/// field sets `fw_ver`, `node_guid` or `port_count`.
pub open spec fn devinfo_step(
    st: (bool, Map<Seq<char>, Seq<char>>),
    line: Seq<char>,
    device: Seq<char>,
) -> (bool, Map<Seq<char>, Seq<char>>) {
    let t = trim(line);
    if starts_with(t, "hca_id:"@) {
        (words(t).len() > 1 && words(t)[1] == device, st.1)
    } else if !st.0 {
        st
    } else if !(starts_with(line, "\t"@) || starts_with(line, " "@)) {
        st
    } else {
        match split_once_char(t, ':') {
            Some((k, v)) => {
                let key = trim(k);
                let val = trim(v);
                if key == "fw_ver"@ {
                    (st.0, st.1.insert("fw_ver"@, val))
                } else if key == "node_guid"@ {
                    (st.0, st.1.insert("node_guid"@, val))
                } else if key == "phys_port_cnt"@ {
                    (st.0, st.1.insert("port_count"@, val))
                } else {
                    st
                }
            },
            None => st,
        }
    }
}

pub open spec fn devinfo_fold(
    ls: Seq<Seq<char>>,
    device: Seq<char>,
    props: Map<Seq<char>, Seq<char>>,
) -> (bool, Map<Seq<char>, Seq<char>>)
    decreases ls.len(),
{
    if ls.len() == 0 {
        (false, props)
    } else {
        devinfo_step(devinfo_fold(ls.drop_last(), device, props), ls.last(), device)
    }
}

/// The attributes `props` with those that `ibv_devinfo` output gives for `device`.
pub open spec fn devinfo_properties(
    devinfo: Seq<char>,
    device: Seq<char>,
    props: Map<Seq<char>, Seq<char>>,
) -> Map<Seq<char>, Seq<char>> {
    devinfo_fold(lines(devinfo), device, props).1
}

/// Adds to `node` the attributes that the `ibv_devinfo` block of `device_name` gives.
pub fn enrich_from_devinfo(node: &mut Node, devinfo: &str, device_name: &str)
    ensures
        final(node)@ == (NodeModel {
            properties: devinfo_properties(devinfo@, device_name@, old(node)@.properties),
            ..old(node)@
        }),
{
    let ls = split_lines(&chars_of(devinfo));
    let device = chars_of(device_name);
    let hca = chars_of("hca_id:");
    let tab = chars_of("\t");
    let space = chars_of(" ");
    let fw_ver = chars_of("fw_ver");
    let node_guid = chars_of("node_guid");
    let port_cnt = chars_of("phys_port_cnt");
    let ghost props0 = node@.properties;
    let ghost id0 = node@.id;
    let ghost ty0 = node@.node_type;
    let mut in_block = false;
    let mut i: usize = 0;
    while i < ls.len()
        invariant
            i <= ls@.len(),
            views(ls@) == lines(devinfo@),
            device@ == device_name@,
            hca@ == "hca_id:"@,
            tab@ == "\t"@,
            space@ == " "@,
            fw_ver@ == "fw_ver"@,
            node_guid@ == "node_guid"@,
            port_cnt@ == "phys_port_cnt"@,
            node@.id == id0,
            node@.node_type == ty0,
            (in_block, node@.properties) == devinfo_fold(
                views(ls@).take(i as int),
                device_name@,
                props0,
            ),
        decreases ls@.len() - i,
    {
        let line = &ls[i];
        proof {
            assert(views(ls@).take(i + 1).drop_last() =~= views(ls@).take(i as int));
            assert(views(ls@).take(i + 1).last() == line@);
        }
        let t = trim_chars(line);
        if starts_with_chars(&t, &hca) {
            let ws = split_words(&t);
            assert(views(ws@) == words(t@));
            in_block = ws.len() > 1 && chars_eq(&ws[1], &device);
        } else if in_block && (starts_with_chars(line, &tab) || starts_with_chars(line, &space)) {
            match split_once_char_in(&t, ':') {
                Some((k, v)) => {
                    let key = trim_chars(&k);
                    let val = string_of(&trim_chars(&v));
                    if chars_eq(&key, &fw_ver) {
                        crate::table::table_insert(
                            &mut node.properties,
                            String::from_str("fw_ver"),
                            val,
                        );
                    } else if chars_eq(&key, &node_guid) {
                        crate::table::table_insert(
                            &mut node.properties,
                            String::from_str("node_guid"),
                            val,
                        );
                    } else if chars_eq(&key, &port_cnt) {
                        crate::table::table_insert(
                            &mut node.properties,
                            String::from_str("port_count"),
                            val,
                        );
                    }
                },
                None => {},
            }
        }
        i += 1;
    }
    assert(views(ls@).take(i as int) =~= views(ls@));
}

/// The node of an RDMA device: id `rdma:<name>`, its name and transport, and
/// the attributes that `ibv_devinfo` output gives for it.
pub open spec fn rdma_device_node(
    name: Seq<char>,
    link_layer: Option<Seq<char>>,
    devinfo: Seq<char>,
) -> NodeModel {
    let props = Map::<Seq<char>, Seq<char>>::empty().insert("name"@, name).insert(
        "transport"@,
        transport_of(link_layer),
    );
    NodeModel {
        id: "rdma:"@ + name,
        node_type: NodeType::RdmaDevice,
        properties: if devinfo.len() == 0 {
            props
        } else {
            devinfo_properties(devinfo, name, props)
        },
    }
}

/// The node of RDMA device `device_name`, given the content of its port's
/// `link_layer` file (if it could be read) and the `ibv_devinfo` output
/// (empty if it could not be had).
pub fn rdma_device_to_node(device_name: &str, link_layer: Option<&str>, devinfo: &str) -> (r: Node)
    ensures
        r@ == rdma_device_node(
            device_name@,
            match link_layer {
                Some(s) => Some(s@),
                None => None,
            },
            devinfo@,
        ),
{
    let transport = transport_from_link_layer(link_layer);
    let mut node = Node::new(
        prefixed_string("rdma:", &chars_of(device_name)),
        NodeType::RdmaDevice,
    ).with_property("name", device_name).with_property("transport", transport);
    if !devinfo.is_empty() {
        enrich_from_devinfo(&mut node, devinfo, device_name);
    }
    node
}

/// The position of the first word equal to `w`.
pub open spec fn word_index(ws: Seq<Seq<char>>, w: Seq<char>) -> Option<int>
    decreases ws.len(),
{
    if ws.len() == 0 {
        None
    } else if ws[0] == w {
        Some(0)
    } else {
        match word_index(ws.drop_first(), w) {
            Some(i) => Some(i + 1),
            None => None,
        }
    }
}

pub proof fn lemma_word_index(ws: Seq<Seq<char>>, w: Seq<char>)
    ensures
        match word_index(ws, w) {
            Some(i) => 0 <= i < ws.len() && ws[i] == w,
            None => true,
        },
    decreases ws.len(),
{
    if ws.len() > 0 && ws[0] != w {
        lemma_word_index(ws.drop_first(), w);
    }
}

/// The RDMA-to-netdev mapping that a line of `rdma link` output shows, such as
/// `link mlx5_0/1 state ACTIVE ... netdev ens24np0`: the device is the second
/// word up to its first `/`, the netdev the word after the first `netdev`.
pub open spec fn rdma_link_edge(line: Seq<char>) -> Option<EdgeModel> {
    let parts = words(line);
    if parts.len() < 2 {
        None
    } else {
        let dev = match find_char(parts[1], '/') {
            Some(i) => parts[1].take(i),
            None => parts[1],
        };
        if dev.len() == 0 {
            None
        } else {
            match word_index(parts, "netdev"@) {
                Some(p) => if p + 1 < parts.len() {
                    Some(
                        EdgeModel {
                            from: "rdma:"@ + dev,
                            to: "netdev:"@ + parts[p + 1],
                            edge_type: EdgeType::RdmaMapping,
                            properties: Map::empty(),
                        },
                    )
                } else {
                    None
                },
                None => None,
            }
        }
    }
}

/// The mappings that `rdma link` output shows, in order.
pub open spec fn rdma_link_edges(output: Seq<char>) -> Seq<EdgeModel> {
    lines(output).filter_map(|l: Seq<char>| rdma_link_edge(l))
}

/// The RDMA-to-netdev edge of one line of `rdma link` output.
pub fn rdma_link_line_to_edge(line: &Vec<char>) -> (r: Option<Edge>)
    ensures
        match r {
            Some(e) => rdma_link_edge(line@) == Some(e@),
            None => rdma_link_edge(line@) is None,
        },
{
    let parts = split_words(line);
    let ghost ws = views(parts@);
    assert(ws == words(line@));
    if parts.len() < 2 {
        return None;
    }
    assert(ws[1] == parts@[1]@);
    let dev = match find_char_in(&parts[1], '/') {
        Some(i) => {
            proof {
                lemma_find_char(parts@[1]@, '/');
            }
            sub_chars(&parts[1], 0, i)
        },
        None => sub_chars(&parts[1], 0, parts[1].len()),
    };
    assert(parts@[1]@.subrange(0, parts@[1]@.len() as int) =~= parts@[1]@);
    if dev.len() == 0 {
        return None;
    }
    let netdev_word = chars_of("netdev");
    let mut k: usize = 0;
    assert(ws.skip(0) =~= ws);
    while k < parts.len() && !chars_eq(&parts[k], &netdev_word)
        invariant
            k <= parts@.len(),
            ws == views(parts@),
            netdev_word@ == "netdev"@,
            word_index(ws, "netdev"@) == match word_index(ws.skip(k as int), "netdev"@) {
                Some(j) => Some(j + k),
                None => None,
            },
        decreases parts@.len() - k,
    {
        assert(ws.skip(k as int).drop_first() =~= ws.skip(k + 1));
        assert(ws.skip(k as int)[0] == parts@[k as int]@);
        k += 1;
    }
    if k == parts.len() {
        assert(ws.skip(k as int) =~= Seq::<Seq<char>>::empty());
        return None;
    }
    assert(ws.skip(k as int)[0] == parts@[k as int]@);
    if k + 1 < parts.len() {
        assert(ws[k + 1] == parts@[k + 1]@);
        Some(
            Edge::new(
                prefixed_string("rdma:", &dev),
                prefixed_string("netdev:", &parts[k + 1]),
                EdgeType::RdmaMapping,
            ),
        )
    } else {
        None
    }
}

/// The RDMA-to-netdev edges of `rdma link` output, one per line that names both.
pub fn parse_rdma_link_output(output: &str) -> (r: Vec<Edge>)
    ensures
        edge_models(r@) == rdma_link_edges(output@),
{
    let ls = split_lines(&chars_of(output));
    let ghost f = |l: Seq<char>| rdma_link_edge(l);
    let mut edges: Vec<Edge> = Vec::new();
    let mut i: usize = 0;
    while i < ls.len()
        invariant
            i <= ls@.len(),
            views(ls@) == lines(output@),
            f == (|l: Seq<char>| rdma_link_edge(l)),
            edge_models(edges@) == views(ls@).take(i as int).filter_map(f),
        decreases ls@.len() - i,
    {
        let line = &ls[i];
        assert(views(ls@)[i as int] == line@);
        proof {
            views(ls@).lemma_filter_map_take_succ(f, i as int);
        }
        let ghost prev = edge_models(edges@);
        match rdma_link_line_to_edge(line) {
            Some(e) => {
                edges.push(e);
                assert(edge_models(edges@) =~= prev + seq![e@]);
            },
            None => {
                assert(prev + Seq::<EdgeModel>::empty() =~= prev);
            },
        }
        i += 1;
    }
    assert(views(ls@).take(i as int) =~= views(ls@));
    edges
}

/// The RDMA-to-netdev edge that a port's `gid_attrs/ndevs/0` file shows:
/// its trimmed content names the netdev, if it is not empty.
pub fn rdma_edge_from_ndev(rdma_dev: &str, ndev: &str) -> (r: Option<Edge>)
    ensures
        match r {
            Some(e) => trim(ndev@).len() > 0 && e@ == (EdgeModel {
                from: "rdma:"@ + rdma_dev@,
                to: "netdev:"@ + trim(ndev@),
                edge_type: EdgeType::RdmaMapping,
                properties: Map::empty(),
            }),
            None => trim(ndev@).len() == 0,
        },
{
    let t = trim_chars(&chars_of(ndev));
    if t.len() == 0 {
        None
    } else {
        Some(
            Edge::new(
                prefixed_string("rdma:", &chars_of(rdma_dev)),
                prefixed_string("netdev:", &t),
                EdgeType::RdmaMapping,
            ),
        )
    }
}

/// The netdev that an edge leads to, if its `to` end is a `netdev:` id.
pub fn netdev_of_edge(edge: &Edge) -> (r: Option<String>)
    ensures
        match r {
            Some(n) => strip_prefix(edge.to@, "netdev:"@) == Some(n@),
            None => strip_prefix(edge.to@, "netdev:"@) is None,
        },
{
    match strip_prefix_in(&chars_of(edge.to.as_str()), &chars_of("netdev:")) {
        Some(n) => Some(string_of(&n)),
        None => None,
    }
}

// ---------------------------------------------------------------- PFC

/// A number read as `str::parse` reads it, or 0 where it is none.
pub open spec fn number_or_zero(s: Seq<char>, max: int) -> int {
    match parse_unsigned(s, max) {
        Some(v) => v,
        None => 0,
    }
}

/// What a `prio-pfc` token `<prio>:<state>` does: a priority below 8 is
/// enabled when the state is `on` and disabled otherwise.
pub open spec fn prio_token(info: PfcModel, tok: Seq<char>) -> PfcModel {
    match split_once_char(tok, ':') {
        Some((p, state)) => match parse_unsigned(p, usize::MAX as int) {
            Some(n) => if n < 8 {
                PfcModel { prio_enabled: info.prio_enabled.update(n, state == "on"@), ..info }
            } else {
                info
            },
            None => info,
        },
        None => info,
    }
}

pub open spec fn prio_tokens(info: PfcModel, toks: Seq<Seq<char>>) -> PfcModel
    decreases toks.len(),
{
    if toks.len() == 0 {
        info
    } else {
        prio_token(prio_tokens(info, toks.drop_last()), toks.last())
    }
}

/// The words after the first one.
pub open spec fn rest_of_words(ws: Seq<Seq<char>>) -> Seq<Seq<char>> {
    if ws.len() == 0 {
        Seq::empty()
    } else {
        ws.skip(1)
    }
}

/// What one line of `dcb pfc show dev <netdev>` output does: `pfc-cap <n>`
/// sets the capability, `prio-pfc 0:off 1:on ...` the enabled priorities.
pub open spec fn dcb_line(info: PfcModel, raw: Seq<char>) -> PfcModel {
    let line = trim(raw);
    if starts_with(line, "pfc-cap"@) {
        if words(line).len() > 1 {
            PfcModel { pfc_cap: number_or_zero(words(line)[1], 255) as u8, ..info }
        } else {
            info
        }
    } else if starts_with(line, "prio-pfc"@) {
        prio_tokens(info, rest_of_words(words(line)))
    } else {
        info
    }
}

/// What a `<prefix><prio>_packets: <count>` line does to the per-priority
/// counters (`rx` chooses the received or the sent ones).
pub open spec fn prio_counter(info: PfcModel, line: Seq<char>, prefix: Seq<char>, rx: bool) -> PfcModel {
    match strip_prefix(line, prefix) {
        Some(rest) => match split_once_sub(rest, "_packets:"@) {
            Some((ps, vs)) => match (
                parse_unsigned(ps, usize::MAX as int),
                parse_unsigned(trim(vs), u64::MAX as int),
            ) {
                (Some(p), Some(v)) => if p < 8 {
                    if rx {
                        PfcModel { rx_pfc: info.rx_pfc.update(p, v as u64), ..info }
                    } else {
                        PfcModel { tx_pfc: info.tx_pfc.update(p, v as u64), ..info }
                    }
                } else {
                    info
                },
                _ => info,
            },
            None => info,
        },
        None => info,
    }
}

/// What one line of `ethtool -S <netdev>` output does: per-priority pause
/// counters `rx_prio<N>_packets` / `tx_prio<N>_packets` and the global
/// `rx_global_pause` / `tx_global_pause` counters.
pub open spec fn ethtool_line(info: PfcModel, raw: Seq<char>) -> PfcModel {
    let line = trim(raw);
    let b = prio_counter(prio_counter(info, line, "rx_prio"@, true), line, "tx_prio"@, false);
    match strip_prefix(line, "rx_global_pause:"@) {
        Some(v) => PfcModel { rx_pause: number_or_zero(trim(v), u64::MAX as int) as u64, ..b },
        None => match strip_prefix(line, "tx_global_pause:"@) {
            Some(v) => PfcModel {
                tx_pause: number_or_zero(trim(v), u64::MAX as int) as u64,
                ..b
            },
            None => b,
        },
    }
}

pub open spec fn dcb_fold(info: PfcModel, ls: Seq<Seq<char>>) -> PfcModel
    decreases ls.len(),
{
    if ls.len() == 0 {
        info
    } else {
        dcb_line(dcb_fold(info, ls.drop_last()), ls.last())
    }
}

pub open spec fn ethtool_fold(info: PfcModel, ls: Seq<Seq<char>>) -> PfcModel
    decreases ls.len(),
{
    if ls.len() == 0 {
        info
    } else {
        ethtool_line(ethtool_fold(info, ls.drop_last()), ls.last())
    }
}

/// The PFC information of a netdev, given the output of `dcb pfc show dev`
/// and of `ethtool -S` for it (each `None` when the command could not run).
pub open spec fn pfc_from(dcb: Option<Seq<char>>, ethtool: Option<Seq<char>>) -> PfcModel {
    let a = match dcb {
        Some(o) => dcb_fold(PfcModel::zero(), lines(o)),
        None => PfcModel::zero(),
    };
    match ethtool {
        Some(o) => ethtool_fold(a, lines(o)),
        None => a,
    }
}


fn apply_prio_token(info: &mut PfcInfo, tok: &Vec<char>)
    ensures
        final(info)@ == prio_token(old(info)@, tok@),
{
    match split_once_char_in(tok, ':') {
        Some((p, state)) => match parse_unsigned_in(&p, usize::MAX as u64) {
            Some(n) => {
                if n < 8 {
                    let on = chars_eq(&state, &chars_of("on"));
                    info.prio_enabled[n as usize] = on;
                    assert(info@.prio_enabled =~= old(info)@.prio_enabled.update(n as int, on));
                }
            },
            None => {},
        },
        None => {},
    }
}

fn apply_dcb_line(info: &mut PfcInfo, raw: &Vec<char>)
    ensures
        final(info)@ == dcb_line(old(info)@, raw@),
{
    let line = trim_chars(raw);
    if starts_with_chars(&line, &chars_of("pfc-cap")) {
        let ws = split_words(&line);
        assert(views(ws@) == words(line@));
        if ws.len() > 1 {
            assert(ws@[1]@ == words(line@)[1]);
            info.pfc_cap = match parse_unsigned_in(&ws[1], 255) {
                Some(v) => v as u8,
                None => 0,
            };
        }
    } else if starts_with_chars(&line, &chars_of("prio-pfc")) {
        let ws = split_words(&line);
        let ghost toks = rest_of_words(views(ws@));
        assert(views(ws@) == words(line@));
        let ghost start = info@;
        let mut j: usize = 1;
        assert(toks.take(0) =~= Seq::<Seq<char>>::empty());
        if ws.len() == 0 {
            assert(toks.take(0) =~= toks);
        }
        while j < ws.len()
            invariant
                1 <= j <= ws@.len() || (j == 1 && ws@.len() == 0),
                toks == rest_of_words(views(ws@)),
                ws@.len() > 0 ==> toks == views(ws@).skip(1),
                info@ == prio_tokens(start, toks.take(j - 1)),
            decreases ws@.len() - j,
        {
            proof {
                assert(toks.take(j as int).drop_last() =~= toks.take(j - 1));
                assert(toks.take(j as int).last() == ws@[j as int]@);
            }
            apply_prio_token(info, &ws[j]);
            j += 1;
        }
        if ws.len() > 0 {
            assert(toks.take(j - 1) =~= toks);
        }
    }
}

fn apply_prio_counter(info: &mut PfcInfo, line: &Vec<char>, prefix: &Vec<char>, rx: bool)
    ensures
        final(info)@ == prio_counter(old(info)@, line@, prefix@, rx),
{
    match strip_prefix_in(line, prefix) {
        Some(rest) => match split_once_sub_in(&rest, &chars_of("_packets:")) {
            Some((ps, vs)) => {
                let p = parse_unsigned_in(&ps, usize::MAX as u64);
                let v = parse_unsigned_in(&trim_chars(&vs), u64::MAX);
                match (p, v) {
                    (Some(p), Some(v)) => {
                        if p < 8 {
                            if rx {
                                info.rx_pfc[p as usize] = v;
                                assert(info@.rx_pfc =~= old(info)@.rx_pfc.update(p as int, v));
                            } else {
                                info.tx_pfc[p as usize] = v;
                                assert(info@.tx_pfc =~= old(info)@.tx_pfc.update(p as int, v));
                            }
                        }
                    },
                    _ => {},
                }
            },
            None => {},
        },
        None => {},
    }
}

fn apply_ethtool_line(info: &mut PfcInfo, raw: &Vec<char>)
    ensures
        final(info)@ == ethtool_line(old(info)@, raw@),
{
    let line = trim_chars(raw);
    apply_prio_counter(info, &line, &chars_of("rx_prio"), true);
    apply_prio_counter(info, &line, &chars_of("tx_prio"), false);
    match strip_prefix_in(&line, &chars_of("rx_global_pause:")) {
        Some(v) => {
            info.rx_pause = match parse_unsigned_in(&trim_chars(&v), u64::MAX) {
                Some(n) => n,
                None => 0,
            };
        },
        None => match strip_prefix_in(&line, &chars_of("tx_global_pause:")) {
            Some(v) => {
                info.tx_pause = match parse_unsigned_in(&trim_chars(&v), u64::MAX) {
                    Some(n) => n,
                    None => 0,
                };
            },
            None => {},
        },
    }
}

/// The PFC settings and counters of a netdev, from the output of
/// `dcb pfc show dev <netdev>` and of `ethtool -S <netdev>` (each `None`
/// when the command could not be run).
pub fn collect_pfc_from(dcb: Option<&str>, ethtool: Option<&str>) -> (r: PfcInfo)
    ensures
        r@ == pfc_from(
            match dcb {
                Some(s) => Some(s@),
                None => None,
            },
            match ethtool {
                Some(s) => Some(s@),
                None => None,
            },
        ),
{
    let mut info = PfcInfo::default();
    match dcb {
        Some(out) => {
            let ls = split_lines(&chars_of(out));
            let mut i: usize = 0;
            while i < ls.len()
                invariant
                    i <= ls@.len(),
                    views(ls@) == lines(out@),
                    info@ == dcb_fold(PfcModel::zero(), views(ls@).take(i as int)),
                decreases ls@.len() - i,
            {
                proof {
                    assert(views(ls@).take(i + 1).drop_last() =~= views(ls@).take(i as int));
                    assert(views(ls@).take(i + 1).last() == ls@[i as int]@);
                }
                apply_dcb_line(&mut info, &ls[i]);
                i += 1;
            }
            assert(views(ls@).take(i as int) =~= views(ls@));
        },
        None => {},
    }
    let ghost after_dcb = info@;
    match ethtool {
        Some(out) => {
            let ls = split_lines(&chars_of(out));
            let mut i: usize = 0;
            while i < ls.len()
                invariant
                    i <= ls@.len(),
                    views(ls@) == lines(out@),
                    info@ == ethtool_fold(after_dcb, views(ls@).take(i as int)),
                decreases ls@.len() - i,
            {
                proof {
                    assert(views(ls@).take(i + 1).drop_last() =~= views(ls@).take(i as int));
                    assert(views(ls@).take(i + 1).last() == ls@[i as int]@);
                }
                apply_ethtool_line(&mut info, &ls[i]);
                i += 1;
            }
            assert(views(ls@).take(i as int) =~= views(ls@));
        },
        None => {},
    }
    info
}

} // verus!
