use lazynet::config::Config;
use lazynet::data::{
    Edge, EdgeType, IfaceCounters, Inventory, Node, NodeType, PfcInfo, RdmaCounters,
};
use lazynet::table::{table_get, table_insert};
use lazynet::ui::view::{
    clamp_index, connected_netdev_names, decimal_chars, link_at_max, list_title,
    lowercase_class_is_network, pci_is_network, pci_link_summary, property_or_default,
};

fn node(id: &str, t: NodeType, name: Option<&str>) -> Node {
    let n = Node::new(id.to_string(), t);
    match name {
        Some(v) => n.with_property("name", v),
        None => n,
    }
}

fn sample() -> Inventory {
    let mut inv = Inventory::new();
    inv.add_node(node("netdev:eth0", NodeType::NetworkInterface, Some("eth0")));
    inv.add_node(node("netdev:eth1", NodeType::NetworkInterface, Some("eth1")));
    inv.add_node(
        Node::new("pci:0000:01:00.0".to_string(), NodeType::PciDevice)
            .with_property("pci_id", "0000:01:00.0")
            .with_property("class", "Ethernet controller"),
    );
    inv.add_node(node("rdma:mlx5_0", NodeType::RdmaDevice, Some("mlx5_0")));
    inv.add_node(node("netdev:anon", NodeType::NetworkInterface, None));
    inv.add_edge(Edge::new(
        "netdev:eth1".to_string(),
        "pci:0000:01:00.0".to_string(),
        EdgeType::PciBinding,
    ));
    inv.add_edge(Edge::new(
        "rdma:mlx5_0".to_string(),
        "netdev:eth1".to_string(),
        EdgeType::RdmaMapping,
    ));
    inv
}

fn ids(ns: &[&Node]) -> Vec<String> {
    ns.iter().map(|n| n.id.clone()).collect()
}

#[test]
fn later_property_replaces_earlier() {
    let n = Node::new("x".to_string(), NodeType::PciDevice)
        .with_property("k", "one")
        .with_property("other", "v")
        .with_property("k", "two");
    assert_eq!(n.get_property("k"), Some(&"two".to_string()));
    assert_eq!(n.get_property("other"), Some(&"v".to_string()));
    assert_eq!(n.get_property("missing"), None);

    let e = Edge::new("a".to_string(), "b".to_string(), EdgeType::PhysicalConnection)
        .with_property("speed", "100G");
    assert_eq!(e.properties, vec![("speed".to_string(), "100G".to_string())]);
}

#[test]
fn new_inventory_is_empty() {
    let inv = Inventory::new();
    assert!(inv.nodes.is_empty());
    assert!(inv.edges.is_empty());
    assert!(inv.pfc_info.is_empty());
    assert!(inv.iface_counters.is_empty());
    assert!(inv.rdma_counters.is_empty());
}

#[test]
fn nodes_by_type_keep_inventory_order() {
    let inv = sample();
    assert_eq!(
        ids(&inv.get_nodes_by_type(&NodeType::NetworkInterface)),
        vec!["netdev:eth0", "netdev:eth1", "netdev:anon"]
    );
    assert_eq!(
        ids(&inv.get_nodes_by_type(&NodeType::PciDevice)),
        vec!["pci:0000:01:00.0"]
    );
    assert!(inv.get_nodes_by_type(&NodeType::DpdkDevice).is_empty());
}

#[test]
fn connections_are_found_from_both_ends() {
    let inv = sample();
    assert_eq!(
        ids(&inv.find_connected_nodes("netdev:eth1")),
        vec!["pci:0000:01:00.0", "rdma:mlx5_0"]
    );
    assert_eq!(
        ids(&inv.find_connected_nodes("pci:0000:01:00.0")),
        vec!["netdev:eth1"]
    );
    assert_eq!(
        ids(&inv.find_connected_nodes("rdma:mlx5_0")),
        vec!["netdev:eth1"]
    );
    assert!(inv.find_connected_nodes("netdev:eth0").is_empty());
    assert!(inv.find_connected_nodes("nothing").is_empty());
}

#[test]
fn device_names_skip_nameless_nodes() {
    let inv = sample();
    assert_eq!(
        inv.device_names(&NodeType::NetworkInterface),
        vec!["eth0".to_string(), "eth1".to_string()]
    );
    assert_eq!(
        inv.device_names(&NodeType::RdmaDevice),
        vec!["mlx5_0".to_string()]
    );
}

#[test]
fn counters_read_back_what_was_last_written() {
    let mut inv = Inventory::new();
    let mut a = IfaceCounters::default();
    a.rx_bytes = 10;
    let mut b = IfaceCounters::default();
    b.rx_bytes = 20;
    inv.insert_iface_counters("eth0".to_string(), a);
    inv.insert_iface_counters("eth1".to_string(), a);
    inv.insert_iface_counters("eth0".to_string(), b);
    assert_eq!(inv.iface_counters_of("eth0"), Some(b));
    assert_eq!(inv.iface_counters_of("eth1"), Some(a));
    assert_eq!(inv.iface_counters_of("eth2"), None);

    let mut r = RdmaCounters::default();
    r.port_rcv_data = 7;
    inv.insert_rdma_counters("mlx5_0".to_string(), r);
    assert_eq!(inv.rdma_counters_of("mlx5_0"), Some(r));
    assert_eq!(inv.rdma_counters_of("mlx5_1"), None);

    assert!(!inv.has_pfc_info("eth0"));
    let mut p = PfcInfo::default();
    p.pfc_cap = 8;
    inv.insert_pfc_info("eth0".to_string(), p);
    assert!(inv.has_pfc_info("eth0"));
    assert_eq!(inv.pfc_info_of("eth0"), Some(p));
    assert_eq!(inv.pfc_info_of("eth1"), None);
}

#[test]
fn defaults_are_zero() {
    let c = IfaceCounters::default();
    assert_eq!(c.rx_bytes, 0);
    assert_eq!(c.collisions, 0);
    let r = RdmaCounters::default();
    assert_eq!(r.rx_icrc_encapsulated, 0);
    let p = PfcInfo::default();
    assert_eq!(p.prio_enabled, [false; 8]);
    assert_eq!(p.rx_pfc, [0; 8]);
}

#[test]
fn table_keeps_one_value_per_key() {
    let mut t: Vec<(String, u64)> = Vec::new();
    table_insert(&mut t, "a".to_string(), 1);
    table_insert(&mut t, "b".to_string(), 2);
    table_insert(&mut t, "a".to_string(), 3);
    assert_eq!(t.len(), 2);
    assert_eq!(table_get(&t, &"a".to_string()), Some(&3));
    assert_eq!(table_get(&t, &"b".to_string()), Some(&2));
    assert_eq!(table_get(&t, &"c".to_string()), None);
}

#[test]
fn default_config() {
    let c = Config::default();
    assert_eq!(c.ui.refresh_interval_ms, 1000);
    assert_eq!(c.ui.default_tab, "interfaces");
    assert!(c.ui.show_raw_tab);
    assert!(c.collectors.enable_network);
    assert!(c.collectors.enable_pci);
    assert!(c.collectors.enable_rdma);
    assert!(!c.collectors.enable_dpdk);
    assert!(c.export.pretty_json);
    assert!(c.export.include_metadata);
}

#[test]
fn properties_with_fallbacks() {
    let inv = sample();
    let n = &inv.nodes[0];
    assert_eq!(property_or_default(n, "name", "N/A"), "eth0");
    assert_eq!(property_or_default(n, "mac", "N/A"), "N/A");
}

#[test]
fn netdevs_connected_to_a_device() {
    let inv = sample();
    assert_eq!(
        connected_netdev_names(&inv, "rdma:mlx5_0"),
        vec!["eth1".to_string()]
    );
    assert_eq!(
        connected_netdev_names(&inv, "pci:0000:01:00.0"),
        vec!["eth1".to_string()]
    );
    assert!(connected_netdev_names(&inv, "netdev:eth1").is_empty());
}

#[test]
fn pci_link_summaries() {
    assert_eq!(pci_link_summary("16.0 GT/s PCIe", "16"), "16.0 GT/s x16");
    assert_eq!(pci_link_summary("8 GT/s", "4"), "8 GT/s x4");
    assert_eq!(pci_link_summary("-", "16"), "-");
}

#[test]
fn pci_network_classes_in_any_case() {
    assert!(pci_is_network(false, "ETHERNET controller"));
    assert!(pci_is_network(false, "Network controller"));
    assert!(pci_is_network(false, "Infiniband controller"));
    assert!(!pci_is_network(false, "SATA controller"));
    assert!(pci_is_network(true, "SATA controller"));
}

#[test]
fn indices_are_clamped_to_the_list() {
    assert_eq!(clamp_index(5, 3), 2);
    assert_eq!(clamp_index(1, 3), 1);
    assert_eq!(clamp_index(2, 3), 2);
    assert_eq!(clamp_index(0, 0), 0);
    assert_eq!(clamp_index(7, 0), 0);
}

#[test]
fn lowercase_network_classes() {
    assert!(lowercase_class_is_network(false, "ethernet controller"));
    assert!(lowercase_class_is_network(false, "infiniband controller"));
    assert!(!lowercase_class_is_network(false, "Ethernet controller"));
    assert!(lowercase_class_is_network(true, ""));
}

#[test]
fn list_titles() {
    assert_eq!(
        list_title("Network Interfaces", 3, 7, "", ""),
        "Network Interfaces (3)"
    );
    assert_eq!(
        list_title("PCI Devices", 12, 40, "", " ↑↓ to select"),
        "PCI Devices (12) ↑↓ to select"
    );
    assert_eq!(
        list_title("RDMA Devices", 0, 105, "mlx", " ignored"),
        "RDMA Devices (0/105) - Search: 'mlx'"
    );
    assert_eq!(decimal_chars(0), vec!['0']);
    assert_eq!(decimal_chars(9070), vec!['9', '0', '7', '0']);
}

#[test]
fn links_at_their_maximum() {
    assert!(link_at_max("16.0 GT/s PCIe", "16.0 GT/s PCIe"));
    assert!(!link_at_max("8.0 GT/s PCIe", "16.0 GT/s PCIe"));
    assert!(!link_at_max("8", "16"));
}
