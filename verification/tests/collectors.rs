use lazynet::collectors::pci::{
    node_from_lspci_props, normalize_lspci_slot, parse_lspci_vmm, pci_edge_from_link,
    pci_sysfs_files, with_sysfs_value,
};
use lazynet::collectors::rdma::{
    collect_pfc_from, netdev_of_edge, parse_rdma_link_output, rdma_device_to_node,
    rdma_edge_from_ndev, transport_from_link_layer,
};
use lazynet::collectors::{
    add_mac_addresses, ifconfig_output_is_misordered, ip_output_is_misordered,
    parse_stat_value, NetworkCollector,
};
use lazynet::data::{Edge, EdgeType, Node, NodeType};

fn prop(node: &Node, key: &str) -> Option<String> {
    node.get_property(key).cloned()
}

fn s(v: &str) -> Option<String> {
    Some(v.to_string())
}

const IP_ADDR: &str = "1: lo: <LOOPBACK,UP,LOWER_UP> mtu 65536 qdisc noqueue state UNKNOWN group default qlen 1000
    link/loopback 00:00:00:00:00:00 brd 00:00:00:00:00:00
    inet 127.0.0.1/8 scope host lo
2: eth0: <BROADCAST,MULTICAST> mtu 1500 qdisc noop state DOWN group default qlen 1000
    link/ether aa:bb:cc:dd:ee:ff brd ff:ff:ff:ff:ff:ff
    inet 10.0.0.5/24 brd 10.0.0.255 scope global eth0
       valid_lft forever preferred_lft forever
    inet 10.0.1.7/24 scope global secondary eth0
    inet6 fe80::1/64 scope link
";

#[test]
fn ip_output_gives_one_node_per_interface() {
    let c = NetworkCollector::new();
    assert!(!ip_output_is_misordered(IP_ADDR));
    let nodes = c.parse_ip_output(IP_ADDR);
    assert_eq!(nodes.len(), 2);

    assert_eq!(nodes[0].id, "netdev:lo");
    assert_eq!(nodes[0].node_type, NodeType::NetworkInterface);
    assert_eq!(prop(&nodes[0], "name"), s("lo"));
    assert_eq!(prop(&nodes[0], "type"), s("network_interface"));
    assert_eq!(prop(&nodes[0], "flags"), s("LOOPBACK,UP,LOWER_UP"));
    assert_eq!(prop(&nodes[0], "state"), s("up"));
    assert_eq!(prop(&nodes[0], "mtu"), s("65536"));

    assert_eq!(nodes[1].id, "netdev:eth0");
    assert_eq!(prop(&nodes[1], "flags"), s("BROADCAST,MULTICAST"));
    assert_eq!(prop(&nodes[1], "state"), s("down"));
    assert_eq!(prop(&nodes[1], "mtu"), s("1500"));
    assert_eq!(prop(&nodes[1], "mac"), None);

    assert_eq!(prop(&nodes[0], "ip"), s("127.0.0.1/8"));
    assert_eq!(prop(&nodes[0], "ipv6"), None);
    assert_eq!(prop(&nodes[1], "ip"), s("10.0.0.5/24, 10.0.1.7/24"));
    assert_eq!(prop(&nodes[1], "ipv6"), s("fe80::1/64"));
}

#[test]
fn ip_output_lists_the_interface_address() {
    let c = NetworkCollector::new();
    let out = "2: eth0: <BROADCAST,MULTICAST,UP,LOWER_UP> mtu 1500 qdisc mq state UP\n    link/ether 52:54:00:12:34:56 brd ff:ff:ff:ff:ff:ff\n    inet 10.0.0.5/24 brd 10.0.0.255 scope global eth0\n";
    let nodes = c.parse_ip_output(out);
    assert_eq!(nodes.len(), 1);
    assert_eq!(nodes[0].id, "netdev:eth0");
    assert_eq!(prop(&nodes[0], "ip"), s("10.0.0.5/24"));
    assert_eq!(prop(&nodes[0], "mtu"), s("1500"));
    assert_eq!(prop(&nodes[0], "state"), s("up"));
}

#[test]
fn address_lines_before_any_interface_are_ignored() {
    let c = NetworkCollector::new();
    let nodes = c.parse_ip_output("    inet 1.2.3.4/8\n1: lo: <UP> mtu 1\n    inet\n    inetx 5.6.7.8\n");
    assert_eq!(nodes.len(), 1);
    assert_eq!(prop(&nodes[0], "ip"), None);
}

#[test]
fn ip_line_without_flags_or_trailing_space_after_mtu() {
    let c = NetworkCollector::new();
    let nodes = c.parse_ip_output("3: tun0 mtu 9000\nx\n\n   \n");
    assert_eq!(nodes.len(), 1);
    assert_eq!(nodes[0].id, "netdev:tun0");
    assert_eq!(prop(&nodes[0], "name"), s("tun0"));
    assert_eq!(prop(&nodes[0], "flags"), None);
    assert_eq!(prop(&nodes[0], "state"), None);
    assert_eq!(prop(&nodes[0], "mtu"), s("9000"));
}

#[test]
fn ip_line_with_closing_bracket_first_is_reported() {
    assert!(ip_output_is_misordered("1: a: >x< mtu 1\n"));
    assert!(!ip_output_is_misordered("1: a: <x> mtu 1\n"));
    assert!(!ip_output_is_misordered("    >indented< lines are skipped\n"));
}

#[test]
fn mac_addresses_from_ip_link_are_added_by_name() {
    let c = NetworkCollector::new();
    let macs = c.parse_mac_addresses_linux(IP_ADDR);
    assert_eq!(
        macs,
        vec![("eth0".to_string(), "aa:bb:cc:dd:ee:ff".to_string())]
    );
    let mut nodes = c.parse_ip_output(IP_ADDR);
    add_mac_addresses(&mut nodes, &macs);
    assert_eq!(prop(&nodes[0], "mac"), None);
    assert_eq!(prop(&nodes[1], "mac"), s("aa:bb:cc:dd:ee:ff"));
}

const IFCONFIG: &str = "lo0: flags=8049<UP,LOOPBACK,RUNNING,MULTICAST> mtu 16384
\tinet 127.0.0.1 netmask 0xff000000
\tinet6 ::1 prefixlen 128
\tinet6 fe80::1%lo0 prefixlen 64 scopeid 0x1
en0: flags=8863<BROADCAST,SMART,SIMPLEX> mtu 1500
\tether 11:22:33:44:55:66
\tinet 192.168.1.20 netmask 0xffffff00 broadcast 192.168.1.255
\tstatus: active
";

#[test]
fn ifconfig_output_gives_one_node_per_interface() {
    let c = NetworkCollector::new();
    assert!(!ifconfig_output_is_misordered(IFCONFIG));
    let nodes = c.parse_ifconfig_output(IFCONFIG);
    assert_eq!(nodes.len(), 2);
    assert_eq!(nodes[0].id, "netdev:lo0");
    assert_eq!(prop(&nodes[0], "name"), s("lo0"));
    assert_eq!(prop(&nodes[0], "type"), s("network_interface"));
    assert_eq!(prop(&nodes[0], "flags"), s("UP,LOOPBACK,RUNNING,MULTICAST"));
    assert_eq!(prop(&nodes[0], "state"), s("up"));
    assert_eq!(prop(&nodes[0], "mtu"), s("16384"));
    assert_eq!(nodes[1].id, "netdev:en0");
    assert_eq!(prop(&nodes[1], "state"), s("down"));
    assert_eq!(prop(&nodes[1], "mtu"), s("1500"));
    assert_eq!(prop(&nodes[0], "ip"), s("127.0.0.1"));
    assert_eq!(prop(&nodes[0], "ipv6"), s("::1, fe80::1%lo0"));
    assert_eq!(prop(&nodes[1], "ip"), s("192.168.1.20"));
    assert_eq!(prop(&nodes[1], "ipv6"), None);
}

#[test]
fn ifconfig_mac_addresses() {
    let c = NetworkCollector::new();
    let macs = c.parse_mac_addresses_macos(IFCONFIG);
    assert_eq!(
        macs,
        vec![("en0".to_string(), "11:22:33:44:55:66".to_string())]
    );
}

#[test]
fn ifconfig_header_with_closing_bracket_first_is_reported() {
    assert!(ifconfig_output_is_misordered("en0: flags=1>x< mtu 1\n"));
    assert!(!ifconfig_output_is_misordered("\ten0: >x<\n"));
}

#[test]
fn stat_values_parse_or_fall_back_to_zero() {
    assert_eq!(parse_stat_value(Some(" 42\n")), 42);
    assert_eq!(parse_stat_value(Some("18446744073709551615")), u64::MAX);
    assert_eq!(parse_stat_value(Some("18446744073709551616")), 0);
    assert_eq!(parse_stat_value(Some("abc")), 0);
    assert_eq!(parse_stat_value(Some("-1")), 0);
    assert_eq!(parse_stat_value(Some("")), 0);
    assert_eq!(parse_stat_value(Some("+7")), 7);
    assert_eq!(parse_stat_value(None), 0);
}

#[test]
fn lspci_slots_get_a_domain() {
    assert_eq!(normalize_lspci_slot("00:1f.2"), "0000:00:1f.2");
    assert_eq!(normalize_lspci_slot("0000:00:1f.2"), "0000:00:1f.2");
    assert_eq!(normalize_lspci_slot("abc"), "0000:abc");
}

const LSPCI: &str = "Slot:\t00:1f.2
Class:\tSATA controller
Vendor:\tIntel Corporation
Device:\tSome Device

Slot:\t0000:3b:00.0
Class:\tEthernet controller
Vendor:\tMellanox Technologies

Class:\tNo slot here
";

#[test]
fn lspci_blocks_become_pci_nodes() {
    let nodes = parse_lspci_vmm(LSPCI);
    assert_eq!(nodes.len(), 2);

    assert_eq!(nodes[0].id, "pci:0000:00:1f.2");
    assert_eq!(nodes[0].node_type, NodeType::PciDevice);
    assert_eq!(prop(&nodes[0], "pci_id"), s("0000:00:1f.2"));
    assert_eq!(prop(&nodes[0], "pci_slot"), s("00:1f.2"));
    assert_eq!(prop(&nodes[0], "slot"), s("00:1f.2"));
    assert_eq!(prop(&nodes[0], "class"), s("SATA controller"));
    assert_eq!(prop(&nodes[0], "vendor"), s("Intel Corporation"));
    assert_eq!(prop(&nodes[0], "device"), s("Some Device"));

    assert_eq!(nodes[1].id, "pci:0000:3b:00.0");
    assert_eq!(prop(&nodes[1], "pci_slot"), None);
    assert_eq!(prop(&nodes[1], "vendor"), s("Mellanox Technologies"));
}

#[test]
fn lspci_props_without_slot_give_no_node() {
    let props = vec![("Class".to_string(), "Bridge".to_string())];
    assert!(node_from_lspci_props(&props).is_none());
    let props = vec![
        ("Slot".to_string(), "01:00.0".to_string()),
        ("SVendor".to_string(), "Dell".to_string()),
    ];
    let node = node_from_lspci_props(&props).unwrap();
    assert_eq!(prop(&node, "svendor"), s("Dell"));
    assert_eq!(prop(&node, "pci_id"), s("0000:01:00.0"));
}

#[test]
fn sysfs_values_are_trimmed() {
    let files = pci_sysfs_files();
    assert_eq!(files.len(), 6);
    assert_eq!(
        files[0],
        ("current_link_speed".to_string(), "link_speed".to_string())
    );
    assert_eq!(files[5], ("iommu_group".to_string(), "iommugroup".to_string()));

    let node = Node::new("pci:0000:01:00.0".to_string(), NodeType::PciDevice);
    let node = with_sysfs_value(node, "numa_node", " 1\n");
    assert_eq!(prop(&node, "numa_node"), s("1"));
}

#[test]
fn pci_edges_come_from_net_links() {
    let e = pci_edge_from_link(
        "ens24np0",
        "../../devices/pci0000:00/0000:00:01.0/0000:99:00.0/net/ens24np0",
    )
    .unwrap();
    assert_eq!(e.from, "netdev:ens24np0");
    assert_eq!(e.to, "pci:0000:99:00.0");
    assert_eq!(e.edge_type, EdgeType::PciBinding);

    assert!(pci_edge_from_link("lo", "../../devices/virtual/net/lo").is_none());
    assert!(pci_edge_from_link("x", "no-net-here").is_none());
}

#[test]
fn transport_follows_link_layer() {
    assert_eq!(transport_from_link_layer(Some("InfiniBand\n")), "InfiniBand");
    assert_eq!(transport_from_link_layer(Some("Ethernet")), "RoCE");
    assert_eq!(transport_from_link_layer(Some("other")), "Unknown");
    assert_eq!(transport_from_link_layer(None), "Unknown");
}

const DEVINFO: &str = "hca_id:\tmlx5_0
\ttransport:\t\t\tInfiniBand (0)
\tfw_ver:\t\t\t\t16.35.2000
\tnode_guid:\t\t\tb8ce:f603:00a1:b2c3
\tphys_port_cnt:\t\t\t1
\t\tport:\t1
\t\t\tstate:\t\t\tPORT_ACTIVE (4)

hca_id:\tmlx5_1
\tfw_ver:\t\t\t\t99.0
";

#[test]
fn rdma_device_is_enriched_from_its_devinfo_block() {
    let node = rdma_device_to_node("mlx5_0", Some("Ethernet\n"), DEVINFO);
    assert_eq!(node.id, "rdma:mlx5_0");
    assert_eq!(node.node_type, NodeType::RdmaDevice);
    assert_eq!(prop(&node, "name"), s("mlx5_0"));
    assert_eq!(prop(&node, "transport"), s("RoCE"));
    assert_eq!(prop(&node, "fw_ver"), s("16.35.2000"));
    assert_eq!(prop(&node, "node_guid"), s("b8ce:f603:00a1:b2c3"));
    assert_eq!(prop(&node, "port_count"), s("1"));
    assert_eq!(prop(&node, "state"), None);

    let other = rdma_device_to_node("mlx5_1", None, DEVINFO);
    assert_eq!(prop(&other, "transport"), s("Unknown"));
    assert_eq!(prop(&other, "fw_ver"), s("99.0"));
    assert_eq!(prop(&other, "node_guid"), None);

    let bare = rdma_device_to_node("mlx5_2", Some("InfiniBand"), "");
    assert_eq!(prop(&bare, "transport"), s("InfiniBand"));
    assert_eq!(prop(&bare, "fw_ver"), None);
}

#[test]
fn rdma_link_lines_with_netdev_become_edges() {
    let edges = parse_rdma_link_output(
        "link mlx5_0/1 state ACTIVE physical_state LINK_UP netdev ens24np0\n\
         link mlx5_1/1 state DOWN physical_state DISABLED\n\
         link /1 netdev eth9\n\
         link\n",
    );
    assert_eq!(edges.len(), 1);
    assert_eq!(edges[0].from, "rdma:mlx5_0");
    assert_eq!(edges[0].to, "netdev:ens24np0");
    assert_eq!(edges[0].edge_type, EdgeType::RdmaMapping);
}

#[test]
fn rdma_edges_from_sysfs_ndevs() {
    let e = rdma_edge_from_ndev("mlx5_0", " eth2\n").unwrap();
    assert_eq!(e.from, "rdma:mlx5_0");
    assert_eq!(e.to, "netdev:eth2");
    assert!(rdma_edge_from_ndev("mlx5_0", "  \n").is_none());
}

#[test]
fn netdev_side_of_an_edge() {
    let e = Edge::new(
        "rdma:mlx5_0".to_string(),
        "netdev:eth2".to_string(),
        EdgeType::RdmaMapping,
    );
    assert_eq!(netdev_of_edge(&e), s("eth2"));
    let e = Edge::new(
        "netdev:eth2".to_string(),
        "pci:0000:01:00.0".to_string(),
        EdgeType::PciBinding,
    );
    assert_eq!(netdev_of_edge(&e), None);
}

#[test]
fn pfc_settings_and_counters_are_read() {
    let dcb = "pfc-cap 8 macsec-bypass off delay 7\nprio-pfc 0:off 1:off 2:on 3:off 4:off 5:off 6:off 7:on 9:on\n";
    let ethtool = "NIC statistics:\n     rx_prio3_packets: 100\n     tx_prio3_packets: 7\n     rx_prio9_packets: 5\n     rx_global_pause: 5\n     tx_global_pause: 6\n";
    let info = collect_pfc_from(Some(dcb), Some(ethtool));
    assert_eq!(info.pfc_cap, 8);
    assert_eq!(
        info.prio_enabled,
        [false, false, true, false, false, false, false, true]
    );
    assert_eq!(info.rx_pfc, [0, 0, 0, 100, 0, 0, 0, 0]);
    assert_eq!(info.tx_pfc, [0, 0, 0, 7, 0, 0, 0, 0]);
    assert_eq!(info.rx_pause, 5);
    assert_eq!(info.tx_pause, 6);
}

#[test]
fn pfc_without_tools_is_all_zero() {
    let info = collect_pfc_from(None, None);
    assert_eq!(info.pfc_cap, 0);
    assert_eq!(info.prio_enabled, [false; 8]);
    assert_eq!(info.rx_pfc, [0; 8]);
    assert_eq!(info.tx_pfc, [0; 8]);
    assert_eq!(info.rx_pause, 0);
    assert_eq!(info.tx_pause, 0);

    let info = collect_pfc_from(Some("pfc-cap 300\n"), Some("rx_global_pause: x\n"));
    assert_eq!(info.pfc_cap, 0);
    assert_eq!(info.rx_pause, 0);
}

#[test]
fn every_parsed_rdma_edge_names_its_netdev() {
    let edges = parse_rdma_link_output(
        "link mlx5_0/1 netdev ens1\nlink mlx5_1/2 state ACTIVE netdev ens2 extra\n",
    );
    let netdevs: Vec<Option<String>> = edges.iter().map(netdev_of_edge).collect();
    assert_eq!(netdevs, vec![s("ens1"), s("ens2")]);
    assert!(edges.iter().all(|e| e.from.starts_with("rdma:")));
}

#[test]
fn every_parsed_pci_node_has_a_pci_id() {
    for n in parse_lspci_vmm(LSPCI) {
        assert_eq!(n.node_type, NodeType::PciDevice);
        assert!(n.id.starts_with("pci:"));
        let id = n.get_property("pci_id").cloned().unwrap();
        assert_eq!(n.id, format!("pci:{}", id));
    }
}

#[test]
fn lspci_gives_one_node_per_block_with_a_slot() {
    let out = "\n\nSlot:\t00:01.0\nClass:\tBridge\n\n\n\nno colon here\n\nVendor:\tNobody\n\nSlot:\t02:00.0\nDevice:\tLast";
    let nodes = parse_lspci_vmm(out);
    assert_eq!(nodes.len(), 2);
    assert_eq!(nodes[0].id, "pci:0000:00:01.0");
    assert_eq!(prop(&nodes[0], "class"), s("Bridge"));
    assert_eq!(nodes[1].id, "pci:0000:02:00.0");
    assert_eq!(prop(&nodes[1], "device"), s("Last"));
}
