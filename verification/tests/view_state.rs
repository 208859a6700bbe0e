use lazynet::config::UiConfig;
use lazynet::data::{Edge, EdgeType, IfaceCounters, Inventory, Node, NodeType, RdmaCounters};
use lazynet::ui::layout::{
    centered_rect, current_list_area, raw_page_step, rect_contains, ui_layout, view_areas, Area,
};
use lazynet::ui::nav::{
    filtered_nodes_for_query, first_connected_node, same_node_type, tab_for_node_type,
};
use lazynet::ui::{
    CounterRecording, CounterSnapshot, DirectionHint, MouseInput, MouseKind, StatusBar, Tab, Ui,
    UiAction, UiKey,
};

fn config(tab: &str, show_raw: bool, interval: u64) -> UiConfig {
    UiConfig {
        refresh_interval_ms: interval,
        default_tab: tab.to_string(),
        show_raw_tab: show_raw,
    }
}

fn named(id: &str, t: NodeType, name: &str) -> Node {
    Node::new(id.to_string(), t).with_property("name", name)
}

fn sample() -> Inventory {
    let mut inv = Inventory::new();
    inv.add_node(named("netdev:eth0", NodeType::NetworkInterface, "eth0"));
    inv.add_node(named("netdev:eth1", NodeType::NetworkInterface, "eth1"));
    inv.add_node(named("netdev:lo", NodeType::NetworkInterface, "lo"));
    inv.add_node(
        Node::new("pci:0000:01:00.0".to_string(), NodeType::PciDevice)
            .with_property("pci_id", "0000:01:00.0")
            .with_property("vendor", "Mellanox Technologies"),
    );
    inv.add_node(named("rdma:mlx5_0", NodeType::RdmaDevice, "mlx5_0"));
    inv.add_edge(Edge::new(
        "netdev:eth1".to_string(),
        "pci:0000:01:00.0".to_string(),
        EdgeType::PciBinding,
    ));
    inv.add_edge(Edge::new(
        "rdma:mlx5_0".to_string(),
        "netdev:eth1".to_string(),
        EdgeType::RdmaMapping,
    ));
    inv
}

fn key(ui: &mut Ui, inv: &Inventory, k: UiKey) -> UiAction {
    ui.handle_key(k, inv, 10)
}

fn counters(rx: u64, tx: u64) -> IfaceCounters {
    let mut c = IfaceCounters::default();
    c.rx_bytes = rx;
    c.tx_bytes = tx;
    c
}

fn snapshot(rx: u64, tx: u64, rdma: u64, at: u64) -> CounterSnapshot {
    let mut r = RdmaCounters::default();
    r.port_rcv_data = rdma;
    CounterSnapshot {
        counters: vec![("eth0".to_string(), counters(rx, tx))],
        rdma_counters: vec![("mlx5_0".to_string(), r)],
        taken_at_nanos: at,
    }
}

#[test]
fn tab_names_and_order() {
    assert_eq!(Tab::Interfaces.as_str(), "Interfaces");
    assert_eq!(Tab::Rdma.as_str(), "RDMA");
    assert_eq!(Tab::Pci.as_str(), "PCI");
    assert_eq!(Tab::Raw.as_str(), "Raw");
    assert_eq!(Tab::all(false), vec![Tab::Interfaces, Tab::Rdma, Tab::Pci]);
    assert_eq!(
        Tab::all(true),
        vec![Tab::Interfaces, Tab::Rdma, Tab::Pci, Tab::Raw]
    );
}

#[test]
fn configured_tab_is_read_in_any_case() {
    assert_eq!(Tab::from_config("RDMA", false), Tab::Rdma);
    assert_eq!(Tab::from_config("Pci", false), Tab::Pci);
    assert_eq!(Tab::from_config("raw", true), Tab::Raw);
    assert_eq!(Tab::from_config("RAW", false), Tab::Interfaces);
    assert_eq!(Tab::from_config("interfaces", true), Tab::Interfaces);
    assert_eq!(Tab::from_config("nonsense", true), Tab::Interfaces);
}

#[test]
fn new_view_starts_from_the_config() {
    let ui = Ui::new(&config("PCI", false, 50));
    assert_eq!(ui.current_tab, Tab::Pci);
    assert_eq!(ui.refresh_interval_ms, 100);
    assert_eq!(ui.search_query, "");
    assert!(!ui.show_help);
    assert!(!ui.search_mode);
    assert_eq!(ui.selected_index, 0);
    assert_eq!(ui.raw_scroll_offset, 0);
    assert!(ui.recording.is_none());
    assert!(!ui.show_raw_tab);

    let ui = Ui::new(&config("interfaces", true, 2500));
    assert_eq!(ui.current_tab, Tab::Interfaces);
    assert_eq!(ui.refresh_interval_ms, 2500);
}

#[test]
fn arrows_move_the_selection_within_the_list() {
    let inv = sample();
    let mut ui = Ui::new(&config("interfaces", true, 1000));
    assert_eq!(ui.current_list_len(&inv), 3);
    key(&mut ui, &inv, UiKey::Down);
    assert_eq!(ui.selected_index, 1);
    key(&mut ui, &inv, UiKey::Down);
    key(&mut ui, &inv, UiKey::Down);
    assert_eq!(ui.selected_index, 2);
    key(&mut ui, &inv, UiKey::Up);
    assert_eq!(ui.selected_index, 1);
    key(&mut ui, &inv, UiKey::Home);
    assert_eq!(ui.selected_index, 0);
    key(&mut ui, &inv, UiKey::Up);
    assert_eq!(ui.selected_index, 0);
    key(&mut ui, &inv, UiKey::End);
    assert_eq!(ui.selected_index, 2);
    key(&mut ui, &inv, UiKey::Home);
    ui.handle_key(UiKey::PageDown, &inv, 1);
    assert_eq!(ui.selected_index, 1);
    ui.handle_key(UiKey::PageDown, &inv, 10);
    assert_eq!(ui.selected_index, 2);
    assert_eq!(ui.selected_node_id(&inv), Some("netdev:lo".to_string()));
}

#[test]
fn raw_tab_scrolls_instead_of_selecting() {
    let inv = sample();
    let mut ui = Ui::new(&config("raw", true, 1000));
    assert_eq!(ui.current_tab, Tab::Raw);
    key(&mut ui, &inv, UiKey::Up);
    assert_eq!(ui.raw_scroll_offset, 0);
    key(&mut ui, &inv, UiKey::Down);
    assert_eq!(ui.raw_scroll_offset, 1);
    ui.handle_key(UiKey::PageDown, &inv, 19);
    assert_eq!(ui.raw_scroll_offset, 20);
    ui.handle_key(UiKey::PageUp, &inv, 19);
    assert_eq!(ui.raw_scroll_offset, 1);
    key(&mut ui, &inv, UiKey::Char('G'));
    assert_eq!(ui.raw_scroll_offset, u16::MAX);
    key(&mut ui, &inv, UiKey::Down);
    assert_eq!(ui.raw_scroll_offset, u16::MAX);
    key(&mut ui, &inv, UiKey::Char('g'));
    assert_eq!(ui.raw_scroll_offset, 0);
    key(&mut ui, &inv, UiKey::End);
    assert_eq!(ui.raw_scroll_offset, u16::MAX);
    key(&mut ui, &inv, UiKey::Home);
    assert_eq!(ui.raw_scroll_offset, 0);
    assert_eq!(ui.current_list_len(&inv), 0);
}

#[test]
fn typing_a_search_filters_the_list() {
    let inv = sample();
    let mut ui = Ui::new(&config("interfaces", false, 1000));
    key(&mut ui, &inv, UiKey::Down);
    assert_eq!(key(&mut ui, &inv, UiKey::Char('/')), UiAction::Continue);
    assert!(ui.search_mode);
    for c in ['E', 't', 'h'] {
        key(&mut ui, &inv, UiKey::Char(c));
    }
    assert_eq!(ui.search_query, "Eth");
    assert_eq!(ui.selected_index, 0);
    assert_eq!(ui.current_list_len(&inv), 2);
    assert_eq!(
        ui.filtered_nodes(&inv, Tab::Interfaces)
            .iter()
            .map(|n| n.id.clone())
            .collect::<Vec<_>>(),
        vec!["netdev:eth0", "netdev:eth1"]
    );

    assert_eq!(key(&mut ui, &inv, UiKey::Char('q')), UiAction::Continue);
    assert_eq!(ui.search_query, "Ethq");
    assert_eq!(ui.current_list_len(&inv), 0);
    key(&mut ui, &inv, UiKey::Backspace);
    assert_eq!(ui.search_query, "Eth");
    key(&mut ui, &inv, UiKey::Tab);
    assert_eq!(ui.current_tab, Tab::Interfaces);
    key(&mut ui, &inv, UiKey::Enter);
    assert!(!ui.search_mode);
    assert_eq!(ui.search_query, "Eth");
    assert_eq!(ui.current_list_len(&inv), 2);
}

#[test]
fn escape_cancels_a_search() {
    let inv = sample();
    let mut ui = Ui::new(&config("interfaces", false, 1000));
    key(&mut ui, &inv, UiKey::Char('/'));
    key(&mut ui, &inv, UiKey::Char('l'));
    key(&mut ui, &inv, UiKey::Esc);
    assert!(!ui.search_mode);
    assert_eq!(ui.search_query, "");
    assert_eq!(ui.current_list_len(&inv), 3);

    key(&mut ui, &inv, UiKey::Backspace);
    assert_eq!(ui.search_query, "");
}

#[test]
fn quit_help_and_tab_keys() {
    let inv = sample();
    let mut ui = Ui::new(&config("interfaces", false, 1000));
    assert_eq!(key(&mut ui, &inv, UiKey::Char('q')), UiAction::Quit);
    key(&mut ui, &inv, UiKey::Char('h'));
    assert!(ui.show_help);
    key(&mut ui, &inv, UiKey::F(1));
    assert!(!ui.show_help);
    key(&mut ui, &inv, UiKey::F(2));
    assert!(!ui.show_help);

    key(&mut ui, &inv, UiKey::Down);
    key(&mut ui, &inv, UiKey::Tab);
    assert_eq!(ui.current_tab, Tab::Rdma);
    assert_eq!(ui.selected_index, 0);
    key(&mut ui, &inv, UiKey::Tab);
    assert_eq!(ui.current_tab, Tab::Pci);
    key(&mut ui, &inv, UiKey::Tab);
    assert_eq!(ui.current_tab, Tab::Interfaces);
    key(&mut ui, &inv, UiKey::BackTab);
    assert_eq!(ui.current_tab, Tab::Pci);
    assert_eq!(ui.current_tab_index(), 2);

    key(&mut ui, &inv, UiKey::Char('4'));
    assert_eq!(ui.current_tab, Tab::Pci);
    key(&mut ui, &inv, UiKey::Char('2'));
    assert_eq!(ui.current_tab, Tab::Rdma);
    key(&mut ui, &inv, UiKey::Char('1'));
    assert_eq!(ui.current_tab, Tab::Interfaces);
    key(&mut ui, &inv, UiKey::Char('3'));
    assert_eq!(ui.current_tab, Tab::Pci);

    let mut ui = Ui::new(&config("pci", true, 1000));
    key(&mut ui, &inv, UiKey::Tab);
    assert_eq!(ui.current_tab, Tab::Raw);
    key(&mut ui, &inv, UiKey::Tab);
    assert_eq!(ui.current_tab, Tab::Interfaces);
    key(&mut ui, &inv, UiKey::Char('4'));
    assert_eq!(ui.current_tab, Tab::Raw);
    assert_eq!(ui.current_tab_index(), 3);
}

#[test]
fn next_then_previous_tab_comes_back() {
    for show_raw in [false, true] {
        for start in ["interfaces", "rdma", "pci", "raw"] {
            let mut ui = Ui::new(&config(start, show_raw, 1000));
            let before = ui.current_tab;
            ui.next_tab();
            ui.prev_tab();
            assert_eq!(ui.current_tab, before);
        }
    }
}

#[test]
fn arrows_jump_between_connected_devices() {
    let inv = sample();
    let mut ui = Ui::new(&config("interfaces", false, 1000));
    key(&mut ui, &inv, UiKey::Left);
    assert_eq!(ui.current_tab, Tab::Interfaces);
    assert_eq!(ui.selected_index, 0);

    key(&mut ui, &inv, UiKey::Down);
    key(&mut ui, &inv, UiKey::Left);
    assert_eq!(ui.current_tab, Tab::Pci);
    assert_eq!(ui.selected_index, 0);
    key(&mut ui, &inv, UiKey::Right);
    assert_eq!(ui.current_tab, Tab::Interfaces);
    assert_eq!(ui.selected_index, 1);
    key(&mut ui, &inv, UiKey::Right);
    assert_eq!(ui.current_tab, Tab::Rdma);
    assert_eq!(ui.selected_index, 0);
    ui.navigate_connected(&inv, DirectionHint::Left);
    assert_eq!(ui.current_tab, Tab::Interfaces);
    assert_eq!(ui.selected_index, 1);
}

#[test]
fn selecting_a_node_clears_the_search() {
    let inv = sample();
    let mut ui = Ui::new(&config("interfaces", false, 1000));
    key(&mut ui, &inv, UiKey::Char('/'));
    key(&mut ui, &inv, UiKey::Char('x'));
    key(&mut ui, &inv, UiKey::Enter);
    assert!(ui.select_node(&inv, Tab::Interfaces, "netdev:lo"));
    assert_eq!(ui.search_query, "");
    assert_eq!(ui.selected_index, 2);
    assert!(!ui.select_node(&inv, Tab::Pci, "netdev:lo"));
    assert_eq!(ui.current_tab, Tab::Interfaces);
}

#[test]
fn recording_gives_counter_deltas() {
    let inv = sample();
    let mut ui = Ui::new(&config("interfaces", false, 1000));
    assert_eq!(key(&mut ui, &inv, UiKey::Char(']')), UiAction::Continue);
    assert_eq!(key(&mut ui, &inv, UiKey::Char('[')), UiAction::StartRecording);
    ui.start_recording(snapshot(100, 50, 7, 1_000));
    assert!(matches!(ui.recording, Some(CounterRecording::Started(_))));
    assert_eq!(key(&mut ui, &inv, UiKey::Char(']')), UiAction::FinishRecording);
    ui.finish_recording(snapshot(160, 40, 10, 2_501_000_000));

    let rec = ui.recording.as_ref().unwrap();
    assert_eq!(rec.delta_nanos(), 2_500_999_000);
    let d = rec.delta("eth0").unwrap();
    assert_eq!(d.rx_bytes, 60);
    assert_eq!(d.tx_bytes, 0);
    assert_eq!(d.rx_packets, 0);
    assert!(rec.delta("eth1").is_none());
    let r = rec.rdma_delta("mlx5_0").unwrap();
    assert_eq!(r.port_rcv_data, 3);
    assert!(rec.rdma_delta("mlx5_1").is_none());

    assert_eq!(key(&mut ui, &inv, UiKey::Char(']')), UiAction::Continue);
    assert!(ui.recording.is_none());

    ui.start_recording(snapshot(1, 1, 1, 5));
    let rec = ui.recording.as_ref().unwrap();
    assert_eq!(rec.delta_nanos(), 0);
    assert!(rec.delta("eth0").is_none());
    key(&mut ui, &inv, UiKey::Esc);
    assert!(ui.recording.is_none());
}

#[test]
fn same_snapshot_twice_gives_zero_delta() {
    let rec = CounterRecording::Finished {
        start: snapshot(9, 9, 9, 3),
        end: snapshot(9, 9, 9, 3),
    };
    assert_eq!(rec.delta("eth0"), Some(IfaceCounters::default()));
    assert_eq!(rec.rdma_delta("mlx5_0"), Some(RdmaCounters::default()));
    assert_eq!(rec.delta_nanos(), 0);
}

#[test]
fn refresh_timing() {
    let ui = Ui::new(&config("interfaces", false, 1000));
    assert!(!ui.refresh_due(999_999_999));
    assert!(ui.refresh_due(1_000_000_000));
    assert_eq!(ui.poll_timeout_nanos(400_000_000), 600_000_000);
    assert_eq!(ui.poll_timeout_nanos(1_000_000_000), 0);
    assert_eq!(ui.poll_timeout_nanos(2_000_000_000), 0);
}

#[test]
fn screen_layout() {
    let l = ui_layout(Area { x: 0, y: 0, width: 80, height: 24 }, false);
    assert_eq!(l.tabs, Area { x: 0, y: 0, width: 80, height: 3 });
    assert_eq!(l.content, Area { x: 0, y: 3, width: 80, height: 20 });
    assert_eq!(l.search, None);
    assert_eq!(l.status, Area { x: 0, y: 23, width: 80, height: 1 });

    let l = ui_layout(Area { x: 0, y: 0, width: 80, height: 24 }, true);
    assert_eq!(l.content, Area { x: 0, y: 3, width: 80, height: 17 });
    assert_eq!(l.search, Some(Area { x: 0, y: 20, width: 80, height: 3 }));
}

#[test]
fn list_areas_per_tab() {
    let content = Area { x: 0, y: 3, width: 80, height: 20 };
    assert_eq!(
        current_list_area(Tab::Interfaces, content),
        Some(Area { x: 0, y: 3, width: 48, height: 20 })
    );
    assert_eq!(
        current_list_area(Tab::Rdma, content),
        Some(Area { x: 0, y: 3, width: 80, height: 6 })
    );
    assert_eq!(
        current_list_area(Tab::Pci, content),
        Some(Area { x: 0, y: 3, width: 80, height: 10 })
    );
    assert_eq!(current_list_area(Tab::Raw, content), None);
}

#[test]
fn cells_inside_areas() {
    let a = Area { x: 2, y: 2, width: 10, height: 5 };
    assert!(rect_contains(a, 2, 2));
    assert!(rect_contains(a, 11, 6));
    assert!(!rect_contains(a, 12, 6));
    assert!(!rect_contains(a, 1, 3));
    assert!(!rect_contains(a, 5, 7));
    let edge = Area { x: 65530, y: 0, width: 10, height: 1 };
    assert!(rect_contains(edge, 65534, 0));
    assert!(!rect_contains(edge, 65535, 0));
}

#[test]
fn page_steps() {
    assert_eq!(raw_page_step(Some(24)), 19);
    assert_eq!(raw_page_step(Some(6)), 1);
    assert_eq!(raw_page_step(Some(3)), 1);
    assert_eq!(raw_page_step(None), 10);
}

/// Applies a mouse event to the view as drawn on `screen`.
fn mouse(ui: &mut Ui, inv: &Inventory, m: MouseInput, screen: Option<Area>) {
    let drawn = screen.map(|s| view_areas(s, ui.search_mode, ui.current_tab));
    ui.handle_mouse(m, drawn, inv, 19);
}

fn click(column: u16, row: u16) -> MouseInput {
    MouseInput { kind: MouseKind::LeftDown, column, row }
}

#[test]
fn clicks_select_tabs_and_rows() {
    let inv = sample();
    let screen = Some(Area { x: 0, y: 0, width: 80, height: 24 });
    let mut ui = Ui::new(&config("interfaces", true, 1000));

    mouse(&mut ui, &inv, click(15, 1), screen);
    assert_eq!(ui.current_tab, Tab::Rdma);
    mouse(&mut ui, &inv, click(12, 1), screen);
    assert_eq!(ui.current_tab, Tab::Rdma);
    mouse(&mut ui, &inv, click(28, 1), screen);
    assert_eq!(ui.current_tab, Tab::Raw);
    mouse(&mut ui, &inv, click(1, 1), screen);
    assert_eq!(ui.current_tab, Tab::Interfaces);

    mouse(&mut ui, &inv, click(10, 5), screen);
    assert_eq!(ui.selected_index, 1);
    mouse(&mut ui, &inv, click(10, 9), screen);
    assert_eq!(ui.selected_index, 1);
    mouse(&mut ui, &inv, click(60, 4), screen);
    assert_eq!(ui.selected_index, 1);

    ui.show_help = true;
    mouse(&mut ui, &inv, click(15, 1), screen);
    assert!(!ui.show_help);
    assert_eq!(ui.current_tab, Tab::Interfaces);

    mouse(&mut ui, &inv, click(15, 1), None);
    assert_eq!(ui.current_tab, Tab::Interfaces);

    ui.search_mode = true;
    mouse(&mut ui, &inv, click(15, 1), screen);
    assert_eq!(ui.current_tab, Tab::Interfaces);
}

#[test]
fn wheel_scrolls_within_the_list() {
    let inv = sample();
    let screen = Some(Area { x: 0, y: 0, width: 80, height: 24 });
    let mut ui = Ui::new(&config("interfaces", true, 1000));
    let down = MouseInput { kind: MouseKind::ScrollDown, column: 0, row: 0 };
    let up = MouseInput { kind: MouseKind::ScrollUp, column: 0, row: 0 };
    mouse(&mut ui, &inv, down, screen);
    assert_eq!(ui.selected_index, 2);
    mouse(&mut ui, &inv, up, screen);
    assert_eq!(ui.selected_index, 0);

    ui.scroll_current(0, 1, &inv);
    assert_eq!(ui.selected_index, 1);

    key(&mut ui, &inv, UiKey::Char('4'));
    mouse(&mut ui, &inv, down, screen);
    assert_eq!(ui.raw_scroll_offset, 3);
    mouse(&mut ui, &inv, up, screen);
    mouse(&mut ui, &inv, up, screen);
    assert_eq!(ui.raw_scroll_offset, 0);
}

#[test]
fn queries_and_node_types() {
    let inv = sample();
    let pci = filtered_nodes_for_query(&inv, Tab::Pci, "mellanox");
    assert_eq!(pci.len(), 1);
    assert!(filtered_nodes_for_query(&inv, Tab::Pci, "intel").is_empty());
    assert!(filtered_nodes_for_query(&inv, Tab::Raw, "").is_empty());
    assert_eq!(filtered_nodes_for_query(&inv, Tab::Rdma, "").len(), 1);

    assert!(same_node_type(&NodeType::PciDevice, &NodeType::PciDevice));
    assert!(!same_node_type(&NodeType::PciDevice, &NodeType::RdmaDevice));
    assert_eq!(tab_for_node_type(&NodeType::RdmaDevice), Tab::Rdma);
    assert_eq!(tab_for_node_type(&NodeType::PciDevice), Tab::Pci);
    assert_eq!(tab_for_node_type(&NodeType::DpdkDevice), Tab::Interfaces);

    let t = first_connected_node(&inv, "netdev:eth1", &NodeType::RdmaDevice).unwrap();
    assert_eq!(t.id, "rdma:mlx5_0");
    assert!(first_connected_node(&inv, "netdev:eth0", &NodeType::PciDevice).is_none());
}

#[test]
fn help_popup_is_centred() {
    let a = centered_rect(74, 68, Area { x: 0, y: 0, width: 100, height: 50 });
    assert_eq!(a, Area { x: 13, y: 8, width: 74, height: 34 });
    let full = centered_rect(100, 100, Area { x: 2, y: 3, width: 40, height: 10 });
    assert_eq!(full, Area { x: 2, y: 3, width: 40, height: 10 });
}

#[test]
fn status_bar_follows_search_and_recording() {
    let inv = sample();
    let mut ui = Ui::new(&config("interfaces", false, 1000));
    assert_eq!(ui.status_bar(), StatusBar::Keys);
    ui.start_recording(snapshot(1, 1, 1, 100));
    assert_eq!(ui.status_bar(), StatusBar::Recording);
    ui.finish_recording(snapshot(2, 2, 2, 1_600_000_100));
    assert_eq!(ui.status_bar(), StatusBar::Delta { nanos: 1_600_000_000 });
    key(&mut ui, &inv, UiKey::Char('/'));
    assert_eq!(ui.status_bar(), StatusBar::Search);
}

#[test]
fn lowercase_tab_names() {
    assert_eq!(Tab::from_lowercase_name("rdma", false), Tab::Rdma);
    assert_eq!(Tab::from_lowercase_name("pci", false), Tab::Pci);
    assert_eq!(Tab::from_lowercase_name("raw", true), Tab::Raw);
    assert_eq!(Tab::from_lowercase_name("raw", false), Tab::Interfaces);
    assert_eq!(Tab::from_lowercase_name("RDMA", false), Tab::Interfaces);
}

#[test]
fn longer_searches_list_fewer_nodes_in_order() {
    let inv = sample();
    let ids = |q: &str| {
        filtered_nodes_for_query(&inv, Tab::Interfaces, q)
            .iter()
            .map(|n| n.id.clone())
            .collect::<Vec<_>>()
    };
    assert_eq!(ids(""), vec!["netdev:eth0", "netdev:eth1", "netdev:lo"]);
    assert_eq!(ids("e"), vec!["netdev:eth0", "netdev:eth1"]);
    assert_eq!(ids("eth1"), vec!["netdev:eth1"]);
    assert!(ids("eth12").is_empty());
}

#[test]
fn configured_tab_ignores_ascii_case_and_round_trips_titles() {
    for t in [Tab::Interfaces, Tab::Rdma, Tab::Pci, Tab::Raw] {
        assert_eq!(Tab::from_config(t.as_str(), true), t);
        assert_eq!(Tab::from_config(&t.as_str().to_uppercase(), true), t);
    }
    assert_eq!(Tab::from_config("pCi", false), Tab::Pci);
    assert_eq!(Tab::from_config("Raw", false), Tab::Interfaces);
}

#[test]
fn view_areas_place_the_list_in_the_content() {
    let screen = Area { x: 0, y: 0, width: 80, height: 24 };
    let d = view_areas(screen, false, Tab::Interfaces);
    assert_eq!(d.layout, ui_layout(screen, false));
    assert_eq!(d.list, Some(Area { x: 0, y: 3, width: 48, height: 20 }));
    assert_eq!(view_areas(screen, true, Tab::Raw).list, None);
}

#[test]
fn layout_places_each_part_where_it_has_room() {
    for (w, h) in [(80u16, 24u16), (100, 7), (30, 4), (1, 50)] {
        let screen = Area { x: 2, y: 1, width: w, height: h };
        let l = ui_layout(screen, false);
        assert_eq!(l.status, Area { x: 2, y: 1 + h - 1, width: w, height: 1 });
        assert_eq!(l.tabs, Area { x: 2, y: 1, width: w, height: 3 });
        assert_eq!(l.content, Area { x: 2, y: 4, width: w, height: h - 4 });
        if h >= 7 {
            let s = ui_layout(screen, true);
            assert_eq!(s.search, Some(Area { x: 2, y: 1 + h - 4, width: w, height: 3 }));
            assert_eq!(s.content, Area { x: 2, y: 4, width: w, height: h - 7 });
        }
    }
    let tiny = ui_layout(Area { x: 0, y: 0, width: 10, height: 2 }, true);
    assert_eq!(tiny.status, Area { x: 0, y: 1, width: 10, height: 1 });
}

#[test]
fn list_areas_take_their_share() {
    let content = Area { x: 1, y: 2, width: 33, height: 21 };
    let a = current_list_area(Tab::Interfaces, content).unwrap();
    assert_eq!((a.x, a.y, a.height), (1, 2, 21));
    assert!(100 * (a.width as u32 - 1) < 60 * 33 && 60 * 33 < 100 * (a.width as u32 + 1));
    let r = current_list_area(Tab::Rdma, content).unwrap();
    assert_eq!((r.x, r.y, r.width), (1, 2, 33));
    assert!(100 * (r.height as u32 - 1) < 30 * 21 && 30 * 21 < 100 * (r.height as u32 + 1));
}

#[test]
fn centred_popup_with_odd_shares() {
    let area = Area { x: 0, y: 0, width: 81, height: 33 };
    let c = centered_rect(73, 51, area);
    assert!(100 * (c.width as u32 - 1) < 73 * 81 && 73 * 81 < 100 * (c.width as u32 + 1));
    assert!(100 * (c.height as u32 - 1) < 51 * 33 && 51 * 33 < 100 * (c.height as u32 + 1));
    assert!(100 * (c.x as u32 - 1) < 13 * 81 && 13 * 81 < 100 * (c.x as u32 + 1));
    assert!(100 * (c.y as u32 - 1) < 24 * 33 && 24 * 33 < 100 * (c.y as u32 + 1));
}
