//! The interactive view's state: which tab is shown, what is selected, the
//! search being typed, and the counter recording; and how each key changes it.
use vstd::prelude::*;

use crate::config::UiConfig;
use crate::data::{IfaceCounters, Inventory, Node, NodeType, deref_nodes};
use crate::data::RdmaCounters;
use crate::table::{table_get, table_view};
use crate::text::{
    all_ascii, ascii_lowercase, chars_eq, chars_of, lowercase, string_of, sub_chars, to_lowercase,
};
use crate::ui::layout::{Area, DrawnView, area_holds, rect_contains, sat_add};
use crate::ui::nav::{
    filtered_nodes, filtered_nodes_for_query, first_connected, first_connected_node,
    node_position, position_of_node, tab_for_node_type, tab_of_type,
};

pub mod layout;
pub mod nav;
pub mod view;

verus! {

#[derive(Debug, Clone, Copy, PartialEq, Eq, Structural)]
pub enum Tab {
    Interfaces,
    Rdma,
    Pci,
    Raw,
}

/// The title of a tab.
pub open spec fn tab_title(t: Tab) -> Seq<char> {
    match t {
        Tab::Interfaces => "Interfaces"@,
        Tab::Rdma => "RDMA"@,
        Tab::Pci => "PCI"@,
        Tab::Raw => "Raw"@,
    }
}

/// The tabs in the order they are shown; the raw tab only when enabled.
pub open spec fn tabs_shown(show_raw: bool) -> Seq<Tab> {
    if show_raw {
        seq![Tab::Interfaces, Tab::Rdma, Tab::Pci, Tab::Raw]
    } else {
        seq![Tab::Interfaces, Tab::Rdma, Tab::Pci]
    }
}

/// The tab that a configured (already lower-cased) name selects; an unknown
/// name, or `raw` while the raw tab is hidden, selects the interfaces tab.
pub open spec fn tab_named(name: Seq<char>, show_raw: bool) -> Tab {
    if name == "rdma"@ {
        Tab::Rdma
    } else if name == "pci"@ {
        Tab::Pci
    } else if name == "raw"@ && show_raw {
        Tab::Raw
    } else {
        Tab::Interfaces
    }
}

impl Tab {
    pub fn as_str(&self) -> (r: &'static str)
        ensures
            r@ == tab_title(*self),
    {
        match self {
            Tab::Interfaces => "Interfaces",
            Tab::Rdma => "RDMA",
            Tab::Pci => "PCI",
            Tab::Raw => "Raw",
        }
    }

    pub fn all(show_raw: bool) -> (r: Vec<Tab>)
        ensures
            r@ == tabs_shown(show_raw),
    {
        let mut tabs = vec![Tab::Interfaces, Tab::Rdma, Tab::Pci];
        if show_raw {
            tabs.push(Tab::Raw);
        }
        assert(tabs@ =~= tabs_shown(show_raw));
        tabs
    }

    /// The tab that the configured name selects, case-insensitively.
    pub fn from_config(value: &str, show_raw: bool) -> (r: Self)
        ensures
            r == tab_named(lowercase(value@), show_raw),
            all_ascii(value@) ==> r == tab_named(ascii_lowercase(value@), show_raw),
    {
        Tab::from_lowercase_name(to_lowercase(value).as_str(), show_raw)
    }

    /// The tab that an already lower-cased configured name selects.
    pub fn from_lowercase_name(name: &str, show_raw: bool) -> (r: Self)
        ensures
            r == tab_named(name@, show_raw),
    {
        let v = chars_of(name);
        if chars_eq(&v, &chars_of("rdma")) {
            Tab::Rdma
        } else if chars_eq(&v, &chars_of("pci")) {
            Tab::Pci
        } else if chars_eq(&v, &chars_of("raw")) && show_raw {
            Tab::Raw
        } else {
            Tab::Interfaces
        }
    }
}

/// Holds a counter snapshot taken at a point in time (nanoseconds on a
/// monotonic clock chosen by the caller).
pub struct CounterSnapshot {
    pub counters: Vec<(String, IfaceCounters)>,
    pub rdma_counters: Vec<(String, RdmaCounters)>,
    pub taken_at_nanos: u64,
}

/// State for the [ ] counter recording feature.
pub enum CounterRecording {
    /// [ pressed — start snapshot captured
    Started(CounterSnapshot),
    /// ] pressed — both snapshots captured, delta ready
    Finished { start: CounterSnapshot, end: CounterSnapshot },
}

/// `e - s`, or 0 when the counter went down.
pub open spec fn sat_sub(e: u64, s: u64) -> u64 {
    if e >= s {
        (e - s) as u64
    } else {
        0
    }
}

/// The change of each interface counter from `s` to `e`.
pub open spec fn iface_delta(s: IfaceCounters, e: IfaceCounters) -> IfaceCounters {
    IfaceCounters {
        rx_bytes: sat_sub(e.rx_bytes, s.rx_bytes),
        tx_bytes: sat_sub(e.tx_bytes, s.tx_bytes),
        rx_packets: sat_sub(e.rx_packets, s.rx_packets),
        tx_packets: sat_sub(e.tx_packets, s.tx_packets),
        rx_errors: sat_sub(e.rx_errors, s.rx_errors),
        tx_errors: sat_sub(e.tx_errors, s.tx_errors),
        rx_dropped: sat_sub(e.rx_dropped, s.rx_dropped),
        tx_dropped: sat_sub(e.tx_dropped, s.tx_dropped),
        rx_missed: sat_sub(e.rx_missed, s.rx_missed),
        collisions: sat_sub(e.collisions, s.collisions),
    }
}

/// The change of each RDMA counter from `s` to `e`.
pub open spec fn rdma_counters_delta(s: RdmaCounters, e: RdmaCounters) -> RdmaCounters {
    RdmaCounters {
        port_rcv_data: sat_sub(e.port_rcv_data, s.port_rcv_data),
        port_xmit_data: sat_sub(e.port_xmit_data, s.port_xmit_data),
        port_rcv_packets: sat_sub(e.port_rcv_packets, s.port_rcv_packets),
        port_xmit_packets: sat_sub(e.port_xmit_packets, s.port_xmit_packets),
        port_rcv_errors: sat_sub(e.port_rcv_errors, s.port_rcv_errors),
        port_xmit_discards: sat_sub(e.port_xmit_discards, s.port_xmit_discards),
        port_xmit_wait: sat_sub(e.port_xmit_wait, s.port_xmit_wait),
        np_cnp_sent: sat_sub(e.np_cnp_sent, s.np_cnp_sent),
        np_ecn_marked_roce_packets: sat_sub(
            e.np_ecn_marked_roce_packets,
            s.np_ecn_marked_roce_packets,
        ),
        rp_cnp_handled: sat_sub(e.rp_cnp_handled, s.rp_cnp_handled),
        rp_cnp_ignored: sat_sub(e.rp_cnp_ignored, s.rp_cnp_ignored),
        out_of_buffer: sat_sub(e.out_of_buffer, s.out_of_buffer),
        out_of_sequence: sat_sub(e.out_of_sequence, s.out_of_sequence),
        packet_seq_err: sat_sub(e.packet_seq_err, s.packet_seq_err),
        rnr_nak_retry_err: sat_sub(e.rnr_nak_retry_err, s.rnr_nak_retry_err),
        req_transport_retries_exceeded: sat_sub(
            e.req_transport_retries_exceeded,
            s.req_transport_retries_exceeded,
        ),
        local_ack_timeout_err: sat_sub(e.local_ack_timeout_err, s.local_ack_timeout_err),
        rx_icrc_encapsulated: sat_sub(e.rx_icrc_encapsulated, s.rx_icrc_encapsulated),
    }
}

/// The interface counter changes of a finished recording for `dev`, when
/// both snapshots hold `dev`.
pub open spec fn recorded_delta(rec: CounterRecording, dev: Seq<char>) -> Option<IfaceCounters> {
    match rec {
        CounterRecording::Finished { start, end } => {
            let s = table_view(start.counters@);
            let e = table_view(end.counters@);
            if s.contains_key(dev) && e.contains_key(dev) {
                Some(iface_delta(s[dev], e[dev]))
            } else {
                None
            }
        },
        CounterRecording::Started(_) => None,
    }
}

/// The RDMA counter changes of a finished recording for `dev`, when both
/// snapshots hold `dev`.
pub open spec fn recorded_rdma_delta(rec: CounterRecording, dev: Seq<char>) -> Option<RdmaCounters> {
    match rec {
        CounterRecording::Finished { start, end } => {
            let s = table_view(start.rdma_counters@);
            let e = table_view(end.rdma_counters@);
            if s.contains_key(dev) && e.contains_key(dev) {
                Some(rdma_counters_delta(s[dev], e[dev]))
            } else {
                None
            }
        },
        CounterRecording::Started(_) => None,
    }
}

fn iface_delta_of(s: &IfaceCounters, e: &IfaceCounters) -> (r: IfaceCounters)
    ensures
        r == iface_delta(*s, *e),
{
    IfaceCounters {
        rx_bytes: e.rx_bytes.saturating_sub(s.rx_bytes),
        tx_bytes: e.tx_bytes.saturating_sub(s.tx_bytes),
        rx_packets: e.rx_packets.saturating_sub(s.rx_packets),
        tx_packets: e.tx_packets.saturating_sub(s.tx_packets),
        rx_errors: e.rx_errors.saturating_sub(s.rx_errors),
        tx_errors: e.tx_errors.saturating_sub(s.tx_errors),
        rx_dropped: e.rx_dropped.saturating_sub(s.rx_dropped),
        tx_dropped: e.tx_dropped.saturating_sub(s.tx_dropped),
        rx_missed: e.rx_missed.saturating_sub(s.rx_missed),
        collisions: e.collisions.saturating_sub(s.collisions),
    }
}

fn rdma_delta_of(s: &RdmaCounters, e: &RdmaCounters) -> (r: RdmaCounters)
    ensures
        r == rdma_counters_delta(*s, *e),
{
    RdmaCounters {
        port_rcv_data: e.port_rcv_data.saturating_sub(s.port_rcv_data),
        port_xmit_data: e.port_xmit_data.saturating_sub(s.port_xmit_data),
        port_rcv_packets: e.port_rcv_packets.saturating_sub(s.port_rcv_packets),
        port_xmit_packets: e.port_xmit_packets.saturating_sub(s.port_xmit_packets),
        port_rcv_errors: e.port_rcv_errors.saturating_sub(s.port_rcv_errors),
        port_xmit_discards: e.port_xmit_discards.saturating_sub(s.port_xmit_discards),
        port_xmit_wait: e.port_xmit_wait.saturating_sub(s.port_xmit_wait),
        np_cnp_sent: e.np_cnp_sent.saturating_sub(s.np_cnp_sent),
        np_ecn_marked_roce_packets: e.np_ecn_marked_roce_packets.saturating_sub(
            s.np_ecn_marked_roce_packets,
        ),
        rp_cnp_handled: e.rp_cnp_handled.saturating_sub(s.rp_cnp_handled),
        rp_cnp_ignored: e.rp_cnp_ignored.saturating_sub(s.rp_cnp_ignored),
        out_of_buffer: e.out_of_buffer.saturating_sub(s.out_of_buffer),
        out_of_sequence: e.out_of_sequence.saturating_sub(s.out_of_sequence),
        packet_seq_err: e.packet_seq_err.saturating_sub(s.packet_seq_err),
        rnr_nak_retry_err: e.rnr_nak_retry_err.saturating_sub(s.rnr_nak_retry_err),
        req_transport_retries_exceeded: e.req_transport_retries_exceeded.saturating_sub(
            s.req_transport_retries_exceeded,
        ),
        local_ack_timeout_err: e.local_ack_timeout_err.saturating_sub(s.local_ack_timeout_err),
        rx_icrc_encapsulated: e.rx_icrc_encapsulated.saturating_sub(s.rx_icrc_encapsulated),
    }
}

impl CounterRecording {
    /// How much each interface counter of `dev` changed over a finished recording.
    pub fn delta(&self, dev: &str) -> (r: Option<IfaceCounters>)
        ensures
            r == recorded_delta(*self, dev@),
    {
        match self {
            CounterRecording::Finished { start, end } => {
                let key = String::from_str(dev);
                let s = match table_get(&start.counters, &key) {
                    Some(s) => s,
                    None => return None,
                };
                let e = match table_get(&end.counters, &key) {
                    Some(e) => e,
                    None => return None,
                };
                Some(iface_delta_of(s, e))
            },
            CounterRecording::Started(_) => None,
        }
    }

    /// How much each RDMA counter of `dev` changed over a finished recording.
    pub fn rdma_delta(&self, dev: &str) -> (r: Option<RdmaCounters>)
        ensures
            r == recorded_rdma_delta(*self, dev@),
    {
        match self {
            CounterRecording::Finished { start, end } => {
                let key = String::from_str(dev);
                let s = match table_get(&start.rdma_counters, &key) {
                    Some(s) => s,
                    None => return None,
                };
                let e = match table_get(&end.rdma_counters, &key) {
                    Some(e) => e,
                    None => return None,
                };
                Some(rdma_delta_of(s, e))
            },
            CounterRecording::Started(_) => None,
        }
    }

    /// The time between the two snapshots of a finished recording, in
    /// nanoseconds (0 while only started, or if the clock went back).
    pub fn delta_nanos(&self) -> (r: u64)
        ensures
            r == match *self {
                CounterRecording::Finished { start, end } => sat_sub(
                    end.taken_at_nanos,
                    start.taken_at_nanos,
                ),
                CounterRecording::Started(_) => 0,
            },
    {
        match self {
            CounterRecording::Finished { start, end } => end.taken_at_nanos.saturating_sub(
                start.taken_at_nanos,
            ),
            CounterRecording::Started(_) => 0,
        }
    }
}


/// The state of the interactive view.
pub struct Ui {
    pub current_tab: Tab,
    pub search_query: String,
    pub show_help: bool,
    pub search_mode: bool,
    pub selected_index: usize,
    pub raw_scroll_offset: u16,
    pub recording: Option<CounterRecording>,
    /// How often the inventory is collected again, in milliseconds.
    pub refresh_interval_ms: u64,
    pub show_raw_tab: bool,
}

/// What the view's state is, with the search as text.
pub struct UiModel {
    pub current_tab: Tab,
    pub search_query: Seq<char>,
    pub show_help: bool,
    pub search_mode: bool,
    pub selected_index: usize,
    pub raw_scroll_offset: u16,
    pub recording: Option<CounterRecording>,
    pub refresh_interval_ms: u64,
    pub show_raw_tab: bool,
}

impl View for Ui {
    type V = UiModel;

    open spec fn view(&self) -> UiModel {
        UiModel {
            current_tab: self.current_tab,
            search_query: self.search_query@,
            show_help: self.show_help,
            search_mode: self.search_mode,
            selected_index: self.selected_index,
            raw_scroll_offset: self.raw_scroll_offset,
            recording: self.recording,
            refresh_interval_ms: self.refresh_interval_ms,
            show_raw_tab: self.show_raw_tab,
        }
    }
}

/// A key as the view sees it.
#[derive(Debug, Clone, Copy, PartialEq, Eq, Structural)]
pub enum UiKey {
    Char(char),
    Enter,
    Esc,
    Backspace,
    Tab,
    BackTab,
    F(u8),
    Up,
    Down,
    Left,
    Right,
    PageUp,
    PageDown,
    Home,
    End,
    Other,
}

/// What the caller has to do after a key.
#[derive(Debug, Clone, Copy, PartialEq, Eq, Structural)]
pub enum UiAction {
    /// Nothing more.
    Continue,
    /// Leave the view.
    Quit,
    /// Take a counter snapshot and hand it to `Ui::start_recording`.
    StartRecording,
    /// Take a counter snapshot and hand it to `Ui::finish_recording`.
    FinishRecording,
}

/// A horizontal move between connected devices.
#[derive(Debug, Clone, Copy, PartialEq, Eq, Structural)]
pub enum DirectionHint {
    Left,
    Right,
}

/// The state a new view starts in.
pub open spec fn initial_ui(config: UiConfig) -> UiModel {
    UiModel {
        current_tab: tab_named(lowercase(config.default_tab@), config.show_raw_tab),
        search_query: Seq::empty(),
        show_help: false,
        search_mode: false,
        selected_index: 0,
        raw_scroll_offset: 0,
        recording: None,
        refresh_interval_ms: if config.refresh_interval_ms >= 100 {
            config.refresh_interval_ms
        } else {
            100
        },
        show_raw_tab: config.show_raw_tab,
    }
}

/// The nodes that the current tab lists under the current search.
pub open spec fn current_nodes(u: UiModel, inv: Inventory) -> Seq<Node> {
    filtered_nodes(inv.nodes@, u.current_tab, lowercase(u.search_query))
}

/// The id of the selected node: the node at the selected index, or the last
/// one when the index is past the end.
pub open spec fn selected_id(u: UiModel, inv: Inventory) -> Option<Seq<char>> {
    let ns = current_nodes(u, inv);
    if ns.len() == 0 {
        None
    } else {
        Some(
            ns[if u.selected_index < ns.len() {
                u.selected_index as int
            } else {
                ns.len() - 1
            }].id@,
        )
    }
}

/// The view on `tab` with the node `id` selected and the search cleared, if
/// that tab lists the node when nothing is searched.
pub open spec fn after_select(u: UiModel, inv: Inventory, tab: Tab, id: Seq<char>) -> UiModel {
    match node_position(filtered_nodes(inv.nodes@, tab, Seq::empty()), id) {
        Some(i) => UiModel {
            search_query: Seq::empty(),
            current_tab: tab,
            selected_index: i as usize,
            ..u
        },
        None => u,
    }
}

/// The view after a move towards a connected device: from an interface, left
/// goes to its PCI device (else its RDMA device) and right to its RDMA device
/// (else its PCI device); from an RDMA or PCI device either way goes to its
/// interface.
pub open spec fn after_navigate(u: UiModel, inv: Inventory, dir: DirectionHint) -> UiModel {
    match selected_id(u, inv) {
        None => u,
        Some(id) => match u.current_tab {
            Tab::Interfaces => {
                let primary = match dir {
                    DirectionHint::Left => NodeType::PciDevice,
                    DirectionHint::Right => NodeType::RdmaDevice,
                };
                let fallback = match dir {
                    DirectionHint::Left => NodeType::RdmaDevice,
                    DirectionHint::Right => NodeType::PciDevice,
                };
                match first_connected(inv, id, primary) {
                    Some(t) => after_select(u, inv, tab_of_type(t.node_type), t.id@),
                    None => match first_connected(inv, id, fallback) {
                        Some(t) => after_select(u, inv, tab_of_type(t.node_type), t.id@),
                        None => u,
                    },
                }
            },
            Tab::Rdma | Tab::Pci => match first_connected(inv, id, NodeType::NetworkInterface) {
                Some(t) => after_select(u, inv, Tab::Interfaces, t.id@),
                None => u,
            },
            Tab::Raw => u,
        },
    }
}

/// The position of a tab among those shown (0 for a tab that is not shown).
pub open spec fn shown_index(t: Tab, show_raw: bool) -> int {
    match t {
        Tab::Interfaces => 0,
        Tab::Rdma => 1,
        Tab::Pci => 2,
        Tab::Raw => if show_raw {
            3
        } else {
            0
        },
    }
}

/// The tab after the current one, wrapping around.
pub open spec fn next_tab_of(u: UiModel) -> Tab {
    let tabs = tabs_shown(u.show_raw_tab);
    tabs[(shown_index(u.current_tab, u.show_raw_tab) + 1) % (tabs.len() as int)]
}

/// The tab before the current one, wrapping around.
pub open spec fn prev_tab_of(u: UiModel) -> Tab {
    let tabs = tabs_shown(u.show_raw_tab);
    let i = shown_index(u.current_tab, u.show_raw_tab);
    if i == 0 {
        tabs[tabs.len() - 1]
    } else {
        tabs[i - 1]
    }
}

/// What a key does while a search is being typed.
pub open spec fn search_key(u: UiModel, key: UiKey) -> UiModel {
    match key {
        UiKey::Enter => UiModel { search_mode: false, ..u },
        UiKey::Esc => UiModel {
            search_mode: false,
            search_query: Seq::empty(),
            selected_index: 0,
            ..u
        },
        UiKey::Backspace => UiModel {
            search_query: if u.search_query.len() > 0 {
                u.search_query.drop_last()
            } else {
                u.search_query
            },
            selected_index: 0,
            ..u
        },
        UiKey::Char(c) => UiModel { search_query: u.search_query.push(c), selected_index: 0, ..u },
        _ => u,
    }
}

/// What a character key does outside a search: `q` quits, `h` toggles help,
/// `1`-`4` jump to a tab (`4` only while the raw tab is shown), `/` starts a
/// search, `[` starts a recording and `]` finishes a started one (or drops a
/// finished one), `g` and `G` scroll the raw tab to its top and bottom.
pub open spec fn char_key(u: UiModel, c: char) -> (UiModel, UiAction) {
    if c == 'q' {
        (u, UiAction::Quit)
    } else if c == 'h' {
        (UiModel { show_help: !u.show_help, ..u }, UiAction::Continue)
    } else if c == '1' {
        (UiModel { current_tab: Tab::Interfaces, selected_index: 0, ..u }, UiAction::Continue)
    } else if c == '2' {
        (UiModel { current_tab: Tab::Rdma, selected_index: 0, ..u }, UiAction::Continue)
    } else if c == '3' {
        (UiModel { current_tab: Tab::Pci, selected_index: 0, ..u }, UiAction::Continue)
    } else if c == '4' && u.show_raw_tab {
        (
            UiModel { current_tab: Tab::Raw, selected_index: 0, raw_scroll_offset: 0, ..u },
            UiAction::Continue,
        )
    } else if c == '/' {
        (UiModel { search_mode: true, ..u }, UiAction::Continue)
    } else if c == '[' {
        (u, UiAction::StartRecording)
    } else if c == ']' {
        match u.recording {
            Some(CounterRecording::Started(_)) => (u, UiAction::FinishRecording),
            _ => (UiModel { recording: None, ..u }, UiAction::Continue),
        }
    } else if c == 'g' && u.current_tab == Tab::Raw {
        (UiModel { raw_scroll_offset: 0, ..u }, UiAction::Continue)
    } else if c == 'G' && u.current_tab == Tab::Raw {
        (UiModel { raw_scroll_offset: u16::MAX, ..u }, UiAction::Continue)
    } else {
        (u, UiAction::Continue)
    }
}

/// `a - b`, or 0.
pub open spec fn sat_sub16(a: u16, b: u16) -> u16 {
    if a >= b {
        (a - b) as u16
    } else {
        0
    }
}

/// `a + b`, or the largest `u16`.
pub open spec fn sat_add16(a: u16, b: u16) -> u16 {
    if a + b <= u16::MAX {
        (a + b) as u16
    } else {
        u16::MAX
    }
}

/// What a key does outside a search, given the page size for paging.
pub open spec fn normal_key(u: UiModel, key: UiKey, inv: Inventory, page_step: u16) -> (
    UiModel,
    UiAction,
) {
    let raw = u.current_tab == Tab::Raw;
    let len = current_nodes(u, inv).len();
    match key {
        UiKey::Char(c) => char_key(u, c),
        UiKey::F(n) => if n == 1 {
            (UiModel { show_help: !u.show_help, ..u }, UiAction::Continue)
        } else {
            (u, UiAction::Continue)
        },
        UiKey::Tab => (
            UiModel { current_tab: next_tab_of(u), selected_index: 0, ..u },
            UiAction::Continue,
        ),
        UiKey::BackTab => (
            UiModel { current_tab: prev_tab_of(u), selected_index: 0, ..u },
            UiAction::Continue,
        ),
        UiKey::Up => (
            if raw {
                UiModel { raw_scroll_offset: sat_sub16(u.raw_scroll_offset, 1), ..u }
            } else if u.selected_index > 0 {
                UiModel { selected_index: (u.selected_index - 1) as usize, ..u }
            } else {
                u
            },
            UiAction::Continue,
        ),
        UiKey::Down => (
            if raw {
                UiModel { raw_scroll_offset: sat_add16(u.raw_scroll_offset, 1), ..u }
            } else if len > 0 && u.selected_index + 1 < len {
                UiModel { selected_index: (u.selected_index + 1) as usize, ..u }
            } else {
                u
            },
            UiAction::Continue,
        ),
        UiKey::PageUp => (
            if raw {
                UiModel { raw_scroll_offset: sat_sub16(u.raw_scroll_offset, page_step), ..u }
            } else {
                u
            },
            UiAction::Continue,
        ),
        UiKey::PageDown => (
            if raw {
                UiModel { raw_scroll_offset: sat_add16(u.raw_scroll_offset, page_step), ..u }
            } else if len > 0 {
                UiModel {
                    selected_index: if u.selected_index + page_step < len - 1 {
                        (u.selected_index + page_step) as usize
                    } else {
                        (len - 1) as usize
                    },
                    ..u
                }
            } else {
                u
            },
            UiAction::Continue,
        ),
        UiKey::Home => (
            if raw {
                UiModel { raw_scroll_offset: 0, ..u }
            } else {
                UiModel { selected_index: 0, ..u }
            },
            UiAction::Continue,
        ),
        UiKey::End => (
            if raw {
                UiModel { raw_scroll_offset: u16::MAX, ..u }
            } else {
                UiModel {
                    selected_index: if len > 0 {
                        (len - 1) as usize
                    } else {
                        0
                    },
                    ..u
                }
            },
            UiAction::Continue,
        ),
        UiKey::Left => (after_navigate(u, inv, DirectionHint::Left), UiAction::Continue),
        UiKey::Right => (after_navigate(u, inv, DirectionHint::Right), UiAction::Continue),
        UiKey::Esc => (
            UiModel { search_query: Seq::empty(), show_help: false, recording: None, ..u },
            UiAction::Continue,
        ),
        _ => (u, UiAction::Continue),
    }
}

/// What a key does to the view, and what the caller has to do next.
pub open spec fn key_effect(u: UiModel, key: UiKey, inv: Inventory, page_step: u16) -> (
    UiModel,
    UiAction,
) {
    if u.search_mode {
        (search_key(u, key), UiAction::Continue)
    } else {
        normal_key(u, key, inv, page_step)
    }
}

/// A collection is due once the time since the last one reaches the interval.
pub open spec fn refresh_due_after(interval_ms: u64, elapsed_nanos: int) -> bool {
    elapsed_nanos >= interval_ms * 1_000_000
}

/// The time left until the next collection is due, or 0 once it is due.
pub open spec fn poll_timeout_after(interval_ms: u64, elapsed_nanos: int) -> int {
    if elapsed_nanos <= interval_ms * 1_000_000 {
        interval_ms * 1_000_000 - elapsed_nanos
    } else {
        0
    }
}

/// What the status bar at the bottom of the screen shows.
#[derive(Debug, Clone, Copy, PartialEq, Eq, Structural)]
pub enum StatusBar {
    /// The keys of the search being typed.
    Search,
    /// A recording has been started.
    Recording,
    /// A recording has finished; its snapshots are `nanos` apart.
    Delta { nanos: u64 },
    /// The keys of the view.
    Keys,
}

/// The status bar of a view: the search keys while searching, else the
/// state of the recording, else the view's keys.
pub open spec fn status_of(u: UiModel) -> StatusBar {
    if u.search_mode {
        StatusBar::Search
    } else {
        match u.recording {
            Some(CounterRecording::Started(_)) => StatusBar::Recording,
            Some(CounterRecording::Finished { start, end }) => StatusBar::Delta {
                nanos: sat_sub(end.taken_at_nanos, start.taken_at_nanos),
            },
            None => StatusBar::Keys,
        }
    }
}

/// What the mouse did.
#[derive(Debug, Clone, Copy, PartialEq, Eq, Structural)]
pub enum MouseKind {
    LeftDown,
    ScrollUp,
    ScrollDown,
    Other,
}

/// A mouse event at a cell of the screen.
#[derive(Debug, Clone, Copy, PartialEq, Eq, Structural)]
pub struct MouseInput {
    pub kind: MouseKind,
    pub column: u16,
    pub row: u16,
}

/// The width of a tab's title in the tab bar.
pub open spec fn tab_width(t: Tab) -> u16 {
    match t {
        Tab::Interfaces => 10,
        Tab::Rdma => 4,
        Tab::Pci => 3,
        Tab::Raw => 3,
    }
}

/// The tab whose title covers `column`, when the titles start at `start`
/// and are three cells apart.
pub open spec fn tab_at(tabs: Seq<Tab>, start: u16, column: u16) -> Option<Tab>
    decreases tabs.len(),
{
    if tabs.len() == 0 {
        None
    } else {
        let end = sat_add(start, tab_width(tabs[0]));
        if column >= start && column < end {
            Some(tabs[0])
        } else {
            tab_at(tabs.drop_first(), sat_add(end, 3), column)
        }
    }
}

/// A click at `column` of the tab bar shows the tab clicked, from its top.
pub open spec fn after_tab_click(u: UiModel, column: u16, area: Area) -> UiModel {
    match tab_at(tabs_shown(u.show_raw_tab), sat_add(area.x, 1), column) {
        Some(t) => UiModel { current_tab: t, selected_index: 0, raw_scroll_offset: 0, ..u },
        None => u,
    }
}

/// A click selects the row of the list drawn at `list` under it (the rows
/// start below the list's border, and below its header for RDMA and PCI);
/// the raw tab has no list.
pub open spec fn after_content_click(
    u: UiModel,
    inv: Inventory,
    column: u16,
    row: u16,
    list: Option<Area>,
) -> UiModel {
    if u.current_tab == Tab::Raw {
        u
    } else {
        match list {
            None => u,
            Some(la) => if !area_holds(la, column, row) {
                u
            } else {
                let off = match u.current_tab {
                    Tab::Interfaces => sat_sub16(row, sat_add(la.y, 1)),
                    _ => sat_sub16(row, sat_add(la.y, 2)),
                };
                let len = current_nodes(u, inv).len();
                if len > 0 && off < (len as u16) {
                    UiModel { selected_index: off as usize, ..u }
                } else {
                    u
                }
            },
        }
    }
}

/// `v` kept within `lo..=hi`.
pub open spec fn clamp(v: int, lo: int, hi: int) -> int {
    if v < lo {
        lo
    } else if v > hi {
        hi
    } else {
        v
    }
}

/// Scrolling by `amount` rows (a page when 0): the raw tab scrolls, other
/// tabs move the selection within their list.
pub open spec fn after_scroll(u: UiModel, inv: Inventory, amount: i16, page_step: u16) -> UiModel {
    if u.current_tab == Tab::Raw {
        UiModel {
            raw_scroll_offset: if amount < 0 {
                sat_sub16(u.raw_scroll_offset, (-amount) as u16)
            } else {
                sat_add16(u.raw_scroll_offset, amount as u16)
            },
            ..u
        }
    } else {
        let len = current_nodes(u, inv).len();
        if len == 0 {
            UiModel { selected_index: 0, ..u }
        } else {
            let step: int = if amount == 0 {
                page_step as int
            } else {
                amount as int
            };
            UiModel {
                selected_index: clamp(u.selected_index + step, 0, len - 1) as usize,
                ..u
            }
        }
    }
}

/// What a mouse event does to a view drawn as `drawn` (none while searching
/// or when the view could not be drawn): a click closes the help, or chooses
/// a tab or a list row; the wheel scrolls three rows.
pub open spec fn mouse_effect(
    u: UiModel,
    m: MouseInput,
    drawn: Option<DrawnView>,
    inv: Inventory,
    page_step: u16,
) -> UiModel {
    if u.search_mode {
        u
    } else {
        match drawn {
            None => u,
            Some(d) => match m.kind {
                MouseKind::LeftDown => if u.show_help {
                    UiModel { show_help: false, ..u }
                } else if area_holds(d.layout.tabs, m.column, m.row) {
                    after_tab_click(u, m.column, d.layout.tabs)
                } else if area_holds(d.layout.content, m.column, m.row) {
                    after_content_click(u, inv, m.column, m.row, d.list)
                } else {
                    u
                },
                MouseKind::ScrollUp => after_scroll(u, inv, -3i16, page_step),
                MouseKind::ScrollDown => after_scroll(u, inv, 3i16, page_step),
                MouseKind::Other => u,
            },
        }
    }
}

fn tab_width_of(t: Tab) -> (r: u16)
    ensures
        r == tab_width(t),
{
    match t {
        Tab::Interfaces => 10,
        Tab::Rdma => 4,
        Tab::Pci => 3,
        Tab::Raw => 3,
    }
}

impl Ui {
    pub fn new(config: &UiConfig) -> (r: Self)
        ensures
            r@ == initial_ui(*config),
    {
        let show_raw_tab = config.show_raw_tab;
        Ui {
            current_tab: Tab::from_config(config.default_tab.as_str(), show_raw_tab),
            search_query: String::new(),
            show_help: false,
            search_mode: false,
            selected_index: 0,
            raw_scroll_offset: 0,
            recording: None,
            refresh_interval_ms: if config.refresh_interval_ms >= 100 {
                config.refresh_interval_ms
            } else {
                100
            },
            show_raw_tab,
        }
    }

    /// The nodes that `tab` lists under the current search.
    pub fn filtered_nodes<'a>(&self, inventory: &'a Inventory, tab: Tab) -> (r: Vec<&'a Node>)
        ensures
            deref_nodes(r@) == filtered_nodes(inventory.nodes@, tab, lowercase(self.search_query@)),
            all_ascii(self.search_query@) ==> deref_nodes(r@) == filtered_nodes(
                inventory.nodes@,
                tab,
                ascii_lowercase(self.search_query@),
            ),
    {
        let q = to_lowercase(self.search_query.as_str());
        filtered_nodes_for_query(inventory, tab, q.as_str())
    }

    /// How many nodes the current tab lists.
    pub fn current_list_len(&self, inventory: &Inventory) -> (r: usize)
        ensures
            r == current_nodes(self@, *inventory).len(),
    {
        self.filtered_nodes(inventory, self.current_tab).len()
    }

    /// The id of the selected node of the current tab.
    pub fn selected_node_id(&self, inventory: &Inventory) -> (r: Option<String>)
        ensures
            match r {
                Some(id) => selected_id(self@, *inventory) == Some(id@),
                None => selected_id(self@, *inventory) is None,
            },
    {
        let nodes = self.filtered_nodes(inventory, self.current_tab);
        if nodes.len() == 0 {
            return None;
        }
        let i = if self.selected_index < nodes.len() {
            self.selected_index
        } else {
            nodes.len() - 1
        };
        assert(deref_nodes(nodes@)[i as int] == *nodes@[i as int]);
        Some(nodes[i].id.clone())
    }

    /// Shows `tab` with node `node_id` selected and the search cleared, if
    /// `tab` lists that node when nothing is searched.
    pub fn select_node(&mut self, inventory: &Inventory, tab: Tab, node_id: &str) -> (r: bool)
        ensures
            final(self)@ == after_select(old(self)@, *inventory, tab, node_id@),
            r == node_position(filtered_nodes(inventory.nodes@, tab, Seq::empty()), node_id@) is Some,
    {
        proof {
            reveal_strlit("");
            assert(""@ =~= Seq::<char>::empty());
        }
        let nodes = filtered_nodes_for_query(inventory, tab, "");
        let id = String::from_str(node_id);
        match position_of_node(&nodes, &id) {
            Some(index) => {
                self.search_query = String::new();
                self.current_tab = tab;
                self.selected_index = index;
                assert(self@.search_query =~= Seq::<char>::empty());
                true
            },
            None => false,
        }
    }

    /// Moves the selection to a device connected to the selected one.
    pub fn navigate_connected(&mut self, inventory: &Inventory, direction: DirectionHint)
        ensures
            final(self)@ == after_navigate(old(self)@, *inventory, direction),
    {
        let node_id = match self.selected_node_id(inventory) {
            Some(id) => id,
            None => return,
        };
        match self.current_tab {
            Tab::Interfaces => {
                let primary = match direction {
                    DirectionHint::Left => NodeType::PciDevice,
                    DirectionHint::Right => NodeType::RdmaDevice,
                };
                let fallback = match direction {
                    DirectionHint::Left => NodeType::RdmaDevice,
                    DirectionHint::Right => NodeType::PciDevice,
                };
                match first_connected_node(inventory, node_id.as_str(), &primary) {
                    Some(target) => {
                        let tab = tab_for_node_type(&target.node_type);
                        self.select_node(inventory, tab, target.id.as_str());
                    },
                    None => match first_connected_node(inventory, node_id.as_str(), &fallback) {
                        Some(target) => {
                            let tab = tab_for_node_type(&target.node_type);
                            self.select_node(inventory, tab, target.id.as_str());
                        },
                        None => {},
                    },
                }
            },
            Tab::Rdma | Tab::Pci => {
                match first_connected_node(
                    inventory,
                    node_id.as_str(),
                    &NodeType::NetworkInterface,
                ) {
                    Some(target) => {
                        self.select_node(inventory, Tab::Interfaces, target.id.as_str());
                    },
                    None => {},
                }
            },
            Tab::Raw => {},
        }
    }

    /// The position of the current tab among those shown (0 if not shown).
    pub fn current_tab_index(&self) -> (r: usize)
        ensures
            r == shown_index(self.current_tab, self.show_raw_tab),
    {
        let tabs = Tab::all(self.show_raw_tab);
        let mut i: usize = 0;
        while i < tabs.len() && tabs[i] != self.current_tab
            invariant
                i <= tabs@.len(),
                tabs@ == tabs_shown(self.show_raw_tab),
                forall|j: int| 0 <= j < i ==> tabs@[j] != self.current_tab,
            decreases tabs@.len() - i,
        {
            i += 1;
        }
        if i == tabs.len() {
            assert(self.current_tab == Tab::Raw && !self.show_raw_tab) by {
                if self.show_raw_tab {
                    assert(tabs@[shown_index(self.current_tab, true)] == self.current_tab);
                } else if self.current_tab != Tab::Raw {
                    assert(tabs@[shown_index(self.current_tab, false)] == self.current_tab);
                }
            }
            0
        } else {
            i
        }
    }

    pub fn next_tab(&mut self)
        ensures
            final(self)@ == (UiModel { current_tab: next_tab_of(old(self)@), ..old(self)@ }),
    {
        let tabs = Tab::all(self.show_raw_tab);
        let current_index = self.current_tab_index();
        let next_index = (current_index + 1) % tabs.len();
        self.current_tab = tabs[next_index];
    }

    pub fn prev_tab(&mut self)
        ensures
            final(self)@ == (UiModel { current_tab: prev_tab_of(old(self)@), ..old(self)@ }),
    {
        let tabs = Tab::all(self.show_raw_tab);
        let current_index = self.current_tab_index();
        let prev_index = if current_index == 0 {
            tabs.len() - 1
        } else {
            current_index - 1
        };
        self.current_tab = tabs[prev_index];
    }

    fn handle_search_key(&mut self, key: UiKey)
        requires
            old(self).search_mode,
        ensures
            final(self)@ == search_key(old(self)@, key),
    {
        match key {
            UiKey::Enter => {
                self.search_mode = false;
            },
            UiKey::Esc => {
                self.search_mode = false;
                self.search_query = String::new();
                self.selected_index = 0;
                assert(self@.search_query =~= Seq::<char>::empty());
            },
            UiKey::Backspace => {
                let cs = chars_of(self.search_query.as_str());
                if cs.len() > 0 {
                    self.search_query = string_of(&sub_chars(&cs, 0, cs.len() - 1));
                    assert(self@.search_query =~= old(self)@.search_query.drop_last());
                }
                self.selected_index = 0;
            },
            UiKey::Char(c) => {
                self.search_query.push(c);
                self.selected_index = 0;
            },
            _ => {},
        }
    }

    fn handle_char_key(&mut self, c: char) -> (r: UiAction)
        ensures
            (final(self)@, r) == char_key(old(self)@, c),
    {
        if c == 'q' {
            UiAction::Quit
        } else if c == 'h' {
            self.show_help = !self.show_help;
            UiAction::Continue
        } else if c == '1' {
            self.current_tab = Tab::Interfaces;
            self.selected_index = 0;
            UiAction::Continue
        } else if c == '2' {
            self.current_tab = Tab::Rdma;
            self.selected_index = 0;
            UiAction::Continue
        } else if c == '3' {
            self.current_tab = Tab::Pci;
            self.selected_index = 0;
            UiAction::Continue
        } else if c == '4' && self.show_raw_tab {
            self.current_tab = Tab::Raw;
            self.selected_index = 0;
            self.raw_scroll_offset = 0;
            UiAction::Continue
        } else if c == '/' {
            self.search_mode = true;
            UiAction::Continue
        } else if c == '[' {
            UiAction::StartRecording
        } else if c == ']' {
            match &self.recording {
                Some(CounterRecording::Started(_)) => UiAction::FinishRecording,
                _ => {
                    self.recording = None;
                    UiAction::Continue
                },
            }
        } else if c == 'g' && self.current_tab == Tab::Raw {
            self.raw_scroll_offset = 0;
            UiAction::Continue
        } else if c == 'G' && self.current_tab == Tab::Raw {
            self.raw_scroll_offset = u16::MAX;
            UiAction::Continue
        } else {
            UiAction::Continue
        }
    }

    /// Applies a key to the view; `page_step` is how far paging moves.
    pub fn handle_key(&mut self, key: UiKey, inventory: &Inventory, page_step: u16) -> (r: UiAction)
        ensures
            (final(self)@, r) == key_effect(old(self)@, key, *inventory, page_step),
    {
        if self.search_mode {
            self.handle_search_key(key);
            return UiAction::Continue;
        }
        let raw = self.current_tab == Tab::Raw;
        match key {
            UiKey::Char(c) => self.handle_char_key(c),
            UiKey::F(n) => {
                if n == 1 {
                    self.show_help = !self.show_help;
                }
                UiAction::Continue
            },
            UiKey::Tab => {
                self.next_tab();
                self.selected_index = 0;
                UiAction::Continue
            },
            UiKey::BackTab => {
                self.prev_tab();
                self.selected_index = 0;
                UiAction::Continue
            },
            UiKey::Up => {
                if raw {
                    self.raw_scroll_offset = self.raw_scroll_offset.saturating_sub(1);
                } else if self.selected_index > 0 {
                    self.selected_index -= 1;
                }
                UiAction::Continue
            },
            UiKey::Down => {
                if raw {
                    self.raw_scroll_offset = self.raw_scroll_offset.saturating_add(1);
                } else {
                    let len = self.current_list_len(inventory);
                    if len > 0 && self.selected_index < len - 1 {
                        self.selected_index += 1;
                    }
                }
                UiAction::Continue
            },
            UiKey::PageUp => {
                if raw {
                    self.raw_scroll_offset = self.raw_scroll_offset.saturating_sub(page_step);
                }
                UiAction::Continue
            },
            UiKey::PageDown => {
                if raw {
                    self.raw_scroll_offset = self.raw_scroll_offset.saturating_add(page_step);
                } else {
                    let len = self.current_list_len(inventory);
                    if len > 0 {
                        let target = self.selected_index.saturating_add(page_step as usize);
                        self.selected_index = if target < len - 1 {
                            target
                        } else {
                            len - 1
                        };
                    }
                }
                UiAction::Continue
            },
            UiKey::Home => {
                if raw {
                    self.raw_scroll_offset = 0;
                } else {
                    self.selected_index = 0;
                }
                UiAction::Continue
            },
            UiKey::End => {
                if raw {
                    self.raw_scroll_offset = u16::MAX;
                } else {
                    let len = self.current_list_len(inventory);
                    self.selected_index = len.saturating_sub(1);
                }
                UiAction::Continue
            },
            UiKey::Left => {
                self.navigate_connected(inventory, DirectionHint::Left);
                UiAction::Continue
            },
            UiKey::Right => {
                self.navigate_connected(inventory, DirectionHint::Right);
                UiAction::Continue
            },
            UiKey::Esc => {
                self.search_query = String::new();
                self.show_help = false;
                self.recording = None;
                assert(self@.search_query =~= Seq::<char>::empty());
                UiAction::Continue
            },
            _ => UiAction::Continue,
        }
    }

    /// Starts a recording from the counter snapshot just taken.
    pub fn start_recording(&mut self, snapshot: CounterSnapshot)
        ensures
            final(self)@ == (UiModel {
                recording: Some(CounterRecording::Started(snapshot)),
                ..old(self)@
            }),
    {
        self.recording = Some(CounterRecording::Started(snapshot));
    }

    /// Finishes the started recording with the counter snapshot just taken.
    pub fn finish_recording(&mut self, snapshot: CounterSnapshot)
        requires
            old(self).recording matches Some(CounterRecording::Started(_)),
        ensures
            final(self)@ == (UiModel {
                recording: Some(
                    CounterRecording::Finished {
                        start: old(self).recording->Some_0->Started_0,
                        end: snapshot,
                    },
                ),
                ..old(self)@
            }),
    {
        let rec = self.recording.take();
        match rec {
            Some(CounterRecording::Started(start)) => {
                self.recording = Some(CounterRecording::Finished { start, end: snapshot });
            },
            _ => {},
        }
    }

    /// What the status bar shows.
    pub fn status_bar(&self) -> (r: StatusBar)
        ensures
            r == status_of(self@),
    {
        if self.search_mode {
            return StatusBar::Search;
        }
        match &self.recording {
            Some(CounterRecording::Started(_)) => StatusBar::Recording,
            Some(rec) => StatusBar::Delta { nanos: rec.delta_nanos() },
            None => StatusBar::Keys,
        }
    }

    /// The inventory is due to be collected again once `elapsed_nanos` since
    /// the last collection reach the refresh interval.
    pub fn refresh_due(&self, elapsed_nanos: u128) -> (r: bool)
        ensures
            r == refresh_due_after(self.refresh_interval_ms, elapsed_nanos as int),
    {
        elapsed_nanos >= (self.refresh_interval_ms as u128) * 1_000_000
    }

    /// How long to wait for input before the next collection is due.
    pub fn poll_timeout_nanos(&self, elapsed_nanos: u128) -> (r: u128)
        ensures
            r == poll_timeout_after(self.refresh_interval_ms, elapsed_nanos as int),
    {
        ((self.refresh_interval_ms as u128) * 1_000_000).saturating_sub(elapsed_nanos)
    }

    /// Shows the tab whose title covers `column` of the tab bar `area`.
    pub fn select_tab_at(&mut self, column: u16, area: Area)
        ensures
            final(self)@ == after_tab_click(old(self)@, column, area),
    {
        let tabs = Tab::all(self.show_raw_tab);
        let ghost all = tabs@;
        let mut start = area.x.saturating_add(1);
        let mut i: usize = 0;
        assert(all.skip(0) =~= all);
        while i < tabs.len()
            invariant
                i <= tabs@.len(),
                all == tabs@,
                all == tabs_shown(self.show_raw_tab),
                self@ == old(self)@,
                tab_at(all, sat_add(area.x, 1), column) == tab_at(all.skip(i as int), start, column),
            decreases tabs@.len() - i,
        {
            let tab = tabs[i];
            assert(all.skip(i as int)[0] == tab);
            assert(all.skip(i as int).drop_first() =~= all.skip(i + 1));
            let end = start.saturating_add(tab_width_of(tab));
            if column >= start && column < end {
                self.current_tab = tab;
                self.selected_index = 0;
                self.raw_scroll_offset = 0;
                return;
            }
            start = end.saturating_add(3);
            i += 1;
        }
        assert(all.skip(i as int) =~= Seq::<Tab>::empty());
    }

    /// Selects the row under the cell clicked in the list drawn at `list`.
    pub fn select_content_at(
        &mut self,
        column: u16,
        row: u16,
        list: Option<Area>,
        inventory: &Inventory,
    )
        ensures
            final(self)@ == after_content_click(old(self)@, *inventory, column, row, list),
    {
        if self.current_tab == Tab::Raw {
            return;
        }
        let list = match list {
            Some(a) => a,
            None => return,
        };
        if !rect_contains(list, column, row) {
            return;
        }
        let row_offset = match self.current_tab {
            Tab::Interfaces => row.saturating_sub(list.y.saturating_add(1)),
            _ => row.saturating_sub(list.y.saturating_add(2)),
        };
        let len = self.current_list_len(inventory);
        if len > 0 && row_offset < len as u16 {
            self.selected_index = row_offset as usize;
        }
    }

    /// Scrolls by `amount` rows, or by a page of `page_step` rows when 0.
    pub fn scroll_current(&mut self, amount: i16, page_step: u16, inventory: &Inventory)
        ensures
            final(self)@ == after_scroll(old(self)@, *inventory, amount, page_step),
    {
        if self.current_tab == Tab::Raw {
            self.raw_scroll_offset = if amount < 0 {
                self.raw_scroll_offset.saturating_sub((0i32 - amount as i32) as u16)
            } else {
                self.raw_scroll_offset.saturating_add(amount as u16)
            };
            return;
        }
        let len = self.current_list_len(inventory);
        if len == 0 {
            self.selected_index = 0;
            return;
        }
        let step: i128 = if amount == 0 {
            page_step as i128
        } else {
            amount as i128
        };
        let target: i128 = self.selected_index as i128 + step;
        let last: i128 = (len - 1) as i128;
        let next: i128 = if target < 0 {
            0
        } else if target > last {
            last
        } else {
            target
        };
        self.selected_index = next as usize;
    }

    /// Applies a mouse event to the view as it was last drawn (`None` when it
    /// could not be drawn); `page_step` is how far a page scrolls.
    pub fn handle_mouse(
        &mut self,
        mouse: MouseInput,
        drawn: Option<DrawnView>,
        inventory: &Inventory,
        page_step: u16,
    )
        ensures
            final(self)@ == mouse_effect(old(self)@, mouse, drawn, *inventory, page_step),
    {
        if self.search_mode {
            return;
        }
        let d = match drawn {
            Some(d) => d,
            None => return,
        };
        match mouse.kind {
            MouseKind::LeftDown => {
                if self.show_help {
                    self.show_help = false;
                    return;
                }
                if rect_contains(d.layout.tabs, mouse.column, mouse.row) {
                    self.select_tab_at(mouse.column, d.layout.tabs);
                } else if rect_contains(d.layout.content, mouse.column, mouse.row) {
                    self.select_content_at(mouse.column, mouse.row, d.list, inventory);
                }
            },
            MouseKind::ScrollUp => {
                self.scroll_current(-3, page_step, inventory);
            },
            MouseKind::ScrollDown => {
                self.scroll_current(3, page_step, inventory);
            },
            MouseKind::Other => {},
        }
    }
}

} // verus!
