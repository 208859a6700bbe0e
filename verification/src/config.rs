//! User configuration: what the interface shows, which collectors run, and
//! how the inventory is exported.
use vstd::prelude::*;

verus! {

#[derive(Debug, Clone)]
pub struct Config {
    pub ui: UiConfig,
    pub collectors: CollectorConfig,
    pub export: ExportConfig,
}

#[derive(Debug, Clone)]
pub struct UiConfig {
    pub refresh_interval_ms: u64,
    pub default_tab: String,
    pub show_raw_tab: bool,
}

#[derive(Debug, Clone, Copy, PartialEq, Eq, Structural)]
pub struct CollectorConfig {
    pub enable_network: bool,
    pub enable_pci: bool,
    pub enable_rdma: bool,
    pub enable_dpdk: bool,
}

#[derive(Debug, Clone, Copy, PartialEq, Eq, Structural)]
pub struct ExportConfig {
    pub pretty_json: bool,
    pub include_metadata: bool,
}

impl Default for Config {
    /// Refresh every second, open on the interfaces tab with the raw tab
    /// shown, run every collector but DPDK (which does not exist yet), export
    /// pretty JSON with metadata.
    fn default() -> (r: Self)
        ensures
            r.ui.refresh_interval_ms == 1000,
            r.ui.default_tab@ == "interfaces"@,
            r.ui.show_raw_tab,
            r.collectors == (CollectorConfig {
                enable_network: true,
                enable_pci: true,
                enable_rdma: true,
                enable_dpdk: false,
            }),
            r.export == (ExportConfig { pretty_json: true, include_metadata: true }),
    {
        Config {
            ui: UiConfig {
                refresh_interval_ms: 1000,
                default_tab: String::from_str("interfaces"),
                show_raw_tab: true,
            },
            collectors: CollectorConfig {
                enable_network: true,
                enable_pci: true,
                enable_rdma: true,
                enable_dpdk: false,
            },
            export: ExportConfig { pretty_json: true, include_metadata: true },
        }
    }
}

} // verus!
