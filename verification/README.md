# lazynet

A terminal tool for inspecting network devices — interfaces, PCI devices and
RDMA devices — and how they are connected, with counter recording and JSON
export.

The library under `src/` is verified with Verus:

- `data` — the inventory graph (nodes, edges, per-device counters) and its
  map-shaped models; `table` — keyed entry lists read as finite maps.
- `collectors` — parsers for `ip addr`/`ip link` and `ifconfig` (interfaces with
  their state, MTU and IPv4/IPv6 addresses), `lspci -vmm`,
  `ibv_devinfo`, `rdma link`, `dcb pfc` and `ethtool -S` output, each proved
  against a line-by-line specification.
- `ui` — the interactive view as a state machine: every key, click, wheel
  turn and timer tick is a function from state to state with an exact
  contract; `ui::layout` places the screen areas through ratatui's solver.
- `text` — the string operations the parsers rely on, with the meaning the
  standard library gives them.
- `laws` — properties stated across operations (symmetric connections,
  narrowing searches, tab cycling, recording keys, refresh timing, ...).

`app/` is the program around it: command line, configuration file, running
the commands and reading sysfs, the terminal event loop and the drawing.
