# wiremix

The logic of a terminal mixer for PipeWire, written in Verus: each function
states what it returns in its `requires` / `ensures` contract, and Verus
proves the code against it.

`src/` is the verified library:

- `state` keeps what the PipeWire monitor has reported (clients, nodes,
  devices, links, metadata), and `capture_manager` decides which nodes'
  peaks are captured.
- `view` turns the state into what is shown: the nodes and devices of each
  list, in order, their titles, targets, routes and defaults; it also builds
  the commands for muting, setting defaults and moving streams.
- `object_list`, `node_list`, `tabs` and `app` hold the selection, the
  viewport, the dropdown of targets, the tabs, and what keys and monitor
  events do; `widget` decides what a node's header shows, where dropdowns go
  and which mouse area a click reaches.
- `config` reads the configuration's parts: name templates and overrides,
  match rules, filters, character sets, themes, the key bindings (the
  default table, configured bindings laid over it, and the lookup of a
  pressed key), the colors and modifiers of styles, the help table, and
  the opening tab and volume limit;
  `names` holds the older format strings.
- `truncate`, `width`, `text`, `sort`, `str_map` and `json` are the helpers
  beneath them. Calls into `unicode-width`, `serde_json` and `regex` stand
  behind small wrappers whose contracts name what those crates return.

`app/` is the command around it: command-line options, the configuration
file read with serde and TOML into the library's types, and the volume and
peak-meter arithmetic, which works in floating point (the library decides
which volume command a change becomes).

`tests/` runs the library on concrete values.
