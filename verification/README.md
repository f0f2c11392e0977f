# LanGateway

A Windows desktop tool that manages `netsh interface portproxy` TCP
forwarding rules, with an egui user interface.

The logic is a library verified with Verus; the program around it runs the
commands, reads and writes files, and draws the window.

## Layout

- `src/` — the verified library
  - `text.rs` — string operations with specifications (trimming, splitting,
    lines, number parsing and printing)
  - `model.rs` — rules, portproxy entries, interfaces, health states
  - `portproxy.rs` — reading `netsh interface portproxy show all` and the
    arguments of the add / delete commands
  - `network.rs` — interfaces from `ipconfig /all` or PowerShell records,
    virtual adapters, the choice of the gateway address
  - `encoding.rs` — decoding console output (UTF-8, GBK)
  - `health.rs` — health of rules and unmanaged entries
  - `rules.rs` — the rules panel: orphans, adoption, the add / edit form
  - `config.rs`, `update.rs`, `privilege.rs`, `clock.rs`, `panels.rs`, `gateway_app.rs` —
    configuration, self-update, elevation, log time stamps, panel and application state
- `tests/` — tests of the library
- `app/` — the program: window, pages, commands, files, network probes

Configuration lives in `C:\ProgramData\LanGateway\config.toml`; a
`config.toml` next to the program is moved there on first start.
