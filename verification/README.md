# ae_taskmanager

A Linux system monitor whose logic is a verified Verus library.

- `src/` is the library. Every function in it is verified with Verus against
  its `requires` / `ensures` contract: the parsers of `/proc` tables,
  `.desktop` files, `systemctl` and `nvidia-smi` output, the process list
  and tree, icon lookup, startup-entry rewriting, the state of each tab, and
  the formatting of sizes, speeds and uptimes. Laws that relate several
  functions are public proof functions beside them.
- `app/` is the program around it: the `eframe` window, reading files and
  running commands, the sampling thread and the floating-point statistics.
  It hands the library plain values and acts on what comes back.
- `tests/` runs the library on concrete inputs.

Module map of `src/`:

| module         | contents                                                      |
|----------------|---------------------------------------------------------------|
| `text`         | characters, trimming, splitting, searching                    |
| `num`, `format`| decimal numbers; byte, speed and uptime labels                |
| `paths`        | path components, file names, extensions                       |
| `process`      | process list sorting and filtering, the process tree          |
| `netconn`, `ipv6` | `/proc/net` socket tables and addresses                    |
| `filelock`     | which processes hold a file open                              |
| `systemd`      | service lists and service actions                             |
| `startup`      | autostart entries, enabling and disabling them                |
| `icons`        | `.desktop` scanning, icon themes and icon search paths        |
| `stats`        | disk, network and GPU counters                                |
| `command`      | outcomes of external commands                                 |
| `backend`, `localization`, `sidebar`, `tabs` | platform facts, texts, tab states |
