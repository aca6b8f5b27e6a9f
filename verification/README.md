# lanswitch_core

The shared logic of LANSwitch, a tray tool that switches the IPv4 settings of a
network interface between presets, written in Verus with its contracts proved.

- `src/` — the verified library: presets and requests (`types`), strict
  validation and subnet arithmetic (`validate`, `ipv4`, `text`), the argv
  vectors for `networksetup` and `netsh` (`commands`), reading the output of
  the discovery tools (`discover`), the privileged helper's decisions
  (`helper`), the tray menu's decisions (`tray`), and properties that tie them
  together (`laws`).
- `app/` — the privileged helper program and the I/O around the library:
  the local socket, running the OS tools, the presets file, JSON.
- `tests/` — tests of the library.
