# autoclick-rs

An automatic key presser: it sends a key, or a combo of keys, to a chosen
window or terminal at a fixed interval, optionally for a limited time.

The decisions are a library verified with Verus (`src/`):

- `keyboard`, `macos::keyboard`, `windows::keyboard` — the key tables of
  X11/evdev, macOS and Windows, and which keys are modifiers;
- `combo` — the combo protocol as a state machine: modifiers pressed in
  order, regular keys tapped, modifiers released in reverse order; when a
  press or a tap fails, every modifier held is released, and the first
  error is reported. On Linux and macOS a failed release also leads to the
  release of the other modifiers; on Windows the combo ends there;
- `worker`, `linux::engine`, `macos::engine`, `windows::engine` — when a
  sender stops and what it reports;
- `detect`, `linux::detect` — the display server of a session;
- `uinput`, `linux::x11`, `windows::sender`, `windows::injector` — what is
  written to a uinput device, how X11 replies are decoded and a key is
  delivered, and how a key reaches a Windows window or console;
- `linux::targets`, `macos::targets`, `windows::targets` — which windows and
  processes are offered, in which order;
- `macos::app`, `windows::app` — the bookkeeping of the tabbed front-ends;
- `text`, `sort`, `find` — rendering numbers, comparing and searching
  strings, stable sorting.

`app/` is a command-line front-end for Linux around the library: it reads
the environment, talks to the X server (x11rb) or `/dev/uinput` (libc),
lists processes (sysinfo) and runs the sender thread (crossbeam-channel,
parking_lot).

`tests/` runs the library on concrete values.
