# screenruster

The core of a screen locker for X11, verified with Verus.

- `src/config.rs` reads the locker's configuration (timer, locker, auth and
  saver sections) from a TOML document parsed by the `toml` crate.
- `src/display.rs` decides what the locker does with its display: which
  extensions it uses, whether the monitor is on, which DPMS level to force,
  which events to listen for on observed windows.
- `src/locker.rs` keeps the locker's windows and which of them run a saver,
  and plans what to do for each request, saver report and X11 event.
- `src/toml_access.rs` holds the trusted wrappers around the `toml` crate.

`app/` is the program around the library: it finds and reads the
configuration file, talks to the X11 server through `x11`, and runs the
locker thread that carries out the library's plans.
