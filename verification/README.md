# xfce_rs

The decision-making core of a small X11 desktop (window manager, panel and
plugins, application launchers, audio window, menu and utilities), written
in Verus. The library's own functions carry contracts that Verus proves.
The calls into other crates and into parts of `std` that Verus has no
specification for (the fuzzy matcher, the desktop-file decoder, the user
directories, path and character queries) go through small wrapper
functions marked `#[verifier::external_body]`: their contracts are taken
on trust, each stating only what that crate's source or documentation
shows, and the proofs above them rest on those statements.

Layout:

- `src/wm/` — the window manager's model: client records, ICCCM gravity and
  configure requests, stacking and focus policy, maximize/fullscreen,
  workspaces, snapping, pointer drags and XSync, property updates, the
  compositor's paint order and the override-redirect windows it paints,
  client liveness pings, window management plans and decorations.
- `src/frame.rs`, `src/placement.rs`, `src/error.rs` — frame geometry and
  hit testing, window placement, error accounting.
- `src/panel/` — panel settings and configuration, plugin discovery and
  slots, the window buttons, the separator and show-desktop plugins, and
  the dock properties of the panel window.
- `src/menu.rs`, `src/appfinder.rs`, `src/launcher.rs` — desktop files,
  the application menu, application search and the launcher windows.
- `src/audio.rs`, `src/mixer.rs` — audio devices and media players, and the
  audio window's decisions.
- `src/config.rs` — the configuration store.
- `src/text.rs`, `src/utils.rs` — string helpers and file/string utilities.
- `src/hotkey.rs`, `src/ipc.rs` — the navigator's hotkey, the message
  service client.

`app/` is the program around the library: X11 (with compositing through
the Composite and Render extensions), file system, processes,
TOML, and the sound server and media players (through `pactl` and
`dbus-send`), which hand plain values to the library and carry out what it
decides. The launcher and audio windows run there as terminal front ends
driven from standard input.
`tests/` exercises the library on concrete values.
