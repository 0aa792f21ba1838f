# Mouse Shaker

Mouse Shaker keeps a computer awake: two worker threads move the mouse by
one pixel and back, and press F15, at configured intervals. A window and a
tray icon start and stop them; the intervals and the tray's left-click mode
are kept in `mouse_shaker_settings.conf` beside the executable.

## Layout

- `src/` — the library, verified with Verus:
  - `text.rs`: trimming, searching, line splitting and decimal digits over
    characters, specified as `str::trim`, `str::lines`,
    `str::parse::<bool>` and `Display` behave;
  - `settings.rs`: the settings, their file format (`parse_settings`,
    `serialize_settings`), interval values (an optional sign and digits,
    clamped into bounds however large), and the laws that saved
    settings read back clamped and that skipped lines change nothing;
  - `app.rs`: the window, tray and menu decisions as state transitions, and
    their laws;
  - `worker.rs`: the decisions of the mouse and key workers;
  - `icon.rs`: decoding the PNG icon with the `image` crate.
- `app/` — the program: window (eframe), tray icon (tray-icon), worker
  threads (enigo, crossbeam-channel, core_affinity), file I/O. It carries
  out what the library decides.
- `tests/` — tests of the library.
