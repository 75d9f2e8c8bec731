# nothing_core

A controller for the Nothing Ear (2024) earbuds, model B171, over the vendor
RFCOMM service that BlueZ exposes.

- `src/` is the library, verified with Verus: the frame codec and its CRC,
  the command encoder and report decoder, the session state machine that
  activates, identifies and synchronises the earbuds and tracks every write
  until it is acknowledged, the reconnection policy, device discovery rules,
  settings and EQ-profile validation, log redaction, and the display model
  that shows commands in flight over the confirmed device state.
  `src/session_run.rs` states properties of whole runs of the session:
  writes stay blocked until the earbuds identify as B171, an unacknowledged
  write fails once at the first tick after its deadline, and an acknowledged
  write is read back and settled.
- `tests/` exercises the library on concrete values.
- `app/` is the desktop program around it: the GTK/libadwaita window, the
  tray icon, BlueZ discovery and the RFCOMM link, file storage and
  notifications. It performs what the library decides.

Floating-point EQ values are carried as IEEE-754 binary32 bit patterns in
the library; the window converts them for its sliders.
