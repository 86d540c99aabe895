# benchboss

Routes up to five physical gamepads into four virtual Xbox 360 controller
slots plus one bench position, and hot-swaps players between them without
the game seeing a disconnect.

- `src/` — the verified library (Verus): the routing table and its laws
  (`routing`), device and gamepad-state types with the XInput report
  conversions, the device selection of enumeration, the capture-side map
  updates (`controller`), and the decisions of the frontend commands and of
  the forwarding loop (`commands`).
- `app/` — the application shell: Tauri commands, shared state behind locks,
  the Win32 Raw Input pump, XInput polling and ViGEm output.
- `tests/` — tests of the library.
