# hid-io-core

HID-IO core: the host side of the HID-IO protocol, with the logic stated in contracts
and proved with Verus.

## Layout

- `src/protocol/hidio.rs`: HID-IO packet framing: header fields, decoding of a byte
  stream into a packet buffer, serialization into packets of a maximum length, and the
  proof that decoding a serialized buffer gives it back.
- `src/device.rs`: per-transport decisions (what to acknowledge, forward and send), the
  writes that send a packet, the message passer's registry and message builders.
  - `src/device/hidapi.rs`: HID-IO interface matching, device names, bluetooth
    detection, report framing and the device scan decision.
  - `src/device/evdev.rs`: evdev key codes to HID codes and the report queue of an
    evdev device.
- `src/api.rs`: node descriptions (device information, keys, names).
- `src/mailbox.rs`: node registry, uid assignment and reuse, message addressing.
- `src/module/`: virtual keyboard reports (`vhid.rs`), the display server outputs
  (`displayserver/`: Xorg keycode search and typing rounds, Windows key events, macOS
  typing plans, the Wayland keymap with its keycode allocation), the older unicode
  outputs (`unicode/`) and the daemon node.
- `app/`: the daemon around the library: byte transports, channels and `main`.
- `tests/`: tests of the library on concrete values.
