//! HID-IO core library: packet framing, device bookkeeping and
//! host-side key output logic, with machine-checked contracts.

/// HID-IO packet protocol (framing, decoding and re-assembly)
pub mod protocol;

/// Text formatting of numbers (hexadecimal and decimal)
pub mod text;

/// Node descriptions (device information, keys and names)
pub mod api;

/// Node registry, uid assignment and message addressing
pub mod mailbox;

/// HID-IO device transports (packet encode/decode loop decisions)
pub mod device;

/// Host-side modules (virtual HID devices, display server output)
pub mod module;
