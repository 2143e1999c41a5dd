/// Virtual HID devices (keyboard reports)
pub mod vhid;

/// Maps keyed by characters
pub mod charmap;

/// Display server output (key mapping, typing plans, held keys)
pub mod displayserver;

/// Unicode output (older interface: key mapping and held keys)
pub mod unicode;

/// The daemon's own node
pub mod daemonnode;
