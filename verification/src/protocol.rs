/// HID-IO wire format
pub mod hidio;
