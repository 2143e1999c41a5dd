use hid_io_core::api::{Endpoint, EvdevInfo, HidApiInfo, NodeType, UhidInfo};
use hid_io_core::device::hidapi::{device_name, keyboard_node_type, match_device, report_buffer, scan_device, Platform};
use hid_io_core::mailbox::{
    ack_wait_step, command_message, stream_wait_step,
    try_wait_step, Address, AckWaitError, Mailbox, UidError, WaitEvent,
};
use hid_io_core::module::charmap::CharMap;
use hid_io_core::module::daemonnode::DaemonNode;
use hid_io_core::module::unicode::osx::OSXConnection;
use hid_io_core::module::unicode::x11::XConnection as UnicodeXConnection;
use hid_io_core::module::unicode::{StubOutput as UnicodeStub, UnicodeOutput};
use hid_io_core::module::vhid::{keyboard_6kro_report, keyboard_nkro_report};
use hid_io_core::protocol::hidio::HIDIOPacketType;
use hid_io_core::text::{push_dec, push_hex, push_hex_padded, push_signed_dec, push_upper_hex};

fn hidapi_info(serial: Option<&str>) -> HidApiInfo {
    HidApiInfo::new(
        "/dev/hidraw3".to_string(),
        0x308f,
        0x0011,
        serial.map(|s| s.to_string()),
        0x0100,
        Some("Input Club".to_string()),
        None,
        0xff1c,
        0x1100,
        5,
    )
}

#[test]
fn text_number_formats() {
    let mut s = String::new();
    push_hex(&mut s, 0xff1c);
    s.push(' ');
    push_upper_hex(&mut s, 0x1F600);
    s.push(' ');
    push_dec(&mut s, 0);
    s.push(' ');
    push_signed_dec(&mut s, -42);
    s.push(' ');
    push_hex_padded(&mut s, 0x2f, 4);
    s.push(' ');
    push_hex_padded(&mut s, 0x12345, 4);
    assert_eq!(s, "ff1c 1F600 0 -42 002f 12345");
}

#[test]
fn node_type_names() {
    assert_eq!(NodeType::HidioDaemon.to_string(), "HidioDaemon");
    assert_eq!(NodeType::BleKeyboard.to_string(), "BleKeyboard");
    assert_eq!(NodeType::Unknown.to_string(), "Unknown");
}

#[test]
fn hidapi_info_keys() {
    let mut info = hidapi_info(None);
    assert_eq!(info.serial_number, "<Serial Unset>");
    assert_eq!(info.product_string, "<Product Unset>");
    assert_eq!(
        info.key(),
        "vid:308f pid:0011 serial:<Serial Unset> manufacturer:Input Club product:<Product Unset> usage_page:ff1c usage:1100 interface:5"
    );
    let mut evdev = EvdevInfo::default();
    evdev.name = "kbd".to_string();
    evdev.vendor_id = 0x1;
    evdev.driver_version = -3;
    assert_eq!(
        evdev.key(),
        "vid:0001 pid:0000 name:kbd uniq: bus:0 version:0 driver_version:-3"
    );
    // The physical location is not part of the key
    let mut moved = evdev.clone();
    moved.phys = "usb-1/input0".to_string();
    assert_eq!(moved.key(), evdev.key());
    let mut uhid = UhidInfo::default();
    uhid.vendor = 0x308f;
    uhid.product = 0x30;
    uhid.country = 7;
    assert_eq!(
        uhid.key(),
        "vendor:308f product:0030 name: uniq: bus:0 version:0 country:7"
    );
}

#[test]
fn endpoint_names_and_display() {
    let mut e = Endpoint::new(NodeType::UsbKeyboard, 12);
    e.set_hidapi_params(hidapi_info(Some("42")));
    assert_eq!(e.name(), "[308f:0011-ff1c:1100] [Input Club] <Product Unset>");
    assert_eq!(e.serial(), "42");
    assert_eq!(e.uid(), 12);
    assert_eq!(e.path(), "/dev/hidraw3");
    assert_eq!(
        e.to_string(),
        "id:12 USB [308f:0011-ff1c:1100] [Input Club] <Product Unset> 42"
    );
    let mut d = Endpoint::new(NodeType::HidioDaemon, 1);
    d.set_daemonnode_params(77);
    assert_eq!(d.name(), "HID-IO Core Daemon Node");
    assert_eq!(d.serial(), "pid:77");
    assert_eq!(d.key(), "name:HID-IO Core Daemon Node serial:pid:77");
    assert_eq!(d.to_string(), "id:1 HID-IO Core Daemon Node pid:77");
}

#[test]
fn hidapi_helpers() {
    assert!(match_device(0xff1c, 0x1100));
    assert!(!match_device(0xff1c, 0x1101));
    assert_eq!(
        device_name(0x308f, 0x11, 0xff1c, 0x1100, 2, Some("IC".to_string()), Some("K".to_string()), None),
        "[308f:0011-ff1c:1100] I:2 IC K"
    );
    assert_eq!(keyboard_node_type(Some("aa:BB:cc:00:11:22")), NodeType::BleKeyboard);
    assert_eq!(keyboard_node_type(Some("x aa:BB:cc:00:11:22 y")), NodeType::BleKeyboard);
    assert_eq!(keyboard_node_type(Some("aa:BB:cc:00:11")), NodeType::UsbKeyboard);
    assert_eq!(keyboard_node_type(None), NodeType::UsbKeyboard);
    assert_eq!(report_buffer(&[0, 1], Platform::LinuxOrMacos), vec![0, 0, 1]);
    assert_eq!(report_buffer(&[3, 1], Platform::LinuxOrMacos), vec![3, 1]);
    assert_eq!(report_buffer(&[3], Platform::Windows), vec![0, 3]);
    assert_eq!(report_buffer(&[0], Platform::Other), vec![0]);
}

#[test]
fn mailbox_uid_lifecycle() {
    let mut mb = Mailbox::new();
    let key = "vid:1 pid:2".to_string();
    let uid = mb.assign_uid(key.clone(), "/a".to_string()).unwrap();
    assert_eq!(uid, 1);
    let mut e = Endpoint::new(NodeType::UsbKeyboard, uid);
    e.set_hidapi_path("/a".to_string());
    mb.register_node(e);
    // Same device again: refused
    assert_eq!(mb.assign_uid(key.clone(), "/a".to_string()), Err(UidError::AlreadyRegistered));
    // Same key at another path: a new uid
    assert_eq!(mb.assign_uid(key.clone(), "/b".to_string()), Ok(2));
    // After unregistering, the device gets its first uid back
    mb.unregister_node(1);
    assert_eq!(mb.assign_uid(key.clone(), "/a".to_string()), Ok(1));
    assert_eq!(mb.get_uid("other".to_string(), "/c".to_string()), None);
    mb.add_uid("other".to_string(), 9);
    assert_eq!(mb.get_uid("other".to_string(), "/c".to_string()), Some(9));
}

#[test]
fn mailbox_messages() {
    let src = Address::ApiCapnp { uid: 3 };
    let dst = Address::DeviceHidio { uid: 4 };
    let cmd = command_message(src, dst, 0x34, vec![1, 2]);
    assert_eq!(cmd.data.ptype, HIDIOPacketType::Data);
    let ack = cmd.send_ack(vec![5]);
    assert_eq!(ack.src, dst);
    assert_eq!(ack.dst, src);
    assert_eq!(ack.data.ptype, HIDIOPacketType::ACK);
    assert_eq!(ack.data.id, 0x34);
    // The reply answers the wait for the command
    assert!(matches!(ack_wait_step(src, dst, 0x34, ack.clone()), Some(Ok(Some(_)))));
    let nak = cmd.send_nak(vec![]);
    assert!(matches!(ack_wait_step(src, dst, 0x34, nak), Some(Err(AckWaitError::NAKReceived { .. }))));
    // Another id, or the command itself, does not
    assert!(ack_wait_step(src, dst, 0x35, ack).is_none());
    assert!(ack_wait_step(src, dst, 0x34, cmd).is_none());
    let mb = Mailbox::new();
    let d = mb.drop_subscriber(3, 8);
    assert_eq!(d.dst, Address::CancelSubscription { uid: 3, sid: 8 });
    assert_eq!(mb.drop_all_subscribers().dst, Address::CancelAllSubscriptions);
}

#[test]
fn daemon_node_registration() {
    let mut mb = Mailbox::new();
    let node = DaemonNode::new(&mut mb, 1234);
    assert_eq!(node.uid, 1);
    assert_eq!(mb.nodes.len(), 1);
    let mut e = node.endpoint;
    assert_eq!(e.serial(), "pid:1234");
    assert_eq!(e.type_(), NodeType::HidioDaemon);
}

#[test]
fn vhid_nkro_report_bits() {
    let r = keyboard_nkro_report(&vec![225, 4, 5, 0x1D, 3, 200, 221, 176]);
    assert_eq!(r.len(), 28);
    assert_eq!(r[0], 0b10);
    // Keyboard section: 4 and 5 are bits 4 and 5 of byte 1, 0x1D is bit 5 of byte 4
    assert_eq!(r[1], 0b0011_0000);
    assert_eq!(r[4], 0b0010_0000);
    // Keypad section: 176 is bit 0 of byte 22, 200 bit 0 of byte 25, 221 bit 5 of byte 27
    assert_eq!(r[22], 1);
    assert_eq!(r[25], 1);
    assert_eq!(r[27], 0b0010_0000);
    assert_eq!(r.iter().map(|b| b.count_ones()).sum::<u32>(), 7);
}

#[test]
fn vhid_6kro_report_order() {
    let r = keyboard_6kro_report(&vec![4, 224, 5, 6, 7, 8, 9, 10, 231]);
    assert_eq!(r, vec![0b1000_0001, 0, 4, 5, 6, 7, 8, 9]);
    assert_eq!(keyboard_6kro_report(&vec![]), vec![0; 8]);
}

#[test]
fn charmap_operations() {
    let mut m: CharMap<u32> = CharMap::new();
    m.insert('a', 1);
    m.insert('b', 2);
    m.insert('a', 3);
    assert_eq!(m.get('a'), Some(3));
    assert!(m.contains_key('b'));
    assert_eq!(m.remove('b'), Some(2));
    assert_eq!(m.remove('b'), None);
    assert_eq!(m.entries, vec![('a', 3)]);
}

#[test]
fn unicode_outputs() {
    let mut stub = UnicodeStub::new();
    assert_eq!(stub.get_layout(), "");
    assert!(stub.get_held().is_empty());
    stub.type_string("abc");
    let mut x = UnicodeXConnection::new();
    let rows = vec![vec![0x41], vec![0, 0]];
    assert_eq!(x.map_sym('\u{e9}', &rows, 8, 0x10000e9), (Some(9), true));
    assert_eq!(x.get_sym('\u{e9}', &rows, 8, 0x10000e9), (Some(9), false));
    assert_eq!(x.record_symbol('\u{e9}', true), None);
    assert_eq!(x.record_symbol('\u{e9}', false), Some(9));
    assert!(x.held.is_empty());
    assert_eq!(x.unmap_sym('\u{e9}'), None);
    let o = OSXConnection::new();
    assert!(o.held.is_empty());
}

#[test]
fn hidapi_scan_decisions() {
    let mut mb = Mailbox::new();
    // Not a HID-IO interface
    let mut other = hidapi_info(None);
    other.usage = 6;
    assert!(scan_device(&mut mb, other, &vec![]).is_none());
    assert_eq!(mb.last_uid, 0);
    // A bluetooth keyboard gets a new uid and a node to connect
    let mut node = scan_device(&mut mb, hidapi_info(Some("00:11:22:33:44:55")), &vec![]).unwrap();
    assert_eq!(node.uid(), 1);
    assert_eq!(node.type_(), NodeType::BleKeyboard);
    assert_eq!(node.serial(), "00:11:22:33:44:55");
    mb.register_node(node);
    // Seen again at the same path while registered: skipped
    assert!(scan_device(&mut mb, hidapi_info(Some("00:11:22:33:44:55")), &vec![]).is_none());
    // A USB keyboard whose uid is already served is not connected again
    let mut usb = hidapi_info(Some("A1"));
    usb.path = "/dev/hidraw9".to_string();
    assert!(scan_device(&mut mb, usb, &vec![2]).is_none());
    assert_eq!(mb.last_uid, 2);
}

#[test]
fn mailbox_wait_steps() {
    let src = Address::Module;
    let dst = Address::DeviceHidio { uid: 2 };
    let cmd = command_message(src, dst, 0x17, vec![]);
    let ack = cmd.send_ack(vec![]);
    assert!(matches!(try_wait_step(src, dst, 0x17, WaitEvent::Received(ack.clone())), Some(Ok(Some(_)))));
    assert!(try_wait_step(src, dst, 0x17, WaitEvent::Empty).is_none());
    assert!(try_wait_step(src, dst, 0x17, WaitEvent::Lagged).is_none());
    assert!(matches!(try_wait_step(src, dst, 0x17, WaitEvent::Closed), Some(Err(AckWaitError::ChannelClosed))));
    assert!(matches!(try_wait_step(src, dst, 0x17, WaitEvent::TimedOut), Some(Err(AckWaitError::Timeout))));
    // The asynchronous wait takes the reply that comes back, not a message going the
    // command's own way
    assert!(matches!(stream_wait_step(src, dst, 0x17, Some(ack.clone()), false), Some(Ok(Some(_)))));
    let mut same_way = ack.clone();
    same_way.src = src;
    same_way.dst = dst;
    assert!(stream_wait_step(src, dst, 0x17, Some(same_way), false).is_none());
    assert!(matches!(stream_wait_step(src, dst, 0x17, None, false), Some(Err(AckWaitError::Invalid))));
    assert!(matches!(stream_wait_step(src, dst, 0x17, Some(ack), true), Some(Err(AckWaitError::Timeout))));
}
