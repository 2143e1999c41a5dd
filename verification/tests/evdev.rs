use hid_io_core::api::NodeType;
use hid_io_core::device::evdev::{decode_input_event, device_type, evdev2basehid, keyboard_data, EvEventCode, EvInputEvent, EvdevQueue, HidCommand};

fn key(code: u16, value: i32) -> EvInputEvent {
    EvInputEvent { code: EvEventCode::Key(code), value }
}

fn report() -> EvInputEvent {
    EvInputEvent { code: EvEventCode::SynReport, value: 0 }
}

#[test]
fn evdev_table_lookups() {
    assert_eq!(evdev2basehid(EvEventCode::Key(1)), Some((HidCommand::HidKeyboard, 0x29)));
    assert_eq!(evdev2basehid(EvEventCode::Key(29)), Some((HidCommand::HidKeyboard, 0xE0)));
    assert_eq!(evdev2basehid(EvEventCode::Key(116)), Some((HidCommand::HidConsumerCtrl, 0x30)));
    assert_eq!(evdev2basehid(EvEventCode::Key(142)), Some((HidCommand::HidSystemCtrl, 0x82)));
    assert_eq!(evdev2basehid(EvEventCode::Key(84)), None);
    assert_eq!(evdev2basehid(EvEventCode::Key(547)), None);
    assert_eq!(evdev2basehid(EvEventCode::SynReport), None);
    assert_eq!(evdev2basehid(EvEventCode::Other(2, 0)), None);
}

#[test]
fn evdev_keyboard_reports() {
    let mut q = EvdevQueue::new(NodeType::HidKeyboard);
    assert_eq!(q.process_event(key(30, 1)), None);
    assert_eq!(q.process_event(report()), Some((HidCommand::HidKeyboard, vec![0x04])));
    // Release: the whole queue is replayed, the key is gone
    assert_eq!(q.process_event(key(30, 0)), None);
    assert_eq!(q.process_event(report()), Some((HidCommand::HidKeyboard, vec![])));
    assert_eq!(q.process_event(key(48, 1)), None);
    // Non-key events are not queued by a keyboard
    assert_eq!(q.process_event(EvInputEvent { code: EvEventCode::Other(4, 4), value: 7 }), None);
    assert_eq!(q.event_queue.len(), 3);
    assert_eq!(q.process_event(report()), Some((HidCommand::HidKeyboard, vec![0x05])));
}

#[test]
fn evdev_dropped_events_clear_queue() {
    let mut q = EvdevQueue::new(NodeType::HidKeyboard);
    q.process_event(key(30, 1));
    assert_eq!(q.process_event(EvInputEvent { code: EvEventCode::SynDropped, value: 0 }), None);
    assert!(q.drop_until_next_syn_report);
    assert_eq!(q.process_event(report()), None);
    assert!(q.event_queue.is_empty());
    assert!(!q.drop_until_next_syn_report);
    assert_eq!(q.process_event(report()), Some((HidCommand::HidKeyboard, vec![])));
}

#[test]
fn evdev_mouse_events_are_not_sent() {
    let mut q = EvdevQueue::new(NodeType::HidMouse);
    assert_eq!(q.process_event(EvInputEvent { code: EvEventCode::Other(2, 0), value: 5 }), None);
    assert_eq!(q.event_queue_command, HidCommand::HidMouse);
    assert_eq!(q.process_event(report()), None);
}

#[test]
fn evdev_keyboard_data_skips_unmapped() {
    let events = vec![key(30, 1), key(116, 1), key(84, 1), key(48, 1), key(30, 2), key(30, 1)];
    // A value other than 1 releases; consumer codes and unmapped keys are skipped
    assert_eq!(keyboard_data(&events), vec![0x05, 0x04]);
}

#[test]
fn evdev_device_types() {
    assert_eq!(device_type(&vec![30, 36]), Some(NodeType::HidKeyboard));
    assert_eq!(device_type(&vec![0x110, 0x111]), Some(NodeType::HidMouse));
    assert_eq!(device_type(&vec![0x120, 0x110, 33]), Some(NodeType::HidKeyboard));
    assert_eq!(device_type(&vec![0x120]), Some(NodeType::HidJoystick));
    assert_eq!(device_type(&vec![1, 2]), None);
}

#[test]
fn evdev_raw_event_decoding() {
    let mut raw = vec![0u8; 24];
    raw[16] = 1;
    raw[18] = 30;
    raw[20] = 1;
    assert_eq!(decode_input_event(&raw), key(30, 1));
    raw[16] = 0;
    raw[18] = 0;
    raw[20..24].copy_from_slice(&(-1i32).to_le_bytes());
    assert_eq!(decode_input_event(&raw), EvInputEvent { code: EvEventCode::SynReport, value: -1 });
    raw[18] = 3;
    assert_eq!(decode_input_event(&raw).code, EvEventCode::SynDropped);
    raw[16] = 2;
    raw[17] = 1;
    raw[18] = 8;
    assert_eq!(decode_input_event(&raw).code, EvEventCode::Other(0x102, 8));
}
