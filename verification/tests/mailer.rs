use hid_io_core::api::{Endpoint, NodeType};
use hid_io_core::device::{
    poll_step, scan_finished, split_polled, HIDIOController, HIDIOEndpoint, HIDIOMailbox, HIDIOMailer, PollStep,
    RecvAction, RouteError,
};
use hid_io_core::protocol::hidio::{HIDIOPacketBuffer, HIDIOPacketType};

#[test]
fn mailer_registry() {
    let mut m: HIDIOMailer<u32, char> = HIDIOMailer::new();
    m.register_device("1".to_string(), 10, Endpoint::new(NodeType::UsbKeyboard, 1));
    m.register_device("2".to_string(), 20, Endpoint::new(NodeType::UsbKeyboard, 2));
    assert_eq!(m.queue_index("2"), Some(1));
    // Registering again under an id replaces the queue; the node is listed again
    m.register_device("1".to_string(), 11, Endpoint::new(NodeType::UsbKeyboard, 1));
    assert_eq!(m.devices.len(), 2);
    assert_eq!(m.devices[0].1, 11);
    assert_eq!(m.devices().len(), 3);
    m.register_listener('x');
    assert_eq!(m.outgoing, vec!['x']);
    // Unregistering drops the queue and every node listed under the id
    m.unregister_device("1");
    assert_eq!(m.queue_index("1"), None);
    assert_eq!(m.devices().len(), 1);
    // Forgetting a queue leaves its node listed
    m.remove_queue("2");
    assert!(m.devices.is_empty());
    assert_eq!(m.connected.len(), 1);
}

#[test]
fn mailbox_builds_messages() {
    let mb = HIDIOMailbox::new(vec![]);
    let s = mb.send_sync("dev".to_string());
    assert_eq!(s.device, "dev");
    assert_eq!(s.message.ptype, HIDIOPacketType::Sync);
    let a = mb.send_ack("dev".to_string(), 9, vec![1]);
    assert_eq!(a.message.id, 0);
    assert_eq!(a.message.data, vec![1]);
    let n = mb.send_nack("dev".to_string(), 9, vec![]);
    assert_eq!(n.message.ptype, HIDIOPacketType::NAK);
    assert_eq!(n.message.id, 9);
    let c = mb.send_command("dev".to_string(), 0x34, vec![2, 3]);
    assert_eq!(c.message.ptype, HIDIOPacketType::Data);
    assert_eq!(c.message.max_len, 64);
    assert!(c.message.done);
}

#[test]
fn endpoint_writes_and_receive_steps() {
    let ep = HIDIOEndpoint::new(8);
    let sync = ep.send_sync();
    // A Sync keeps only its header; the length still counts the id bytes
    assert_eq!(sync, vec![vec![0x60, 0x02]]);
    let ack = ep.send_ack(5, vec![1, 2, 3, 4, 5]);
    // ACK header, 2 id bytes, 5 payload bytes: 9 bytes in writes of 8
    assert_eq!(ack.len(), 2);
    assert_eq!(ack[0][0], 0x20);
    assert_eq!(ack[1].len(), 1);
    let mut buf = ep.create_buffer();
    assert_eq!(buf.max_len, 8);
    let mut chunk = vec![0x00, 3, 2, 0, 0xAC];
    assert_eq!(ep.recv_chunk(&mut buf, &mut chunk).unwrap(), 5);
    assert!(buf.done);
    assert_eq!(ep.recv_packet_step(&mut buf, 5), RecvAction::Ack);
    let mut empty = vec![];
    assert_eq!(ep.recv_chunk(&mut buf, &mut empty).unwrap(), 0);
    assert_eq!(ep.recv_packet_step(&mut buf, 0), RecvAction::Continue);
}

#[test]
fn controller_hands_out_finished_packets() {
    let mut c = HIDIOController::new("7".to_string(), HIDIOEndpoint::new(64));
    let mut chunk = vec![0x00, 3, 2, 0, 0xAC];
    let ep = HIDIOEndpoint::new(64);
    ep.recv_chunk(&mut c.received, &mut chunk).unwrap();
    let (ack, done) = c.after_recv(5);
    assert!(!ack);
    let done = done.unwrap();
    assert_eq!(done.data, vec![0xAC]);
    assert!(!c.received.done);
    let writes = c.send_response(HIDIOPacketBuffer {
        ptype: HIDIOPacketType::ACK,
        id: 2,
        max_len: 8,
        data: vec![],
        done: true,
    });
    assert_eq!(writes, vec![vec![0x20, 2, 2, 0]]);
    let w = c.sync_timeout();
    assert_eq!(w, vec![vec![0x60, 2]]);
}

#[test]
fn device_loop_decisions() {
    assert_eq!(poll_step(0, 0), PollStep::Rescan);
    assert_eq!(poll_step(2, 59), PollStep::Poll);
    assert_eq!(poll_step(2, 60), PollStep::Rescan);
    assert!(!scan_finished(0));
    assert!(scan_finished(1));
    let (kept, dropped) = split_polled(vec!["a", "b", "c"], &vec![true, false, true]);
    assert_eq!(kept, vec!["a", "c"]);
    assert_eq!(dropped, vec!["b"]);
}

#[test]
fn mailer_routes_by_id() {
    let mut m: HIDIOMailer<u32, char> = HIDIOMailer::new();
    m.register_device("3".to_string(), 30, Endpoint::new(NodeType::UsbKeyboard, 3));
    assert_eq!(m.route("3"), Ok(0));
    assert_eq!(m.route("4"), Err(RouteError::UnknownDevice));
}

#[test]
fn mailer_labels_device_packets() {
    let mut m: HIDIOMailer<u32, char> = HIDIOMailer::new();
    m.register_device("7".to_string(), 70, Endpoint::new(NodeType::UsbKeyboard, 7));
    let p = HIDIOPacketBuffer::new();
    let labelled = m.label_packets(0, vec![p.clone(), p]);
    assert_eq!(labelled.len(), 2);
    assert!(labelled.iter().all(|l| l.device == "7"));
}
