use hid_io_core::protocol::hidio::{
    continued_packet, packet_id, packet_id_width, packet_type, payload_len, payload_start,
    HIDIOPacketBuffer, HIDIOPacketType,
};

/// Serializes, deserializes, then checks that the result is the original buffer
fn loopback_serializer(mut buffer: HIDIOPacketBuffer) {
    let serialized = match buffer.serialize_buffer() {
        Ok(result) => result,
        _ => Vec::new(),
    };
    assert!(serialized.len() > 0, "Serialization bytes:{}", serialized.len());

    let mut deserialized = HIDIOPacketBuffer::new();
    let mut bytes_used = 0;
    while bytes_used != serialized.len() {
        let slice = &serialized[bytes_used..];
        match deserialized.decode_packet(&mut slice.to_vec()) {
            Ok(result) => {
                bytes_used += result as usize;
            }
            _ => {
                panic!("Failured decoding packet");
            }
        };
    }

    // decode_packet cannot infer max_len from the stream
    deserialized.max_len = buffer.max_len;

    assert!(
        buffer == deserialized,
        "\nInput:{:?}\nSerialized:{:?}\nOutput:{:?}",
        buffer,
        serialized,
        deserialized
    );
    assert!(
        serialized.len() == bytes_used,
        "Serialized:{}, Deserialized Used:{}",
        serialized.len(),
        bytes_used
    );
}

fn data_buffer(len: usize) -> HIDIOPacketBuffer {
    HIDIOPacketBuffer {
        ptype: HIDIOPacketType::Data,
        id: 2,
        max_len: 64,
        data: vec![0xAC; len],
        done: true,
    }
}

#[test]
fn single_byte_payload_test() {
    let buffer = HIDIOPacketBuffer {
        ptype: HIDIOPacketType::Data,
        id: 2,
        max_len: 64,
        data: vec![0xAC],
        done: true,
    };
    loopback_serializer(buffer);
}

#[test]
fn full_packet_payload_test() {
    let buffer = HIDIOPacketBuffer {
        ptype: HIDIOPacketType::Data,
        id: 2,
        max_len: 64,
        data: vec![0xAC; 60],
        done: true,
    };
    loopback_serializer(buffer);
}

#[test]
fn two_packet_continued_payload_test() {
    let buffer = HIDIOPacketBuffer {
        ptype: HIDIOPacketType::Data,
        id: 2,
        max_len: 64,
        data: vec![0xAC; 110],
        done: true,
    };
    loopback_serializer(buffer);
}

#[test]
fn three_packet_continued_payload_test() {
    let buffer = HIDIOPacketBuffer {
        ptype: HIDIOPacketType::Data,
        id: 2,
        max_len: 64,
        data: vec![0xAC; 170],
        done: true,
    };
    loopback_serializer(buffer);
}

#[test]
fn single_byte_frame_bytes() {
    let mut b = data_buffer(1);
    let bytes = b.serialize_buffer().unwrap();
    // Data type, no continuation, 16-bit id; length counts id and payload
    assert_eq!(bytes, vec![0x00, 3, 2, 0, 0xAC]);
}

#[test]
fn two_packet_frame_lengths() {
    let mut b = data_buffer(110);
    let bytes = b.serialize_buffer().unwrap();
    assert_eq!(bytes.len(), 64 + 54);
    // First packet has the continued bit, the second is a Continued packet without it
    assert_eq!(bytes[0], 0x10);
    assert_eq!(bytes[1], 62);
    assert_eq!(bytes[64], 4 << 5);
    assert_eq!(bytes[65], 52);
}

#[test]
fn wide_id_frame() {
    let mut b = HIDIOPacketBuffer {
        ptype: HIDIOPacketType::ACK,
        id: 0x12345,
        max_len: 64,
        data: vec![7],
        done: true,
    };
    let mut bytes = b.serialize_buffer().unwrap();
    assert_eq!(bytes, vec![(1 << 5) | 0x08, 5, 0x45, 0x23, 0x01, 0x00, 7]);
    assert_eq!(packet_type(&mut bytes).unwrap(), HIDIOPacketType::ACK);
    assert_eq!(packet_id_width(&mut bytes).unwrap(), 4);
    assert_eq!(packet_id(&mut bytes).unwrap(), 0x12345);
    assert_eq!(payload_start(&mut bytes).unwrap(), 6);
    assert_eq!(payload_len(&mut bytes).unwrap(), 5);
    assert_eq!(continued_packet(&mut bytes).unwrap(), false);
    loopback_serializer(b);
}

#[test]
fn sync_packet_is_header_only() {
    let mut b = HIDIOPacketBuffer {
        ptype: HIDIOPacketType::Sync,
        id: 0,
        max_len: 64,
        data: vec![],
        done: true,
    };
    let bytes = b.serialize_buffer().unwrap();
    assert_eq!(bytes.len(), 2);
    assert_eq!(bytes[0] >> 5, 3);
}

#[test]
fn parse_errors_on_short_input() {
    let mut empty: Vec<u8> = vec![];
    assert!(packet_type(&mut empty).is_err());
    assert!(payload_len(&mut empty).is_err());
    let mut one = vec![0u8];
    assert!(payload_len(&mut one).is_err());
    assert!(packet_id(&mut one).is_err());
    let mut bad_type = vec![0xE0u8, 0];
    assert!(packet_type(&mut bad_type).is_err());
}

#[test]
fn decode_done_buffer_uses_nothing() {
    let mut b = HIDIOPacketBuffer::new();
    b.done = true;
    let mut bytes = vec![0x00, 3, 2, 0, 0xAC];
    assert_eq!(b.decode_packet(&mut bytes).unwrap(), 0);
    assert!(b.data.is_empty());
}

#[test]
fn decode_partial_packet_consumes_all() {
    // Length says 10 bytes follow but only 3 are there
    let mut b = HIDIOPacketBuffer::new();
    let mut bytes = vec![0x00, 10, 2, 0, 0xAC];
    assert_eq!(b.decode_packet(&mut bytes).unwrap(), 5);
    assert!(!b.done);
}

#[test]
fn append_payload_refused_when_done() {
    let mut b = HIDIOPacketBuffer::new();
    let mut more = vec![1u8, 2];
    assert!(b.append_payload(&mut more));
    assert!(more.is_empty());
    assert_eq!(b.data, vec![1, 2]);
    b.done = true;
    let mut late = vec![3u8];
    assert!(!b.append_payload(&mut late));
    assert_eq!(late, vec![3]);
    assert_eq!(b.data, vec![1, 2]);
}

#[test]
fn packet_display_forms() {
    assert_eq!(HIDIOPacketType::Continued.to_string(), "HIDIOPacketBuffer::Continued");
    let b = HIDIOPacketBuffer {
        ptype: HIDIOPacketType::NAK,
        id: 7,
        max_len: 64,
        data: vec![1, 172],
        done: false,
    };
    assert_eq!(
        b.to_string(),
        "\n{\n    ptype: HIDIOPacketBuffer::NAK\n    id: 7\n    max_len: 64\n    done: false\n    data: [\n    1,\n    172,\n]\n}"
    );
    // The same layout as a pretty-printed byte list
    assert_eq!(b.to_string(), format!("\n{{\n    ptype: HIDIOPacketBuffer::NAK\n    id: 7\n    max_len: 64\n    done: false\n    data: {:#?}\n}}", b.data));
    let e = HIDIOPacketBuffer::new();
    assert!(e.to_string().ends_with("data: []\n}"));
}
