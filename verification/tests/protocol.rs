use bytes::{BufMut, Bytes, BytesMut};
use shmon::protocol::{
    ErrorKind, ExitStatus, Packet, PacketCodec, ProtocolError, HEADER_LEN, MAX_PAYLOAD, TYPE_DATA,
    TYPE_EXIT, TYPE_RESIZE, TYPE_SIGNAL,
};

#[test]
fn rejects_oversized_payload() {
    let mut codec = PacketCodec;
    let mut buf = BytesMut::new();
    buf.put_u8(TYPE_DATA);
    buf.put_u32((MAX_PAYLOAD + 1) as u32);
    buf.put_bytes(0, 1024);
    let result = codec.decode(&mut buf);
    assert!(result.is_err());
    assert_eq!(result.unwrap_err().kind(), ErrorKind::InvalidData);
}

#[test]
fn encodes_decodes_data() {
    let mut codec = PacketCodec;
    let mut buf = BytesMut::new();
    let data = Bytes::from_static(b"hello world");
    codec.encode(Packet::Data(data.clone()), &mut buf).unwrap();
    let decoded = codec.decode(&mut buf).unwrap().unwrap();
    match decoded {
        Packet::Data(d) => assert_eq!(d, data),
        _ => panic!("expected Data"),
    }
}

#[test]
fn encodes_decodes_resize() {
    let mut codec = PacketCodec;
    let mut buf = BytesMut::new();
    codec.encode(Packet::Resize(80, 24), &mut buf).unwrap();
    let decoded = codec.decode(&mut buf).unwrap().unwrap();
    match decoded {
        Packet::Resize(cols, rows) => {
            assert_eq!(cols, 80);
            assert_eq!(rows, 24);
        }
        _ => panic!("expected Resize"),
    }
}

#[test]
fn encodes_decodes_signal() {
    let mut codec = PacketCodec;
    let mut buf = BytesMut::new();
    codec.encode(Packet::Signal(15), &mut buf).unwrap();
    let decoded = codec.decode(&mut buf).unwrap().unwrap();
    match decoded {
        Packet::Signal(sig) => assert_eq!(sig, 15),
        _ => panic!("expected Signal"),
    }
}

#[test]
fn encodes_decodes_exit_code() {
    let mut codec = PacketCodec;
    let mut buf = BytesMut::new();
    let status = ExitStatus::from_code(42);
    codec.encode(Packet::Exit(status), &mut buf).unwrap();
    let decoded = codec.decode(&mut buf).unwrap().unwrap();
    match decoded {
        Packet::Exit(s) => {
            assert_eq!(s.code, Some(42));
            assert_eq!(s.signal, None);
        }
        _ => panic!("expected Exit"),
    }
}

#[test]
fn encodes_decodes_exit_signal() {
    let mut codec = PacketCodec;
    let mut buf = BytesMut::new();
    let status = ExitStatus::from_signal(9);
    codec.encode(Packet::Exit(status), &mut buf).unwrap();
    let decoded = codec.decode(&mut buf).unwrap().unwrap();
    match decoded {
        Packet::Exit(s) => {
            assert_eq!(s.code, None);
            assert_eq!(s.signal, Some(9));
        }
        _ => panic!("expected Exit"),
    }
}

#[test]
fn rejects_unknown_packet_type() {
    let mut codec = PacketCodec;
    let mut buf = BytesMut::new();
    buf.put_u8(99); // unknown type
    buf.put_u32(0);
    let result = codec.decode(&mut buf);
    assert!(result.is_err());
}

fn encoded(packet: Packet) -> Vec<u8> {
    let mut buf = BytesMut::new();
    PacketCodec.encode(packet, &mut buf).unwrap();
    buf.to_vec()
}

fn frame(packet_type: u8, payload: &[u8]) -> BytesMut {
    let mut buf = BytesMut::new();
    buf.put_u8(packet_type);
    buf.put_u32(payload.len() as u32);
    buf.extend_from_slice(payload);
    buf
}

fn exit_after_wire(status: ExitStatus) -> ExitStatus {
    let mut buf = BytesMut::new();
    PacketCodec.encode(Packet::Exit(status), &mut buf).unwrap();
    match PacketCodec.decode(&mut buf).unwrap().unwrap() {
        Packet::Exit(status) => status,
        _ => panic!("expected Exit"),
    }
}

#[test]
fn frames_have_exact_bytes() {
    assert_eq!(
        encoded(Packet::Data(Bytes::from_static(b"hi"))),
        vec![0, 0, 0, 0, 2, b'h', b'i']
    );
    assert_eq!(
        encoded(Packet::Data(Bytes::new())),
        vec![0, 0, 0, 0, 0]
    );
    assert_eq!(
        encoded(Packet::Resize(0x1234, 0x00ff)),
        vec![1, 0, 0, 0, 4, 0x12, 0x34, 0x00, 0xff]
    );
    assert_eq!(
        encoded(Packet::Signal(-2)),
        vec![2, 0, 0, 0, 4, 0xff, 0xff, 0xff, 0xfe]
    );
    assert_eq!(
        encoded(Packet::Exit(ExitStatus::from_code(258))),
        vec![3, 0, 0, 0, 8, 0, 0, 1, 2, 0, 0, 0, 0]
    );
    assert_eq!(
        encoded(Packet::Exit(ExitStatus::from_signal(9))),
        vec![3, 0, 0, 0, 8, 0xff, 0xff, 0xff, 0xff, 0, 0, 0, 9]
    );
}

#[test]
fn length_field_has_all_bytes() {
    let frame = encoded(Packet::Data(Bytes::from(vec![7u8; 0x12345])));
    assert_eq!(&frame[..5], &[0, 0, 1, 0x23, 0x45]);
    assert_eq!(frame.len(), HEADER_LEN + 0x12345);
}

#[test]
fn encoding_appends() {
    let mut buf = BytesMut::new();
    buf.extend_from_slice(b"before");
    PacketCodec.encode(Packet::Signal(1), &mut buf).unwrap();
    assert_eq!(&buf[..], b"before\x02\0\0\0\x04\0\0\0\x01");
}

#[test]
fn partial_frames_wait_untouched() {
    let whole = encoded(Packet::Resize(80, 24));
    for count in 0..whole.len() {
        let mut buf = BytesMut::new();
        buf.extend_from_slice(&whole[..count]);
        assert!(PacketCodec.decode(&mut buf).unwrap().is_none());
        assert_eq!(&buf[..], &whole[..count]);
    }
}

#[test]
fn stream_decodes_in_order_and_leaves_the_rest() {
    let mut buf = BytesMut::new();
    let mut codec = PacketCodec;
    codec.encode(Packet::Data(Bytes::from_static(b"a")), &mut buf).unwrap();
    codec.encode(Packet::Resize(1, 2), &mut buf).unwrap();
    codec.encode(Packet::Signal(i32::MIN), &mut buf).unwrap();
    buf.extend_from_slice(&[9, 9]);
    assert!(matches!(codec.decode(&mut buf), Ok(Some(Packet::Data(d))) if &d[..] == b"a"));
    assert!(matches!(codec.decode(&mut buf), Ok(Some(Packet::Resize(1, 2)))));
    assert!(matches!(codec.decode(&mut buf), Ok(Some(Packet::Signal(i32::MIN)))));
    assert!(matches!(codec.decode(&mut buf), Ok(None)));
    assert_eq!(&buf[..], &[9, 9]);
}

#[test]
fn pieces_of_a_stream_do_not_matter() {
    let mut whole = Vec::new();
    whole.extend(encoded(Packet::Data(Bytes::from_static(b"abc"))));
    whole.extend(encoded(Packet::Signal(2)));
    for cut in 0..=whole.len() {
        let mut buf = BytesMut::new();
        let mut codec = PacketCodec;
        let mut packets = Vec::new();
        for piece in [&whole[..cut], &whole[cut..]] {
            buf.extend_from_slice(piece);
            while let Some(packet) = codec.decode(&mut buf).unwrap() {
                packets.push(packet);
            }
        }
        assert!(buf.is_empty());
        assert_eq!(packets.len(), 2);
        assert!(matches!(&packets[0], Packet::Data(d) if &d[..] == b"abc"));
        assert!(matches!(packets[1], Packet::Signal(2)));
    }
}

#[test]
fn largest_payload_is_taken() {
    let data = Bytes::from(vec![5u8; MAX_PAYLOAD]);
    let mut buf = BytesMut::new();
    PacketCodec.encode(Packet::Data(data.clone()), &mut buf).unwrap();
    match PacketCodec.decode(&mut buf).unwrap().unwrap() {
        Packet::Data(d) => assert_eq!(d, data),
        _ => panic!("expected Data"),
    }
}

#[test]
fn oversized_payload_is_named_and_stays() {
    let mut buf = BytesMut::new();
    buf.put_u8(TYPE_DATA);
    buf.put_u32(1_048_577);
    buf.put_bytes(0, 10);
    let error = PacketCodec.decode(&mut buf).unwrap_err();
    assert_eq!(error, ProtocolError::PayloadTooLarge(1_048_577));
    assert_eq!(error.message(), "payload too large: 1048577 bytes");
    assert_eq!(buf.len(), 15);
}

#[test]
fn malformed_payloads_are_refused_and_taken_off() {
    let cases = vec![
        (TYPE_RESIZE, 3, ProtocolError::InvalidResize, "invalid resize payload"),
        (TYPE_RESIZE, 5, ProtocolError::InvalidResize, "invalid resize payload"),
        (TYPE_SIGNAL, 0, ProtocolError::InvalidSignal, "invalid signal payload"),
        (TYPE_EXIT, 4, ProtocolError::InvalidExit, "invalid exit payload"),
        (4, 2, ProtocolError::UnknownType, "unknown packet type"),
        (255, 0, ProtocolError::UnknownType, "unknown packet type"),
    ];
    for (packet_type, len, expected, text) in cases {
        let mut buf = frame(packet_type, &vec![1u8; len]);
        buf.extend_from_slice(b"next");
        let error = PacketCodec.decode(&mut buf).unwrap_err();
        assert_eq!(error, expected);
        assert_eq!(error.message(), text);
        assert_eq!(error.kind(), ErrorKind::InvalidData);
        assert_eq!(&buf[..], b"next");
    }
}

#[test]
fn exit_status_loses_what_a_frame_cannot_tell() {
    let none = ExitStatus { code: None, signal: None };
    assert_eq!(exit_after_wire(none), none);
    assert_eq!(exit_after_wire(ExitStatus::from_code(0)), ExitStatus::from_code(0));
    assert_eq!(exit_after_wire(ExitStatus::from_code(-5)), none);
    assert_eq!(exit_after_wire(ExitStatus::from_signal(0)), none);
    assert_eq!(exit_after_wire(ExitStatus::from_signal(-3)), none);
    assert_eq!(
        exit_after_wire(ExitStatus { code: Some(1), signal: Some(15) }),
        ExitStatus::from_signal(15)
    );
    assert_eq!(
        exit_after_wire(ExitStatus { code: Some(1), signal: Some(0) }),
        ExitStatus::from_code(1)
    );
}

#[test]
fn exit_messages() {
    assert_eq!(
        ExitStatus::from_code(42).format_message(),
        "[shell exited with code 42]\r\n"
    );
    assert_eq!(
        ExitStatus::from_code(i32::MIN).format_message(),
        "[shell exited with code -2147483648]\r\n"
    );
    assert_eq!(
        ExitStatus::from_signal(9).format_message(),
        "[shell killed by signal 9]\r\n"
    );
    assert_eq!(
        ExitStatus { code: None, signal: None }.format_message(),
        "[shell exited]\r\n"
    );
    assert_eq!(
        ExitStatus { code: Some(1), signal: Some(2) }.format_message(),
        "[shell exited]\r\n"
    );
}

#[test]
fn cloned_packets_say_the_same() {
    let packet = Packet::Data(Bytes::from_static(b"xyz"));
    assert_eq!(encoded(packet.clone()), encoded(packet));
    assert_eq!(
        encoded(Packet::Exit(ExitStatus::from_code(3)).clone()),
        encoded(Packet::Exit(ExitStatus::from_code(3)))
    );
    assert_eq!(encoded(Packet::Resize(5, 6).clone()), encoded(Packet::Resize(5, 6)));
    assert_eq!(encoded(Packet::Signal(5).clone()), encoded(Packet::Signal(5)));
}

#[test]
fn default_codec_is_the_codec() {
    let mut codec = PacketCodec::default();
    let mut buf = frame(TYPE_SIGNAL, &[0, 0, 0, 15]);
    assert!(matches!(codec.decode(&mut buf), Ok(Some(Packet::Signal(15)))));
}

#[test]
fn payload_lengths_match_the_frames() {
    let packets = [
        (Packet::Data(Bytes::from_static(b"hello")), 5),
        (Packet::Data(Bytes::new()), 0),
        (Packet::Resize(80, 24), 4),
        (Packet::Signal(2), 4),
        (Packet::Exit(ExitStatus::from_code(0)), 8),
    ];
    for (packet, expected) in packets {
        assert_eq!(packet.payload_len(), expected);
        let mut wire = BytesMut::new();
        PacketCodec.encode(packet, &mut wire).unwrap();
        assert_eq!(wire.len(), HEADER_LEN + expected);
    }
}
