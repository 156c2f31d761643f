use ek_dual_mic::jitter::JitterBuffer;
use ek_dual_mic::history::{TransportLossWindow, TRANSPORT_LOSS_RATE_WINDOW_FRAMES};
use ek_dual_mic::model::{now_micros, AudioFrame, NodeIdentity, NodeRole, SessionMode};
use ek_dual_mic::packet::{
    decode_identity, decode_packet, encode_identity, encode_packet, node_role_code,
    node_role_from_code, session_mode_code, session_mode_from_code, HEADER_BYTES,
};
use ek_dual_mic::transport::{
    is_transient_receive_error, receive_error_ends_drain, udp_receive_error_ends_drain,
    udp_receive_error_is_transient, IncompatiblePeer, MockTransport, ReceiveErrorKind,
    UdpLinkState,
};
use std::io::{Error, ErrorKind};

fn silent_frame(sequence: u64) -> AudioFrame {
    AudioFrame::new(sequence, now_micros(), 48_000, vec![0.0f32.to_bits(); 480])
}

fn frame_with(sequence: u64, value: f32) -> AudioFrame {
    AudioFrame::new(sequence, 1_000 + sequence, 48_000, vec![value.to_bits(); 480])
}

#[test]
fn udp_receive_error_is_transient_for_expected_windows_peer_absence_kinds() {
    for kind in [
        ErrorKind::ConnectionReset,
        ErrorKind::ConnectionAborted,
        ErrorKind::ConnectionRefused,
        ErrorKind::HostUnreachable,
        ErrorKind::NetworkUnreachable,
    ] {
        let error = Error::new(kind, "transient");
        assert!(
            udp_receive_error_is_transient(&error),
            "expected {kind:?} to be treated as transient"
        );
    }
}

#[test]
fn udp_receive_error_is_not_transient_for_unexpected_kinds() {
    for kind in [ErrorKind::TimedOut, ErrorKind::PermissionDenied] {
        let error = Error::new(kind, "fatal");
        assert!(
            !udp_receive_error_is_transient(&error),
            "expected {kind:?} to remain fatal"
        );
    }
}

#[test]
fn drain_stops_quietly_only_on_would_block_or_transient_errors() {
    assert!(udp_receive_error_ends_drain(&Error::new(ErrorKind::WouldBlock, "empty")));
    assert!(udp_receive_error_ends_drain(&Error::new(ErrorKind::ConnectionReset, "gone")));
    assert!(!udp_receive_error_ends_drain(&Error::new(ErrorKind::PermissionDenied, "no")));
    assert!(receive_error_ends_drain(ReceiveErrorKind::WouldBlock));
    assert!(!receive_error_ends_drain(ReceiveErrorKind::Other));
    assert!(!is_transient_receive_error(ReceiveErrorKind::WouldBlock));
    assert!(is_transient_receive_error(ReceiveErrorKind::HostUnreachable));
}

#[test]
fn mock_transport_loss_rate_uses_recent_2400_frame_window() {
    let mut transport = MockTransport::new(1);
    let frame = silent_frame(1);

    for _ in 0..3_000 {
        transport.send_frame(&frame);
        transport.recv_or_conceal();
    }

    for _ in 0..1_200 {
        transport.recv_or_conceal();
    }

    let stats = transport.stats();
    assert_eq!(
        stats.window_received_packets + stats.window_concealed_packets,
        TRANSPORT_LOSS_RATE_WINDOW_FRAMES as u32
    );
    let loss_rate = stats.window_concealed_packets as f32
        / (stats.window_received_packets + stats.window_concealed_packets) as f32;
    assert!(
        (loss_rate - 0.5).abs() < 0.001,
        "expected recent-window loss rate near 50%, got {}",
        loss_rate
    );
}

#[test]
fn packet_identity_round_trip_preserves_mode_and_role() {
    let frame = silent_frame(7);
    let identity = NodeIdentity {
        role: NodeRole::Slave,
        session_mode: SessionMode::MasterSlave,
    };

    let packet = encode_packet(&frame, false, identity);
    let (_, decoded_identity) = decode_packet(&packet).expect("packet should decode");
    assert_eq!(decoded_identity, identity);
}

#[test]
fn packet_round_trip_preserves_frame() {
    let frame = AudioFrame::new(42, 123_456, 48_000, (0..480u32).collect());
    let identity = NodeIdentity { role: NodeRole::Peer, session_mode: SessionMode::Both };
    let packet = encode_packet(&frame, true, identity);
    assert_eq!(packet.len(), HEADER_BYTES + 480 * 4);
    assert_eq!(&packet[0..8], &42u64.to_le_bytes());
    assert_eq!(&packet[8..16], &123_456u64.to_le_bytes());
    assert_eq!(&packet[16..20], &48_000u32.to_le_bytes());
    assert_eq!(&packet[20..22], &480u16.to_le_bytes());
    assert_eq!(packet[22], 1);
    assert_eq!(packet[23], 0x33);
    let (decoded, decoded_identity) = decode_packet(&packet).expect("packet should decode");
    assert_eq!(decoded.sequence, 42);
    assert_eq!(decoded.capture_timestamp_us, 123_456);
    assert_eq!(decoded.samples, frame.samples);
    assert_eq!(decoded_identity, identity);
}

#[test]
fn decode_packet_refuses_short_or_unknown_packets() {
    assert!(decode_packet(&[0u8; 10]).is_none());
    let frame = silent_frame(3);
    let identity = NodeIdentity { role: NodeRole::Master, session_mode: SessionMode::MasterSlave };
    let mut packet = encode_packet(&frame, false, identity);
    packet[23] = 0x44;
    assert!(decode_packet(&packet).is_none());
    let mut packet = encode_packet(&frame, false, identity);
    packet.truncate(HEADER_BYTES + 4);
    assert!(decode_packet(&packet).is_none());
}

#[test]
fn identity_codes_match_header_layout() {
    assert_eq!(node_role_code(NodeRole::Master), 1);
    assert_eq!(node_role_code(NodeRole::Slave), 2);
    assert_eq!(node_role_code(NodeRole::Peer), 3);
    assert_eq!(session_mode_code(SessionMode::MasterSlave), 1);
    assert_eq!(session_mode_code(SessionMode::Peer), 2);
    assert_eq!(session_mode_code(SessionMode::Both), 3);
    assert_eq!(node_role_from_code(0), None);
    assert_eq!(session_mode_from_code(4), None);
    let identity = NodeIdentity { role: NodeRole::Master, session_mode: SessionMode::Peer };
    assert_eq!(encode_identity(identity), 0x21);
    assert_eq!(decode_identity(0x21), Some(identity));
    assert_eq!(decode_identity(0x20), None);
}

#[test]
fn expected_peer_pairs_master_with_slave() {
    let master = NodeIdentity { role: NodeRole::Master, session_mode: SessionMode::MasterSlave };
    let slave = NodeIdentity { role: NodeRole::Slave, session_mode: SessionMode::MasterSlave };
    let peer = NodeIdentity { role: NodeRole::Peer, session_mode: SessionMode::Peer };
    assert_eq!(master.expected_peer(), slave);
    assert_eq!(slave.expected_peer(), master);
    assert_eq!(peer.expected_peer(), peer);
}

#[test]
fn mock_transport_delays_frames_and_conceals_gaps() {
    let mut transport = MockTransport::new(1);
    let first = frame_with(1, 0.25);
    transport.send_frame(&first);
    let concealed = transport.recv_or_conceal();
    assert_eq!(concealed.samples, vec![0u32; 480]);
    transport.send_frame(&frame_with(2, 0.5));
    let delivered = transport.recv_or_conceal();
    assert_eq!(delivered.sequence, 1);
    assert_eq!(delivered.samples, first.samples);
    let stats = transport.stats();
    assert_eq!(stats.sent_packets, 2);
    assert_eq!(stats.received_packets, 1);
    assert_eq!(stats.concealed_packets, 1);
}

#[test]
fn loss_window_keeps_recent_frames_only() {
    let mut window = TransportLossWindow::new();
    for _ in 0..2_400 {
        window.record_concealed();
    }
    for _ in 0..600 {
        window.record_received();
    }
    assert_eq!(window.received(), 600);
    assert_eq!(window.concealed(), 1_800);
}

#[test]
fn udp_link_reorders_and_conceals_missing_frames() {
    let local = NodeIdentity { role: NodeRole::Master, session_mode: SessionMode::MasterSlave };
    let peer = local.expected_peer();
    let mut link = UdpLinkState::new(8, local, peer);
    let f5 = frame_with(5, 0.1);
    let f7 = frame_with(7, 0.3);
    link.accept_datagram(&encode_packet(&f7, true, peer)).expect("peer packet");
    link.accept_datagram(&encode_packet(&f5, true, peer)).expect("peer packet");
    assert!(link.can_tick());
    let a = link.pop_next_frame();
    assert_eq!(a.sequence, 5);
    assert_eq!(a.samples, f5.samples);
    let b = link.pop_next_frame();
    assert_eq!(b.sequence, 6);
    assert_eq!(b.samples, f5.samples);
    let c = link.pop_next_frame();
    assert_eq!(c.sequence, 7);
    assert_eq!(c.samples, f7.samples);
    let stats = link.stats();
    assert_eq!(stats.received_packets, 2);
    assert_eq!(stats.concealed_packets, 1);
    assert_eq!(stats.window_received_packets, 2);
    assert_eq!(stats.window_concealed_packets, 1);
}

#[test]
fn udp_link_refuses_packets_from_wrong_role() {
    let local = NodeIdentity { role: NodeRole::Master, session_mode: SessionMode::MasterSlave };
    let mut link = UdpLinkState::new(8, local, local.expected_peer());
    let wrong = NodeIdentity { role: NodeRole::Master, session_mode: SessionMode::MasterSlave };
    let error = link
        .accept_datagram(&encode_packet(&frame_with(1, 0.2), false, wrong))
        .expect_err("a master must not accept a master");
    assert_eq!(
        error.message(),
        "received packet from incompatible peer role=Master mode=MasterSlave; expected role=Slave mode=MasterSlave"
    );
    let _: IncompatiblePeer = error;
    assert_eq!(link.stats().received_packets, 0);
}

#[test]
fn jitter_buffer_keeps_one_frame_per_sequence_in_order() {
    let mut buffer = JitterBuffer::new();
    assert_eq!(buffer.first_sequence(), None);
    assert_eq!(buffer.last_sequence(), None);
    buffer.insert(frame_with(9, 0.1));
    buffer.insert(frame_with(3, 0.2));
    buffer.insert(frame_with(6, 0.3));
    buffer.insert(frame_with(3, 0.4));
    assert_eq!(buffer.len(), 3);
    assert_eq!(buffer.first_sequence(), Some(3));
    assert_eq!(buffer.last_sequence(), Some(9));
    let six = buffer.remove(6).expect("buffered");
    assert_eq!(six.sequence, 6);
    assert!(buffer.remove(6).is_none());
    let first = buffer.pop_first();
    assert_eq!(first.sequence, 3);
    assert_eq!(first.samples, frame_with(3, 0.4).samples);
    assert_eq!(buffer.len(), 1);
    assert_eq!(buffer.first_sequence(), Some(9));
}

#[test]
fn udp_link_skips_ahead_when_buffer_overflows() {
    let local = NodeIdentity { role: NodeRole::Master, session_mode: SessionMode::MasterSlave };
    let peer = local.expected_peer();
    let mut link = UdpLinkState::new(2, local, peer);
    let f1 = frame_with(1, 0.1);
    link.accept_datagram(&encode_packet(&f1, true, peer)).expect("peer packet");
    assert_eq!(link.pop_next_frame().sequence, 1);
    for sequence in [5u64, 6, 7] {
        let f = frame_with(sequence, 0.2);
        link.accept_datagram(&encode_packet(&f, true, peer)).expect("peer packet");
    }
    let skipped = link.pop_next_frame();
    assert_eq!(skipped.sequence, 5);
    let stats = link.stats();
    assert_eq!(stats.dropped_packets, 3);
    assert_eq!(stats.concealed_packets, 0);
    assert_eq!(link.pop_next_frame().sequence, 6);
}
