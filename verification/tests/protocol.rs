use bpf_rsp::commands::{parse_command, qRegisterInfo, Command};
use bpf_rsp::packet::{compute_checksum, decode_frame, encode_packet, unescape, DecodeOutcome,
    ACK, NAK};
use bpf_rsp::session::{Action, Event, Session, SessionStatus, process_frame, INTERRUPT};

#[test]
fn checksum_of_empty_body_is_zero() {
    assert_eq!(compute_checksum(&[]), 0);
}

#[test]
fn checksum_is_sum_mod_256() {
    assert_eq!(compute_checksum(b"abc"), (0x61u32 + 0x62 + 0x63) as u8);
    assert_eq!(compute_checksum(&[0xff, 0xff, 0x03]), 0x01);
}

#[test]
fn encode_empty_payload() {
    assert_eq!(encode_packet(&[]), b"$#00");
}

#[test]
fn encode_plain_payload() {
    // sum of "OK" is 0x4f + 0x4b = 0x9a
    assert_eq!(encode_packet(b"OK"), b"$OK#9a");
}

#[test]
fn encode_escapes_special_bytes() {
    // '}' is sent as '}' ']' and '#' as '}' 0x03; checksum covers the
    // escaped body
    let frame = encode_packet(b"}");
    assert_eq!(&frame[..], &[b'$', 0x7d, 0x5d, b'#', b'd', b'a']);
    let frame = encode_packet(b"#");
    assert_eq!(&frame[1..3], &[0x7d, 0x03]);
    let frame = encode_packet(b"$*");
    assert_eq!(&frame[1..5], &[0x7d, 0x04, 0x7d, 0x0a]);
}

#[test]
fn decode_delivers_verified_payload() {
    let frame = encode_packet(b"qRegisterInfo5");
    match decode_frame(&frame) {
        DecodeOutcome::Packet(p) => assert_eq!(p, b"qRegisterInfo5"),
        other => panic!("expected payload, got {:?}", other),
    }
}

#[test]
fn decode_accepts_uppercase_checksum_digits() {
    match decode_frame(b"$OK#9A") {
        DecodeOutcome::Packet(p) => assert_eq!(p, b"OK"),
        other => panic!("expected payload, got {:?}", other),
    }
}

#[test]
fn decode_roundtrips_escapes() {
    let frame = encode_packet(&[b'a', 0x24, 0x23, 0x7d, 0x2a, b'z']);
    match decode_frame(&frame) {
        DecodeOutcome::Packet(p) => assert_eq!(p, &[b'a', 0x24, 0x23, 0x7d, 0x2a, b'z']),
        other => panic!("expected payload, got {:?}", other),
    }
}

#[test]
fn decode_expands_run_length() {
    // "x*!" repeats 'x' four more times: '!' is 33, 33 - 29 == 4
    let body = b"x*!";
    let cs = compute_checksum(body);
    let mut frame = vec![b'$'];
    frame.extend_from_slice(body);
    frame.push(b'#');
    frame.extend_from_slice(format!("{:02x}", cs).as_bytes());
    match decode_frame(&frame) {
        DecodeOutcome::Packet(p) => assert_eq!(p, b"xxxxx"),
        other => panic!("expected payload, got {:?}", other),
    }
}

#[test]
fn unescape_rejects_invalid_bodies() {
    // truncated escape
    assert!(unescape(&[0x7d]).is_none());
    // leading run-length marker repeats nothing
    assert!(unescape(&[0x2a, b'!']).is_none());
    // count byte below the base
    assert!(unescape(&[b'x', 0x2a, 28]).is_none());
    // count byte at the base adds zero repeats
    assert_eq!(unescape(&[b'x', 0x2a, 29]).unwrap(), b"x");
}

#[test]
fn corrupted_body_byte_fails_checksum() {
    let mut frame = encode_packet(b"qRegisterInfo5");
    frame[5] ^= 0x40;
    assert_eq!(decode_frame(&frame), DecodeOutcome::BadChecksum);
}

#[test]
fn every_single_byte_corruption_is_detected() {
    let frame = encode_packet(b"m20,4");
    for j in 0..frame.len() {
        for delta in [0x01u8, 0x80] {
            let mut bad = frame.clone();
            bad[j] ^= delta;
            match decode_frame(&bad) {
                DecodeOutcome::Packet(_) => {
                    panic!("corruption at {} with {:#x} was not detected", j, delta)
                }
                DecodeOutcome::BadChecksum | DecodeOutcome::Malformed => {}
            }
        }
    }
}

#[test]
fn corrupted_checksum_digit_is_rejected() {
    let mut frame = encode_packet(b"OK");
    let n = frame.len();
    frame[n - 1] = if frame[n - 1] == b'0' { b'1' } else { b'0' };
    assert_eq!(decode_frame(&frame), DecodeOutcome::BadChecksum);
}

#[test]
fn malformed_frames_deliver_nothing() {
    assert_eq!(decode_frame(b""), DecodeOutcome::Malformed);
    assert_eq!(decode_frame(b"$#0"), DecodeOutcome::Malformed);
    assert_eq!(decode_frame(b"xOK#9a"), DecodeOutcome::Malformed);
    assert_eq!(decode_frame(b"$OK#zz"), DecodeOutcome::Malformed);
    // checksum matches but the body is not a valid escaping
    let body = &[0x7du8];
    let cs = compute_checksum(body);
    let frame = vec![b'$', 0x7d, b'#', b"0123456789abcdef"[(cs >> 4) as usize],
        b"0123456789abcdef"[(cs & 15) as usize]];
    assert_eq!(decode_frame(&frame), DecodeOutcome::Malformed);
}

#[test]
fn register_info_query_parses_hex_body() {
    assert_eq!(qRegisterInfo::from_packet(b"5"), Some(qRegisterInfo { reg_num: 5 }));
    assert_eq!(qRegisterInfo::from_packet(b"0a"), Some(qRegisterInfo { reg_num: 10 }));
    assert_eq!(qRegisterInfo::from_packet(b"FF"), Some(qRegisterInfo { reg_num: 255 }));
    assert_eq!(qRegisterInfo::from_packet(b"00ff"), Some(qRegisterInfo { reg_num: 255 }));
}

#[test]
fn register_info_query_rejects_invalid_bodies() {
    assert_eq!(qRegisterInfo::from_packet(b""), None);
    assert_eq!(qRegisterInfo::from_packet(b"zz"), None);
    assert_eq!(qRegisterInfo::from_packet(b"5g"), None);
    assert_eq!(qRegisterInfo::from_packet(b"100"), None);
    assert_eq!(qRegisterInfo::from_packet(b"ffffffffffffffffffffffff"), None);
}

#[test]
fn parse_command_recognizes_register_info() {
    assert_eq!(
        parse_command(b"qRegisterInfo5"),
        Command::RegisterInfo(qRegisterInfo { reg_num: 5 })
    );
    assert_eq!(parse_command(b"qRegisterInfozz"), Command::Unsupported);
    assert_eq!(parse_command(b"qRegisterInfo"), Command::Unsupported);
}

#[test]
fn parse_command_is_total_over_arbitrary_bytes() {
    // every byte sequence parses to a command or to the unsupported outcome
    let inputs: [&[u8]; 7] = [b"", b"g", b"qSupported", b"\x00\xff\x03$#*}", b"qRegisterInf",
        b"qRegisterInfoqRegisterInfo", &[0x80, 0x24, 0x23]];
    for payload in inputs {
        match parse_command(payload) {
            Command::RegisterInfo(_) | Command::Unsupported => {}
        }
    }
    // and parsing twice gives the same command
    for payload in inputs {
        assert_eq!(parse_command(payload), parse_command(payload));
    }
}

#[test]
fn session_assembles_a_frame() {
    let mut s = Session::new();
    let frame = encode_packet(b"OK");
    let mut delivered = None;
    for &b in frame.iter() {
        match s.step(Event::Byte(b)) {
            Action::Wait => {}
            Action::FrameReady(f) => delivered = Some(f),
            other => panic!("unexpected action {:?}", other),
        }
    }
    assert_eq!(delivered.as_deref(), Some(&frame[..]));
}

#[test]
fn session_discards_bytes_between_frames() {
    let mut s = Session::new();
    assert_eq!(s.step(Event::Byte(b'+')), Action::Wait);
    assert_eq!(s.step(Event::Byte(b'-')), Action::Wait);
    assert_eq!(s.step(Event::Byte(b'x')), Action::Wait);
    assert_eq!(s.status, SessionStatus::AwaitingPacket);
}

#[test]
fn interrupt_mid_resume_preempts_queued_bytes() {
    // an interrupt byte while the target runs is delivered before any
    // queued command byte is looked at
    let mut s = Session::new();
    s.resume();
    assert_eq!(s.step(Event::Byte(b'$')), Action::Wait);
    assert_eq!(s.step(Event::Byte(b'g')), Action::Wait);
    assert_eq!(s.step(Event::Byte(INTERRUPT)), Action::DeliverInterrupt);
    // the queued bytes were not consumed by the interrupt
    assert_eq!(s.take_pending(), vec![b'$', b'g']);
    assert_eq!(s.step(Event::TargetStopped), Action::ReportStop);
    assert_eq!(s.status, SessionStatus::AwaitingPacket);
}

#[test]
fn disconnected_session_ignores_events() {
    let mut s = Session::new();
    s.disconnect();
    assert_eq!(s.step(Event::Byte(b'$')), Action::Wait);
    assert_eq!(s.step(Event::TargetStopped), Action::Wait);
    assert_eq!(s.status, SessionStatus::Disconnected);
}

#[test]
fn process_frame_acks_and_parses() {
    let frame = encode_packet(b"qRegisterInfo0b");
    let (reply, cmd) = process_frame(&frame, true);
    assert_eq!(reply, Some(ACK));
    assert_eq!(cmd, Some(Command::RegisterInfo(qRegisterInfo { reg_num: 11 })));
    // with acknowledgment disabled no reply byte is sent
    let (reply, cmd) = process_frame(&frame, false);
    assert_eq!(reply, None);
    assert!(cmd.is_some());
}

#[test]
fn process_frame_naks_bad_checksum() {
    let mut frame = encode_packet(b"g");
    frame[1] = b'G';
    let (reply, cmd) = process_frame(&frame, true);
    assert_eq!(reply, Some(NAK));
    assert_eq!(cmd, None);
    let (reply, cmd) = process_frame(&frame, false);
    assert_eq!(reply, None);
    assert_eq!(cmd, None);
}
