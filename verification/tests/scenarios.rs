use gdb_rsp::command::{StopSignal, TargetRequest};
use gdb_rsp::dispatch::SessionError;
use gdb_rsp::frame::{frame_text, FrameError};
use gdb_rsp::packet::{RspPacket, BUF_SIZE, PACKET_SIZE};
use gdb_rsp::reply::TargetOutcome;
use gdb_rsp::session::{Action, Session};

const O_INTERRUPTED: &str = "$O204744422d536572766572206d657373616765203a20496e74657272757074656420657865637574696f6e206279205e432e0a#e4";
const O_BREAKPOINT: &str = "$O204744422d536572766572206d657373616765203a2048616c7465642064756520746f20627265616b706f696e742e202876436f6e742c20632d616374696f6e290a202b20416e792074657874206d6573736167652e0a#c4";
const O_STEP: &str = "$O204744422d536572766572206d657373616765203a2048616c7465642064756520746f20737465702e202876436f6e742c20732d616374696f6e290a202b20416e792074657874206d6573736167652e0a#b9";
const O_RESET_INIT: &str = "$O204744422d536572766572206d657373616765203a2027726573657420696e697427206d6f6e69746f7220636f6d6d616e642e0a202b20416e792074657874206d6573736167652e0a#b8";

/// What the session sends for `input`, which must not need the target.
fn sent(session: &mut Session, input: &[u8]) -> String {
    match session.handle(input, input.len()) {
        Ok(Action::Send(text)) => text,
        other => panic!("expected something to send, got {:?}", other),
    }
}

/// The packet and request that the session hands out for `input`.
fn asked<'a>(session: &mut Session, input: &'a [u8]) -> (RspPacket<'a>, TargetRequest) {
    match session.handle(input, input.len()) {
        Ok(Action::Ask(pkt, request)) => (pkt, request),
        other => panic!("expected a request, got {:?}", other),
    }
}

/// What the session sends once the target has made `outcome` of `input`.
fn sent_after(session: &mut Session, input: &[u8], outcome: TargetOutcome) -> String {
    let (pkt, request) = asked(session, input);
    match session.resume(pkt, &request, &outcome) {
        Ok(Action::Send(text)) => text,
        other => panic!("expected something to send, got {:?}", other),
    }
}

fn no_ack_session() -> Session {
    let mut session = Session::new(PACKET_SIZE);
    assert_eq!(sent(&mut session, b"+$QStartNoAckMode#b0"), "+$OK#9a");
    session
}

#[test]
fn new_session_starts_in_ack_mode() {
    let session = Session::new(PACKET_SIZE);
    assert!(session.ack_mode());
    assert!(!session.kill_pending());
    assert_eq!(session.packet_size(), 4096);
    assert_eq!(session.last_stop(), StopSignal::Interrupt);
    assert_eq!(session.last_reply(), &None);
}

#[test]
fn initial_query() {
    let mut session = Session::new(PACKET_SIZE);
    let out = sent(&mut session, b"+$qSupported:multiprocess+;swbreak+#1b");
    assert_eq!(out, "+$PacketSize=1000;QStartNoAckMode+;vContSupported+#3d");
    assert!(session.ack_mode());
    assert_eq!(session.last_reply(), &Some(out));
}

#[test]
fn initial_query_announces_the_session_packet_size() {
    let mut session = Session::new(0x2000);
    let out = sent(&mut session, b"$qSupported#37");
    assert_eq!(out, format!("+{}", frame_text("PacketSize=2000;QStartNoAckMode+;vContSupported+")));
}

#[test]
fn no_ack_transition() {
    let mut session = Session::new(PACKET_SIZE);
    assert_eq!(sent(&mut session, b"+$QStartNoAckMode#b0"), "+$OK#9a");
    assert!(!session.ack_mode());
    // From the next packet on nothing is acknowledged.
    assert_eq!(sent(&mut session, b"$qSupported#37"), "$PacketSize=1000;QStartNoAckMode+;vContSupported+#3d");
    assert_eq!(sent(&mut session, b"$QStartNoAckMode#b0"), "$OK#9a");
    assert!(!session.ack_mode());
    // A leading ack is taken as part of the frame and otherwise ignored.
    assert_eq!(sent(&mut session, b"+$?#3f"), "$T02#b6");
    assert_eq!(sent(&mut session, b"-$?#3f"), "$T02#b6");
}

#[test]
fn control_bytes_are_ignored_without_acks() {
    let mut session = no_ack_session();
    assert!(matches!(session.handle(b"+", 1), Ok(Action::Nothing)));
    assert!(matches!(session.handle(b"-", 1), Ok(Action::Nothing)));
    assert!(matches!(session.handle(&[0x03], 1), Ok(Action::Nothing)));
    assert_eq!(session.last_reply(), &Some("+$OK#9a".to_string()));
    assert!(!session.ack_mode());
}

#[test]
fn stop_reason_query_on_fresh_connection() {
    let mut session = Session::new(PACKET_SIZE);
    assert_eq!(sent(&mut session, b"$?#3f"), "$T02#b6");
}

#[test]
fn continue_then_user_interrupt() {
    let mut session = Session::new(PACKET_SIZE);
    let (pkt, request) = asked(&mut session, b"$vCont;c#a8");
    assert_eq!(request, TargetRequest::Continue);
    let out = match session.resume(pkt, &request, &TargetOutcome::Stopped { cancelled: true }) {
        Ok(Action::Send(text)) => text,
        other => panic!("expected something to send, got {:?}", other),
    };
    assert!(out.starts_with("$O"));
    assert!(out.ends_with("$T02#b6"));
    assert_eq!(out, format!("{}{}", O_INTERRUPTED, "$T02#b6"));
    assert_eq!(session.last_stop(), StopSignal::Interrupt);
    assert_eq!(session.last_reply(), &Some("$T02#b6".to_string()));
}

#[test]
fn continue_until_breakpoint() {
    let mut session = Session::new(PACKET_SIZE);
    let out = sent_after(&mut session, b"$vCont;c#a8", TargetOutcome::Stopped { cancelled: false });
    assert_eq!(out, format!("{}{}", O_BREAKPOINT, "$T05#b9"));
    assert_eq!(session.last_stop(), StopSignal::Trap);
    // The stop reason is remembered.
    assert_eq!(sent(&mut session, b"$?#3f"), "$T05#b9");
}

#[test]
fn step_stops_with_trap() {
    let mut session = Session::new(PACKET_SIZE);
    let out = sent_after(&mut session, b"$vCont;s#b8", TargetOutcome::Stopped { cancelled: false });
    assert_eq!(out, format!("{}{}", O_STEP, "$T05#b9"));
    assert_eq!(session.last_stop(), StopSignal::Trap);
}

#[test]
fn interrupt_after_breakpoint_is_reported_again_as_interrupt() {
    let mut session = Session::new(PACKET_SIZE);
    sent_after(&mut session, b"$vCont;c#a8", TargetOutcome::Stopped { cancelled: false });
    sent_after(&mut session, b"$vCont;c#a8", TargetOutcome::Stopped { cancelled: true });
    assert_eq!(sent(&mut session, b"$?#3f"), "$T02#b6");
}

#[test]
fn binary_memory_write_probe() {
    let mut session = Session::new(PACKET_SIZE);
    assert_eq!(sent(&mut session, b"$X0,0:#1e"), "$OK#9a");
}

#[test]
fn binary_memory_write_goes_to_the_target() {
    let mut session = Session::new(PACKET_SIZE);
    let input = b"$X1000,4:\x01}\x03}]A#4f";
    let (pkt, request) = asked(&mut session, input);
    assert_eq!(
        request,
        TargetRequest::WriteMemory { addr: 0x1000, bytes: vec![0x01, 0x23, 0x7d, 0x41] }
    );
    assert_eq!(pkt.first_cmd_symbol, Some('X'));
    assert!(pkt.data.is_none());
    assert_eq!(pkt.raw, Some(&input[..]));
    assert_eq!(pkt.comma_pos, Some(6));
    assert_eq!(pkt.colon_pos, Some(8));
    match session.resume(pkt, &request, &TargetOutcome::Done) {
        Ok(Action::Send(text)) => assert_eq!(text, "$OK#9a"),
        other => panic!("expected something to send, got {:?}", other),
    }
}

#[test]
fn garbled_binary_write_is_a_protocol_error() {
    let mut session = Session::new(PACKET_SIZE);
    assert_eq!(sent(&mut session, b"$X1000,5:\x01}\x03}]A#50"), "$E01#a6");
    assert_eq!(sent(&mut session, b"$X#58"), "$E01#a6");
}

#[test]
fn unsupported_packet() {
    let mut session = Session::new(PACKET_SIZE);
    assert_eq!(sent(&mut session, b"$vMustReplyEmpty#3a"), "$#00");
    let mut session = no_ack_session();
    assert_eq!(sent(&mut session, b"$vMustReplyEmpty#3a"), "$#00");
}

#[test]
fn empty_payload_is_unsupported() {
    let mut session = Session::new(PACKET_SIZE);
    assert_eq!(sent(&mut session, b"$#00"), "$#00");
}

#[test]
fn kill() {
    let mut session = Session::new(PACKET_SIZE);
    assert_eq!(sent(&mut session, b"$vKill;pid#7a"), "$OK#9a");
    assert!(session.kill_pending());
}

#[test]
fn kill_stays_pending() {
    let mut session = Session::new(PACKET_SIZE);
    sent(&mut session, b"$vKill;pid#7a");
    sent(&mut session, b"$?#3f");
    assert!(matches!(session.handle(b"", 0), Ok(Action::Nothing)));
    assert!(session.kill_pending());
}

#[test]
fn monitor_command_gets_console_output_ahead_of_ok() {
    let mut session = Session::new(PACKET_SIZE);
    let out = sent(&mut session, b"$qRcmd,726573657420696e6974#7d");
    assert_eq!(out, format!("{}{}", O_RESET_INIT, "$OK#9a"));
    assert_eq!(session.last_reply(), &Some("$OK#9a".to_string()));
}

#[test]
fn odd_monitor_command_is_a_protocol_error() {
    let mut session = Session::new(PACKET_SIZE);
    assert_eq!(sent(&mut session, b"$qRcmd,72657#2e"), "$E01#a6");
}

#[test]
fn idle_tick_does_nothing() {
    let mut session = Session::new(PACKET_SIZE);
    let buf = [0x7Eu8; BUF_SIZE];
    assert!(matches!(session.handle(&buf, 0), Ok(Action::Nothing)));
    assert!(session.ack_mode());
    assert_eq!(session.last_reply(), &None);
}

#[test]
fn ack_is_answered_with_ack_and_changes_nothing() {
    let mut session = Session::new(PACKET_SIZE);
    sent(&mut session, b"$?#3f");
    let before = format!("{:?}", session);
    assert_eq!(sent(&mut session, b"+"), "+");
    assert_eq!(sent(&mut session, b"+"), "+");
    assert_eq!(format!("{:?}", session), before);
    assert_eq!(session.last_reply(), &Some("$T02#b6".to_string()));
}

#[test]
fn nak_has_the_last_reply_sent_again() {
    let mut session = Session::new(PACKET_SIZE);
    // Nothing was sent yet: nothing to repeat.
    assert!(matches!(session.handle(b"-", 1), Ok(Action::Nothing)));
    sent(&mut session, b"$qC#b4");
    assert_eq!(sent(&mut session, b"-"), "$QC0#c4");
    assert_eq!(sent(&mut session, b"-"), "$QC0#c4");
    assert_eq!(session.last_reply(), &Some("$QC0#c4".to_string()));
}

#[test]
fn other_control_bytes_are_answered_with_ack() {
    let mut session = Session::new(PACKET_SIZE);
    assert_eq!(sent(&mut session, &[0x03]), "+");
    assert_eq!(sent(&mut session, b"~"), "+");
}

#[test]
fn bad_frame_is_refused_with_nak_while_acks_are_on() {
    let mut session = Session::new(PACKET_SIZE);
    sent(&mut session, b"$qC#b4");
    assert_eq!(sent(&mut session, b"$?#00"), "-");
    assert_eq!(sent(&mut session, b"?#3f"), "-");
    assert_eq!(sent(&mut session, b"$?3f"), "-");
    assert_eq!(sent(&mut session, b"$a#b#e6"), "-");
    // The refusal is not remembered as a reply.
    assert_eq!(session.last_reply(), &Some("$QC0#c4".to_string()));
    assert!(session.ack_mode());
}

#[test]
fn oversized_frame_is_refused() {
    let mut session = Session::new(8);
    assert_eq!(sent(&mut session, b"$vCont?#49"), "-");
}

#[test]
fn bad_frame_ends_a_session_without_acks() {
    let mut session = no_ack_session();
    assert_eq!(
        session.handle(b"$?#00", 5).unwrap_err(),
        SessionError::Framing(FrameError::BadChecksum)
    );
    assert_eq!(
        session.handle(b"?#3f", 4).unwrap_err(),
        SessionError::Framing(FrameError::MissingStart)
    );
    assert_eq!(
        session.handle(b"$?3f", 4).unwrap_err(),
        SessionError::Framing(FrameError::MissingEnd)
    );
    assert_eq!(
        session.handle(b"$a#b#e6", 7).unwrap_err(),
        SessionError::Framing(FrameError::StrayDelimiter)
    );
    let mut small = Session::new(24);
    assert_eq!(sent(&mut small, b"$QStartNoAckMode#b0"), "+$OK#9a");
    assert_eq!(
        small.handle(b"$qSupported:multiprocess+#c6", 28).unwrap_err(),
        SessionError::Framing(FrameError::TooLong)
    );
}

#[test]
fn reply_that_does_not_fit_ends_the_session() {
    let mut session = Session::new(32);
    assert_eq!(session.handle(b"$qSupported#37", 14).unwrap_err(), SessionError::ReplyTooLong);
    assert!(session.ack_mode());
    assert_eq!(session.last_reply(), &None);
}

#[test]
fn outcome_that_cannot_follow_ends_the_session() {
    let mut session = Session::new(PACKET_SIZE);
    let (pkt, request) = asked(&mut session, b"$g#67");
    assert_eq!(
        session.resume(pkt, &request, &TargetOutcome::Done).unwrap_err(),
        SessionError::UnexpectedOutcome
    );
    assert_eq!(session.last_reply(), &None);
}

#[test]
fn asking_the_target_leaves_the_session_as_it_was() {
    let mut session = Session::new(PACKET_SIZE);
    sent(&mut session, b"$qC#b4");
    let before = format!("{:?}", session);
    let (pkt, request) = asked(&mut session, b"$m10,4#2e");
    assert_eq!(request, TargetRequest::ReadMemory { addr: 0x10, len: 4 });
    assert_eq!(pkt.responce, None);
    assert_eq!(format!("{:?}", session), before);
}

#[test]
fn register_and_memory_reads_come_back_in_hex() {
    let mut session = Session::new(PACKET_SIZE);
    assert_eq!(
        sent_after(
            &mut session,
            b"$p1f#07",
            TargetOutcome::Bytes(vec![0x77, 0x66, 0x55, 0x44, 0x33, 0x22, 0x11, 0x00])
        ),
        "$7766554433221100#38"
    );
    assert_eq!(
        sent_after(&mut session, b"$m10,4#2e", TargetOutcome::Bytes(vec![0x33, 0x22, 0x11, 0x00])),
        "$33221100#8c"
    );
    assert_eq!(
        sent_after(&mut session, b"$g#67", TargetOutcome::Bytes(vec![0xff, 0xee])),
        "$ffee#96"
    );
    assert_eq!(sent_after(&mut session, b"$m10,4#2e", TargetOutcome::Failed(5)), "$E05#aa");
}

#[test]
fn writes_and_matchpoints_are_answered_with_ok_or_error() {
    let mut session = Session::new(PACKET_SIZE);
    assert_eq!(sent_after(&mut session, b"$G0011#09", TargetOutcome::Done), "$OK#9a");
    assert_eq!(sent_after(&mut session, b"$Pa=7766554433221100#26", TargetOutcome::Done), "$OK#9a");
    assert_eq!(sent_after(&mut session, b"$M10,2:abcd#d0", TargetOutcome::Done), "$OK#9a");
    assert_eq!(sent_after(&mut session, b"$M10,2:abcd#d0", TargetOutcome::Failed(0x0e)), "$E0e#da");
    assert_eq!(sent_after(&mut session, b"$z0,1000,4#f7", TargetOutcome::Done), "$OK#9a");
    assert_eq!(sent_after(&mut session, b"$Z1,2000,2#d7", TargetOutcome::Done), "$OK#9a");
    assert_eq!(sent(&mut session, b"$Z9,2000,2#df"), "$#00");
}

#[test]
fn fixed_queries_through_the_session() {
    let mut session = no_ack_session();
    assert_eq!(sent(&mut session, b"$qfThreadInfo#bb"), "$l#6c");
    assert_eq!(sent(&mut session, b"$qsThreadInfo#c8"), "$l#6c");
    assert_eq!(sent(&mut session, b"$qC#b4"), "$QC0#c4");
    assert_eq!(sent(&mut session, b"$qAttached#8f"), "$0#30");
    assert_eq!(sent(&mut session, b"$qSymbol::#5b"), "$OK#9a");
    assert_eq!(sent(&mut session, b"$qOffsets#4b"), "$Text=0;Data=0;Bss=0#04");
    assert_eq!(sent(&mut session, b"$vCont?#49"), "$vCont;c;C;s;S#62");
    assert_eq!(sent(&mut session, b"$!#21"), "$OK#9a");
}

#[test]
fn restart_is_not_answered_and_not_remembered() {
    let mut session = Session::new(PACKET_SIZE);
    sent(&mut session, b"$qC#b4");
    assert!(matches!(session.handle(b"$R#52", 5), Ok(Action::Nothing)));
    assert_eq!(session.last_reply(), &Some("$QC0#c4".to_string()));
}

#[test]
fn ack_mode_never_comes_back() {
    let mut session = no_ack_session();
    let inputs: [&[u8]; 8] = [
        b"$qSupported#37",
        b"+$QStartNoAckMode#b0",
        b"$?#3f",
        b"+",
        b"-",
        b"$vMustReplyEmpty#3a",
        b"$R#52",
        b"",
    ];
    for input in inputs {
        let _ = session.handle(input, input.len());
        assert!(!session.ack_mode());
    }
    sent_after(&mut session, b"$vCont;c#a8", TargetOutcome::Stopped { cancelled: true });
    assert!(!session.ack_mode());
}

#[test]
fn framed_reply_decodes_to_its_payload() {
    for payload in ["OK", "", "T02", "qSupported:multiprocess+", "m10,4", "7766554433221100"] {
        let framed = frame_text(payload);
        let pkt = RspPacket::parse(framed.as_bytes(), framed.len(), PACKET_SIZE).unwrap();
        assert_eq!(pkt.data, Some(payload.as_bytes()));
        assert_eq!(pkt.cs, Some(&framed.as_bytes()[framed.len() - 2..]));
        assert_eq!(pkt.len, Some(payload.len() + 4));
        assert_eq!(pkt.only_symb, Some(false));
        assert_eq!(pkt.last_ack_sign, None);
        assert_eq!(pkt.first_cmd_symbol, payload.chars().next());
    }
}

#[test]
fn every_frame_sent_carries_the_checksum_of_its_payload() {
    let mut session = Session::new(PACKET_SIZE);
    let mut out: Vec<String> = Vec::new();
    out.push(sent(&mut session, b"+$qSupported:multiprocess+;swbreak+#1b"));
    out.push(sent(&mut session, b"$vMustReplyEmpty#3a"));
    out.push(sent(&mut session, b"+$QStartNoAckMode#b0"));
    out.push(sent(&mut session, b"$?#3f"));
    out.push(sent(&mut session, b"$qRcmd,7265736574#37"));
    out.push(sent(&mut session, b"$qRcmd,72657#2e"));
    out.push(sent_after(&mut session, b"$g#67", TargetOutcome::Bytes((0..=255u8).collect())));
    out.push(sent_after(&mut session, b"$m10,4#2e", TargetOutcome::Failed(0xfe)));
    out.push(sent_after(&mut session, b"$vCont;c#a8", TargetOutcome::Stopped { cancelled: true }));
    out.push(sent_after(&mut session, b"$vCont;s#b8", TargetOutcome::Stopped { cancelled: false }));
    out.push(sent(&mut session, b"$vKill;pid#7a"));

    let mut frames = 0;
    for text in out {
        // Split what was sent into its frames: each runs from `$` to the
        // second byte behind `#`.
        let bytes = text.as_bytes();
        let mut at = if bytes[0] == b'+' { 1 } else { 0 };
        while at < bytes.len() {
            assert_eq!(bytes[at], b'$');
            let end = at + bytes[at..].iter().position(|&b| b == b'#').unwrap();
            let frame = &bytes[at..end + 3];
            let pkt = RspPacket::parse(frame, frame.len(), PACKET_SIZE).unwrap();
            let payload = &frame[1..frame.len() - 3];
            let sum = payload.iter().fold(0u8, |acc, &b| acc.wrapping_add(b));
            assert_eq!(pkt.cs, Some(format!("{:02x}", sum).as_bytes()));
            frames += 1;
            at = end + 3;
        }
    }
    assert_eq!(frames, 14);
}
