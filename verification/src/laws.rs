//! What holds of the codec and of the replies as a whole.

use crate::binary::{lemma_unescaped_plain, unescaped, ESCAPE};
use crate::checksum::checksum;
use crate::command::{CommandView, RequestView, StopSignal};
use crate::frame::{
    digits_of, frame, frame_error, framed_text, has_delimiter, is_binary, lemma_framed_text_wire,
    payload_of, start_of, END, START,
};
use crate::hex::hex_pair;
use crate::packet::RspPacket;
use crate::frame::console_payload;
use crate::hex::{
    as_text, decoded_hex, hex_bytes, hex_digit, hex_number, hex_val, is_hex_text, number_hex, unhex,
};
use crate::reply::{
    acked, completed_reply, error_payload, immediate_reply, monitor_message, stop_payload,
    supported_payload, OutcomeView, MSG_BREAKPOINT, MSG_INTERRUPTED, MSG_STEP, PROTOCOL_ERROR,
};
use vstd::string::*;
use crate::text::{lemma_wire_as_text, wire};
use vstd::prelude::*;

verus! {

/// The payload holds no `$`, no `#` and no `}`.
pub open spec fn is_plain(payload: Seq<u8>) -> bool {
    forall|i: int|
        0 <= i < payload.len() ==> #[trigger] payload[i] != START && payload[i] != END
            && payload[i] != ESCAPE
}

/// The text is a framed payload, possibly behind an acknowledging `+`.
pub open spec fn is_framed(text: Seq<char>) -> bool {
    exists|payload: Seq<char>, ack: bool| text == #[trigger] acked(ack, framed_text(payload))
}

/// In every well-formed packet the two bytes behind `#` are the sum of
/// the payload's bytes modulo 256, in two lowercase hexadecimal digits;
/// and the packet is the frame of its payload, behind the acknowledging
/// byte if it has one.
pub proof fn lemma_well_formed_frame(buf: Seq<u8>, packet_size: int)
    requires
        buf.len() >= 2,
        frame_error(buf, packet_size) is None,
    ensures
        digits_of(buf) == hex_pair(checksum(payload_of(buf)) as u8),
        buf == buf.take(start_of(buf).unwrap()) + frame(payload_of(buf)),
{
    let start = start_of(buf).unwrap();
    let rebuilt = buf.take(start) + frame(payload_of(buf));
    assert(digits_of(buf).len() == 2);
    assert(rebuilt =~= buf) by {
        assert(rebuilt.len() == buf.len());
        assert forall|i: int| 0 <= i < buf.len() implies rebuilt[i] == buf[i] by {
            if i >= buf.len() - 2 {
                assert(buf[i] == digits_of(buf)[i - (buf.len() - 2)]);
            } else if i > start && i < buf.len() - 3 {
                assert(buf[i] == payload_of(buf)[i - start - 1]);
            }
        }
    }
}

/// Framing and decoding undo each other: the frame of a payload without
/// `$`, `#` and `}` that fits the packet size is well-formed, its payload
/// is the one that was framed, and nothing in it counts as escaped.
pub proof fn lemma_frame_round_trip(payload: Seq<u8>, packet_size: int)
    requires
        is_plain(payload),
        payload.len() + 4 <= packet_size,
    ensures
        frame_error(frame(payload), packet_size) is None,
        start_of(frame(payload)) == Some(0int),
        payload_of(frame(payload)) == payload,
        digits_of(frame(payload)) == hex_pair(checksum(payload) as u8),
        unescaped(payload) == Some(payload),
{
    let buf = frame(payload);
    assert(buf.len() == payload.len() + 4);
    assert(buf[0] == START);
    assert(payload_of(buf) =~= payload);
    assert(digits_of(buf) =~= hex_pair(checksum(payload) as u8));
    assert(buf[buf.len() - 3] == END);
    assert(!has_delimiter(payload));
    lemma_unescaped_plain(payload);
}

/// A packet decoded from the frame of a payload holds that payload.
pub proof fn lemma_decoded_payload(pkt: RspPacket, payload: Seq<u8>, packet_size: int)
    requires
        is_plain(payload),
        payload.len() + 4 <= packet_size,
        pkt.decodes(frame(payload)),
    ensures
        pkt.payload() == payload,
        !is_binary(payload) ==> pkt.data is Some && pkt.data.unwrap()@ == payload,
        pkt.cs.unwrap()@ == hex_pair(checksum(payload) as u8),
{
    lemma_frame_round_trip(payload, packet_size);
}

/// What `responce_add_usd_cs` builds decodes to the text it was given:
/// on the wire a framed text is a well-formed packet whose payload is
/// the bytes of the text.
pub proof fn lemma_text_round_trip(msg: Seq<char>, packet_size: int)
    requires
        is_plain(wire(msg)),
        wire(msg).len() + 4 <= packet_size,
    ensures
        frame_error(wire(framed_text(msg)), packet_size) is None,
        payload_of(wire(framed_text(msg))) == wire(msg),
{
    lemma_framed_text_wire(msg);
    lemma_frame_round_trip(wire(msg), packet_size);
}

/// A framed payload is framed, with or without `+` in front.
pub proof fn lemma_is_framed(payload: Seq<char>, ack: bool)
    ensures
        is_framed(acked(ack, framed_text(payload))),
        is_framed(framed_text(payload)),
{
    assert(framed_text(payload) == acked(false, framed_text(payload)));
}

/// Every reply to a command is a framed payload, and so carries the
/// checksum of its payload.
pub proof fn lemma_immediate_replies_are_framed(
    cmd: CommandView,
    ack_mode: bool,
    last_stop: StopSignal,
    packet_size: usize,
)
    ensures
        ({
            let reply = immediate_reply(cmd, ack_mode, last_stop, packet_size);
            &&& reply.responce is Some ==> is_framed(reply.responce.unwrap())
            &&& reply.output_text is Some ==> is_framed(reply.output_text.unwrap())
            &&& reply.need_responce ==> reply.responce is Some
        }),
{
    lemma_is_framed(stop_payload(last_stop), false);
    lemma_is_framed("OK"@, ack_mode);
    lemma_is_framed(supported_payload(packet_size), ack_mode);
    lemma_is_framed("l"@, false);
    lemma_is_framed("QC0"@, false);
    lemma_is_framed("0"@, false);
    lemma_is_framed("Text=0;Data=0;Bss=0"@, false);
    lemma_is_framed("vCont;c;C;s;S"@, false);
    lemma_is_framed(Seq::<char>::empty(), false);
    lemma_is_framed(error_payload(PROTOCOL_ERROR), false);
    if let CommandView::Monitor { cmd: monitor } = cmd {
        lemma_is_framed(console_payload(monitor_message(monitor)), false);
    }
}

/// Every reply to a request that the debug target has carried out is a
/// framed payload, and so carries the checksum of its payload.
pub proof fn lemma_completed_replies_are_framed(request: RequestView, outcome: OutcomeView)
    requires
        completed_reply(request, outcome) is Some,
    ensures
        ({
            let reply = completed_reply(request, outcome).unwrap();
            &&& reply.need_responce
            &&& reply.responce is Some
            &&& is_framed(reply.responce.unwrap())
            &&& reply.output_text is Some ==> is_framed(reply.output_text.unwrap())
        }),
{
    lemma_is_framed("OK"@, false);
    lemma_is_framed(stop_payload(StopSignal::Interrupt), false);
    lemma_is_framed(stop_payload(StopSignal::Trap), false);
    lemma_is_framed(console_payload(MSG_INTERRUPTED.spec_bytes()), false);
    lemma_is_framed(console_payload(MSG_BREAKPOINT.spec_bytes()), false);
    lemma_is_framed(console_payload(MSG_STEP.spec_bytes()), false);
    match outcome {
        OutcomeView::Failed(code) => {
            lemma_is_framed(error_payload(code), false);
        },
        OutcomeView::Bytes(bytes) => {
            lemma_is_framed(as_text(hex_bytes(bytes)), false);
        },
        _ => {},
    }
}

/// The checksum of a byte string with one more byte behind it.
pub proof fn lemma_checksum_push(data: Seq<u8>, b: u8)
    ensures
        checksum(data.push(b)) == (checksum(data) + b) % 256,
{
    assert(data.push(b).drop_last() =~= data);
}

/// The four replies that never vary, letter for letter: `OK`, the empty
/// reply to what is not supported, and the two stop replies.
pub proof fn lemma_fixed_replies()
    ensures
        framed_text("OK"@) == "$OK#9a"@,
        framed_text(Seq::<char>::empty()) == "$#00"@,
        framed_text(stop_payload(StopSignal::Interrupt)) == "$T02#b6"@,
        framed_text(stop_payload(StopSignal::Trap)) == "$T05#b9"@,
{
    reveal_strlit("OK");
    reveal_strlit("T02");
    reveal_strlit("T05");
    reveal_strlit("$OK#9a");
    reveal_strlit("$#00");
    reveal_strlit("$T02#b6");
    reveal_strlit("$T05#b9");
    let none = Seq::<u8>::empty();
    assert(wire(Seq::<char>::empty()) =~= none);
    assert(framed_text(Seq::<char>::empty()) =~= "$#00"@);

    let ok = seq![0x4fu8, 0x4bu8];
    assert(as_text(ok) =~= "OK"@);
    lemma_wire_as_text(ok);
    lemma_checksum_push(none, 0x4f);
    lemma_checksum_push(none.push(0x4f), 0x4b);
    assert(none.push(0x4f).push(0x4b) =~= ok);
    assert(framed_text("OK"@) =~= "$OK#9a"@);

    let t0 = seq![0x54u8, 0x30u8];
    let t02 = seq![0x54u8, 0x30u8, 0x32u8];
    let t05 = seq![0x54u8, 0x30u8, 0x35u8];
    assert(as_text(t02) =~= "T02"@);
    assert(as_text(t05) =~= "T05"@);
    lemma_wire_as_text(t02);
    lemma_wire_as_text(t05);
    lemma_checksum_push(none, 0x54);
    lemma_checksum_push(none.push(0x54), 0x30);
    assert(none.push(0x54).push(0x30) =~= t0);
    lemma_checksum_push(t0, 0x32);
    lemma_checksum_push(t0, 0x35);
    assert(t0.push(0x32) =~= t02);
    assert(t0.push(0x35) =~= t05);
    assert(framed_text("T02"@) =~= "$T02#b6"@);
    assert(framed_text("T05"@) =~= "$T05#b9"@);
}

/// Console output goes out only ahead of the `OK` that answers a monitor
/// command, or ahead of a stop reply after the target was resumed.
pub proof fn lemma_console_output_has_its_place(
    cmd: CommandView,
    ack_mode: bool,
    last_stop: StopSignal,
    packet_size: usize,
    request: RequestView,
    outcome: OutcomeView,
)
    ensures
        immediate_reply(cmd, ack_mode, last_stop, packet_size).output_text is Some ==> {
            &&& cmd is Monitor
            &&& immediate_reply(cmd, ack_mode, last_stop, packet_size).responce == Some(
                framed_text("OK"@),
            )
        },
        completed_reply(request, outcome) is Some && completed_reply(
            request,
            outcome,
        ).unwrap().output_text is Some ==> {
            let reply = completed_reply(request, outcome).unwrap();
            &&& outcome is Stopped
            &&& request is Continue || request is Step
            &&& reply.stopped is Some
            &&& reply.responce == Some(framed_text(stop_payload(reply.stopped.unwrap())))
        },
{
}

/// A lowercase digit has the value it was made from.
pub proof fn lemma_hex_digit_value(n: int)
    requires
        0 <= n < 16,
    ensures
        hex_val(hex_digit(n)) == Some(n),
        hex_digit(n) < 128,
{
}

/// Hexadecimal text decodes to the bytes it was made from.
pub proof fn lemma_hex_round_trip(data: Seq<u8>)
    ensures
        decoded_hex(hex_bytes(data)) == Some(data),
{
    let text = hex_bytes(data);
    assert forall|i: int| 0 <= i < text.len() implies (#[trigger] hex_val(text[i])) is Some by {
        lemma_hex_digit_value(data[i / 2] as int / 16);
        lemma_hex_digit_value(data[i / 2] as int % 16);
    }
    assert(unhex(text) =~= data) by {
        assert forall|i: int| 0 <= i < data.len() implies unhex(text)[i] == data[i] by {
            lemma_hex_digit_value(data[i] as int / 16);
            lemma_hex_digit_value(data[i] as int % 16);
            assert(text[2 * i] == hex_digit(data[i] as int / 16));
            assert(text[2 * i + 1] == hex_digit(data[i] as int % 16));
        }
    }
}

/// The hexadecimal text of a number reads back as that number.
pub proof fn lemma_number_round_trip(n: nat)
    ensures
        number_hex(n).len() > 0,
        is_hex_text(number_hex(n)),
        hex_number(number_hex(n)) == n,
    decreases n,
{
    let text = number_hex(n);
    if n < 16 {
        lemma_hex_digit_value(n as int);
        assert(text.drop_last() =~= Seq::<u8>::empty());
        assert(hex_number(text.drop_last()) == 0);
    } else {
        lemma_number_round_trip(n / 16);
        lemma_hex_digit_value((n % 16) as int);
        assert(text.drop_last() =~= number_hex(n / 16));
        assert forall|i: int| 0 <= i < text.len() implies (#[trigger] hex_val(text[i])) is Some by {
            if i < text.len() - 1 {
                assert(text[i] == number_hex(n / 16)[i]);
            }
        }
    }
}

} // verus!
