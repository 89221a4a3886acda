//! The frame codec: `$`, payload, `#` and two checksum digits.

use crate::checksum::{checksum, compute_checksum};
use crate::hex::{as_text, hex_bytes, hex_pair, push_hex_pair};
use crate::text::{is_ascii_bytes, lemma_wire_as_text, lemma_wire_concat, wire};
use vstd::prelude::*;
use vstd::slice::*;
use vstd::string::*;

verus! {

/// `$`, which opens a packet.
pub const START: u8 = 0x24;

/// `#`, which closes the payload.
pub const END: u8 = 0x23;

/// `+`, the acknowledgment.
pub const ACK: u8 = 0x2b;

/// `-`, the request to send the last reply again.
pub const NAK: u8 = 0x2d;

/// The byte the peer sends out of band to interrupt a running target.
pub const INTERRUPT: u8 = 0x03;

/// `X`, the first byte of a payload that carries raw binary data.
pub const BINARY: u8 = 0x58;

/// Why a run of received bytes is no packet.
#[derive(Clone, Copy, Debug, PartialEq, Eq, Structural)]
pub enum FrameError {
    /// More bytes than the negotiated packet size.
    TooLong,
    /// No `$` at the front, nor behind a single `+` or `-`.
    MissingStart,
    /// No `#` three bytes before the end.
    MissingEnd,
    /// The two bytes behind `#` are not the lowercase hexadecimal checksum
    /// of the payload.
    BadChecksum,
    /// A `$` or `#` inside a payload that is not binary.
    StrayDelimiter,
}

/// A payload framed for the wire.
pub open spec fn frame(payload: Seq<u8>) -> Seq<u8> {
    seq![START] + payload + seq![END] + hex_pair(checksum(payload) as u8)
}

/// A text payload framed as reply text. The checksum runs over the bytes
/// that the payload occupies on the wire.
pub open spec fn framed_text(msg: Seq<char>) -> Seq<char> {
    seq!['$'] + msg + seq!['#'] + as_text(hex_pair(checksum(wire(msg)) as u8))
}

/// The payload of a console-output packet for the message `msg`.
pub open spec fn console_payload(msg: Seq<u8>) -> Seq<char> {
    seq!['O'] + as_text(hex_bytes(msg))
}

/// Where `$` stands in a received frame: at the front, or behind one `+`
/// or `-`.
pub open spec fn start_of(buf: Seq<u8>) -> Option<int> {
    if buf.len() >= 1 && buf[0] == START {
        Some(0)
    } else if buf.len() >= 2 && (buf[0] == ACK || buf[0] == NAK) && buf[1] == START {
        Some(1)
    } else {
        None
    }
}

/// The bytes between `$` and the `#` that stands three bytes before the end.
pub open spec fn payload_of(buf: Seq<u8>) -> Seq<u8> {
    buf.subrange(start_of(buf).unwrap() + 1, buf.len() - 3)
}

/// The two bytes behind the closing `#`.
pub open spec fn digits_of(buf: Seq<u8>) -> Seq<u8> {
    buf.subrange(buf.len() - 2, buf.len() as int)
}

/// A payload that carries raw binary data, in which `$` and `#` may occur.
pub open spec fn is_binary(payload: Seq<u8>) -> bool {
    payload.len() > 0 && payload[0] == BINARY
}

/// The payload holds a raw `$` or `#`.
pub open spec fn has_delimiter(payload: Seq<u8>) -> bool {
    exists|i: int| 0 <= i < payload.len() && (#[trigger] payload[i] == START || payload[i] == END)
}

/// The first reason, if any, for which `buf` is no packet under the given
/// packet size. `buf` is what was received, two bytes or more.
pub open spec fn frame_error(buf: Seq<u8>, packet_size: int) -> Option<FrameError> {
    if buf.len() > packet_size {
        Some(FrameError::TooLong)
    } else if start_of(buf) is None {
        Some(FrameError::MissingStart)
    } else if buf.len() < start_of(buf).unwrap() + 4 || buf[buf.len() - 3] != END {
        Some(FrameError::MissingEnd)
    } else if digits_of(buf) != hex_pair(checksum(payload_of(buf)) as u8) {
        Some(FrameError::BadChecksum)
    } else if !is_binary(payload_of(buf)) && has_delimiter(payload_of(buf)) {
        Some(FrameError::StrayDelimiter)
    } else {
        None
    }
}

/// The two lowercase checksum digits of a payload.
pub fn checksum_digits(payload: &[u8]) -> (digits: (u8, u8))
    ensures
        seq![digits.0, digits.1] == hex_pair(checksum(payload@) as u8),
{
    let sum = compute_checksum(payload);
    let hi = sum / 16;
    let lo = sum % 16;
    let d0 = if hi < 10 { 48 + hi } else { 87 + hi };
    let d1 = if lo < 10 { 48 + lo } else { 87 + lo };
    assert(seq![d0, d1] =~= hex_pair(sum));
    (d0, d1)
}

/// Whether `payload` holds a raw `$` or `#`.
pub fn contains_delimiter(payload: &[u8]) -> (found: bool)
    ensures
        found == has_delimiter(payload@),
{
    let mut i: usize = 0;
    while i < payload.len()
        invariant
            i <= payload.len(),
            forall|k: int| 0 <= k < i ==> payload@[k] != START && payload@[k] != END,
        decreases payload.len() - i,
    {
        if payload[i] == START || payload[i] == END {
            return true;
        }
        i = i + 1;
    }
    false
}

/// Where `$` stands among the first two of the `n` received bytes.
pub fn find_start(buf: &[u8], n: usize) -> (pos: Option<usize>)
    requires
        n <= buf.len(),
    ensures
        pos is Some <==> start_of(buf@.take(n as int)) is Some,
        pos is Some ==> pos.unwrap() == start_of(buf@.take(n as int)).unwrap(),
{
    if n >= 1 && buf[0] == START {
        Some(0)
    } else if n >= 2 && (buf[0] == ACK || buf[0] == NAK) && buf[1] == START {
        Some(1)
    } else {
        None
    }
}

/// Checks the `n` received bytes of `buf` against the frame format and
/// reports the first violation.
pub fn check_frame(buf: &[u8], n: usize, packet_size: usize) -> (r: Result<(), FrameError>)
    requires
        2 <= n <= buf.len(),
    ensures
        r is Ok <==> frame_error(buf@.take(n as int), packet_size as int) is None,
        r is Err ==> Some(r->Err_0) == frame_error(buf@.take(n as int), packet_size as int),
{
    let ghost got = buf@.take(n as int);
    if n > packet_size {
        return Err(FrameError::TooLong);
    }
    let start = match find_start(buf, n) {
        Some(s) => s,
        None => {
            return Err(FrameError::MissingStart);
        },
    };
    if n < start + 4 || buf[n - 3] != END {
        return Err(FrameError::MissingEnd);
    }
    let payload = slice_subrange(buf, start + 1, n - 3);
    assert(payload@ =~= payload_of(got));
    let (d0, d1) = checksum_digits(payload);
    assert(digits_of(got) =~= seq![buf@[n - 2], buf@[n - 1]]);
    if buf[n - 2] != d0 || buf[n - 1] != d1 {
        proof {
            let want = hex_pair(checksum(payload@) as u8);
            assert(want[0] == d0 && want[1] == d1);
        }
        return Err(FrameError::BadChecksum);
    }
    if payload.len() > 0 && payload[0] == BINARY {
        return Ok(());
    }
    if contains_delimiter(payload) {
        return Err(FrameError::StrayDelimiter);
    }
    Ok(())
}

/// Frames a text payload: `$`, the payload, `#`, and the two lowercase
/// checksum digits.
pub fn frame_text(msg: &str) -> (framed: String)
    ensures
        framed@ == framed_text(msg@),
{
    let sum = compute_checksum(msg.as_bytes());
    let mut framed = String::from_str("$");
    framed.append(msg);
    framed.append("#");
    push_hex_pair(&mut framed, sum);
    proof {
        reveal_strlit("$");
        reveal_strlit("#");
        assert("$"@ =~= seq!['$']);
        assert("#"@ =~= seq!['#']);
        assert(framed@ =~= framed_text(msg@));
    }
    framed
}

/// The payload of a console-output packet: `O` and the message in
/// hexadecimal, two lowercase digits per byte.
pub fn console_text(msg: &[u8]) -> (payload: String)
    ensures
        payload@ == console_payload(msg@),
{
    let mut payload = String::from_str("O");
    let mut i: usize = 0;
    proof {
        reveal_strlit("O");
        assert(payload@ =~= console_payload(msg@.take(0)));
    }
    while i < msg.len()
        invariant
            i <= msg.len(),
            payload@ == console_payload(msg@.take(i as int)),
        decreases msg.len() - i,
    {
        push_hex_pair(&mut payload, msg[i]);
        proof {
            assert(payload@ =~= console_payload(msg@.take(i + 1)));
        }
        i = i + 1;
    }
    proof {
        assert(msg@.take(i as int) =~= msg@);
    }
    payload
}

/// What a framed text is on the wire: the frame of the payload's bytes.
pub proof fn lemma_framed_text_wire(msg: Seq<char>)
    ensures
        wire(framed_text(msg)) == frame(wire(msg)),
        wire(framed_text(msg)).len() == wire(msg).len() + 4,
{
    let digits = hex_pair(checksum(wire(msg)) as u8);
    let head = seq!['$'];
    let mid = seq!['#'];
    assert(is_ascii_bytes(digits));
    assert(is_ascii_bytes(seq![START]));
    assert(is_ascii_bytes(seq![END]));
    assert(as_text(seq![START]) =~= head);
    assert(as_text(seq![END]) =~= mid);
    lemma_wire_as_text(digits);
    lemma_wire_as_text(seq![START]);
    lemma_wire_as_text(seq![END]);
    lemma_wire_concat(head, msg);
    lemma_wire_concat(head + msg, mid);
    lemma_wire_concat(head + msg + mid, as_text(digits));
}

} // verus!
