//! A received frame, parsed, together with the reply that is being built
//! for it.

use crate::checksum::checksum;
use crate::command::StopSignal;
use crate::frame::{
    check_frame, console_payload, console_text, digits_of, frame_error, frame_text, framed_text,
    is_binary, payload_of, start_of, FrameError, BINARY, START,
};
use crate::hex::{decoded_hex, hex_decode, hex_pair, hex_val, hex_value};
use vstd::prelude::*;
use vstd::slice::*;
use vstd::string::*;

verus! {

/// The packet size that a session announces unless it is told otherwise.
pub const PACKET_SIZE: usize = 4096;

/// Room for one read from the peer: a packet and some slack.
pub const BUF_SIZE: usize = PACKET_SIZE + 256;

/// `,`, which parts address and length.
pub const COMMA: u8 = 0x2c;

/// `:`, which parts a header from the data behind it.
pub const COLON: u8 = 0x3a;

/// The first index from `from` on at which `s` holds no hexadecimal
/// digit, or its length.
pub open spec fn skip_hex(s: Seq<u8>, from: int) -> int
    decreases s.len() - from,
{
    if 0 <= from < s.len() && hex_val(s[from]) is Some {
        skip_hex(s, from + 1)
    } else {
        from
    }
}

/// Where the `,` of a binary packet's header stands in the received
/// bytes: right behind the hexadecimal digits that follow `X`.
pub open spec fn comma_of(buf: Seq<u8>) -> Option<int> {
    let end = buf.len() - 3;
    let at = skip_hex(buf.take(end), start_of(buf).unwrap() + 2);
    if at < end && buf[at] == COMMA {
        Some(at)
    } else {
        None
    }
}

/// Where the `:` of a binary packet's header stands in the received
/// bytes: right behind the hexadecimal digits that follow the `,`.
pub open spec fn colon_of(buf: Seq<u8>) -> Option<int> {
    let end = buf.len() - 3;
    match comma_of(buf) {
        Some(comma) => {
            let at = skip_hex(buf.take(end), comma + 1);
            if at < end && buf[at] == COLON {
                Some(at)
            } else {
                None
            }
        },
        None => None,
    }
}

/// An index as the packet stores it.
pub open spec fn stored(pos: Option<int>) -> Option<usize> {
    match pos {
        Some(p) => Some(p as usize),
        None => None,
    }
}

/// The first byte of a payload as a character, if there is one.
pub open spec fn first_symbol(payload: Seq<u8>) -> Option<char> {
    if payload.len() > 0 {
        Some(payload[0] as char)
    } else {
        None
    }
}

/// One received frame and the reply to it.
///
/// A frame of no bytes is an idle tick; a frame of one byte is a control
/// byte; anything longer is a packet `$data#cs`, possibly behind one `+`
/// or `-` that acknowledges what was sent before.
#[derive(Debug)]
pub struct RspPacket<'a> {
    /// How many bytes were received.
    pub len: Option<usize>,
    /// The payload between `$` and `#`. Absent for a binary packet, a
    /// control byte and an idle tick.
    pub data: Option<&'a [u8]>,
    /// The first byte of the payload, which selects the command.
    pub first_cmd_symbol: Option<char>,
    /// The `+` or `-` in front of the packet, or the control byte itself.
    pub last_ack_sign: Option<char>,
    /// Whether this is a lone control byte rather than a packet.
    pub only_symb: Option<bool>,
    /// The two checksum digits.
    pub cs: Option<&'a [u8]>,
    /// Whether anything is to be sent back.
    pub need_responce: Option<bool>,
    /// The reply.
    pub responce: Option<String>,
    /// A console-output packet to be sent ahead of the reply.
    pub output_text: Option<String>,
    /// Set when the peer asked to end the session.
    pub kill_flag: Option<bool>,
    /// Set when the peer asked to stop acknowledging.
    pub no_ack_flag: Option<bool>,
    /// Why the target stopped, where the reply reports a stop after a
    /// resume.
    pub stopped: Option<StopSignal>,
    /// For a binary packet, all received bytes.
    pub raw: Option<&'a [u8]>,
    /// For a binary packet, the index of `,` in `raw`.
    pub comma_pos: Option<usize>,
    /// For a binary packet, the index of `:` in `raw`.
    pub colon_pos: Option<usize>,
    /// The longest reply, framing included, that may be built.
    pub packet_size: usize,
}

impl<'a> RspPacket<'a> {
    /// Nothing has been built in reply yet.
    pub open spec fn unanswered(&self) -> bool {
        &&& self.responce is None
        &&& self.output_text is None
        &&& self.kill_flag == Some(false)
        &&& self.no_ack_flag == Some(false)
        &&& self.stopped is None
    }

    /// The packet is the idle tick.
    pub open spec fn is_idle(&self) -> bool {
        &&& self.len == Some(0usize)
        &&& self.data is None
        &&& self.first_cmd_symbol is None
        &&& self.last_ack_sign is None
        &&& self.only_symb is None
        &&& self.cs is None
        &&& self.need_responce == Some(false)
        &&& self.raw is None
        &&& self.comma_pos is None
        &&& self.colon_pos is None
    }

    /// The packet is the lone control byte `b`.
    pub open spec fn is_control(&self, b: u8) -> bool {
        &&& self.len == Some(1usize)
        &&& self.data is None
        &&& self.first_cmd_symbol is None
        &&& self.last_ack_sign == Some(b as char)
        &&& self.only_symb == Some(true)
        &&& self.cs is None
        &&& self.need_responce == Some(true)
        &&& self.raw is None
        &&& self.comma_pos is None
        &&& self.colon_pos is None
    }

    /// The packet is what the well-formed frame `buf` holds.
    pub open spec fn is_packet(&self, buf: Seq<u8>) -> bool {
        let payload = payload_of(buf);
        &&& self.len == Some(buf.len() as usize)
        &&& self.first_cmd_symbol == first_symbol(payload)
        &&& self.last_ack_sign == if start_of(buf) == Some(1int) {
            Some(buf[0] as char)
        } else {
            None
        }
        &&& self.only_symb == Some(false)
        &&& self.cs is Some
        &&& self.cs.unwrap()@ == digits_of(buf)
        &&& self.need_responce == Some(true)
        &&& if is_binary(payload) {
            &&& self.data is None
            &&& self.raw is Some
            &&& self.raw.unwrap()@ == buf
            &&& self.comma_pos == stored(comma_of(buf))
            &&& self.colon_pos == stored(colon_of(buf))
        } else {
            &&& self.data is Some
            &&& self.data.unwrap()@ == payload
            &&& self.raw is None
            &&& self.comma_pos is None
            &&& self.colon_pos is None
        }
    }

    /// The packet is what the received bytes `buf` decode to.
    pub open spec fn decodes(&self, buf: Seq<u8>) -> bool {
        if buf.len() == 0 {
            self.is_idle()
        } else if buf.len() == 1 {
            self.is_control(buf[0])
        } else {
            self.is_packet(buf)
        }
    }

    /// The bytes between `$` and `#`; empty for a control byte and an
    /// idle tick.
    pub open spec fn payload(&self) -> Seq<u8> {
        if self.data is Some {
            self.data.unwrap()@
        } else if self.raw is Some {
            payload_of(self.raw.unwrap()@)
        } else {
            Seq::<u8>::empty()
        }
    }

    /// The fields of a packet agree with one another.
    pub open spec fn wf(&self) -> bool {
        self.only_symb == Some(false) ==> {
            &&& self.first_cmd_symbol == first_symbol(self.payload())
            &&& self.data is Some ==> self.raw is None && !is_binary(self.data.unwrap()@)
            &&& self.data is None ==> {
                let buf = self.raw.unwrap()@;
                &&& self.raw is Some
                &&& start_of(buf) is Some
                &&& buf.len() >= start_of(buf).unwrap() + 4
                &&& is_binary(payload_of(buf))
                &&& self.comma_pos == stored(comma_of(buf))
                &&& self.colon_pos == stored(colon_of(buf))
            }
        }
    }
}

/// `skip_hex` stays between its start and the end of the text.
pub proof fn lemma_skip_hex_bounds(s: Seq<u8>, from: int)
    requires
        0 <= from <= s.len(),
    ensures
        from <= skip_hex(s, from) <= s.len(),
    decreases s.len() - from,
{
    if from < s.len() && hex_val(s[from]) is Some {
        lemma_skip_hex_bounds(s, from + 1);
    }
}

/// The first index from `from` on, below `end`, at which `buf` holds no
/// hexadecimal digit, or `end`.
pub fn scan_hex(buf: &[u8], from: usize, end: usize) -> (at: usize)
    requires
        from <= end <= buf.len(),
    ensures
        at == skip_hex(buf@.take(end as int), from as int),
        from <= at <= end,
{
    let ghost s = buf@.take(end as int);
    let mut at = from;
    while at < end && hex_value(buf[at]).is_some()
        invariant
            from <= at <= end <= buf.len(),
            s == buf@.take(end as int),
            skip_hex(s, from as int) == skip_hex(s, at as int),
        decreases end - at,
    {
        proof {
            assert(s[at as int] == buf@[at as int]);
        }
        at = at + 1;
    }
    proof {
        if at < end {
            assert(s[at as int] == buf@[at as int]);
        }
    }
    at
}

impl<'a> RspPacket<'a> {
    /// Builds the packet for a frame that has passed `check_frame`, or
    /// that holds fewer than two bytes.
    fn build(input_buf: &'a [u8], input_len: usize, packet_size: usize) -> (pkt: RspPacket<'a>)
        requires
            input_len <= input_buf.len(),
            input_len >= 2 ==> frame_error(input_buf@.take(input_len as int), packet_size as int)
                is None,
        ensures
            pkt.decodes(input_buf@.take(input_len as int)),
            pkt.unanswered(),
            pkt.wf(),
            pkt.packet_size == packet_size,
    {
        let ghost got = input_buf@.take(input_len as int);
        if input_len == 0 {
            return RspPacket {
                len: Some(0),
                data: None,
                first_cmd_symbol: None,
                last_ack_sign: None,
                only_symb: None,
                cs: None,
                need_responce: Some(false),
                responce: None,
                output_text: None,
                kill_flag: Some(false),
                no_ack_flag: Some(false),
                stopped: None,
                raw: None,
                comma_pos: None,
                colon_pos: None,
                packet_size,
            };
        }
        if input_len == 1 {
            return RspPacket {
                len: Some(1),
                data: None,
                first_cmd_symbol: None,
                last_ack_sign: Some(input_buf[0] as char),
                only_symb: Some(true),
                cs: None,
                need_responce: Some(true),
                responce: None,
                output_text: None,
                kill_flag: Some(false),
                no_ack_flag: Some(false),
                stopped: None,
                raw: None,
                comma_pos: None,
                colon_pos: None,
                packet_size,
            };
        }
        let usd_pos: usize = if input_buf[0] == START {
            0
        } else {
            1
        };
        let sharp_pos = input_len - 3;
        let payload = slice_subrange(input_buf, usd_pos + 1, sharp_pos);
        let cs = slice_subrange(input_buf, sharp_pos + 1, sharp_pos + 3);
        proof {
            assert(payload@ =~= payload_of(got));
            assert(cs@ =~= digits_of(got));
        }
        let last_ack_sign = if usd_pos == 1 {
            Some(input_buf[0] as char)
        } else {
            None
        };
        let first_cmd_symbol = if payload.len() > 0 {
            Some(payload[0] as char)
        } else {
            None
        };
        if payload.len() > 0 && payload[0] == BINARY {
            let raw = slice_subrange(input_buf, 0, input_len);
            assert(raw@ =~= got);
            let comma = scan_hex(input_buf, usd_pos + 2, sharp_pos);
            proof {
                assert(got.take(sharp_pos as int) =~= input_buf@.take(sharp_pos as int));
            }
            let comma_pos = if comma < sharp_pos && input_buf[comma] == COMMA {
                Some(comma)
            } else {
                None
            };
            let colon_pos = match comma_pos {
                Some(c) => {
                    let colon = scan_hex(input_buf, c + 1, sharp_pos);
                    if colon < sharp_pos && input_buf[colon] == COLON {
                        Some(colon)
                    } else {
                        None
                    }
                },
                None => None,
            };
            RspPacket {
                len: Some(input_len),
                data: None,
                first_cmd_symbol,
                last_ack_sign,
                only_symb: Some(false),
                cs: Some(cs),
                need_responce: Some(true),
                responce: None,
                output_text: None,
                kill_flag: Some(false),
                no_ack_flag: Some(false),
                stopped: None,
                raw: Some(raw),
                comma_pos,
                colon_pos,
                packet_size,
            }
        } else {
            RspPacket {
                len: Some(input_len),
                data: Some(payload),
                first_cmd_symbol,
                last_ack_sign,
                only_symb: Some(false),
                cs: Some(cs),
                need_responce: Some(true),
                responce: None,
                output_text: None,
                kill_flag: Some(false),
                no_ack_flag: Some(false),
                stopped: None,
                raw: None,
                comma_pos: None,
                colon_pos: None,
                packet_size,
            }
        }
    }

    /// Decodes the first `input_len` bytes of `input_buf` under the given
    /// packet size. Fewer than two bytes are an idle tick or a control
    /// byte; anything longer must be a well-formed frame, and the error
    /// names the first rule it breaks. In a packet that is returned, the
    /// checksum digits are those of its payload.
    pub fn parse(input_buf: &'a [u8], input_len: usize, packet_size: usize) -> (r: Result<
        RspPacket<'a>,
        FrameError,
    >)
        requires
            input_len <= input_buf.len(),
        ensures
            r is Ok <==> input_len < 2 || frame_error(
                input_buf@.take(input_len as int),
                packet_size as int,
            ) is None,
            r is Err ==> Some(r->Err_0) == frame_error(
                input_buf@.take(input_len as int),
                packet_size as int,
            ),
            r is Ok ==> r->Ok_0.decodes(input_buf@.take(input_len as int)),
            r is Ok ==> r->Ok_0.unanswered() && r->Ok_0.wf() && r->Ok_0.packet_size
                == packet_size,
            r is Ok && input_len >= 2 ==> r->Ok_0.cs.unwrap()@ == hex_pair(
                checksum(r->Ok_0.payload()) as u8,
            ),
    {
        if input_len >= 2 {
            match check_frame(input_buf, input_len, packet_size) {
                Ok(()) => {},
                Err(e) => {
                    return Err(e);
                },
            }
        }
        Ok(RspPacket::build(input_buf, input_len, packet_size))
    }

    /// Decodes the first `input_len` bytes of `input_buf`, which hold an
    /// idle tick, a control byte or a well-formed frame of at most
    /// `PACKET_SIZE` bytes.
    pub fn new(input_buf: &'a [u8], input_len: usize) -> (pkt: RspPacket<'a>)
        requires
            input_len <= input_buf.len(),
            input_len >= 2 ==> frame_error(input_buf@.take(input_len as int), PACKET_SIZE as int)
                is None,
        ensures
            pkt.decodes(input_buf@.take(input_len as int)),
            pkt.unanswered(),
            pkt.wf(),
            pkt.packet_size == PACKET_SIZE,
    {
        RspPacket::build(input_buf, input_len, PACKET_SIZE)
    }

    /// Makes `msg_str` the reply as it stands, without framing: for a
    /// lone `+` or `-`, or for a reply that is framed already.
    pub fn responce(&mut self, msg_str: &str)
        requires
            msg_str.spec_bytes().len() <= old(self).packet_size,
        ensures
            final(self).responce is Some,
            final(self).responce.unwrap()@ == msg_str@,
            *final(self) == (RspPacket { responce: final(self).responce, ..*old(self) }),
    {
        self.responce = Some(String::from_str(msg_str));
    }

    /// Makes the framed form of `msg_str` the reply: `$`, the text, `#`
    /// and the two lowercase checksum digits.
    pub fn responce_add_usd_cs(&mut self, msg_str: &str)
        requires
            msg_str.spec_bytes().len() + 4 <= old(self).packet_size,
        ensures
            final(self).responce is Some,
            final(self).responce.unwrap()@ == framed_text(msg_str@),
            *final(self) == (RspPacket { responce: final(self).responce, ..*old(self) }),
    {
        self.responce = Some(frame_text(msg_str));
    }

    /// Makes a console-output packet of `msg_str`: the framed form of `O`
    /// followed by the message in hexadecimal, two lowercase digits per
    /// byte.
    pub fn text_add_usd_o_cs(&mut self, msg_str: &str)
        requires
            2 * msg_str.spec_bytes().len() + 5 <= old(self).packet_size,
        ensures
            final(self).output_text is Some,
            final(self).output_text.unwrap()@ == framed_text(
                console_payload(msg_str.spec_bytes()),
            ),
            *final(self) == (RspPacket { output_text: final(self).output_text, ..*old(self) }),
    {
        let otext = console_text(msg_str.as_bytes());
        self.output_text = Some(frame_text(otext.as_str()));
    }

    /// Decodes the hexadecimal text of a monitor command into its bytes.
    /// A text of odd length, or one that holds anything but hexadecimal
    /// digits, is no command.
    pub fn extract_monitor_cmd(cmd_str: &[u8]) -> (cmd: Option<Vec<u8>>)
        ensures
            cmd is Some <==> decoded_hex(cmd_str@) is Some,
            cmd is Some ==> cmd.unwrap()@ == decoded_hex(cmd_str@).unwrap(),
    {
        hex_decode(cmd_str)
    }
}

} // verus!
