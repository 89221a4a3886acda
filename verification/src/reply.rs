//! What the server answers: to a command on its own, or to a command and
//! what the debug target made of it.

use crate::command::{Command, CommandView, RequestView, StopSignal, TargetRequest};
use crate::frame::{console_payload, console_text, frame_text, framed_text};
use crate::hex::{as_text, hex_bytes, hex_encode, hex_pair, number_hex, push_hex_pair, push_number_hex};
use vstd::prelude::*;
use vstd::string::*;

verus! {

/// The error code of a garbled command.
pub const PROTOCOL_ERROR: u8 = 1;

/// Console message for the monitor command `reset init`.
pub const MSG_RESET_INIT: &'static str =
    " GDB-Server message : 'reset init' monitor command.\n + Any text message.\n";

/// Console message for the monitor command `reset halt`.
pub const MSG_RESET_HALT: &'static str =
    " GDB-Server message : 'reset halt' monitor command.\n + Any text message.\n";

/// Console message for any other monitor command: what stands before the
/// command.
pub const MSG_UNKNOWN_HEAD: &'static str = " GDB-Server message : Unknown monitor command '";

/// Console message for any other monitor command: what stands behind the
/// command.
pub const MSG_UNKNOWN_TAIL: &'static str = "'!\n";

/// Console message when the peer interrupted a running target.
pub const MSG_INTERRUPTED: &'static str = " GDB-Server message : Interrupted execution by ^C.\n";

/// Console message when a running target stopped by itself.
pub const MSG_BREAKPOINT: &'static str =
    " GDB-Server message : Halted due to breakpoint. (vCont, c-action)\n + Any text message.\n";

/// Console message after a single step.
pub const MSG_STEP: &'static str =
    " GDB-Server message : Halted due to step. (vCont, s-action)\n + Any text message.\n";

/// What the debug target made of a request.
#[derive(Debug, PartialEq, Eq)]
pub enum TargetOutcome {
    /// A write, or a change of matchpoints, went through.
    Done,
    /// A read gave these bytes.
    Bytes(Vec<u8>),
    /// The target failed, with this error code.
    Failed(u8),
    /// The target ran and stopped. `cancelled` tells whether the peer's
    /// interrupt was pending when it did.
    Stopped { cancelled: bool },
}

/// An outcome with its bytes as a sequence.
pub enum OutcomeView {
    Done,
    Bytes(Seq<u8>),
    Failed(u8),
    Stopped { cancelled: bool },
}

impl View for TargetOutcome {
    type V = OutcomeView;

    open spec fn view(&self) -> OutcomeView {
        match *self {
            TargetOutcome::Done => OutcomeView::Done,
            TargetOutcome::Bytes(bytes) => OutcomeView::Bytes(bytes@),
            TargetOutcome::Failed(code) => OutcomeView::Failed(code),
            TargetOutcome::Stopped { cancelled } => OutcomeView::Stopped { cancelled },
        }
    }
}

/// The frames to send for one packet, and what else follows from it.
#[derive(Debug, PartialEq, Eq)]
pub struct Reply {
    /// A console-output packet, sent ahead of the reply.
    pub output_text: Option<String>,
    /// The reply.
    pub responce: Option<String>,
    /// Whether anything is sent at all.
    pub need_responce: bool,
    /// The session ends once the reply is out.
    pub kill: bool,
    /// This reply is the last to carry an acknowledgment.
    pub no_ack: bool,
    /// The target stopped for this reason.
    pub stopped: Option<StopSignal>,
}

/// A reply with its texts as sequences.
pub struct ReplyView {
    pub output_text: Option<Seq<char>>,
    pub responce: Option<Seq<char>>,
    pub need_responce: bool,
    pub kill: bool,
    pub no_ack: bool,
    pub stopped: Option<StopSignal>,
}

/// A text that may be absent, as a sequence.
pub open spec fn text_of(s: Option<String>) -> Option<Seq<char>> {
    match s {
        Some(text) => Some(text@),
        None => None,
    }
}

/// A reply that may be absent, by its view.
pub open spec fn text_of_reply(r: Option<Reply>) -> Option<ReplyView> {
    match r {
        Some(reply) => Some(reply@),
        None => None,
    }
}

impl View for Reply {
    type V = ReplyView;

    open spec fn view(&self) -> ReplyView {
        ReplyView {
            output_text: text_of(self.output_text),
            responce: text_of(self.responce),
            need_responce: self.need_responce,
            kill: self.kill,
            no_ack: self.no_ack,
            stopped: self.stopped,
        }
    }
}

/// A text behind the `+` that acknowledges the packet it answers, where
/// `ack` is set.
pub open spec fn acked(ack: bool, text: Seq<char>) -> Seq<char> {
    if ack {
        seq!['+'] + text
    } else {
        text
    }
}

/// The reply that is one framed payload and nothing else.
pub open spec fn plain(payload: Seq<char>) -> ReplyView {
    ReplyView {
        output_text: None,
        responce: Some(framed_text(payload)),
        need_responce: true,
        kill: false,
        no_ack: false,
        stopped: None,
    }
}

/// No reply at all.
pub open spec fn silent() -> ReplyView {
    ReplyView {
        output_text: None,
        responce: None,
        need_responce: false,
        kill: false,
        no_ack: false,
        stopped: None,
    }
}

/// The payload of a stop reply: `T` and the signal in two digits.
pub open spec fn stop_payload(signal: StopSignal) -> Seq<char> {
    match signal {
        StopSignal::Interrupt => "T02"@,
        StopSignal::Trap => "T05"@,
    }
}

/// The payload of an error reply: `E` and the code in two digits.
pub open spec fn error_payload(code: u8) -> Seq<char> {
    seq!['E'] + as_text(hex_pair(code))
}

/// The payload that announces the server's features.
pub open spec fn supported_payload(packet_size: usize) -> Seq<char> {
    "PacketSize="@ + as_text(number_hex(packet_size as nat))
        + ";QStartNoAckMode+;vContSupported+"@
}

/// The console message for a monitor command.
pub open spec fn monitor_message(cmd: Seq<u8>) -> Seq<u8> {
    if cmd == "reset init".spec_bytes() {
        MSG_RESET_INIT.spec_bytes()
    } else if cmd == "reset halt".spec_bytes() {
        MSG_RESET_HALT.spec_bytes()
    } else {
        MSG_UNKNOWN_HEAD.spec_bytes() + cmd + MSG_UNKNOWN_TAIL.spec_bytes()
    }
}

/// A stop reply behind the console message that explains it.
pub open spec fn stop_reply(signal: StopSignal, msg: &str) -> ReplyView {
    ReplyView {
        output_text: Some(framed_text(console_payload(msg.spec_bytes()))),
        stopped: Some(signal),
        ..plain(stop_payload(signal))
    }
}

/// The reply to a command that needs nothing from the debug target.
/// `ack_mode` tells whether packets are still acknowledged, `last_stop`
/// why the target last stopped.
pub open spec fn immediate_reply(
    cmd: CommandView,
    ack_mode: bool,
    last_stop: StopSignal,
    packet_size: usize,
) -> ReplyView {
    match cmd {
        CommandView::StopReason => plain(stop_payload(last_stop)),
        CommandView::WriteProbe => plain("OK"@),
        CommandView::Supported => ReplyView {
            responce: Some(acked(ack_mode, framed_text(supported_payload(packet_size)))),
            ..plain(supported_payload(packet_size))
        },
        CommandView::ThreadList => plain("l"@),
        CommandView::CurrentThread => plain("QC0"@),
        CommandView::Attached => plain("0"@),
        CommandView::Symbol => plain("OK"@),
        CommandView::Offsets => plain("Text=0;Data=0;Bss=0"@),
        CommandView::Monitor { cmd } => ReplyView {
            output_text: Some(framed_text(console_payload(monitor_message(cmd)))),
            ..plain("OK"@)
        },
        CommandView::StartNoAck => ReplyView {
            responce: Some(acked(ack_mode, framed_text("OK"@))),
            no_ack: true,
            ..plain("OK"@)
        },
        CommandView::ContinueActions => plain("vCont;c;C;s;S"@),
        CommandView::Kill => ReplyView { kill: true, ..plain("OK"@) },
        CommandView::ExtendedMode => plain("OK"@),
        CommandView::Restart => silent(),
        CommandView::Unsupported => plain(Seq::<char>::empty()),
        CommandView::Malformed => plain(error_payload(PROTOCOL_ERROR)),
        CommandView::Target(_) => silent(),
    }
}

/// The reply to a request, given what the debug target made of it, or
/// `None` where that outcome cannot follow from that request.
pub open spec fn completed_reply(request: RequestView, outcome: OutcomeView) -> Option<ReplyView> {
    match outcome {
        OutcomeView::Failed(code) => Some(plain(error_payload(code))),
        OutcomeView::Bytes(bytes) => match request {
            RequestView::ReadRegisters => Some(plain(as_text(hex_bytes(bytes)))),
            RequestView::ReadRegister { .. } => Some(plain(as_text(hex_bytes(bytes)))),
            RequestView::ReadMemory { len, .. } => if bytes.len() == len {
                Some(plain(as_text(hex_bytes(bytes))))
            } else {
                None
            },
            _ => None,
        },
        OutcomeView::Done => match request {
            RequestView::WriteRegisters { .. } => Some(plain("OK"@)),
            RequestView::WriteRegister { .. } => Some(plain("OK"@)),
            RequestView::WriteMemory { .. } => Some(plain("OK"@)),
            RequestView::InsertMatchpoint { .. } => Some(plain("OK"@)),
            RequestView::RemoveMatchpoint { .. } => Some(plain("OK"@)),
            _ => None,
        },
        OutcomeView::Stopped { cancelled } => match request {
            RequestView::Continue => if cancelled {
                Some(stop_reply(StopSignal::Interrupt, MSG_INTERRUPTED))
            } else {
                Some(stop_reply(StopSignal::Trap, MSG_BREAKPOINT))
            },
            RequestView::Step => Some(stop_reply(StopSignal::Trap, MSG_STEP)),
            _ => None,
        },
    }
}

/// Whether two byte strings are the same.
pub fn bytes_equal(a: &[u8], b: &[u8]) -> (same: bool)
    ensures
        same == (a@ == b@),
{
    if a.len() != b.len() {
        return false;
    }
    let mut i: usize = 0;
    while i < a.len()
        invariant
            i <= a.len(),
            a.len() == b.len(),
            forall|k: int| 0 <= k < i ==> a@[k] == b@[k],
        decreases a.len() - i,
    {
        if a[i] != b[i] {
            return false;
        }
        i = i + 1;
    }
    assert(a@ =~= b@);
    true
}

/// The console message for a monitor command.
pub fn monitor_text(cmd: &[u8]) -> (msg: Vec<u8>)
    ensures
        msg@ == monitor_message(cmd@),
{
    let mut msg: Vec<u8> = Vec::new();
    if bytes_equal(cmd, "reset init".as_bytes()) {
        msg.extend_from_slice(MSG_RESET_INIT.as_bytes());
        assert(msg@ =~= MSG_RESET_INIT.spec_bytes());
    } else if bytes_equal(cmd, "reset halt".as_bytes()) {
        msg.extend_from_slice(MSG_RESET_HALT.as_bytes());
        assert(msg@ =~= MSG_RESET_HALT.spec_bytes());
    } else {
        msg.extend_from_slice(MSG_UNKNOWN_HEAD.as_bytes());
        msg.extend_from_slice(cmd);
        msg.extend_from_slice(MSG_UNKNOWN_TAIL.as_bytes());
        assert(msg@ =~= MSG_UNKNOWN_HEAD.spec_bytes() + cmd@ + MSG_UNKNOWN_TAIL.spec_bytes());
    }
    msg
}

/// Puts `+` in front of `text` where `ack` is set.
pub fn with_ack(ack: bool, text: String) -> (out: String)
    ensures
        out@ == acked(ack, text@),
{
    if ack {
        let mut out = String::from_str("+");
        out.append(text.as_str());
        proof {
            reveal_strlit("+");
            assert(out@ =~= seq!['+'] + text@);
        }
        out
    } else {
        text
    }
}

/// The reply that is one framed payload and nothing else.
pub fn plain_reply(payload: &str) -> (reply: Reply)
    ensures
        reply@ == plain(payload@),
{
    Reply {
        output_text: None,
        responce: Some(frame_text(payload)),
        need_responce: true,
        kill: false,
        no_ack: false,
        stopped: None,
    }
}

/// The reply that reports an error code.
pub fn error_reply(code: u8) -> (reply: Reply)
    ensures
        reply@ == plain(error_payload(code)),
{
    let mut payload = String::from_str("E");
    push_hex_pair(&mut payload, code);
    proof {
        reveal_strlit("E");
        assert(payload@ =~= error_payload(code));
    }
    plain_reply(payload.as_str())
}

/// The reply that carries bytes read from the target.
pub fn bytes_reply(bytes: &[u8]) -> (reply: Reply)
    ensures
        reply@ == plain(as_text(hex_bytes(bytes@))),
{
    let payload = hex_encode(bytes);
    plain_reply(payload.as_str())
}

/// A console-output packet for the message `msg`.
pub fn console_frame(msg: &[u8]) -> (framed: String)
    ensures
        framed@ == framed_text(console_payload(msg@)),
{
    let payload = console_text(msg);
    frame_text(payload.as_str())
}

/// A stop reply behind the console message that explains it.
pub fn stop_reply_with(signal: StopSignal, msg: &'static str) -> (reply: Reply)
    ensures
        reply@ == stop_reply(signal, msg),
{
    let payload = match signal {
        StopSignal::Interrupt => "T02",
        StopSignal::Trap => "T05",
    };
    Reply {
        output_text: Some(console_frame(msg.as_bytes())),
        responce: Some(frame_text(payload)),
        need_responce: true,
        kill: false,
        no_ack: false,
        stopped: Some(signal),
    }
}

/// The payload that announces the server's features.
pub fn supported_text(packet_size: usize) -> (payload: String)
    ensures
        payload@ == supported_payload(packet_size),
{
    let mut payload = String::from_str("PacketSize=");
    push_number_hex(&mut payload, packet_size);
    payload.append(";QStartNoAckMode+;vContSupported+");
    payload
}

/// Answers a command that needs nothing from the debug target.
/// `ack_mode` tells whether packets are still acknowledged, `last_stop`
/// why the target last stopped. A request to the target gets no reply
/// here.
pub fn reply_to(cmd: &Command, ack_mode: bool, last_stop: StopSignal, packet_size: usize) -> (reply:
    Reply)
    ensures
        reply@ == immediate_reply(cmd@, ack_mode, last_stop, packet_size),
{
    match cmd {
        Command::StopReason => {
            let payload = match last_stop {
                StopSignal::Interrupt => "T02",
                StopSignal::Trap => "T05",
            };
            plain_reply(payload)
        },
        Command::WriteProbe => plain_reply("OK"),
        Command::Supported => {
            let payload = supported_text(packet_size);
            let framed = frame_text(payload.as_str());
            Reply {
                output_text: None,
                responce: Some(with_ack(ack_mode, framed)),
                need_responce: true,
                kill: false,
                no_ack: false,
                stopped: None,
            }
        },
        Command::ThreadList => plain_reply("l"),
        Command::CurrentThread => plain_reply("QC0"),
        Command::Attached => plain_reply("0"),
        Command::Symbol => plain_reply("OK"),
        Command::Offsets => plain_reply("Text=0;Data=0;Bss=0"),
        Command::Monitor { cmd: monitor } => {
            let msg = monitor_text(monitor.as_slice());
            Reply {
                output_text: Some(console_frame(msg.as_slice())),
                responce: Some(frame_text("OK")),
                need_responce: true,
                kill: false,
                no_ack: false,
                stopped: None,
            }
        },
        Command::StartNoAck => Reply {
            output_text: None,
            responce: Some(with_ack(ack_mode, frame_text("OK"))),
            need_responce: true,
            kill: false,
            no_ack: true,
            stopped: None,
        },
        Command::ContinueActions => plain_reply("vCont;c;C;s;S"),
        Command::Kill => Reply {
            output_text: None,
            responce: Some(frame_text("OK")),
            need_responce: true,
            kill: true,
            no_ack: false,
            stopped: None,
        },
        Command::ExtendedMode => plain_reply("OK"),
        Command::Unsupported => {
            proof {
                reveal_strlit("");
                assert(""@ =~= Seq::<char>::empty());
            }
            plain_reply("")
        },
        Command::Malformed => error_reply(PROTOCOL_ERROR),
        _ => Reply {
            output_text: None,
            responce: None,
            need_responce: false,
            kill: false,
            no_ack: false,
            stopped: None,
        },
    }
}

/// Answers a request, given what the debug target made of it. `None`
/// where that outcome cannot follow from that request: a read that gave
/// no bytes, or not as many as were asked for; a write that gave bytes;
/// a stop where nothing ran.
pub fn reply_after(request: &TargetRequest, outcome: &TargetOutcome) -> (reply: Option<Reply>)
    ensures
        text_of_reply(reply) == completed_reply(request@, outcome@),
{
    match outcome {
        TargetOutcome::Failed(code) => Some(error_reply(*code)),
        TargetOutcome::Bytes(bytes) => match request {
            TargetRequest::ReadRegisters => Some(bytes_reply(bytes.as_slice())),
            TargetRequest::ReadRegister { .. } => Some(bytes_reply(bytes.as_slice())),
            TargetRequest::ReadMemory { len, .. } => {
                if bytes.len() as u64 == *len {
                    Some(bytes_reply(bytes.as_slice()))
                } else {
                    None
                }
            },
            _ => None,
        },
        TargetOutcome::Done => match request {
            TargetRequest::WriteRegisters { .. } => Some(plain_reply("OK")),
            TargetRequest::WriteRegister { .. } => Some(plain_reply("OK")),
            TargetRequest::WriteMemory { .. } => Some(plain_reply("OK")),
            TargetRequest::InsertMatchpoint { .. } => Some(plain_reply("OK")),
            TargetRequest::RemoveMatchpoint { .. } => Some(plain_reply("OK")),
            _ => None,
        },
        TargetOutcome::Stopped { cancelled } => match request {
            TargetRequest::Continue => {
                if *cancelled {
                    Some(stop_reply_with(StopSignal::Interrupt, MSG_INTERRUPTED))
                } else {
                    Some(stop_reply_with(StopSignal::Trap, MSG_BREAKPOINT))
                }
            },
            TargetRequest::Step => Some(stop_reply_with(StopSignal::Trap, MSG_STEP)),
            _ => None,
        },
    }
}

} // verus!
