//! The session: what the server remembers between packets, and how each
//! event moves it on.
//!
//! Reading from the peer, writing to it and running the debug target
//! happen elsewhere. The session is told what was received and what the
//! target made of a request, and says what to do next.

use crate::command::{
    binary_command, text_command, CommandView, RequestView, StopSignal, TargetRequest,
};
use crate::dispatch::{fits, SessionError};
use crate::frame::{frame_error, is_binary, payload_of, ACK, NAK};
use crate::packet::RspPacket;
use crate::reply::{
    completed_reply, immediate_reply, text_of, OutcomeView, ReplyView, TargetOutcome,
};
use vstd::prelude::*;
use vstd::string::*;

verus! {

/// What a session remembers.
pub struct SessionState {
    /// Packets are still acknowledged with `+` and `-`.
    pub ack_mode: bool,
    /// The reply sent last, kept for a peer that asks for it again.
    pub last_reply: Option<Seq<char>>,
    /// The peer asked to end the session.
    pub kill_pending: bool,
    /// The longest frame either side may send.
    pub packet_size: usize,
    /// Why the target last stopped.
    pub last_stop: StopSignal,
}

/// What the server does next.
pub enum ActionView {
    /// Nothing: wait for the peer.
    Nothing,
    /// Send this text.
    Send(Seq<char>),
    /// Have the debug target carry out this request.
    Ask(RequestView),
    /// Give the session up.
    Fatal(SessionError),
}

/// A session right after the peer connected.
pub open spec fn initial_state(packet_size: usize) -> SessionState {
    SessionState {
        ack_mode: true,
        last_reply: None,
        kill_pending: false,
        packet_size,
        last_stop: StopSignal::Interrupt,
    }
}

/// The command that a well-formed frame holds.
pub open spec fn packet_command(buf: Seq<u8>) -> CommandView {
    if is_binary(payload_of(buf)) {
        binary_command(buf)
    } else {
        text_command(payload_of(buf))
    }
}

/// The session once `reply` has been sent. Acknowledgments, once off,
/// stay off; a kill, once asked for, stays pending.
pub open spec fn after_reply(s: SessionState, reply: ReplyView) -> SessionState {
    SessionState {
        ack_mode: s.ack_mode && !reply.no_ack,
        last_reply: if reply.need_responce {
            reply.responce
        } else {
            s.last_reply
        },
        kill_pending: s.kill_pending || reply.kill,
        packet_size: s.packet_size,
        last_stop: match reply.stopped {
            Some(signal) => signal,
            None => s.last_stop,
        },
    }
}

/// What is sent for `reply`: the console output, then the reply itself.
pub open spec fn sending(reply: ReplyView) -> ActionView {
    if reply.need_responce {
        ActionView::Send(
            match reply.output_text {
                Some(t) => t,
                None => Seq::<char>::empty(),
            } + match reply.responce {
                Some(t) => t,
                None => Seq::<char>::empty(),
            },
        )
    } else {
        ActionView::Nothing
    }
}

/// The answer to a lone control byte. While packets are acknowledged,
/// `-` has the last reply sent again, if there is one, and any other
/// byte is answered with `+`. Afterwards control bytes are ignored.
pub open spec fn control_action(s: SessionState, b: u8) -> ActionView {
    if !s.ack_mode {
        ActionView::Nothing
    } else if b == NAK {
        match s.last_reply {
            Some(text) => ActionView::Send(text),
            None => ActionView::Nothing,
        }
    } else {
        ActionView::Send(seq!['+'])
    }
}

/// The session and the next action once `reply`, built under the limit
/// `packet_size`, is to go out.
pub open spec fn replying(s: SessionState, reply: ReplyView, packet_size: usize) -> (
    SessionState,
    ActionView,
) {
    if fits(reply, packet_size) {
        (after_reply(s, reply), sending(reply))
    } else {
        (s, ActionView::Fatal(SessionError::ReplyTooLong))
    }
}

/// The session and the next action after `buf` was received.
///
/// Nothing received is an idle tick. One byte is a control byte. Anything
/// longer must be a well-formed frame: if it is not, it is refused with
/// `-` while packets are acknowledged, and ends the session afterwards.
/// A command for the debug target is handed on; any other is answered.
pub open spec fn on_bytes(s: SessionState, buf: Seq<u8>) -> (SessionState, ActionView) {
    if buf.len() == 0 {
        (s, ActionView::Nothing)
    } else if buf.len() == 1 {
        (s, control_action(s, buf[0]))
    } else {
        match frame_error(buf, s.packet_size as int) {
            Some(e) => if s.ack_mode {
                (s, ActionView::Send(seq!['-']))
            } else {
                (s, ActionView::Fatal(SessionError::Framing(e)))
            },
            None => match packet_command(buf) {
                CommandView::Target(request) => (s, ActionView::Ask(request)),
                cmd => replying(
                    s,
                    immediate_reply(cmd, s.ack_mode, s.last_stop, s.packet_size),
                    s.packet_size,
                ),
            },
        }
    }
}

/// The session and the next action after the debug target made
/// `outcome` of `request`, for a packet whose replies are limited to
/// `packet_size` bytes.
pub open spec fn on_outcome(
    s: SessionState,
    packet_size: usize,
    request: RequestView,
    outcome: OutcomeView,
) -> (SessionState, ActionView) {
    match completed_reply(request, outcome) {
        Some(reply) => replying(s, reply, packet_size),
        None => (s, ActionView::Fatal(SessionError::UnexpectedOutcome)),
    }
}

/// What a packet's reply is, read off the packet.
pub open spec fn reply_in(pkt: RspPacket) -> ReplyView {
    ReplyView {
        output_text: text_of(pkt.output_text),
        responce: text_of(pkt.responce),
        need_responce: pkt.need_responce == Some(true),
        kill: pkt.kill_flag == Some(true),
        no_ack: pkt.no_ack_flag == Some(true),
        stopped: pkt.stopped,
    }
}

/// What the server does next.
#[derive(Debug)]
pub enum Action<'a> {
    /// Nothing: wait for the peer.
    Nothing,
    /// Send this text.
    Send(String),
    /// Have the debug target carry out the request, then call `resume`
    /// with the packet, the request and the outcome.
    Ask(RspPacket<'a>, TargetRequest),
}

/// The state of one connection.
#[derive(Debug)]
pub struct Session {
    ack_mode: bool,
    last_reply: Option<String>,
    kill_pending: bool,
    packet_size: usize,
    last_stop: StopSignal,
}

impl View for Session {
    type V = SessionState;

    closed spec fn view(&self) -> SessionState {
        SessionState {
            ack_mode: self.ack_mode,
            last_reply: text_of(self.last_reply),
            kill_pending: self.kill_pending,
            packet_size: self.packet_size,
            last_stop: self.last_stop,
        }
    }
}

impl Session {
    /// A session for a peer that has just connected: packets are
    /// acknowledged, nothing has been sent, and the target counts as
    /// stopped by an interrupt.
    pub fn new(packet_size: usize) -> (s: Session)
        ensures
            s@ == initial_state(packet_size),
    {
        Session {
            ack_mode: true,
            last_reply: None,
            kill_pending: false,
            packet_size,
            last_stop: StopSignal::Interrupt,
        }
    }

    /// Whether packets are still acknowledged.
    pub fn ack_mode(&self) -> (b: bool)
        ensures
            b == self@.ack_mode,
    {
        self.ack_mode
    }

    /// Whether the peer asked to end the session.
    pub fn kill_pending(&self) -> (b: bool)
        ensures
            b == self@.kill_pending,
    {
        self.kill_pending
    }

    /// The longest frame either side may send.
    pub fn packet_size(&self) -> (n: usize)
        ensures
            n == self@.packet_size,
    {
        self.packet_size
    }

    /// Why the target last stopped.
    pub fn last_stop(&self) -> (signal: StopSignal)
        ensures
            signal == self@.last_stop,
    {
        self.last_stop
    }

    /// The reply sent last.
    pub fn last_reply(&self) -> (reply: &Option<String>)
        ensures
            text_of(*reply) == self@.last_reply,
    {
        &self.last_reply
    }

    /// Takes note that the reply in `pkt` is going out, and gives the
    /// text to send: the console output first, then the reply.
    pub fn complete(&mut self, pkt: &RspPacket) -> (out: String)
        ensures
            final(self)@ == after_reply(old(self)@, reply_in(*pkt)),
            out@ == pkt.outgoing(),
            !old(self)@.ack_mode ==> !final(self)@.ack_mode,
    {
        if let Some(true) = pkt.no_ack_flag {
            self.ack_mode = false;
        }
        if let Some(true) = pkt.kill_flag {
            self.kill_pending = true;
        }
        if let Some(signal) = pkt.stopped {
            self.last_stop = signal;
        }
        if let Some(true) = pkt.need_responce {
            self.last_reply = pkt.responce.clone();
        }
        pkt.wire_text()
    }
}

/// The result `r` is the action `action`.
pub open spec fn shows(r: Result<Action<'_>, SessionError>, action: ActionView) -> bool {
    match action {
        ActionView::Nothing => r is Ok && r->Ok_0 is Nothing,
        ActionView::Send(text) => r is Ok && r->Ok_0 is Send && r->Ok_0->Send_0@ == text,
        ActionView::Ask(request) => r is Ok && r->Ok_0 is Ask && r->Ok_0->Ask_1@ == request,
        ActionView::Fatal(e) => r is Err && r->Err_0 == e,
    }
}

impl Session {
    /// Takes the first `input_len` bytes of `input_buf`, which were
    /// received from the peer, and says what to do next.
    ///
    /// Where the action is to ask the debug target, the packet handed
    /// back is the one received, not yet answered, and the session is as
    /// it was; it moves on in `resume`. A control byte, whatever is sent
    /// back for it, leaves the session as it was. Acknowledgments, once
    /// off, are never turned on again.
    pub fn handle<'a>(&mut self, input_buf: &'a [u8], input_len: usize) -> (r: Result<
        Action<'a>,
        SessionError,
    >)
        requires
            input_len <= input_buf.len(),
        ensures
            final(self)@ == on_bytes(old(self)@, input_buf@.take(input_len as int)).0,
            shows(r, on_bytes(old(self)@, input_buf@.take(input_len as int)).1),
            input_len <= 1 ==> final(self)@ == old(self)@,
            !old(self)@.ack_mode ==> !final(self)@.ack_mode,
            r is Ok && r->Ok_0 is Ask ==> {
                let pkt = r->Ok_0->Ask_0;
                &&& pkt.decodes(input_buf@.take(input_len as int))
                &&& pkt.unanswered()
                &&& pkt.wf()
                &&& pkt.packet_size == old(self)@.packet_size
            },
    {
        let ghost got = input_buf@.take(input_len as int);
        let mut pkt = match RspPacket::parse(input_buf, input_len, self.packet_size) {
            Ok(pkt) => pkt,
            Err(e) => {
                if self.ack_mode {
                    proof {
                        reveal_strlit("-");
                        assert("-"@ =~= seq!['-']);
                    }
                    return Ok(Action::Send(String::from_str("-")));
                } else {
                    return Err(SessionError::Framing(e));
                }
            },
        };
        if input_len == 0 {
            return Ok(Action::Nothing);
        }
        if input_len == 1 {
            assert(got[0] == input_buf@[0]);
            if !self.ack_mode {
                return Ok(Action::Nothing);
            }
            if input_buf[0] == NAK {
                return match &self.last_reply {
                    Some(text) => Ok(Action::Send(text.clone())),
                    None => Ok(Action::Nothing),
                };
            }
            proof {
                reveal_strlit("+");
                assert("+"@ =~= seq!['+']);
            }
            return Ok(Action::Send(String::from_str("+")));
        }
        assert(pkt.command_spec() == packet_command(got));
        match pkt.match_cmd(self.ack_mode, self.last_stop) {
            Err(e) => Err(e),
            Ok(Some(request)) => Ok(Action::Ask(pkt, request)),
            Ok(None) => {
                let out = self.complete(&pkt);
                match pkt.need_responce {
                    Some(true) => Ok(Action::Send(out)),
                    _ => Ok(Action::Nothing),
                }
            },
        }
    }

    /// Takes what the debug target made of `request`, which `handle`
    /// handed out together with `pkt`, and says what to do next.
    pub fn resume<'a>(
        &mut self,
        pkt: RspPacket<'a>,
        request: &TargetRequest,
        outcome: &TargetOutcome,
    ) -> (r: Result<Action<'a>, SessionError>)
        ensures
            final(self)@ == on_outcome(old(self)@, pkt.packet_size, request@, outcome@).0,
            shows(r, on_outcome(old(self)@, pkt.packet_size, request@, outcome@).1),
            !old(self)@.ack_mode ==> !final(self)@.ack_mode,
    {
        let mut pkt = pkt;
        match pkt.finish_cmd(request, outcome) {
            Err(e) => Err(e),
            Ok(()) => {
                let out = self.complete(&pkt);
                match pkt.need_responce {
                    Some(true) => Ok(Action::Send(out)),
                    _ => Ok(Action::Nothing),
                }
            },
        }
    }
}

/// Answering a lone `+` leaves the session as it was: `+` goes back
/// while packets are acknowledged, nothing afterwards.
pub proof fn lemma_ack_changes_nothing(s: SessionState)
    ensures
        on_bytes(s, seq![ACK]).0 == s,
        on_bytes(s, seq![ACK]).1 == if s.ack_mode {
            ActionView::Send(seq!['+'])
        } else {
            ActionView::Nothing
        },
{
}

/// What a session is told: bytes from the peer, or what the debug target
/// made of a request.
pub enum Event {
    /// These bytes were received.
    Received(Seq<u8>),
    /// The target made `outcome` of `request`, for a packet whose replies
    /// are limited to `packet_size` bytes.
    Completed { packet_size: usize, request: RequestView, outcome: OutcomeView },
}

/// The session after one event.
pub open spec fn after_event(s: SessionState, event: Event) -> SessionState {
    match event {
        Event::Received(buf) => on_bytes(s, buf).0,
        Event::Completed { packet_size, request, outcome } => on_outcome(
            s,
            packet_size,
            request,
            outcome,
        ).0,
    }
}

/// The session after a run of events.
pub open spec fn after_events(s: SessionState, events: Seq<Event>) -> SessionState
    decreases events.len(),
{
    if events.len() == 0 {
        s
    } else {
        after_event(after_events(s, events.drop_last()), events.last())
    }
}

/// No event turns acknowledgments back on, takes a pending kill back,
/// or changes the packet size.
pub proof fn lemma_event_keeps_mode(s: SessionState, event: Event)
    ensures
        !s.ack_mode ==> !after_event(s, event).ack_mode,
        s.kill_pending ==> after_event(s, event).kill_pending,
        after_event(s, event).packet_size == s.packet_size,
{
}

/// Once acknowledgments are off they stay off, whatever the session is
/// told from then on.
pub proof fn lemma_no_ack_is_final(s: SessionState, events: Seq<Event>)
    requires
        !s.ack_mode,
    ensures
        !after_events(s, events).ack_mode,
    decreases events.len(),
{
    if events.len() > 0 {
        lemma_no_ack_is_final(s, events.drop_last());
        lemma_event_keeps_mode(after_events(s, events.drop_last()), events.last());
    }
}

} // verus!
