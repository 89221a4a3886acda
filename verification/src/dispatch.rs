//! The dispatcher: from a packet to its reply, by way of the debug target
//! where the command needs it.
//!
//! The target is not called from here. `match_cmd` answers what it can
//! and hands back a request for the rest; `finish_cmd` takes what the
//! target made of the request and builds the reply.

use crate::command::{CommandView, StopSignal, TargetRequest};
use crate::frame::FrameError;
use crate::packet::RspPacket;
use crate::reply::{
    completed_reply, immediate_reply, reply_after, reply_to, text_of, Reply, ReplyView,
    TargetOutcome,
};
use crate::text::{lemma_wire_concat, wire};
use vstd::prelude::*;
use vstd::string::*;

verus! {

/// What ends a session before the peer does.
#[derive(Clone, Copy, Debug, PartialEq, Eq, Structural)]
pub enum SessionError {
    /// A reply would be longer than the packet size allows.
    ReplyTooLong,
    /// The debug target answered a request with an outcome that cannot
    /// follow from it.
    UnexpectedOutcome,
    /// The peer sent a malformed frame while frames were no longer
    /// acknowledged.
    Framing(FrameError),
}

/// How many bytes a text occupies on the wire; none if it is absent.
pub open spec fn wire_len(text: Option<Seq<char>>) -> nat {
    match text {
        Some(t) => wire(t).len(),
        None => 0,
    }
}

/// Neither frame of the reply is longer than the packet size.
pub open spec fn fits(reply: ReplyView, packet_size: usize) -> bool {
    wire_len(reply.output_text) <= packet_size && wire_len(reply.responce) <= packet_size
}

/// A text that may be absent; nothing in its place.
pub open spec fn text_or_empty(text: Option<String>) -> Seq<char> {
    match text {
        Some(t) => t@,
        None => Seq::<char>::empty(),
    }
}

impl<'a> RspPacket<'a> {
    /// The packet is `before` with `reply` stored in it.
    pub open spec fn carries(&self, before: RspPacket<'a>, reply: ReplyView) -> bool {
        &&& text_of(self.responce) == reply.responce
        &&& text_of(self.output_text) == reply.output_text
        &&& self.need_responce == Some(reply.need_responce)
        &&& self.kill_flag == Some(reply.kill)
        &&& self.no_ack_flag == Some(reply.no_ack)
        &&& self.stopped == reply.stopped
        &&& *self == (RspPacket {
            responce: self.responce,
            output_text: self.output_text,
            need_responce: self.need_responce,
            kill_flag: self.kill_flag,
            no_ack_flag: self.no_ack_flag,
            stopped: self.stopped,
            ..before
        })
    }

    /// What goes out for this packet, in the order in which it goes out:
    /// the console output, then the reply. Nothing where no reply is
    /// needed.
    pub open spec fn outgoing(&self) -> Seq<char> {
        if self.need_responce == Some(true) {
            text_or_empty(self.output_text) + text_or_empty(self.responce)
        } else {
            Seq::<char>::empty()
        }
    }

    /// Stores a reply in the packet, unless one of its frames is longer
    /// than the packet size.
    pub fn store(&mut self, reply: Reply) -> (r: Result<(), SessionError>)
        ensures
            fits(reply@, old(self).packet_size) ==> r is Ok && final(self).carries(
                *old(self),
                reply@,
            ),
            !fits(reply@, old(self).packet_size) ==> r == Err::<(), SessionError>(
                SessionError::ReplyTooLong,
            ) && *final(self) == *old(self),
            old(self).wf() ==> final(self).wf(),
    {
        let output_len = match &reply.output_text {
            Some(text) => text.as_str().as_bytes().len(),
            None => 0,
        };
        let responce_len = match &reply.responce {
            Some(text) => text.as_str().as_bytes().len(),
            None => 0,
        };
        if output_len > self.packet_size || responce_len > self.packet_size {
            return Err(SessionError::ReplyTooLong);
        }
        self.output_text = reply.output_text;
        self.responce = reply.responce;
        self.need_responce = Some(reply.need_responce);
        self.kill_flag = Some(reply.kill);
        self.no_ack_flag = Some(reply.no_ack);
        self.stopped = reply.stopped;
        Ok(())
    }

    /// Answers the packet's command. A command for the debug target is
    /// handed back as a request, and the packet stays as it is until
    /// `finish_cmd`. Any other command is answered at once: the reply is
    /// stored in the packet, unless it is longer than the packet size.
    /// `ack_mode` tells whether packets are still acknowledged,
    /// `last_stop` why the target last stopped.
    pub fn match_cmd(&mut self, ack_mode: bool, last_stop: StopSignal) -> (r: Result<
        Option<TargetRequest>,
        SessionError,
    >)
        requires
            old(self).wf(),
            old(self).only_symb == Some(false),
        ensures
            final(self).wf(),
            match old(self).command_spec() {
                CommandView::Target(request) => {
                    &&& r is Ok
                    &&& r->Ok_0 is Some
                    &&& r->Ok_0.unwrap()@ == request
                    &&& *final(self) == *old(self)
                },
                cmd => {
                    let reply = immediate_reply(cmd, ack_mode, last_stop, old(self).packet_size);
                    if fits(reply, old(self).packet_size) {
                        r == Ok::<Option<TargetRequest>, SessionError>(None) && final(self).carries(*old(self), reply)
                    } else {
                        r == Err::<Option<TargetRequest>, SessionError>(
                            SessionError::ReplyTooLong,
                        ) && *final(self) == *old(self)
                    }
                },
            },
    {
        let cmd = self.command();
        match cmd {
            crate::command::Command::Target(request) => Ok(Some(request)),
            other => {
                let reply = reply_to(&other, ack_mode, last_stop, self.packet_size);
                match self.store(reply) {
                    Ok(()) => Ok(None),
                    Err(e) => Err(e),
                }
            },
        }
    }

    /// Builds the reply to a request from what the debug target made of
    /// it, and stores it in the packet. Fails, and leaves the packet as
    /// it is, where the outcome cannot follow from the request or the
    /// reply is longer than the packet size.
    pub fn finish_cmd(&mut self, request: &TargetRequest, outcome: &TargetOutcome) -> (r: Result<
        (),
        SessionError,
    >)
        ensures
            old(self).wf() ==> final(self).wf(),
            match completed_reply(request@, outcome@) {
                None => r == Err::<(), SessionError>(SessionError::UnexpectedOutcome) && *final(self) == *old(self),
                Some(reply) => if fits(reply, old(self).packet_size) {
                    r is Ok && final(self).carries(*old(self), reply)
                } else {
                    r == Err::<(), SessionError>(SessionError::ReplyTooLong) && *final(self)
                        == *old(self)
                },
            },
    {
        match reply_after(request, outcome) {
            Some(reply) => self.store(reply),
            None => Err(SessionError::UnexpectedOutcome),
        }
    }

    /// The text to send for this packet: the console output first, then
    /// the reply.
    pub fn wire_text(&self) -> (out: String)
        ensures
            out@ == self.outgoing(),
    {
        let mut out = String::new();
        if let Some(true) = self.need_responce {
            if let Some(text) = &self.output_text {
                out.append(text.as_str());
            }
            if let Some(text) = &self.responce {
                out.append(text.as_str());
            }
        }
        assert(out@ =~= self.outgoing());
        out
    }
}

/// On the wire the console output comes first: the bytes that go out
/// for a packet are those of its console output followed by those of
/// its reply.
pub proof fn lemma_output_precedes_reply(pkt: RspPacket)
    requires
        pkt.need_responce == Some(true),
    ensures
        wire(pkt.outgoing()) == wire(text_or_empty(pkt.output_text)) + wire(
            text_or_empty(pkt.responce),
        ),
{
    lemma_wire_concat(text_or_empty(pkt.output_text), text_or_empty(pkt.responce));
}

} // verus!
