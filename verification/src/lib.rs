//! The server side of the GDB remote serial protocol.
//!
//! A debugger drives a debug target through packets `$data#cs`. This
//! library decodes what was received, reads the command out of it,
//! builds the reply, and keeps the state of the session. It neither reads
//! from a connection nor runs a target: it is told what arrived and what
//! the target did, and says what to send and what to ask of the target.

pub mod binary;
pub mod checksum;
pub mod command;
pub mod dispatch;
pub mod frame;
pub mod hex;
pub mod laws;
pub mod packet;
pub mod reply;
pub mod session;
pub mod sim;
pub mod text;
pub mod watcher;
