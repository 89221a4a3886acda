//! The interrupt watcher's decision.
//!
//! While the target runs, a second reader peeks at what the peer has
//! sent without taking it. Only a lone interrupt byte is its business:
//! it takes that byte off the connection and raises the cancel signal.
//! Anything else is left for the session to read.

use crate::frame::INTERRUPT;
use vstd::prelude::*;

verus! {

/// What the watcher does about the bytes it has peeked at.
#[derive(Clone, Copy, Debug, PartialEq, Eq, Structural)]
pub enum WatchAction {
    /// Leave the bytes where they are.
    Ignore,
    /// Read one byte off the connection and raise the cancel signal.
    Interrupt,
}

/// Decides on the first `len` bytes of `peeked`: exactly one byte, and
/// that byte the interrupt, is an interrupt; nothing, more than one
/// byte, or any other byte is not.
pub fn watch(peeked: &[u8], len: usize) -> (action: WatchAction)
    requires
        len <= peeked.len(),
    ensures
        action == if len == 1 && peeked@[0] == INTERRUPT {
            WatchAction::Interrupt
        } else {
            WatchAction::Ignore
        },
{
    if len == 1 && peeked[0] == INTERRUPT {
        WatchAction::Interrupt
    } else {
        WatchAction::Ignore
    }
}

} // verus!
