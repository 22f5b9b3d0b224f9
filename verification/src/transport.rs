//! What the transport loop decides between its reads and writes.
//!
//! The loop itself, with its socket and its queues, is the caller's. A
//! datagram that is no message is dropped and counted; a datagram that did not
//! go out whole is counted; neither stops the loop.

use vstd::prelude::*;
use crate::messages::{ClientMessage, DecodeError, ServerMessage, ServerMessageView};

verus! {

/// A count that stops at the largest number instead of starting over.
pub open spec fn counted(before: u64) -> u64 {
    if before < u64::MAX {
        (before + 1) as u64
    } else {
        before
    }
}

/// Counters of what the transport loop dropped.
#[derive(Clone, Copy, Debug, PartialEq, Eq, Structural)]
pub struct LinkStats {
    /// Datagrams received that were no message.
    pub malformed: u64,
    /// Datagrams that failed to go out, or went out in part.
    pub unsent: u64,
}

impl LinkStats {
    /// Counters at zero.
    pub fn new() -> (stats: Self)
        ensures
            stats == (LinkStats { malformed: 0, unsent: 0 }),
    {
        LinkStats { malformed: 0, unsent: 0 }
    }

    /// The message of a datagram that arrived at the server, or none, and
    /// one more malformed datagram counted.
    pub fn receive_client_message(&mut self, payload: &[u8]) -> (message: Option<ClientMessage>)
        ensures
            final(self).unsent == old(self).unsent,
            match ClientMessage::parse(payload@) {
                Ok(m) => message == Some(m) && final(self).malformed == old(self).malformed,
                Err(_) => message is None && final(self).malformed == counted(old(self).malformed),
            },
    {
        match ClientMessage::decode(payload) {
            Ok(m) => Some(m),
            Err(_) => {
                self.malformed = self.malformed.saturating_add(1);
                None
            },
        }
    }

    /// The message of a datagram that arrived at a client, or none, and one
    /// more malformed datagram counted.
    pub fn receive_server_message(&mut self, payload: &[u8]) -> (message: Option<ServerMessage>)
        ensures
            final(self).unsent == old(self).unsent,
            match ServerMessageView::parse(payload@) {
                Ok(m) => message is Some && message.unwrap()@ == m
                    && final(self).malformed == old(self).malformed,
                Err(_) => message is None && final(self).malformed == counted(old(self).malformed),
            },
    {
        match ServerMessage::decode(payload) {
            Ok(m) => Some(m),
            Err(_) => {
                self.malformed = self.malformed.saturating_add(1);
                None
            },
        }
    }

    /// Takes note of how a send ended: `written` is the number of bytes that
    /// went out, or none when the send failed. The datagram is delivered when
    /// all `expected` bytes went out; otherwise it is counted as unsent.
    pub fn record_send(&mut self, expected: usize, written: Option<usize>) -> (delivered: bool)
        ensures
            delivered == (written == Some(expected)),
            final(self).malformed == old(self).malformed,
            final(self).unsent == (if delivered {
                old(self).unsent
            } else {
                counted(old(self).unsent)
            }),
    {
        let delivered: bool = match written {
            Some(count) => count == expected,
            None => false,
        };
        if !delivered {
            self.unsent = self.unsent.saturating_add(1);
        }
        delivered
    }
}

} // verus!
