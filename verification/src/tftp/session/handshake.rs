//! The option acknowledgement handshake of a read request: after sending an
//! OACK the server waits for ACK(0) from the client.

use vstd::prelude::*;

use crate::tftp::protocol::packet::{Packet, ParseError};

verus! {

/// What a reply to the OACK does to the handshake.
#[derive(Debug, Clone, PartialEq, Eq)]
pub enum HandshakeStep {
    /// ACK(0): the transfer can start.
    Done,
    /// The client answered with an ERROR packet carrying this message.
    ClientError(String),
    /// Anything else: ignored.
    Continue,
    /// Too many packets that were not an answer: abort.
    TooManyInvalid,
}

/// Counters of the handshake.
pub struct OackHandshake {
    pub max_retries: u32,
    /// How many invalid packets are tolerated: ten per allowed retry.
    pub max_invalid: u32,
    pub retries: u32,
    pub invalid_packets: u32,
}

impl OackHandshake {
    pub open spec fn wf(&self) -> bool {
        &&& self.retries <= self.max_retries
        &&& self.invalid_packets <= self.max_invalid
    }

    pub fn new(max_retries: u32) -> (r: Self)
        ensures
            r.wf(),
            r.max_retries == max_retries,
            r.max_invalid == if max_retries * 10 <= u32::MAX {
                (max_retries * 10) as u32
            } else {
                u32::MAX
            },
            r.retries == 0,
            r.invalid_packets == 0,
    {
        let max_invalid = match max_retries.checked_mul(10) {
            Some(m) => m,
            None => u32::MAX,
        };
        OackHandshake { max_retries, max_invalid, retries: 0, invalid_packets: 0 }
    }

    /// A datagram from the client arrived and was decoded into `reply`.
    pub fn on_reply(&mut self, reply: &Result<Packet, ParseError>) -> (r: HandshakeStep)
        requires
            old(self).wf(),
        ensures
            final(self).wf(),
            final(self).max_retries == old(self).max_retries,
            final(self).max_invalid == old(self).max_invalid,
            final(self).retries == old(self).retries,
            match reply {
                Ok(Packet::Ack { block }) if *block == 0 => r == HandshakeStep::Done
                    && final(self).invalid_packets == old(self).invalid_packets,
                Ok(Packet::Error { message, .. }) => (r matches HandshakeStep::ClientError(m)
                    && m@ == message@) && final(self).invalid_packets
                    == old(self).invalid_packets,
                _ => if old(self).invalid_packets >= old(self).max_invalid {
                    r == HandshakeStep::TooManyInvalid && final(self).invalid_packets
                        == old(self).invalid_packets
                } else {
                    r == HandshakeStep::Continue && final(self).invalid_packets
                        == old(self).invalid_packets + 1
                },
            },
    {
        match reply {
            Ok(Packet::Ack { block }) if *block == 0 => HandshakeStep::Done,
            Ok(Packet::Error { message, .. }) => HandshakeStep::ClientError(message.clone()),
            _ => {
                if self.invalid_packets >= self.max_invalid {
                    HandshakeStep::TooManyInvalid
                } else {
                    self.invalid_packets = self.invalid_packets + 1;
                    HandshakeStep::Continue
                }
            },
        }
    }

    /// No reply in time: `true` (give up) once the OACK has been re-sent
    /// `max_retries` times; otherwise count the retry and return `false`
    /// (re-send the OACK).
    pub fn on_timeout(&mut self) -> (give_up: bool)
        requires
            old(self).wf(),
        ensures
            final(self).wf(),
            give_up == (old(self).retries >= old(self).max_retries),
            final(self).max_retries == old(self).max_retries,
            final(self).max_invalid == old(self).max_invalid,
            final(self).invalid_packets == old(self).invalid_packets,
            final(self).retries == if give_up {
                old(self).retries
            } else {
                (old(self).retries + 1) as u32
            },
    {
        if self.retries >= self.max_retries {
            true
        } else {
            self.retries = self.retries + 1;
            false
        }
    }
}

} // verus!
