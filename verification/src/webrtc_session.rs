//! Sessions over WebRTC data channels. The transport cannot negotiate or send
//! yet; it says so instead of handing out sessions that do nothing.

use vstd::prelude::*;
use crate::session::BuildError;
use crate::session::SendError;
use crate::session::Session;

verus! {

/// The longest message a WebRTC data channel of the transport takes: a DTLS
/// record of 16384 bytes less the 28 bytes that SCTP adds.
pub open spec fn webrtc_message_limit() -> nat {
    16356
}

/// Reads `webrtc_unreliable::MAX_MESSAGE_LEN`, which that crate defines as its
/// largest SCTP packet, 16384 bytes, less its SCTP message overhead of 28.
#[verifier::external_body]
fn max_message_len() -> (len: usize)
    ensures
        len == webrtc_message_limit(),
{
    webrtc_unreliable::MAX_MESSAGE_LEN
}

/// Negotiates a WebRTC session out of a connection attempt. It is used up by
/// the one attempt to build: after it there is a session or a failure.
#[derive(Debug)]
pub struct WebrtcSessionBuilder {}

/// A session over a WebRTC data channel.
#[derive(Debug, PartialEq, Eq)]
pub struct WebrtcSession {}

impl WebrtcSessionBuilder {
    pub fn new() -> (builder: Self)
        ensures
            builder == (WebrtcSessionBuilder {  }),
    {
        Self {  }
    }

    /// Ends the negotiation. `handle_incoming_data` is what would be called
    /// with each message from the peer; as no session comes of it, it is
    /// never called.
    pub fn build<H>(self, handle_incoming_data: H) -> (built: Result<Session, BuildError>)
        ensures
            built is Err,
            built->Err_0 == BuildError::NotImplemented,
    {
        Err(BuildError::NotImplemented)
    }
}

impl WebrtcSession {
    /// Refuses the packet: the transport cannot send yet.
    pub fn send_packet(&mut self, data: &[u8]) -> (sent: Result<(), SendError>)
        ensures
            sent == Err::<(), SendError>(SendError::NotImplemented),
            *final(self) == *old(self),
    {
        Err(SendError::NotImplemented)
    }

    /// The longest message the transport takes. In practice the limit is
    /// likely lower.
    pub fn max_packet_len(&self) -> (limit: usize)
        ensures
            limit == webrtc_message_limit(),
    {
        max_message_len()
    }
}

} // verus!
