//! Sessions: one duplex channel to one remote endpoint, whatever carries it.
//!
//! A session does not touch the wire. What is sent is queued on it; the
//! transport layer takes the queue and transmits.

use vstd::prelude::*;
use vstd::slice::*;
use vstd::string::*;
use crate::webrtc_session::WebrtcSession;
use crate::webrtc_session::webrtc_message_limit;

verus! {

/// Why a packet was not taken for sending.
#[derive(Clone, Copy, Debug, PartialEq, Eq, Structural)]
pub enum SendError {
    /// The session is closed.
    Closed,
    /// The packet is longer than the session's transport allows.
    TooLarge,
    /// The session's transport cannot send yet.
    NotImplemented,
}

/// Why no session was built.
#[derive(Clone, Copy, Debug, PartialEq, Eq, Structural)]
pub enum BuildError {
    /// The transport cannot negotiate sessions yet. This does not pass with
    /// time: the capability is missing.
    NotImplemented,
}

/// What carries a session.
#[derive(Clone, Copy, Debug, PartialEq, Eq, Structural)]
pub enum TransportKind {
    /// A stream that delivers everything, in order.
    ReliableStream,
    /// Datagrams that may be lost or overtaken.
    UnreliableDatagram,
}

/// A session over a reliable stream.
#[derive(Debug, PartialEq, Eq)]
pub struct StreamSession {
    open: bool,
    limit: usize,
    outbound: Vec<Vec<u8>>,
}

/// A session to one remote endpoint, over one of the transports.
#[derive(Debug, PartialEq, Eq)]
pub enum Session {
    Stream(StreamSession),
    Webrtc(WebrtcSession),
}

/// A session as plain values.
pub struct SessionView {
    pub kind: TransportKind,
    pub open: bool,
    /// The longest packet the transport takes.
    pub limit: nat,
    /// The packets taken for sending and not yet handed to the transport.
    pub queued: Seq<Seq<u8>>,
}

impl SessionView {
    /// Whether a packet of the given length is taken, and why not.
    pub open spec fn send_outcome(self, length: nat) -> Result<(), SendError> {
        if self.kind == TransportKind::UnreliableDatagram {
            Err(SendError::NotImplemented)
        } else if !self.open {
            Err(SendError::Closed)
        } else if length > self.limit {
            Err(SendError::TooLarge)
        } else {
            Ok(())
        }
    }

    /// The session once it is closed. A transport that cannot be closed stays
    /// as it is.
    pub open spec fn closed(self) -> SessionView {
        if self.kind == TransportKind::ReliableStream {
            SessionView { open: false, ..self }
        } else {
            self
        }
    }

    /// The session after it was asked to send `packet`: the packet is queued
    /// last if it is taken, and nothing changes if it is not.
    pub open spec fn after_send(self, packet: Seq<u8>) -> SessionView {
        if self.send_outcome(packet.len()) is Ok {
            SessionView { queued: self.queued.push(packet), ..self }
        } else {
            self
        }
    }
}

/// The packets of a queue as plain values.
pub open spec fn packets_of(queue: Seq<Vec<u8>>) -> Seq<Seq<u8>> {
    Seq::new(queue.len(), |i: int| queue[i]@)
}

impl View for StreamSession {
    type V = SessionView;

    closed spec fn view(&self) -> SessionView {
        SessionView {
            kind: TransportKind::ReliableStream,
            open: self.open,
            limit: self.limit as nat,
            queued: packets_of(self.outbound@),
        }
    }
}

impl View for Session {
    type V = SessionView;

    open spec fn view(&self) -> SessionView {
        match self {
            Session::Stream(stream) => stream@,
            Session::Webrtc(_) => SessionView {
                kind: TransportKind::UnreliableDatagram,
                open: true,
                limit: webrtc_message_limit(),
                queued: Seq::empty(),
            },
        }
    }
}

impl SendError {
    /// The error in words.
    pub open spec fn text(self) -> Seq<char> {
        match self {
            SendError::Closed => "session is closed"@,
            SendError::TooLarge => "packet exceeds the maximum length of the session"@,
            SendError::NotImplemented => "WebrtcSession::send() not implemented"@,
        }
    }

    /// The error in words.
    pub fn message(&self) -> (message: String)
        ensures
            message@ == self.text(),
    {
        match self {
            SendError::Closed => String::from_str("session is closed"),
            SendError::TooLarge => String::from_str(
                "packet exceeds the maximum length of the session",
            ),
            SendError::NotImplemented => String::from_str("WebrtcSession::send() not implemented"),
        }
    }
}

impl BuildError {
    /// The error in words.
    pub open spec fn text(self) -> Seq<char> {
        "WebrtcSessionBuilder::build() not implemented"@
    }

    /// The error in words.
    pub fn message(&self) -> (message: String)
        ensures
            message@ == self.text(),
    {
        String::from_str("WebrtcSessionBuilder::build() not implemented")
    }
}

impl StreamSession {
    /// An open session over a reliable stream that takes packets of up to
    /// `max_packet_len` bytes.
    pub fn new(max_packet_len: usize) -> (session: StreamSession)
        ensures
            session@ == (SessionView {
                kind: TransportKind::ReliableStream,
                open: true,
                limit: max_packet_len as nat,
                queued: Seq::empty(),
            }),
    {
        let session = StreamSession { open: true, limit: max_packet_len, outbound: Vec::new() };
        assert(session@.queued =~= Seq::empty());
        session
    }

    /// Queues one packet for sending.
    pub fn send_packet(&mut self, data: &[u8]) -> (sent: Result<(), SendError>)
        ensures
            sent == old(self)@.send_outcome(data@.len()),
            final(self)@ == old(self)@.after_send(data@),
    {
        if !self.open {
            Err(SendError::Closed)
        } else if data.len() > self.limit {
            Err(SendError::TooLarge)
        } else {
            let packet = slice_to_vec(data);
            self.outbound.push(packet);
            assert(final(self)@.queued =~= old(self)@.queued.push(data@));
            Ok(())
        }
    }

    /// The longest packet the session takes.
    pub fn max_packet_len(&self) -> (limit: usize)
        ensures
            limit == self@.limit,
    {
        self.limit
    }

    /// Whether the session is open.
    pub fn is_open(&self) -> (open: bool)
        ensures
            open == self@.open,
    {
        self.open
    }

    /// Closes the session. What is queued stays queued.
    pub fn close(&mut self)
        ensures
            final(self)@ == (SessionView { open: false, ..old(self)@ }),
    {
        self.open = false;
    }

    /// Hands over the packets that wait for the transport, and empties the
    /// queue.
    pub fn take_outbound(&mut self) -> (packets: Vec<Vec<u8>>)
        ensures
            packets_of(packets@) == old(self)@.queued,
            final(self)@ == (SessionView { queued: Seq::empty(), ..old(self)@ }),
    {
        let mut packets: Vec<Vec<u8>> = Vec::new();
        packets.append(&mut self.outbound);
        assert(packets@ =~= old(self).outbound@);
        assert(final(self)@.queued =~= Seq::empty());
        packets
    }
}

impl Session {
    /// An open session over a reliable stream that takes packets of up to
    /// `max_packet_len` bytes.
    pub fn reliable_stream(max_packet_len: usize) -> (session: Session)
        ensures
            session@ == (SessionView {
                kind: TransportKind::ReliableStream,
                open: true,
                limit: max_packet_len as nat,
                queued: Seq::empty(),
            }),
    {
        Session::Stream(StreamSession::new(max_packet_len))
    }

    /// What carries the session.
    pub fn kind(&self) -> (kind: TransportKind)
        ensures
            kind == self@.kind,
    {
        match self {
            Session::Stream(_) => {
                TransportKind::ReliableStream
            },
            Session::Webrtc(_) => TransportKind::UnreliableDatagram,
        }
    }

    /// Queues one packet for sending: refused on a transport that cannot send
    /// yet, on a closed session and for a packet over the limit, in this
    /// order.
    pub fn send_packet(&mut self, data: &[u8]) -> (sent: Result<(), SendError>)
        ensures
            sent == old(self)@.send_outcome(data@.len()),
            final(self)@ == old(self)@.after_send(data@),
    {
        match self {
            Session::Stream(stream) => stream.send_packet(data),
            Session::Webrtc(datagrams) => datagrams.send_packet(data),
        }
    }

    /// The longest packet the session's transport takes.
    pub fn max_packet_len(&self) -> (limit: usize)
        ensures
            limit == self@.limit,
    {
        match self {
            Session::Stream(stream) => stream.max_packet_len(),
            Session::Webrtc(datagrams) => datagrams.max_packet_len(),
        }
    }

    /// Whether the session is open.
    pub fn is_open(&self) -> (open: bool)
        ensures
            open == self@.open,
    {
        match self {
            Session::Stream(stream) => stream.is_open(),
            Session::Webrtc(_) => true,
        }
    }

    /// Closes the session if its transport can be closed. What is queued
    /// stays queued.
    pub fn close(&mut self)
        ensures
            final(self)@ == old(self)@.closed(),
    {
        match self {
            Session::Stream(stream) => stream.close(),
            Session::Webrtc(_) => {},
        }
    }

    /// Hands over the packets that wait for the transport, and empties the
    /// queue.
    pub fn take_outbound(&mut self) -> (packets: Vec<Vec<u8>>)
        ensures
            packets_of(packets@) == old(self)@.queued,
            final(self)@ == (SessionView { queued: Seq::empty(), ..old(self)@ }),
    {
        match self {
            Session::Stream(stream) => stream.take_outbound(),
            Session::Webrtc(_) => {
                let packets: Vec<Vec<u8>> = Vec::new();
                assert(packets_of(packets@) =~= Seq::empty());
                packets
            },
        }
    }
}

} // verus!
