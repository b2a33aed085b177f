use netsync::session::{BuildError, SendError, Session, StreamSession, TransportKind};
use netsync::webrtc_session::{WebrtcSession, WebrtcSessionBuilder};

#[test]
fn stream_session_queues_what_it_takes() {
    let mut session = Session::reliable_stream(4);
    assert_eq!(session.kind(), TransportKind::ReliableStream);
    assert!(session.is_open());
    assert_eq!(session.max_packet_len(), 4);
    assert_eq!(session.send_packet(&[1, 2, 3]), Ok(()));
    assert_eq!(session.send_packet(&[]), Ok(()));
    assert_eq!(session.send_packet(&[4, 5, 6, 7]), Ok(()));
    assert_eq!(session.take_outbound(), vec![vec![1u8, 2, 3], vec![], vec![4, 5, 6, 7]]);
    assert_eq!(session.take_outbound(), Vec::<Vec<u8>>::new());
}

#[test]
fn packet_over_the_limit_is_refused() {
    let mut session = Session::reliable_stream(4);
    assert_eq!(session.send_packet(&[1, 2, 3, 4, 5]), Err(SendError::TooLarge));
    assert_eq!(session.take_outbound(), Vec::<Vec<u8>>::new());
    assert!(session.is_open());
}

#[test]
fn closed_session_refuses_every_packet() {
    let mut session = Session::reliable_stream(4);
    assert_eq!(session.send_packet(&[1]), Ok(()));
    session.close();
    assert!(!session.is_open());
    assert_eq!(session.send_packet(&[2]), Err(SendError::Closed));
    assert_eq!(session.send_packet(&[1, 2, 3, 4, 5]), Err(SendError::Closed));
    assert_eq!(session.max_packet_len(), 4);
    assert_eq!(session.take_outbound(), vec![vec![1u8]]);
}

#[test]
fn stream_session_on_its_own() {
    let mut stream = StreamSession::new(2);
    assert!(stream.is_open());
    assert_eq!(stream.max_packet_len(), 2);
    assert_eq!(stream.send_packet(&[1, 2]), Ok(()));
    assert_eq!(stream.send_packet(&[1, 2, 3]), Err(SendError::TooLarge));
    stream.close();
    assert_eq!(stream.send_packet(&[1]), Err(SendError::Closed));
    assert_eq!(stream.take_outbound(), vec![vec![1u8, 2]]);
}

#[test]
fn webrtc_builder_fails_with_not_implemented() {
    let builder = WebrtcSessionBuilder::new();
    let mut received: Vec<u8> = Vec::new();
    let built = builder.build(|data: &[u8]| received.extend_from_slice(data));
    assert_eq!(built, Err(BuildError::NotImplemented));
    assert_eq!(
        BuildError::NotImplemented.message(),
        "WebrtcSessionBuilder::build() not implemented"
    );
}

#[test]
fn webrtc_session_cannot_send() {
    let mut session = WebrtcSession {};
    assert_eq!(session.send_packet(&[1, 2, 3]), Err(SendError::NotImplemented));
    assert_eq!(session.send_packet(&[]), Err(SendError::NotImplemented));
    assert_eq!(SendError::NotImplemented.message(), "WebrtcSession::send() not implemented");
}

#[test]
fn webrtc_session_takes_messages_of_the_transport_limit() {
    let session = WebrtcSession {};
    assert_eq!(session.max_packet_len(), 16356);
    assert_eq!(session.max_packet_len(), 16384 - 28);
}

#[test]
fn webrtc_session_behind_the_common_interface() {
    let mut session = Session::Webrtc(WebrtcSession {});
    assert_eq!(session.kind(), TransportKind::UnreliableDatagram);
    assert_eq!(session.max_packet_len(), 16356);
    assert!(session.is_open());
    assert_eq!(session.send_packet(&[1]), Err(SendError::NotImplemented));
    session.close();
    assert!(session.is_open());
    assert_eq!(session.send_packet(&[1]), Err(SendError::NotImplemented));
    assert_eq!(session.take_outbound(), Vec::<Vec<u8>>::new());
}

#[test]
fn send_errors_in_words() {
    assert_eq!(SendError::Closed.message(), "session is closed");
    assert_eq!(
        SendError::TooLarge.message(),
        "packet exceeds the maximum length of the session"
    );
}
