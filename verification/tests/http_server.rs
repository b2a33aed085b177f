use netsync::http_server::{
    BindFailed, Directive, HttpServer, ListenerEvent, ListenerMode, ListenerState, LogLevel,
    LogLine, ShutdownOutcome, Step, TlsFiles, SHUTDOWN_TIMEOUT_MILLIS,
};

fn idle() -> Directive {
    Directive { step: Step::Idle, log: None }
}

fn running(server: HttpServer) -> HttpServer {
    let mut server = server;
    assert_eq!(server.handle(ListenerEvent::Bound), idle());
    assert_eq!(server.state(), ListenerState::Running);
    server
}

fn shutting_down(server: HttpServer) -> HttpServer {
    let mut server = running(server);
    assert_eq!(
        server.handle(ListenerEvent::ShutdownRequested),
        Directive { step: Step::SendShutdownSignal, log: None }
    );
    assert_eq!(server.state(), ListenerState::ShuttingDown);
    server
}

#[test]
fn listeners_start_with_their_names() {
    let plain = HttpServer::new_unencrypted("127.0.0.1:8080");
    assert_eq!(plain.name_text(), "Unencrypted HTTP");
    assert_eq!(plain.mode(), ListenerMode::Plain);
    assert_eq!(plain.state(), ListenerState::Starting);
    assert_eq!(plain.socket_addr_text(), "127.0.0.1:8080");
    assert_eq!(plain.tls_files(), None);

    let redirect = HttpServer::new_https_redirect("0.0.0.0:80");
    assert_eq!(redirect.name_text(), "HTTP-to-HTTPS redirect");
    assert_eq!(redirect.mode(), ListenerMode::RedirectOnly);
    assert_eq!(redirect.state(), ListenerState::Starting);
    assert_eq!(redirect.tls_files(), None);

    let encrypted = HttpServer::new_encrypted("0.0.0.0:443", "cert.pem", "key.pem");
    assert_eq!(encrypted.name_text(), "Encrypted HTTPS");
    assert_eq!(encrypted.mode(), ListenerMode::Encrypted);
    assert_eq!(encrypted.state(), ListenerState::Starting);
    assert_eq!(
        encrypted.tls_files(),
        Some(TlsFiles { cert_path: "cert.pem".to_string(), key_path: "key.pem".to_string() })
    );
}

#[test]
fn listener_describes_itself() {
    let server = HttpServer::new_unencrypted("127.0.0.1:8080");
    assert_eq!(server.describe(), "Unencrypted HTTP server on 127.0.0.1:8080");
    let server = HttpServer::new_https_redirect("[::1]:80");
    assert_eq!(server.describe(), "HTTP-to-HTTPS redirect server on [::1]:80");
}

#[test]
fn failed_bind_is_reported_with_address_and_reason() {
    let plain = HttpServer::new_unencrypted("127.0.0.1:80");
    assert_eq!(
        plain.bind_failed("address in use"),
        BindFailed {
            message: "failed to bind HTTP server to 127.0.0.1:80: address in use".to_string()
        }
    );
    let redirect = HttpServer::new_https_redirect("127.0.0.1:80");
    assert_eq!(
        redirect.bind_failed("denied").message,
        "failed to bind HTTP redirect server to 127.0.0.1:80: denied"
    );
    let encrypted = HttpServer::new_encrypted("127.0.0.1:443", "c", "k");
    assert_eq!(
        encrypted.bind_failed("bad certificate").message,
        "failed to bind HTTPS server to 127.0.0.1:443: bad certificate"
    );
}

#[test]
fn clean_shutdown_runs_through_all_states() {
    let mut server = shutting_down(HttpServer::new_unencrypted("127.0.0.1:8080"));
    assert_eq!(
        server.handle(ListenerEvent::SignalSent),
        Directive { step: Step::AwaitJoin { timeout_millis: 200 }, log: None }
    );
    assert_eq!(SHUTDOWN_TIMEOUT_MILLIS, 200);
    assert_eq!(server.state(), ListenerState::ShuttingDown);
    assert_eq!(
        server.handle(ListenerEvent::Joined),
        Directive {
            step: Step::Idle,
            log: Some(LogLine {
                level: LogLevel::Trace,
                message: "Unencrypted HTTP server shut down".to_string()
            })
        }
    );
    assert_eq!(server.state(), ListenerState::Stopped);
    assert_eq!(server.shutdown_outcome(), Some(ShutdownOutcome::Clean));
}

#[test]
fn dropped_signal_is_logged_and_the_join_still_awaited() {
    let mut server = shutting_down(HttpServer::new_encrypted("127.0.0.1:443", "c", "k"));
    assert_eq!(
        server.handle(ListenerEvent::SignalDropped),
        Directive {
            step: Step::AwaitJoin { timeout_millis: 200 },
            log: Some(LogLine {
                level: LogLevel::Error,
                message: "failed to send Encrypted HTTPS server shutdown request".to_string()
            })
        }
    );
    assert_eq!(server.state(), ListenerState::ShuttingDown);
    assert_eq!(server.shutdown_outcome(), None);
}

#[test]
fn shutdown_timeout_is_a_warning_and_stops_the_listener() {
    let mut server = shutting_down(HttpServer::new_https_redirect("127.0.0.1:80"));
    server.handle(ListenerEvent::SignalSent);
    assert_eq!(
        server.handle(ListenerEvent::JoinTimedOut),
        Directive {
            step: Step::Idle,
            log: Some(LogLine {
                level: LogLevel::Warn,
                message: "shutting down HTTP-to-HTTPS redirect server timed out".to_string()
            })
        }
    );
    assert_eq!(server.state(), ListenerState::Stopped);
    assert_eq!(server.shutdown_outcome(), Some(ShutdownOutcome::ShutdownTimeout));
}

#[test]
fn failed_join_is_an_error_and_stops_the_listener() {
    let mut server = shutting_down(HttpServer::new_unencrypted("127.0.0.1:80"));
    server.handle(ListenerEvent::SignalSent);
    assert_eq!(
        server.handle(ListenerEvent::JoinFailed("task panicked".to_string())),
        Directive {
            step: Step::Idle,
            log: Some(LogLine {
                level: LogLevel::Error,
                message: "failed to join Unencrypted HTTP server task: task panicked".to_string()
            })
        }
    );
    assert_eq!(server.state(), ListenerState::Stopped);
    assert_eq!(server.shutdown_outcome(), Some(ShutdownOutcome::TaskFailed));
}

#[test]
fn second_shutdown_request_asks_for_nothing() {
    let mut server = shutting_down(HttpServer::new_unencrypted("127.0.0.1:80"));
    assert_eq!(server.handle(ListenerEvent::ShutdownRequested), idle());
    assert_eq!(server.state(), ListenerState::ShuttingDown);
    server.handle(ListenerEvent::SignalSent);
    server.handle(ListenerEvent::Joined);
    assert_eq!(server.handle(ListenerEvent::ShutdownRequested), idle());
    assert_eq!(server.state(), ListenerState::Stopped);
}

#[test]
fn stopped_listener_ignores_everything() {
    let mut server = shutting_down(HttpServer::new_unencrypted("127.0.0.1:80"));
    server.handle(ListenerEvent::JoinTimedOut);
    assert_eq!(server.state(), ListenerState::Stopped);
    let events = vec![
        ListenerEvent::Bound,
        ListenerEvent::ShutdownRequested,
        ListenerEvent::SignalSent,
        ListenerEvent::SignalDropped,
        ListenerEvent::Joined,
        ListenerEvent::JoinFailed("late".to_string()),
        ListenerEvent::JoinTimedOut,
    ];
    for event in events {
        assert_eq!(server.handle(event), idle());
        assert_eq!(server.state(), ListenerState::Stopped);
        assert_eq!(server.shutdown_outcome(), Some(ShutdownOutcome::ShutdownTimeout));
    }
}

#[test]
fn listener_that_never_ran_stops_without_a_signal() {
    let mut server = HttpServer::new_unencrypted("127.0.0.1:80");
    assert_eq!(server.handle(ListenerEvent::ShutdownRequested), idle());
    assert_eq!(server.state(), ListenerState::Stopped);
    assert_eq!(server.shutdown_outcome(), None);
}

#[test]
fn events_out_of_turn_change_nothing() {
    let mut server = HttpServer::new_unencrypted("127.0.0.1:80");
    assert_eq!(server.handle(ListenerEvent::Joined), idle());
    assert_eq!(server.handle(ListenerEvent::SignalSent), idle());
    assert_eq!(server.state(), ListenerState::Starting);
    let mut server = running(server);
    assert_eq!(server.handle(ListenerEvent::Bound), idle());
    assert_eq!(server.handle(ListenerEvent::JoinTimedOut), idle());
    assert_eq!(server.handle(ListenerEvent::SignalDropped), idle());
    assert_eq!(server.state(), ListenerState::Running);
    let mut server = shutting_down(server);
    assert_eq!(server.handle(ListenerEvent::Bound), idle());
    assert_eq!(server.state(), ListenerState::ShuttingDown);
    assert_eq!(server.name_text(), "Unencrypted HTTP");
    assert_eq!(server.socket_addr_text(), "127.0.0.1:80");
}
