//! The life of one HTTP listener, from binding to shutdown.
//!
//! The listener itself runs outside this crate. What is decided here is what
//! it is called, what a failed bind is reported as, and what each step of the
//! shutdown asks for next.

use vstd::prelude::*;
use vstd::string::*;

verus! {

/// How long the serving task is waited for after the shutdown signal.
pub const SHUTDOWN_TIMEOUT_MILLIS: u64 = 200;

/// What a listener does with the requests it accepts.
#[derive(Clone, Copy, Debug, PartialEq, Eq, Structural)]
pub enum ListenerMode {
    /// Serves its filter over an unencrypted stream.
    Plain,
    /// Serves its filter over TLS.
    Encrypted,
    /// Answers every request with a redirect to HTTPS.
    RedirectOnly,
}

/// Where a listener stands in its life.
#[derive(Clone, Copy, Debug, PartialEq, Eq, Structural)]
pub enum ListenerState {
    /// Made, not yet bound.
    Starting,
    /// Bound and accepting connections.
    Running,
    /// Asked to stop; the serving task has not ended yet.
    ShuttingDown,
    /// Ended, or never bound. Nothing leads out of this state.
    Stopped,
}

/// How the shutdown of a listener ended.
#[derive(Clone, Copy, Debug, PartialEq, Eq, Structural)]
pub enum ShutdownOutcome {
    /// The serving task ended in time and without failure.
    Clean,
    /// The serving task did not end in time and was left behind.
    ShutdownTimeout,
    /// The serving task ended in time, with a failure.
    TaskFailed,
}

/// How grave a line of the log is.
#[derive(Clone, Copy, Debug, PartialEq, Eq, Structural)]
pub enum LogLevel {
    Trace,
    Warn,
    Error,
}

/// One line for the log.
#[derive(Debug, PartialEq, Eq)]
pub struct LogLine {
    pub level: LogLevel,
    pub message: String,
}

/// What happened to the listener outside this crate.
#[derive(Debug, PartialEq, Eq)]
pub enum ListenerEvent {
    /// The socket was bound and the serving task started.
    Bound,
    /// The owner of the listener wants it stopped.
    ShutdownRequested,
    /// The shutdown signal reached the serving task.
    SignalSent,
    /// The shutdown signal could not be sent: its receiver was gone.
    SignalDropped,
    /// The serving task ended within the timeout.
    Joined,
    /// The serving task ended within the timeout, with the given failure.
    JoinFailed(String),
    /// The timeout passed before the serving task ended.
    JoinTimedOut,
}

/// What the owner of the listener has to do next.
#[derive(Clone, Copy, Debug, PartialEq, Eq, Structural)]
pub enum Step {
    /// Nothing.
    Idle,
    /// Send the shutdown signal and report whether it could be sent.
    SendShutdownSignal,
    /// Wait for the serving task, at most so long, and report how that ended.
    AwaitJoin { timeout_millis: u64 },
}

/// The answer to an event: the next step, and a line to log if there is one.
#[derive(Debug, PartialEq, Eq)]
pub struct Directive {
    pub step: Step,
    pub log: Option<LogLine>,
}

/// A listener could not be bound.
#[derive(Debug, PartialEq, Eq)]
pub struct BindFailed {
    pub message: String,
}

/// An event as plain values.
pub enum EventView {
    Bound,
    ShutdownRequested,
    SignalSent,
    SignalDropped,
    Joined,
    JoinFailed(Seq<char>),
    JoinTimedOut,
}

impl View for ListenerEvent {
    type V = EventView;

    open spec fn view(&self) -> EventView {
        match self {
            ListenerEvent::Bound => EventView::Bound,
            ListenerEvent::ShutdownRequested => EventView::ShutdownRequested,
            ListenerEvent::SignalSent => EventView::SignalSent,
            ListenerEvent::SignalDropped => EventView::SignalDropped,
            ListenerEvent::Joined => EventView::Joined,
            ListenerEvent::JoinFailed(reason) => EventView::JoinFailed(reason@),
            ListenerEvent::JoinTimedOut => EventView::JoinTimedOut,
        }
    }
}

/// A directive as plain values.
pub struct DirectiveView {
    pub step: Step,
    pub log: Option<(LogLevel, Seq<char>)>,
}

impl View for Directive {
    type V = DirectiveView;

    open spec fn view(&self) -> DirectiveView {
        DirectiveView {
            step: self.step,
            log: match self.log {
                Some(line) => Some((line.level, line.message@)),
                None => None,
            },
        }
    }
}

/// The name under which a listener of the given mode is logged.
pub open spec fn mode_name(mode: ListenerMode) -> Seq<char> {
    match mode {
        ListenerMode::Plain => "Unencrypted HTTP"@,
        ListenerMode::Encrypted => "Encrypted HTTPS"@,
        ListenerMode::RedirectOnly => "HTTP-to-HTTPS redirect"@,
    }
}

/// The opening words of the report of a failed bind.
pub open spec fn bind_failure_prefix(mode: ListenerMode) -> Seq<char> {
    match mode {
        ListenerMode::Plain => "failed to bind HTTP server to "@,
        ListenerMode::Encrypted => "failed to bind HTTPS server to "@,
        ListenerMode::RedirectOnly => "failed to bind HTTP redirect server to "@,
    }
}

/// The report of a bind of `mode` to `socket_addr` that failed for `reason`.
pub open spec fn bind_failure_message(
    mode: ListenerMode,
    socket_addr: Seq<char>,
    reason: Seq<char>,
) -> Seq<char> {
    bind_failure_prefix(mode) + socket_addr + ": "@ + reason
}

/// The state that `event` leads to from `state`. An event that the state does
/// not wait for changes nothing.
pub open spec fn next_state(state: ListenerState, event: EventView) -> ListenerState {
    match (state, event) {
        (ListenerState::Starting, EventView::Bound) => ListenerState::Running,
        (ListenerState::Starting, EventView::ShutdownRequested) => ListenerState::Stopped,
        (ListenerState::Running, EventView::ShutdownRequested) => ListenerState::ShuttingDown,
        (ListenerState::ShuttingDown, EventView::Joined) => ListenerState::Stopped,
        (ListenerState::ShuttingDown, EventView::JoinFailed(_)) => ListenerState::Stopped,
        (ListenerState::ShuttingDown, EventView::JoinTimedOut) => ListenerState::Stopped,
        _ => state,
    }
}

/// How the shutdown has ended once `event` has reached a listener in `state`
/// whose shutdown had ended as `outcome` says, or had not ended.
pub open spec fn next_outcome(
    state: ListenerState,
    outcome: Option<ShutdownOutcome>,
    event: EventView,
) -> Option<ShutdownOutcome> {
    match (state, event) {
        (ListenerState::ShuttingDown, EventView::Joined) => Some(ShutdownOutcome::Clean),
        (ListenerState::ShuttingDown, EventView::JoinFailed(_)) => Some(
            ShutdownOutcome::TaskFailed,
        ),
        (ListenerState::ShuttingDown, EventView::JoinTimedOut) => Some(
            ShutdownOutcome::ShutdownTimeout,
        ),
        _ => outcome,
    }
}

/// What a listener called `name` asks for when `event` reaches it in `state`.
pub open spec fn directive_for(
    state: ListenerState,
    name: Seq<char>,
    event: EventView,
) -> DirectiveView {
    match (state, event) {
        (ListenerState::Running, EventView::ShutdownRequested) => DirectiveView {
            step: Step::SendShutdownSignal,
            log: None,
        },
        (ListenerState::ShuttingDown, EventView::SignalSent) => DirectiveView {
            step: Step::AwaitJoin { timeout_millis: SHUTDOWN_TIMEOUT_MILLIS },
            log: None,
        },
        (ListenerState::ShuttingDown, EventView::SignalDropped) => DirectiveView {
            step: Step::AwaitJoin { timeout_millis: SHUTDOWN_TIMEOUT_MILLIS },
            log: Some(
                (LogLevel::Error, "failed to send "@ + name + " server shutdown request"@),
            ),
        },
        (ListenerState::ShuttingDown, EventView::Joined) => DirectiveView {
            step: Step::Idle,
            log: Some((LogLevel::Trace, name + " server shut down"@)),
        },
        (ListenerState::ShuttingDown, EventView::JoinFailed(reason)) => DirectiveView {
            step: Step::Idle,
            log: Some(
                (LogLevel::Error, "failed to join "@ + name + " server task: "@ + reason),
            ),
        },
        (ListenerState::ShuttingDown, EventView::JoinTimedOut) => DirectiveView {
            step: Step::Idle,
            log: Some((LogLevel::Warn, "shutting down "@ + name + " server timed out"@)),
        },
        _ => DirectiveView { step: Step::Idle, log: None },
    }
}

/// Where an encrypted listener finds its certificate and its private key.
#[derive(Debug, PartialEq, Eq)]
pub struct TlsFiles {
    pub cert_path: String,
    pub key_path: String,
}

/// One HTTP listener: its name, its address and where it stands.
#[derive(Debug, PartialEq, Eq)]
pub struct HttpServer {
    name: String,
    socket_addr: String,
    mode: ListenerMode,
    state: ListenerState,
    tls: Option<TlsFiles>,
    outcome: Option<ShutdownOutcome>,
}

impl HttpServer {
    /// The name the listener is logged under.
    pub closed spec fn name(&self) -> Seq<char> {
        self.name@
    }

    /// The address the listener binds to, as text.
    pub closed spec fn socket_addr(&self) -> Seq<char> {
        self.socket_addr@
    }

    pub closed spec fn spec_mode(&self) -> ListenerMode {
        self.mode
    }

    pub closed spec fn spec_state(&self) -> ListenerState {
        self.state
    }

    pub closed spec fn spec_shutdown_outcome(&self) -> Option<ShutdownOutcome> {
        self.outcome
    }

    /// The paths of the certificate and of the private key, where the
    /// listener has them.
    pub closed spec fn tls_paths(&self) -> Option<(Seq<char>, Seq<char>)> {
        match self.tls {
            Some(files) => Some((files.cert_path@, files.key_path@)),
            None => None,
        }
    }

    /// The listener is what a constructor makes for `mode` and `socket_addr`.
    pub open spec fn fresh(&self, mode: ListenerMode, socket_addr: Seq<char>) -> bool {
        &&& self.name() == mode_name(mode)
        &&& self.socket_addr() == socket_addr
        &&& self.spec_mode() == mode
        &&& self.spec_state() == ListenerState::Starting
        &&& self.spec_shutdown_outcome().is_none()
    }

    fn starting(mode: ListenerMode, socket_addr: &str, tls: Option<TlsFiles>) -> (server:
        HttpServer)
        ensures
            server.fresh(mode, socket_addr@),
            server.tls_paths() == match tls {
                Some(files) => Some((files.cert_path@, files.key_path@)),
                None => None,
            },
    {
        let name = match mode {
            ListenerMode::Plain => String::from_str("Unencrypted HTTP"),
            ListenerMode::Encrypted => String::from_str("Encrypted HTTPS"),
            ListenerMode::RedirectOnly => String::from_str("HTTP-to-HTTPS redirect"),
        };
        HttpServer {
            name,
            socket_addr: String::from_str(socket_addr),
            mode,
            state: ListenerState::Starting,
            tls,
            outcome: None,
        }
    }

    /// A listener that will serve a filter over an unencrypted stream.
    pub fn new_unencrypted(socket_addr: &str) -> (server: HttpServer)
        ensures
            server.fresh(ListenerMode::Plain, socket_addr@),
            server.tls_paths().is_none(),
    {
        HttpServer::starting(ListenerMode::Plain, socket_addr, None)
    }

    /// A listener that will redirect every request to HTTPS.
    pub fn new_https_redirect(socket_addr: &str) -> (server: HttpServer)
        ensures
            server.fresh(ListenerMode::RedirectOnly, socket_addr@),
            server.tls_paths().is_none(),
    {
        HttpServer::starting(ListenerMode::RedirectOnly, socket_addr, None)
    }

    /// A listener that will serve a filter over TLS, with the certificate
    /// and the private key found at the given paths.
    pub fn new_encrypted(socket_addr: &str, cert_path: &str, key_path: &str) -> (server:
        HttpServer)
        ensures
            server.fresh(ListenerMode::Encrypted, socket_addr@),
            server.tls_paths() == Some((cert_path@, key_path@)),
    {
        let files = TlsFiles {
            cert_path: String::from_str(cert_path),
            key_path: String::from_str(key_path),
        };
        HttpServer::starting(ListenerMode::Encrypted, socket_addr, Some(files))
    }

    /// The paths of the certificate and of the private key, where the
    /// listener has them.
    pub fn tls_files(&self) -> (files: Option<TlsFiles>)
        ensures
            match files {
                Some(files) => self.tls_paths() == Some((files.cert_path@, files.key_path@)),
                None => self.tls_paths().is_none(),
            },
    {
        match &self.tls {
            Some(files) => Some(
                TlsFiles { cert_path: files.cert_path.clone(), key_path: files.key_path.clone() },
            ),
            None => None,
        }
    }

    /// The name the listener is logged under.
    pub fn name_text(&self) -> (name: String)
        ensures
            name@ == self.name(),
    {
        self.name.clone()
    }

    /// The address the listener binds to, as text.
    pub fn socket_addr_text(&self) -> (socket_addr: String)
        ensures
            socket_addr@ == self.socket_addr(),
    {
        self.socket_addr.clone()
    }

    #[verifier::when_used_as_spec(spec_mode)]
    pub fn mode(&self) -> (mode: ListenerMode)
        ensures
            mode == self.spec_mode(),
    {
        self.mode
    }

    #[verifier::when_used_as_spec(spec_state)]
    pub fn state(&self) -> (state: ListenerState)
        ensures
            state == self.spec_state(),
    {
        self.state
    }

    /// How the shutdown ended, once it has.
    #[verifier::when_used_as_spec(spec_shutdown_outcome)]
    pub fn shutdown_outcome(&self) -> (outcome: Option<ShutdownOutcome>)
        ensures
            outcome == self.spec_shutdown_outcome(),
    {
        self.outcome
    }

    /// The listener in words: its name and its address.
    pub fn describe(&self) -> (text: String)
        ensures
            text@ == self.name() + " server on "@ + self.socket_addr(),
    {
        let mut text = self.name.clone();
        text.append(" server on ");
        text.append(self.socket_addr.as_str());
        text
    }

    /// Gives up a listener whose bind failed, and says why it failed.
    pub fn bind_failed(self, reason: &str) -> (failure: BindFailed)
        ensures
            failure.message@ == bind_failure_message(
                self.spec_mode(),
                self.socket_addr(),
                reason@,
            ),
    {
        let mut message = match self.mode {
            ListenerMode::Plain => String::from_str("failed to bind HTTP server to "),
            ListenerMode::Encrypted => String::from_str("failed to bind HTTPS server to "),
            ListenerMode::RedirectOnly => String::from_str(
                "failed to bind HTTP redirect server to ",
            ),
        };
        message.append(self.socket_addr.as_str());
        message.append(": ");
        message.append(reason);
        BindFailed { message }
    }

    /// Takes in what happened to the listener and says what to do next.
    pub fn handle(&mut self, event: ListenerEvent) -> (directive: Directive)
        ensures
            final(self).spec_state() == next_state(old(self).spec_state(), event@),
            final(self).name() == old(self).name(),
            final(self).socket_addr() == old(self).socket_addr(),
            final(self).spec_mode() == old(self).spec_mode(),
            final(self).tls_paths() == old(self).tls_paths(),
            final(self).spec_shutdown_outcome() == next_outcome(
                old(self).spec_state(),
                old(self).spec_shutdown_outcome(),
                event@,
            ),
            directive@ == directive_for(old(self).spec_state(), old(self).name(), event@),
    {
        let idle = Directive { step: Step::Idle, log: None };
        match self.state {
            ListenerState::Starting => match event {
                ListenerEvent::Bound => {
                    self.state = ListenerState::Running;
                    idle
                },
                ListenerEvent::ShutdownRequested => {
                    self.state = ListenerState::Stopped;
                    idle
                },
                _ => idle,
            },
            ListenerState::Running => match event {
                ListenerEvent::ShutdownRequested => {
                    self.state = ListenerState::ShuttingDown;
                    Directive { step: Step::SendShutdownSignal, log: None }
                },
                _ => idle,
            },
            ListenerState::ShuttingDown => match event {
                ListenerEvent::SignalSent => Directive {
                    step: Step::AwaitJoin { timeout_millis: SHUTDOWN_TIMEOUT_MILLIS },
                    log: None,
                },
                ListenerEvent::SignalDropped => {
                    let mut message = String::from_str("failed to send ");
                    message.append(self.name.as_str());
                    message.append(" server shutdown request");
                    Directive {
                        step: Step::AwaitJoin { timeout_millis: SHUTDOWN_TIMEOUT_MILLIS },
                        log: Some(LogLine { level: LogLevel::Error, message }),
                    }
                },
                ListenerEvent::Joined => {
                    self.state = ListenerState::Stopped;
                    self.outcome = Some(ShutdownOutcome::Clean);
                    let mut message = self.name.clone();
                    message.append(" server shut down");
                    Directive {
                        step: Step::Idle,
                        log: Some(LogLine { level: LogLevel::Trace, message }),
                    }
                },
                ListenerEvent::JoinFailed(reason) => {
                    self.state = ListenerState::Stopped;
                    self.outcome = Some(ShutdownOutcome::TaskFailed);
                    let mut message = String::from_str("failed to join ");
                    message.append(self.name.as_str());
                    message.append(" server task: ");
                    message.append(reason.as_str());
                    Directive {
                        step: Step::Idle,
                        log: Some(LogLine { level: LogLevel::Error, message }),
                    }
                },
                ListenerEvent::JoinTimedOut => {
                    self.state = ListenerState::Stopped;
                    self.outcome = Some(ShutdownOutcome::ShutdownTimeout);
                    let mut message = String::from_str("shutting down ");
                    message.append(self.name.as_str());
                    message.append(" server timed out");
                    Directive {
                        step: Step::Idle,
                        log: Some(LogLine { level: LogLevel::Warn, message }),
                    }
                },
                _ => idle,
            },
            ListenerState::Stopped => idle,
        }
    }
}

/// A stopped listener stays stopped and asks for nothing, whatever reaches
/// it, and how its shutdown ended stays as it is.
pub proof fn law_stopped_is_terminal(
    name: Seq<char>,
    outcome: Option<ShutdownOutcome>,
    event: EventView,
)
    ensures
        next_state(ListenerState::Stopped, event) == ListenerState::Stopped,
        next_outcome(ListenerState::Stopped, outcome, event) == outcome,
        directive_for(ListenerState::Stopped, name, event) == (DirectiveView {
            step: Step::Idle,
            log: None,
        }),
{
}

/// The shutdown signal is asked for on one transition only, from running to
/// shutting down: a listener that is asked to stop again asks for nothing.
pub proof fn law_shutdown_signalled_once(state: ListenerState, name: Seq<char>, event: EventView)
    ensures
        directive_for(state, name, event).step == Step::SendShutdownSignal <==> (state
            == ListenerState::Running && event == EventView::ShutdownRequested),
        directive_for(
            next_state(state, EventView::ShutdownRequested),
            name,
            EventView::ShutdownRequested,
        ).step == Step::Idle,
{
}

/// Once the shutdown signal was asked for, every way the wait can end stops
/// the listener, and the wait never exceeds the timeout.
pub proof fn law_shutdown_is_bounded(name: Seq<char>, event: EventView)
    requires
        event is Joined || event is JoinFailed || event is JoinTimedOut,
    ensures
        next_state(ListenerState::ShuttingDown, event) == ListenerState::Stopped,
        directive_for(ListenerState::ShuttingDown, name, EventView::SignalSent).step == (
        Step::AwaitJoin { timeout_millis: SHUTDOWN_TIMEOUT_MILLIS }),
        directive_for(ListenerState::ShuttingDown, name, EventView::SignalDropped).step == (
        Step::AwaitJoin { timeout_millis: SHUTDOWN_TIMEOUT_MILLIS }),
{
}

} // verus!
