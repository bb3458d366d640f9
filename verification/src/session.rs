//! One connection to the PubSub service, from connecting to its end.

use crate::flow::WithControlFlow;
use crate::pubsub::{
    listen_command, listen_text, parse_message, pubsub_message, PubSubMessage, Redemption,
};
use crate::redeem::{ChannelToken, Redeem, RedeemCommand};
use crate::text::is_same;
use std::ops::ControlFlow;
use std::sync::Arc;
use vstd::prelude::*;

verus! {

/// How long to wait before a ping, in seconds.
pub const PING_SECONDS: u64 = 270;

/// How long to wait for the answer to a ping, in seconds.
pub const PONG_SECONDS: u64 = 10;

/// The mark by which the answer to the listen request is known.
pub open spec fn listen_nonce() -> Seq<char> {
    "Listen"@
}

/// What went wrong with a session.
#[derive(Debug)]
pub enum SessionError {
    /// The listen request could not be put together.
    ListenCommand(::serde_json::Error),
    /// The connection was not made.
    Connect(String),
    /// The listen request was not sent.
    Listen(String),
    /// The connection was not closed in order.
    Close(String),
    /// A ping was not answered in time.
    PingTimeout,
    /// A ping was not sent.
    SendPing(String),
    /// The connection failed.
    Read(String),
    /// An answer to a ping was not sent.
    SendPong(String),
    /// A message could not be read.
    Parse(::twitch_api2::DeserError),
    /// The service refused the listen request.
    Refused(String),
    /// Nobody takes redemptions.
    Forward,
}

/// How a session ends: in order or with an error, and either way to be followed by another one or
/// not.
pub type SessionOutcome = Result<ControlFlow<()>, ControlFlow<SessionError, SessionError>>;

/// What the session is at.
#[derive(Clone, Copy, Debug, PartialEq, Eq, Structural)]
pub enum SessionPhase {
    /// It makes the connection.
    Connecting,
    /// It sends the listen request.
    Subscribing,
    /// It waits for whatever comes first.
    Selecting,
    /// It closes the connection.
    Closing,
    /// It sends a ping.
    Pinging,
    /// It answers a ping.
    Ponging,
    /// It passes on a redemption.
    Forwarding,
    /// It is done.
    Ended,
}

/// What has happened.
#[derive(Debug)]
pub enum SessionEvent {
    /// The connection was made.
    Connected,
    /// The connection was not made.
    ConnectFailed(String),
    /// What was to be sent was sent.
    Sent,
    /// What was to be sent was not sent.
    SendFailed(String),
    /// The session was cancelled.
    Cancelled,
    /// The request to close the connection was sent.
    CloseSent,
    /// The request to close the connection was not sent.
    CloseFailed(String),
    /// The time for the answer to a ping is over.
    PongTimeout,
    /// A ping is due.
    PingDue,
    /// The connection is at its end.
    StreamEnded,
    /// The connection failed.
    ReadFailed(String),
    /// The service has closed the connection.
    CloseReceived,
    /// A ping came in.
    PingReceived(Vec<u8>),
    /// A message came in.
    Message(PubSubMessage),
    /// A message came in that cannot be read.
    ParseFailed(::twitch_api2::DeserError),
    /// Something came in that has no meaning here.
    Unsupported,
    /// The redemption was passed on.
    Forwarded,
    /// Nobody took the redemption.
    ForwardFailed,
}

/// What a session acts on that waits for whatever comes first.
#[derive(Clone, Copy, Debug, PartialEq, Eq, Structural)]
pub enum SessionChoice {
    /// The session was cancelled.
    Cancelled,
    /// The time for the answer to a ping is over.
    PongTimeout,
    /// A ping is due.
    PingDue,
    /// Something came in, or the connection is at its end.
    Incoming,
}

/// What is to be done next.
#[derive(Debug)]
pub enum SessionAction {
    /// Make the connection.
    Connect,
    /// Send the listen request.
    SendListen,
    /// Wait for whatever comes first.
    Select,
    /// Close the connection.
    Close,
    /// Send a ping.
    SendPing,
    /// Answer a ping with the same payload.
    SendPong(Vec<u8>),
    /// Pass on a redemption.
    Forward(RedeemCommand),
    /// Stop.
    End,
}

/// What becomes of a timer.
#[derive(Clone, Copy, Debug, PartialEq, Eq, Structural)]
pub enum TimerChange {
    /// It stays as it is.
    Keep,
    /// It is stopped.
    Stop,
    /// It is started, anew where it runs already.
    Start { seconds: u64 },
}

/// What is to be done about an event.
#[derive(Debug)]
pub struct SessionStep {
    pub action: SessionAction,
    /// What becomes of the timer after which a ping is due.
    pub ping_timer: TimerChange,
    /// What becomes of the timer after which a ping counts as not answered.
    pub pong_timer: TimerChange,
    /// Whether the waiting time before the next connection is dropped.
    pub reset_backoff: bool,
}

/// The session, as far as it shows.
#[derive(Debug)]
pub struct SessionModel {
    pub phase: SessionPhase,
    pub channel_token: Arc<ChannelToken>,
    /// The listen request.
    pub listen: String,
    /// How the session ends if nothing else happens.
    pub result: SessionOutcome,
    /// Whether the connection is being closed.
    pub stopping: bool,
    /// Whether a ping is waiting for its answer.
    pub awaiting_pong: bool,
}

/// The text is the mark of the listen request.
pub open spec fn is_listen_nonce(nonce: Option<String>) -> bool {
    nonce matches Some(text) && text@ == listen_nonce()
}

/// The error that comes with a refusal: an empty one is none.
pub open spec fn refusal(error: Option<String>) -> Option<String> {
    match error {
        Some(text) => if text@.len() > 0 {
            Some(text)
        } else {
            None
        },
        None => None,
    }
}

/// The redemption as it is passed on.
pub open spec fn redeem_of(token: Arc<ChannelToken>, redemption: Redemption) -> Redeem {
    Redeem {
        channel_token: token,
        redeem_id: redemption.id,
        redeem_input: redemption.user_input,
        reward_cost: redemption.reward_cost,
        reward_id: redemption.reward_id,
        reward_title: redemption.reward_title,
        user_id: redemption.user_id,
        user_login: redemption.user_login,
        user_name: redemption.user_name,
    }
}

/// The step that does nothing but the one thing.
pub open spec fn only(action: SessionAction) -> SessionStep {
    SessionStep {
        action,
        ping_timer: TimerChange::Keep,
        pong_timer: TimerChange::Keep,
        reset_backoff: false,
    }
}

impl SessionError {
    /// What failed.
    pub open spec fn text(self) -> Seq<char> {
        match self {
            SessionError::ListenCommand(_) => "Failed to construct listen command"@,
            SessionError::Connect(_) => "Failed to connect to PubSub API"@,
            SessionError::Listen(_) => "Failed to listen for channel point redemptions"@,
            SessionError::Close(_) => "Failed to shut down WebSocket connection"@,
            SessionError::PingTimeout => "Ping was not acknowledged within 10.0 seconds."@,
            SessionError::SendPing(_) => "Failed to send ping to PubSub interface"@,
            SessionError::Read(_) => "An error occurred reading from the WebSocket"@,
            SessionError::SendPong(_) => "Failed to send pong on PubSub socket"@,
            SessionError::Parse(_) => "Failed to parse PubSub message"@,
            SessionError::Refused(_) => "Failed to listen for channel point redemptions"@,
            SessionError::Forward => "Failed to forward redemption info"@,
        }
    }

    /// A phrase for the user.
    pub fn message(&self) -> (r: &'static str)
        ensures
            r@ == self.text(),
    {
        match self {
            SessionError::ListenCommand(_) => "Failed to construct listen command",
            SessionError::Connect(_) => "Failed to connect to PubSub API",
            SessionError::Listen(_) => "Failed to listen for channel point redemptions",
            SessionError::Close(_) => "Failed to shut down WebSocket connection",
            SessionError::PingTimeout => "Ping was not acknowledged within 10.0 seconds.",
            SessionError::SendPing(_) => "Failed to send ping to PubSub interface",
            SessionError::Read(_) => "An error occurred reading from the WebSocket",
            SessionError::SendPong(_) => "Failed to send pong on PubSub socket",
            SessionError::Parse(_) => "Failed to parse PubSub message",
            SessionError::Refused(_) => "Failed to listen for channel point redemptions",
            SessionError::Forward => "Failed to forward redemption info",
        }
    }
}

impl SessionModel {
    /// A session that is yet to connect.
    pub open spec fn fresh(token: Arc<ChannelToken>, listen: String) -> SessionModel {
        SessionModel {
            phase: SessionPhase::Connecting,
            channel_token: token,
            listen,
            result: Ok(ControlFlow::Continue(())),
            stopping: false,
            awaiting_pong: false,
        }
    }

    /// The session belongs to a channel with a login, and never ends in order without another one to
    /// follow; it ends for good only because the service refused the listen request or because nobody
    /// takes redemptions.
    pub open spec fn wf(self) -> bool {
        &&& self.channel_token.login is Some
        &&& match self.result {
            Ok(flow) => flow == ControlFlow::<(), ()>::Continue(()),
            Err(ControlFlow::Break(e)) => e is Refused || e is Forward,
            Err(ControlFlow::Continue(_)) => true,
        }
    }

    /// What can happen next.
    pub open spec fn accepts(self, event: SessionEvent) -> bool {
        match event {
            SessionEvent::Connected | SessionEvent::ConnectFailed(_) => self.phase
                == SessionPhase::Connecting,
            SessionEvent::Sent | SessionEvent::SendFailed(_) => self.phase
                == SessionPhase::Subscribing || self.phase == SessionPhase::Pinging || self.phase
                == SessionPhase::Ponging,
            SessionEvent::Cancelled | SessionEvent::PingDue => self.phase
                == SessionPhase::Selecting && !self.stopping,
            SessionEvent::PongTimeout => self.phase == SessionPhase::Selecting && !self.stopping
                && self.awaiting_pong,
            SessionEvent::CloseSent | SessionEvent::CloseFailed(_) => self.phase
                == SessionPhase::Closing,
            SessionEvent::Forwarded | SessionEvent::ForwardFailed => self.phase
                == SessionPhase::Forwarding,
            SessionEvent::StreamEnded | SessionEvent::ReadFailed(_) | SessionEvent::CloseReceived
            | SessionEvent::PingReceived(_) | SessionEvent::Message(_)
            | SessionEvent::ParseFailed(_) | SessionEvent::Unsupported => self.phase
                == SessionPhase::Selecting,
        }
    }

    /// What is acted on while the session waits, where several things may be ready at once: that it
    /// was cancelled, that a ping was not answered, that a ping is due, and what came in, in this
    /// order. Once the connection is being closed, only what comes in counts.
    pub open spec fn choice(
        self,
        cancelled: bool,
        pong_over: bool,
        ping_due: bool,
        incoming: bool,
    ) -> Option<SessionChoice> {
        if cancelled && !self.stopping {
            Some(SessionChoice::Cancelled)
        } else if pong_over && self.awaiting_pong && !self.stopping {
            Some(SessionChoice::PongTimeout)
        } else if ping_due && !self.stopping {
            Some(SessionChoice::PingDue)
        } else if incoming {
            Some(SessionChoice::Incoming)
        } else {
            None
        }
    }

    /// The session at its end.
    pub open spec fn ended(self, result: SessionOutcome) -> SessionModel {
        SessionModel { phase: SessionPhase::Ended, result, ..self }
    }

    /// The session is to stop with `result`: it closes the connection, unless it does so already.
    pub open spec fn stopped(self, result: SessionOutcome) -> SessionModel {
        SessionModel {
            phase: if self.stopping {
                SessionPhase::Selecting
            } else {
                SessionPhase::Closing
            },
            result,
            ..self
        }
    }

    /// The session waits again.
    pub open spec fn selecting(self) -> SessionModel {
        SessionModel { phase: SessionPhase::Selecting, ..self }
    }

    /// The session after a message.
    pub open spec fn after_message(self, message: PubSubMessage) -> SessionModel {
        match message {
            PubSubMessage::RewardRedeemed(_) => SessionModel {
                phase: SessionPhase::Forwarding,
                ..self
            },
            PubSubMessage::Other => self,
            PubSubMessage::Pong => SessionModel { awaiting_pong: false, ..self },
            PubSubMessage::Reconnect => self.stopped(self.result),
            PubSubMessage::Response { nonce, error } => if is_listen_nonce(nonce) {
                match refusal(error) {
                    Some(e) => self.stopped(Err(ControlFlow::Break(SessionError::Refused(e)))),
                    None => self,
                }
            } else {
                self
            },
        }
    }

    /// The session after an event.
    pub open spec fn after(self, event: SessionEvent) -> SessionModel {
        match event {
            SessionEvent::Connected => SessionModel { phase: SessionPhase::Subscribing, ..self },
            SessionEvent::ConnectFailed(e) => self.ended(
                Err(ControlFlow::Continue(SessionError::Connect(e))),
            ),
            SessionEvent::Sent => SessionModel {
                phase: SessionPhase::Selecting,
                awaiting_pong: self.awaiting_pong || self.phase == SessionPhase::Pinging,
                ..self
            },
            SessionEvent::SendFailed(e) => self.ended(
                Err(
                    ControlFlow::Continue(
                        match self.phase {
                            SessionPhase::Subscribing => SessionError::Listen(e),
                            SessionPhase::Pinging => SessionError::SendPing(e),
                            _ => SessionError::SendPong(e),
                        },
                    ),
                ),
            ),
            SessionEvent::Cancelled => SessionModel { phase: SessionPhase::Closing, ..self },
            SessionEvent::CloseSent => SessionModel { stopping: true, ..self.selecting() },
            SessionEvent::CloseFailed(e) => SessionModel {
                stopping: true,
                result: match self.result {
                    Ok(flow) => Ok(flow),
                    Err(_) => Err(ControlFlow::Continue(SessionError::Close(e))),
                },
                ..self.selecting()
            },
            SessionEvent::PongTimeout => self.stopped(
                Err(ControlFlow::Continue(SessionError::PingTimeout)),
            ),
            SessionEvent::PingDue => SessionModel { phase: SessionPhase::Pinging, ..self },
            SessionEvent::StreamEnded => self.ended(self.result),
            SessionEvent::ReadFailed(e) => self.stopped(
                Err(ControlFlow::Continue(SessionError::Read(e))),
            ),
            SessionEvent::CloseReceived => self.ended(Ok(ControlFlow::Continue(()))),
            SessionEvent::PingReceived(_) => SessionModel { phase: SessionPhase::Ponging, ..self },
            SessionEvent::Message(message) => self.after_message(message),
            SessionEvent::ParseFailed(e) => self.ended(
                Err(ControlFlow::Continue(SessionError::Parse(e))),
            ),
            SessionEvent::Unsupported => self,
            SessionEvent::Forwarded => self.selecting(),
            SessionEvent::ForwardFailed => self.ended(
                Err(ControlFlow::Break(SessionError::Forward)),
            ),
        }
    }

    /// What is to be done once the session is where it is.
    pub open spec fn routine(self) -> SessionAction {
        match self.phase {
            SessionPhase::Connecting => SessionAction::Connect,
            SessionPhase::Subscribing => SessionAction::SendListen,
            SessionPhase::Closing => SessionAction::Close,
            SessionPhase::Pinging => SessionAction::SendPing,
            SessionPhase::Ended => SessionAction::End,
            _ => SessionAction::Select,
        }
    }

    /// What is to be done about an event.
    pub open spec fn response(self, event: SessionEvent) -> SessionStep {
        match event {
            SessionEvent::Sent => SessionStep {
                action: SessionAction::Select,
                ping_timer: if self.phase == SessionPhase::Ponging {
                    TimerChange::Keep
                } else {
                    TimerChange::Start { seconds: PING_SECONDS }
                },
                pong_timer: if self.phase == SessionPhase::Pinging {
                    TimerChange::Start { seconds: PONG_SECONDS }
                } else {
                    TimerChange::Keep
                },
                reset_backoff: false,
            },
            SessionEvent::PingReceived(payload) => only(SessionAction::SendPong(payload)),
            SessionEvent::Message(PubSubMessage::RewardRedeemed(redemption)) => only(
                SessionAction::Forward(
                    RedeemCommand::Handle(redeem_of(self.channel_token, redemption)),
                ),
            ),
            SessionEvent::Message(PubSubMessage::Pong) => SessionStep {
                pong_timer: TimerChange::Stop,
                ..only(SessionAction::Select)
            },
            SessionEvent::Message(PubSubMessage::Response { nonce, error }) => SessionStep {
                reset_backoff: is_listen_nonce(nonce) && refusal(error) is None,
                ..only(self.after(event).routine())
            },
            _ => only(self.after(event).routine()),
        }
    }
}

/// The mark by which the answer to the listen request is known.
fn listen_mark() -> (r: &'static str)
    ensures
        r@ == listen_nonce(),
{
    "Listen"
}

/// The text of a ping.
pub fn ping_message() -> (r: &'static str)
    ensures
        r@ == "{\"type\":\"PING\"}"@,
{
    "{\"type\":\"PING\"}"
}

/// The reason that is given when the connection is closed.
pub fn close_reason() -> (r: &'static str)
    ensures
        r@ == "Shutting down"@,
{
    "Shutting down"
}

fn only_do(action: SessionAction) -> (r: SessionStep)
    ensures
        r == only(action),
{
    SessionStep {
        action,
        ping_timer: TimerChange::Keep,
        pong_timer: TimerChange::Keep,
        reset_backoff: false,
    }
}

/// A connection to the PubSub service.
#[derive(Debug)]
pub struct Session {
    state: SessionModel,
}

impl View for Session {
    type V = SessionModel;

    closed spec fn view(&self) -> SessionModel {
        self.state
    }
}

impl Session {
    /// A session that is yet to connect, with its listen request. Without one there is no session.
    pub fn new(
        channel_token: Arc<ChannelToken>,
        listen: Result<String, ::serde_json::Error>,
    ) -> (r: Result<Session, ControlFlow<SessionError, SessionError>>)
        requires
            channel_token.login is Some,
        ensures
            match listen {
                Ok(text) => r matches Ok(session) && session@ == SessionModel::fresh(
                    channel_token,
                    text,
                ),
                Err(e) => r == Err::<Session, ControlFlow<SessionError, SessionError>>(
                    ControlFlow::Break(SessionError::ListenCommand(e)),
                ),
            },
            r matches Ok(session) ==> session@.wf(),
    {
        let listen: String = match listen {
            Ok(text) => text,
            Err(e) => {
                let failed: Result<Session, SessionError> = Err(SessionError::ListenCommand(e));
                return failed.with_break_err();
            },
        };
        let state: SessionModel = SessionModel {
            phase: SessionPhase::Connecting,
            channel_token,
            listen,
            result: Ok(ControlFlow::Continue(())),
            stopping: false,
            awaiting_pong: false,
        };
        Ok(Session { state })
    }

    /// A session that is yet to connect, and will listen for the redemptions in a channel.
    pub fn open(channel_token: Arc<ChannelToken>, channel_id: u32, auth_token: &str) -> (r: Result<
        Session,
        ControlFlow<SessionError, SessionError>,
    >)
        requires
            channel_token.login is Some,
        ensures
            r matches Ok(session) && {
                &&& session@.wf()
                &&& session@ == SessionModel::fresh(channel_token, session@.listen)
                &&& session@.listen@ == listen_text(channel_id, auth_token@, listen_nonce())
            },
    {
        let listen: Result<String, ::serde_json::Error> = listen_command(
            channel_id,
            auth_token,
            listen_mark(),
        );
        Session::new(channel_token, listen)
    }

    /// The listen request.
    pub fn listen_message(&self) -> (r: &str)
        ensures
            r@ == self@.listen@,
    {
        self.state.listen.as_str()
    }

    /// What the session is at.
    pub fn phase(&self) -> (r: SessionPhase)
        ensures
            r == self@.phase,
    {
        self.state.phase
    }

    /// Whether `event` can happen next.
    pub fn takes(&self, event: &SessionEvent) -> (r: bool)
        ensures
            r == self@.accepts(*event),
    {
        match event {
            SessionEvent::Connected | SessionEvent::ConnectFailed(_) => self.state.phase
                == SessionPhase::Connecting,
            SessionEvent::Sent | SessionEvent::SendFailed(_) => self.state.phase
                == SessionPhase::Subscribing || self.state.phase == SessionPhase::Pinging || self.state.phase
                == SessionPhase::Ponging,
            SessionEvent::Cancelled | SessionEvent::PingDue => self.state.phase
                == SessionPhase::Selecting && !self.state.stopping,
            SessionEvent::PongTimeout => self.state.phase == SessionPhase::Selecting && !self.state.stopping
                && self.state.awaiting_pong,
            SessionEvent::CloseSent | SessionEvent::CloseFailed(_) => self.state.phase
                == SessionPhase::Closing,
            SessionEvent::Forwarded | SessionEvent::ForwardFailed => self.state.phase
                == SessionPhase::Forwarding,
            _ => self.state.phase == SessionPhase::Selecting,
        }
    }

    /// Which of the things that are ready a session acts on that waits.
    pub fn chosen(&self, cancelled: bool, pong_over: bool, ping_due: bool, incoming: bool) -> (r:
        Option<SessionChoice>)
        requires
            self@.phase == SessionPhase::Selecting,
        ensures
            r == self@.choice(cancelled, pong_over, ping_due, incoming),
            r == Some(SessionChoice::Cancelled) ==> self@.accepts(SessionEvent::Cancelled),
            r == Some(SessionChoice::PongTimeout) ==> self@.accepts(SessionEvent::PongTimeout),
            r == Some(SessionChoice::PingDue) ==> self@.accepts(SessionEvent::PingDue),
    {
        let open: bool = !self.state.stopping;
        if cancelled && open {
            Some(SessionChoice::Cancelled)
        } else if pong_over && self.state.awaiting_pong && open {
            Some(SessionChoice::PongTimeout)
        } else if ping_due && open {
            Some(SessionChoice::PingDue)
        } else if incoming {
            Some(SessionChoice::Incoming)
        } else {
            None
        }
    }

    fn end_with(&mut self, result: SessionOutcome) -> (r: SessionStep)
        ensures
            final(self)@ == old(self)@.ended(result),
            r == only(SessionAction::End),
    {
        self.state.phase = SessionPhase::Ended;
        self.state.result = result;
        only_do(SessionAction::End)
    }

    /// Closes the connection, unless it is being closed already.
    fn stop(&mut self) -> (r: SessionStep)
        ensures
            final(self)@ == old(self)@.stopped(old(self)@.result),
            r == only(final(self)@.routine()),
    {
        if self.state.stopping {
            self.state.phase = SessionPhase::Selecting;
            only_do(SessionAction::Select)
        } else {
            self.state.phase = SessionPhase::Closing;
            only_do(SessionAction::Close)
        }
    }

    /// Takes note of a message, and says what is to be done next.
    fn on_message(&mut self, message: PubSubMessage) -> (r: SessionStep)
        requires
            old(self)@.phase == SessionPhase::Selecting,
        ensures
            final(self)@ == old(self)@.after_message(message),
            r == old(self)@.response(SessionEvent::Message(message)),
    {
        match message {
            PubSubMessage::RewardRedeemed(redemption) => {
                self.state.phase = SessionPhase::Forwarding;
                let redeem: Redeem = Redeem {
                    channel_token: self.state.channel_token.clone(),
                    redeem_id: redemption.id,
                    redeem_input: redemption.user_input,
                    reward_cost: redemption.reward_cost,
                    reward_id: redemption.reward_id,
                    reward_title: redemption.reward_title,
                    user_id: redemption.user_id,
                    user_login: redemption.user_login,
                    user_name: redemption.user_name,
                };
                only_do(SessionAction::Forward(RedeemCommand::Handle(redeem)))
            },
            PubSubMessage::Other => only_do(SessionAction::Select),
            PubSubMessage::Pong => {
                self.state.awaiting_pong = false;
                SessionStep {
                    action: SessionAction::Select,
                    ping_timer: TimerChange::Keep,
                    pong_timer: TimerChange::Stop,
                    reset_backoff: false,
                }
            },
            PubSubMessage::Reconnect => self.stop(),
            PubSubMessage::Response { nonce, error } => {
                let ours: bool = match &nonce {
                    Some(text) => is_same(text.as_str(), listen_mark()),
                    None => false,
                };
                if !ours {
                    return only_do(SessionAction::Select);
                }
                match error {
                    Some(text) => {
                        if !text.as_str().is_empty() {
                            self.state.result = Err(ControlFlow::Break(SessionError::Refused(text)));
                            return self.stop();
                        }
                    },
                    None => {},
                }
                SessionStep {
                    action: SessionAction::Select,
                    ping_timer: TimerChange::Keep,
                    pong_timer: TimerChange::Keep,
                    reset_backoff: true,
                }
            },
        }
    }

    /// Takes note of what has happened, and says what is to be done next.
    pub fn step(&mut self, event: SessionEvent) -> (r: SessionStep)
        requires
            old(self)@.wf(),
            old(self)@.accepts(event),
        ensures
            final(self)@.wf(),
            final(self)@ == old(self)@.after(event),
            r == old(self)@.response(event),
    {
        match event {
            SessionEvent::Connected => {
                self.state.phase = SessionPhase::Subscribing;
                only_do(SessionAction::SendListen)
            },
            SessionEvent::ConnectFailed(e) => self.end_with(
                Err(ControlFlow::Continue(SessionError::Connect(e))),
            ),
            SessionEvent::Sent => {
                let pinged: bool = self.state.phase == SessionPhase::Pinging;
                let ponged: bool = self.state.phase == SessionPhase::Ponging;
                self.state.phase = SessionPhase::Selecting;
                self.state.awaiting_pong = self.state.awaiting_pong || pinged;
                SessionStep {
                    action: SessionAction::Select,
                    ping_timer: if ponged {
                        TimerChange::Keep
                    } else {
                        TimerChange::Start { seconds: PING_SECONDS }
                    },
                    pong_timer: if pinged {
                        TimerChange::Start { seconds: PONG_SECONDS }
                    } else {
                        TimerChange::Keep
                    },
                    reset_backoff: false,
                }
            },
            SessionEvent::SendFailed(e) => {
                let error: SessionError = match self.state.phase {
                    SessionPhase::Subscribing => SessionError::Listen(e),
                    SessionPhase::Pinging => SessionError::SendPing(e),
                    _ => SessionError::SendPong(e),
                };
                self.end_with(Err(ControlFlow::Continue(error)))
            },
            SessionEvent::Cancelled => {
                self.state.phase = SessionPhase::Closing;
                only_do(SessionAction::Close)
            },
            SessionEvent::CloseSent => {
                self.state.stopping = true;
                self.state.phase = SessionPhase::Selecting;
                only_do(SessionAction::Select)
            },
            SessionEvent::CloseFailed(e) => {
                if self.state.result.is_err() {
                    self.state.result = Err(ControlFlow::Continue(SessionError::Close(e)));
                }
                self.state.stopping = true;
                self.state.phase = SessionPhase::Selecting;
                only_do(SessionAction::Select)
            },
            SessionEvent::PongTimeout => {
                self.state.result = Err(ControlFlow::Continue(SessionError::PingTimeout));
                self.stop()
            },
            SessionEvent::PingDue => {
                self.state.phase = SessionPhase::Pinging;
                only_do(SessionAction::SendPing)
            },
            SessionEvent::StreamEnded => {
                self.state.phase = SessionPhase::Ended;
                only_do(SessionAction::End)
            },
            SessionEvent::ReadFailed(e) => {
                self.state.result = Err(ControlFlow::Continue(SessionError::Read(e)));
                self.stop()
            },
            SessionEvent::CloseReceived => self.end_with(Ok(ControlFlow::Continue(()))),
            SessionEvent::PingReceived(payload) => {
                self.state.phase = SessionPhase::Ponging;
                only_do(SessionAction::SendPong(payload))
            },
            SessionEvent::Message(message) => self.on_message(message),
            SessionEvent::ParseFailed(e) => self.end_with(
                Err(ControlFlow::Continue(SessionError::Parse(e))),
            ),
            SessionEvent::Unsupported => only_do(SessionAction::Select),
            SessionEvent::Forwarded => {
                self.state.phase = SessionPhase::Selecting;
                only_do(SessionAction::Select)
            },
            SessionEvent::ForwardFailed => self.end_with(
                Err(ControlFlow::Break(SessionError::Forward)),
            ),
        }
    }

    /// Takes note of a text that came in, and says what is to be done next.
    pub fn on_text(&mut self, text: &str) -> (r: SessionStep)
        requires
            old(self)@.wf(),
            old(self)@.phase == SessionPhase::Selecting,
        ensures
            final(self)@.wf(),
            exists|event: SessionEvent| #[trigger]
                is_event_of_text(text@, event) && final(self)@ == old(self)@.after(event) && r
                    == old(self)@.response(event),
    {
        let event: SessionEvent = match parse_message(text) {
            Ok(message) => SessionEvent::Message(message),
            Err(e) => SessionEvent::ParseFailed(e),
        };
        assert(is_event_of_text(text@, event));
        self.step(event)
    }

    /// How the session has ended.
    pub fn finish(self) -> (r: SessionOutcome)
        requires
            self@.phase == SessionPhase::Ended,
        ensures
            r == self@.result,
    {
        self.state.result
    }
}

/// The event that a text stands for: the message that is read from it, or else that it cannot be
/// read.
pub open spec fn is_event_of_text(text: Seq<char>, event: SessionEvent) -> bool {
    match event {
        SessionEvent::Message(message) => pubsub_message(text) == Some(message@),
        SessionEvent::ParseFailed(_) => pubsub_message(text) is None,
        _ => false,
    }
}

impl SessionModel {
    /// The session after some events.
    pub open spec fn after_all(self, events: Seq<SessionEvent>) -> SessionModel
        decreases events.len(),
    {
        if events.len() == 0 {
            self
        } else {
            self.after_all(events.drop_last()).after(events.last())
        }
    }

    /// Each of the events can happen when it does.
    pub open spec fn accepts_all(self, events: Seq<SessionEvent>) -> bool
        decreases events.len(),
    {
        if events.len() == 0 {
            true
        } else {
            self.accepts_all(events.drop_last()) && self.after_all(events.drop_last()).accepts(
                events.last(),
            )
        }
    }

    /// The redemptions that are passed on in the course of some events.
    pub open spec fn forwarded(self, events: Seq<SessionEvent>) -> Seq<Redeem>
        decreases events.len(),
    {
        if events.len() == 0 {
            Seq::empty()
        } else {
            let front = events.drop_last();
            match self.after_all(front).response(events.last()).action {
                SessionAction::Forward(RedeemCommand::Handle(redeem)) => self.forwarded(front).push(
                    redeem,
                ),
                _ => self.forwarded(front),
            }
        }
    }

    /// How often the connection is closed in the course of some events.
    pub open spec fn closes(self, events: Seq<SessionEvent>) -> nat
        decreases events.len(),
    {
        if events.len() == 0 {
            0
        } else {
            let front = events.drop_last();
            self.closes(front) + if self.after_all(front).response(events.last()).action is Close {
                1nat
            } else {
                0nat
            }
        }
    }
}

/// The rewards that are redeemed in the course of some events.
pub open spec fn redeemed(events: Seq<SessionEvent>) -> Seq<Redemption>
    decreases events.len(),
{
    if events.len() == 0 {
        Seq::empty()
    } else {
        match events.last() {
            SessionEvent::Message(PubSubMessage::RewardRedeemed(redemption)) => redeemed(
                events.drop_last(),
            ).push(redemption),
            _ => redeemed(events.drop_last()),
        }
    }
}

/// Something went wrong.
pub open spec fn is_trouble(event: SessionEvent) -> bool {
    match event {
        SessionEvent::ConnectFailed(_) | SessionEvent::SendFailed(_) | SessionEvent::PongTimeout
        | SessionEvent::ReadFailed(_) | SessionEvent::ParseFailed(_)
        | SessionEvent::ForwardFailed => true,
        SessionEvent::Message(PubSubMessage::Response { nonce, error }) => is_listen_nonce(nonce)
            && refusal(error) is Some,
        _ => false,
    }
}

/// Whatever happens, a session never asks for a clean exit, and it ends for good only because the
/// service refused the listen request or because nobody takes redemptions. After any other end
/// another session follows.
pub proof fn law_ends_for_good_only_when_refused(session: SessionModel, events: Seq<SessionEvent>)
    requires
        session.wf(),
        session.accepts_all(events),
    ensures
        session.after_all(events).wf(),
        session.after_all(events).channel_token == session.channel_token,
        match session.after_all(events).result {
            Ok(flow) => flow is Continue,
            Err(ControlFlow::Break(e)) => e is Refused || e is Forward,
            Err(ControlFlow::Continue(_)) => true,
        },
    decreases events.len(),
{
    if events.len() > 0 {
        law_ends_for_good_only_when_refused(session, events.drop_last());
    }
}

/// Every redemption is passed on with the session's token, once, in the order in which they come in,
/// and nothing else is passed on.
pub proof fn law_redemptions_are_passed_on(session: SessionModel, events: Seq<SessionEvent>)
    requires
        session.wf(),
        session.accepts_all(events),
    ensures
        session.forwarded(events) == redeemed(events).map_values(
            |redemption: Redemption| redeem_of(session.channel_token, redemption),
        ),
        forall|i: int|
            0 <= i < session.forwarded(events).len() ==> (#[trigger] session.forwarded(
                events,
            )[i]).channel_token.login is Some,
    decreases events.len(),
{
    let passed = |redemption: Redemption| redeem_of(session.channel_token, redemption);
    if events.len() == 0 {
        assert(session.forwarded(events) =~= redeemed(events).map_values(passed));
    } else {
        let front = events.drop_last();
        law_redemptions_are_passed_on(session, front);
        law_ends_for_good_only_when_refused(session, front);
        assert(session.forwarded(events) =~= redeemed(events).map_values(passed));
    }
}

/// The connection is closed once at most.
pub proof fn law_closes_once(session: SessionModel, events: Seq<SessionEvent>)
    requires
        session.phase == SessionPhase::Connecting,
        !session.stopping,
        session.accepts_all(events),
    ensures
        session.closes(events) <= 1,
        session.closes(events) == 1 ==> session.after_all(events).stopping || session.after_all(
            events,
        ).phase == SessionPhase::Closing,
        session.after_all(events).phase == SessionPhase::Closing ==> !session.after_all(
            events,
        ).stopping,
    decreases events.len(),
{
    if events.len() > 0 {
        law_closes_once(session, events.drop_last());
    }
}

/// A session in which nothing goes wrong, however it is cancelled or closed, ends in order and is
/// followed by another one.
pub proof fn law_untroubled_session_goes_on(session: SessionModel, events: Seq<SessionEvent>)
    requires
        session.result is Ok,
        session.wf(),
        session.accepts_all(events),
        forall|i: int| 0 <= i < events.len() ==> !is_trouble(#[trigger] events[i]),
    ensures
        session.after_all(events).wf(),
        session.after_all(events).result == Ok::<
            ControlFlow<()>,
            ControlFlow<SessionError, SessionError>,
        >(ControlFlow::Continue(())),
    decreases events.len(),
{
    if events.len() > 0 {
        let front = events.drop_last();
        assert forall|i: int| 0 <= i < front.len() implies !is_trouble(#[trigger] front[i]) by {
            assert(front[i] == events[i]);
        }
        law_untroubled_session_goes_on(session, front);
        assert(!is_trouble(events[events.len() - 1]));
    }
}

/// Once the service has refused the listen request, the session ends for good with what the service
/// said, unless something goes wrong after that, the connection cannot be closed in order, or the
/// service closes it first.
pub proof fn law_refusal_stands(
    session: SessionModel,
    nonce: Option<String>,
    error: Option<String>,
    events: Seq<SessionEvent>,
)
    requires
        session.phase == SessionPhase::Selecting,
        is_listen_nonce(nonce),
        refusal(error) is Some,
        session.after(
            SessionEvent::Message(PubSubMessage::Response { nonce, error }),
        ).accepts_all(events),
        forall|i: int|
            0 <= i < events.len() ==> !is_trouble(#[trigger] events[i])
                && !(events[i] is CloseFailed) && !(events[i] is CloseReceived),
    ensures
        session.after(
            SessionEvent::Message(PubSubMessage::Response { nonce, error }),
        ).after_all(events).result == Err::<ControlFlow<()>, ControlFlow<SessionError, SessionError>>(
            ControlFlow::Break(SessionError::Refused(refusal(error)->Some_0)),
        ),
    decreases events.len(),
{
    if events.len() > 0 {
        let front = events.drop_last();
        assert forall|i: int| 0 <= i < front.len() implies !is_trouble(#[trigger] front[i])
            && !(front[i] is CloseFailed) && !(front[i] is CloseReceived) by {
            assert(front[i] == events[i]);
        }
        law_refusal_stands(session, nonce, error, front);
        assert(!is_trouble(events[events.len() - 1]));
    }
}

/// The timer for the answer runs exactly while a ping is waiting for its answer.
pub proof fn law_pong_timer_follows_ping(session: SessionModel, event: SessionEvent)
    requires
        session.accepts(event),
    ensures
        session.after(event).awaiting_pong == (match session.response(event).pong_timer {
            TimerChange::Keep => session.awaiting_pong,
            TimerChange::Stop => false,
            TimerChange::Start { .. } => true,
        }),
{
}

/// The waiting time before the next connection is dropped exactly when the service accepts the
/// listen request.
pub proof fn law_backoff_is_dropped_when_listening(session: SessionModel, event: SessionEvent)
    requires
        session.accepts(event),
    ensures
        session.response(event).reset_backoff <==> match event {
            SessionEvent::Message(PubSubMessage::Response { nonce, error }) => is_listen_nonce(
                nonce,
            ) && refusal(error) is None,
            _ => false,
        },
{
}

/// Every redemption that comes in while the session waits is passed on field by field, with the token of
/// the session's channel: whatever is in it, nothing is left out, changed or mixed up.
pub proof fn law_redemption_field_by_field(session: SessionModel, redemption: Redemption)
    requires
        session.phase == SessionPhase::Selecting,
    ensures
        session.accepts(SessionEvent::Message(PubSubMessage::RewardRedeemed(redemption))),
        session.response(
            SessionEvent::Message(PubSubMessage::RewardRedeemed(redemption)),
        ).action matches SessionAction::Forward(RedeemCommand::Handle(redeem)) && {
            &&& redeem.channel_token == session.channel_token
            &&& redeem.redeem_id == redemption.id
            &&& redeem.redeem_input == redemption.user_input
            &&& redeem.reward_cost == redemption.reward_cost
            &&& redeem.reward_id == redemption.reward_id
            &&& redeem.reward_title == redemption.reward_title
            &&& redeem.user_id == redemption.user_id
            &&& redeem.user_login == redemption.user_login
            &&& redeem.user_name == redemption.user_name
        },
        session.after(
            SessionEvent::Message(PubSubMessage::RewardRedeemed(redemption)),
        ).phase == SessionPhase::Forwarding,
{
}

/// What can happen to a session: while it connects, sends, closes or passes on, the outcome of that;
/// while it waits, whatever comes in, and until it closes the connection also that it is cancelled or
/// a ping is due, and that a ping was not answered where one is waiting for its answer. Nothing happens
/// to one that has ended.
pub proof fn law_what_can_happen_to_a_session(session: SessionModel, event: SessionEvent)
    ensures
        session.accepts(event) <==> match session.phase {
            SessionPhase::Connecting => event is Connected || event is ConnectFailed,
            SessionPhase::Subscribing | SessionPhase::Pinging | SessionPhase::Ponging => event is Sent
                || event is SendFailed,
            SessionPhase::Closing => event is CloseSent || event is CloseFailed,
            SessionPhase::Forwarding => event is Forwarded || event is ForwardFailed,
            SessionPhase::Ended => false,
            SessionPhase::Selecting => event is StreamEnded || event is ReadFailed || event
                is CloseReceived || event is PingReceived || event is Message || event is ParseFailed
                || event is Unsupported || (!session.stopping && (event is Cancelled || event
                is PingDue)) || (!session.stopping && session.awaiting_pong && event is PongTimeout),
        },
{
}

/// What is done next: once connected the listen request is sent, a ping that is due is sent, a ping that
/// came in is answered with what it held, the connection is closed when the session is cancelled, when
/// the service wants it or refuses the request, when a ping was not answered and when the connection
/// fails, unless it is being closed already; the session ends when nothing more can come of it, and
/// otherwise waits.
pub proof fn law_what_a_session_does_next(session: SessionModel, event: SessionEvent)
    requires
        session.accepts(event),
    ensures
        ({
            let action = session.response(event).action;
            let closes = if session.stopping {
                action is Select
            } else {
                action is Close
            };
            match event {
                SessionEvent::Connected => action is SendListen,
                SessionEvent::PingDue => action is SendPing,
                SessionEvent::PingReceived(payload) => action == SessionAction::SendPong(payload),
                SessionEvent::Cancelled => action is Close,
                SessionEvent::PongTimeout => closes,
                SessionEvent::ReadFailed(_) => closes,
                SessionEvent::Message(PubSubMessage::Reconnect) => closes,
                SessionEvent::Message(PubSubMessage::Response { nonce, error }) => if nonce is Some
                    && nonce->Some_0@ == "Listen"@ && error is Some && error->Some_0@.len() > 0 {
                    closes
                } else {
                    action is Select
                },
                SessionEvent::Message(PubSubMessage::RewardRedeemed(_)) => action is Forward,
                SessionEvent::Message(_) => action is Select,
                SessionEvent::Sent | SessionEvent::CloseSent | SessionEvent::CloseFailed(_)
                | SessionEvent::Unsupported | SessionEvent::Forwarded => action is Select,
                SessionEvent::ConnectFailed(_) | SessionEvent::SendFailed(_)
                | SessionEvent::StreamEnded | SessionEvent::CloseReceived
                | SessionEvent::ParseFailed(_) | SessionEvent::ForwardFailed => action is End,
            }
        }),
{
}

/// What is to be done next says where the session is, and with that what can happen to it.
pub proof fn law_where_a_session_is(session: SessionModel, event: SessionEvent)
    requires
        session.accepts(event),
    ensures
        session.after(event).phase == (match session.response(event).action {
            SessionAction::Connect => SessionPhase::Connecting,
            SessionAction::SendListen => SessionPhase::Subscribing,
            SessionAction::Select => SessionPhase::Selecting,
            SessionAction::Close => SessionPhase::Closing,
            SessionAction::SendPing => SessionPhase::Pinging,
            SessionAction::SendPong(_) => SessionPhase::Ponging,
            SessionAction::Forward(_) => SessionPhase::Forwarding,
            SessionAction::End => SessionPhase::Ended,
        }),
{
}

/// How a session will end. What goes wrong decides, with its cause; a close from the service sets
/// everything right; a failure to close counts only where something had gone wrong before; and nothing
/// else has any effect. Only a refused listen request and a redemption that nobody takes are for good.
pub proof fn law_how_a_session_will_end(session: SessionModel, event: SessionEvent)
    requires
        session.accepts(event),
    ensures
        ({
            let result = session.after(event).result;
            match event {
                SessionEvent::ConnectFailed(e) => result == Err::<
                    ControlFlow<()>,
                    ControlFlow<SessionError, SessionError>,
                >(ControlFlow::Continue(SessionError::Connect(e))),
                SessionEvent::SendFailed(e) => result == Err::<
                    ControlFlow<()>,
                    ControlFlow<SessionError, SessionError>,
                >(
                    ControlFlow::Continue(
                        if session.phase == SessionPhase::Subscribing {
                            SessionError::Listen(e)
                        } else if session.phase == SessionPhase::Pinging {
                            SessionError::SendPing(e)
                        } else {
                            SessionError::SendPong(e)
                        },
                    ),
                ),
                SessionEvent::PongTimeout => result == Err::<
                    ControlFlow<()>,
                    ControlFlow<SessionError, SessionError>,
                >(ControlFlow::Continue(SessionError::PingTimeout)),
                SessionEvent::ReadFailed(e) => result == Err::<
                    ControlFlow<()>,
                    ControlFlow<SessionError, SessionError>,
                >(ControlFlow::Continue(SessionError::Read(e))),
                SessionEvent::ParseFailed(e) => result == Err::<
                    ControlFlow<()>,
                    ControlFlow<SessionError, SessionError>,
                >(ControlFlow::Continue(SessionError::Parse(e))),
                SessionEvent::ForwardFailed => result == Err::<
                    ControlFlow<()>,
                    ControlFlow<SessionError, SessionError>,
                >(ControlFlow::Break(SessionError::Forward)),
                SessionEvent::CloseReceived => result == Ok::<
                    ControlFlow<()>,
                    ControlFlow<SessionError, SessionError>,
                >(ControlFlow::Continue(())),
                SessionEvent::CloseFailed(e) => if session.result is Err {
                    result == Err::<ControlFlow<()>, ControlFlow<SessionError, SessionError>>(
                        ControlFlow::Continue(SessionError::Close(e)),
                    )
                } else {
                    result == session.result
                },
                SessionEvent::Message(PubSubMessage::Response { nonce, error }) => if nonce is Some
                    && nonce->Some_0@ == "Listen"@ && error is Some && error->Some_0@.len() > 0 {
                    result == Err::<ControlFlow<()>, ControlFlow<SessionError, SessionError>>(
                        ControlFlow::Break(SessionError::Refused(error->Some_0)),
                    )
                } else {
                    result == session.result
                },
                _ => result == session.result,
            }
        }),
{
}

/// What a session keeps: its channel and its listen request always; that it closes the connection from
/// when that was tried, and not before; that a ping is waiting from when it was sent until an answer
/// comes.
pub proof fn law_what_a_session_keeps(session: SessionModel, event: SessionEvent)
    requires
        session.accepts(event),
    ensures
        session.after(event).channel_token == session.channel_token,
        session.after(event).listen == session.listen,
        session.after(event).stopping == (session.stopping || event is CloseSent || event
            is CloseFailed),
        session.after(event).awaiting_pong == (if event == SessionEvent::Message(
            PubSubMessage::Pong,
        ) {
            false
        } else {
            session.awaiting_pong || (event is Sent && session.phase == SessionPhase::Pinging)
        }),
{
}

/// The timers: the next ping is due four and a half minutes after the listen request or a ping was sent,
/// the answer to a ping ten seconds after it was sent, and an answer stops the wait for it. The waiting
/// time before the next connection is dropped when the listen request is accepted, and only then.
pub proof fn law_session_timers(session: SessionModel, event: SessionEvent)
    requires
        session.accepts(event),
    ensures
        session.response(event).ping_timer == (if event is Sent && session.phase
            != SessionPhase::Ponging {
            TimerChange::Start { seconds: 270 }
        } else {
            TimerChange::Keep
        }),
        session.response(event).pong_timer == (if event is Sent && session.phase
            == SessionPhase::Pinging {
            TimerChange::Start { seconds: 10 }
        } else if event == SessionEvent::Message(PubSubMessage::Pong) {
            TimerChange::Stop
        } else {
            TimerChange::Keep
        }),
        session.response(event).reset_backoff <==> (event matches SessionEvent::Message(
            PubSubMessage::Response { nonce, error },
        ) && nonce is Some && nonce->Some_0@ == "Listen"@ && (error is None || error->Some_0@.len()
            == 0)),
{
}

/// Of what is ready while a session waits, a cancellation comes first, then a ping that was not answered,
/// then a ping that is due, and then what came in. While the connection is being closed only what came
/// in counts, and without a ping that waits for its answer the time for it does not.
pub proof fn law_what_a_session_acts_on_first(
    session: SessionModel,
    pong_over: bool,
    ping_due: bool,
    incoming: bool,
)
    ensures
        !session.stopping ==> session.choice(true, pong_over, ping_due, incoming) == Some(
            SessionChoice::Cancelled,
        ),
        !session.stopping && session.awaiting_pong ==> session.choice(false, true, ping_due, incoming)
            == Some(SessionChoice::PongTimeout),
        !session.stopping && !session.awaiting_pong ==> session.choice(
            false,
            pong_over,
            true,
            incoming,
        ) == Some(SessionChoice::PingDue),
        !session.stopping ==> session.choice(false, false, true, incoming) == Some(
            SessionChoice::PingDue,
        ),
        session.stopping ==> forall|cancelled: bool|
            (#[trigger] session.choice(cancelled, pong_over, ping_due, incoming)) == (if incoming {
                Some(SessionChoice::Incoming)
            } else {
                None
            }),
        !session.stopping ==> session.choice(false, false, false, incoming) == (if incoming {
            Some(SessionChoice::Incoming)
        } else {
            None
        }),
        !session.awaiting_pong ==> session.choice(false, pong_over, false, incoming) == (if incoming {
            Some(SessionChoice::Incoming)
        } else {
            None
        }),
{
}

/// A text stands for the message that is read from it, or for one that cannot be read, and never for
/// anything else.
pub proof fn law_what_a_text_stands_for(text: Seq<char>, event: SessionEvent)
    ensures
        is_event_of_text(text, event) <==> (event matches SessionEvent::Message(message)
            && pubsub_message(text) == Some(message@)) || (event is ParseFailed && pubsub_message(
            text,
        ) is None),
{
}

/// A new session is about to connect, keeps the channel and the listen request that it was made with, and
/// would end in order.
pub proof fn law_new_session(token: Arc<ChannelToken>, listen: String)
    ensures
        ({
            let new = SessionModel::fresh(token, listen);
            &&& new.phase == SessionPhase::Connecting
            &&& new.channel_token == token
            &&& new.listen == listen
            &&& new.result == Ok::<ControlFlow<()>, ControlFlow<SessionError, SessionError>>(
                ControlFlow::Continue(()),
            )
            &&& !new.stopping
            &&& !new.awaiting_pong
        }),
        listen_nonce() == "Listen"@,
{
}

/// What is said about a session that failed does not depend on the cause, and a listen request that was
/// not sent reads like one that was refused.
pub proof fn law_session_errors_read_alike(a: String, b: String)
    ensures
        SessionError::Connect(a).text() == SessionError::Connect(b).text(),
        SessionError::Listen(a).text() == SessionError::Refused(b).text(),
        SessionError::Refused(a).text() == SessionError::Refused(b).text(),
        SessionError::Close(a).text() == SessionError::Close(b).text(),
        SessionError::SendPing(a).text() == SessionError::SendPing(b).text(),
        SessionError::Read(a).text() == SessionError::Read(b).text(),
        SessionError::SendPong(a).text() == SessionError::SendPong(b).text(),
{
}

} // verus!
