//! The channel's side: whom the auth token belongs to, and when to connect again.

use crate::redeem::ChannelToken;
use crate::session::{SessionError, SessionOutcome};
use crate::text::{parse_u32, parsed_u32};
use std::ops::ControlFlow;
use vstd::prelude::*;

verus! {

/// The shortest waiting time, in seconds.
pub const BACKOFF_MIN: u32 = 1;

/// The longest waiting time, in seconds.
pub const BACKOFF_MAX: u32 = 120;

/// By how much a waiting time grows, in seconds.
pub const BACKOFF_STEP: u32 = 2;

/// Why the auth token is of no use.
#[derive(Clone, Copy, Debug, PartialEq, Eq, Structural)]
pub enum TokenError {
    NoUserId,
    BadChannelId,
    NoLogin,
}

/// Why the client has stopped.
#[derive(Debug)]
pub enum TwitchError {
    /// A session has ended for good.
    Session(SessionError),
    /// A session could not be run.
    Join(String),
}

/// How a session came to its end.
#[derive(Debug)]
pub enum SessionEnd {
    /// The client was cancelled before the session ended.
    Cancelled,
    /// The session ended by itself.
    Finished(SessionOutcome),
    /// The session could not be run.
    Failed(String),
}

/// What follows on a session.
#[derive(Debug)]
pub enum ClientNext {
    /// The client stops.
    Stop(Result<(), TwitchError>),
    /// Another session is begun, at once or after so many seconds.
    Reconnect { wait: Option<u32> },
}

/// What the client is at.
#[derive(Clone, Copy, Debug, PartialEq, Eq, Structural)]
pub enum TwitchPhase {
    /// It is about to begin a session.
    Starting,
    /// A session runs.
    Running,
    /// The session was cancelled, where it had not ended by itself, and its end is waited for.
    Joining,
    /// It waits before it begins another session.
    Waiting,
    /// It is done.
    Stopped,
}

/// What has happened.
#[derive(Debug)]
pub enum TwitchEvent {
    /// A session was begun.
    Started,
    /// The session is listening.
    Listening,
    /// The session is to come to its end, or has done so.
    Ended(SessionEnd),
    /// The session has ended.
    Joined,
    /// The waiting time is over.
    Waited,
}

/// What is to be done next.
#[derive(Debug)]
pub enum TwitchAction {
    /// Begin a session.
    Start,
    /// Wait until the session ends or the client is cancelled.
    Run,
    /// Cancel the session, and wait for its end.
    Join,
    /// Wait for so many seconds.
    Wait { seconds: u32 },
    /// Stop with this result.
    Stop(Result<(), TwitchError>),
    /// Nothing but what was to be done before.
    GoOn,
}

impl TokenError {
    /// What is wrong.
    pub open spec fn text(self) -> Seq<char> {
        match self {
            TokenError::NoUserId => "User token does not specify a user ID!"@,
            TokenError::BadChannelId => "Failed to parse channel ID"@,
            TokenError::NoLogin => "User token does not specify a login!"@,
        }
    }

    /// A phrase for the user.
    pub fn message(&self) -> (r: &'static str)
        ensures
            r@ == self.text(),
    {
        match self {
            TokenError::NoUserId => "User token does not specify a user ID!",
            TokenError::BadChannelId => "Failed to parse channel ID",
            TokenError::NoLogin => "User token does not specify a login!",
        }
    }
}

impl TwitchError {
    /// What failed.
    pub open spec fn text(self) -> Seq<char> {
        match self {
            TwitchError::Session(_) => "Twitch session ended with an unrecoverable error"@,
            TwitchError::Join(_) => "Twitch session failed to run"@,
        }
    }

    /// A phrase for the user.
    pub fn message(&self) -> (r: &'static str)
        ensures
            r@ == self.text(),
    {
        match self {
            TwitchError::Session(_) => "Twitch session ended with an unrecoverable error",
            TwitchError::Join(_) => "Twitch session failed to run",
        }
    }
}

impl ChannelToken {
    /// The number of the channel that the token belongs to, or what is missing.
    pub open spec fn identity(self) -> Result<u32, TokenError> {
        match self.user_id {
            None => Err(TokenError::NoUserId),
            Some(user_id) => match parsed_u32(user_id@) {
                None => Err(TokenError::BadChannelId),
                Some(channel_id) => if self.login is None {
                    Err(TokenError::NoLogin)
                } else {
                    Ok(channel_id)
                },
            },
        }
    }

    /// The number of the channel that the token belongs to. The token must name a user by a number
    /// and by a login.
    pub fn channel_id(&self) -> (r: Result<u32, TokenError>)
        ensures
            r == self.identity(),
            r is Ok ==> self.login is Some,
    {
        let channel_id: u32 = match &self.user_id {
            None => {
                return Err(TokenError::NoUserId);
            },
            Some(user_id) => match parse_u32(user_id.as_str()) {
                None => {
                    return Err(TokenError::BadChannelId);
                },
                Some(channel_id) => channel_id,
            },
        };
        if self.login.is_none() {
            return Err(TokenError::NoLogin);
        }
        Ok(channel_id)
    }
}

/// The waiting time that follows on another: two seconds longer, within the limits.
pub open spec fn grown(backoff: nat) -> nat {
    let longer = backoff + BACKOFF_STEP as nat;
    if longer < BACKOFF_MIN {
        BACKOFF_MIN as nat
    } else if longer > BACKOFF_MAX {
        BACKOFF_MAX as nat
    } else {
        longer
    }
}

/// The waiting time after so many sessions in a row that ended before they were listening, where it
/// was `first` for the first one.
pub open spec fn backoff_after(first: nat, sessions: nat) -> nat
    decreases sessions,
{
    if sessions == 0 {
        first
    } else {
        grown(backoff_after(first, (sessions - 1) as nat))
    }
}

/// The client, as far as it shows.
#[derive(Debug)]
pub struct TwitchModel {
    pub phase: TwitchPhase,
    /// How long to wait before the next session, in seconds.
    pub backoff: u32,
    /// How the session came to its end, while its end is waited for.
    pub end: Option<SessionEnd>,
}

impl TwitchModel {
    /// A client that is yet to begin its first session.
    pub open spec fn fresh() -> TwitchModel {
        TwitchModel { phase: TwitchPhase::Starting, backoff: BACKOFF_MIN, end: None }
    }

    /// The waiting time is within the limits, and it is known how a session came to its end exactly
    /// while its end is waited for.
    pub open spec fn inv(self) -> bool {
        &&& self.backoff <= BACKOFF_MAX
        &&& self.end is Some <==> self.phase == TwitchPhase::Joining
    }

    /// What follows on a session that ended in this way.
    pub open spec fn next(self, end: SessionEnd) -> ClientNext {
        match end {
            SessionEnd::Cancelled => ClientNext::Stop(Ok(())),
            SessionEnd::Finished(Ok(ControlFlow::Break(_))) => ClientNext::Stop(Ok(())),
            SessionEnd::Finished(Err(ControlFlow::Break(e))) => ClientNext::Stop(
                Err(TwitchError::Session(e)),
            ),
            SessionEnd::Failed(e) => ClientNext::Stop(Err(TwitchError::Join(e))),
            SessionEnd::Finished(Ok(ControlFlow::Continue(_)))
            | SessionEnd::Finished(Err(ControlFlow::Continue(_))) => ClientNext::Reconnect {
                wait: if self.backoff > 0 {
                    Some(self.backoff)
                } else {
                    None
                },
            },
        }
    }

    /// What can happen next.
    pub open spec fn accepts(self, event: TwitchEvent) -> bool {
        match event {
            TwitchEvent::Started => self.phase == TwitchPhase::Starting,
            TwitchEvent::Listening => self.phase == TwitchPhase::Running || self.phase
                == TwitchPhase::Joining,
            TwitchEvent::Ended(_) => self.phase == TwitchPhase::Running,
            TwitchEvent::Joined => self.phase == TwitchPhase::Joining,
            TwitchEvent::Waited => self.phase == TwitchPhase::Waiting,
        }
    }

    /// What is acted on while a session runs, where several things may be ready at once: that the
    /// client was cancelled first, and then the end of the session.
    pub open spec fn choice(cancelled: bool, end: Option<SessionEnd>) -> Option<TwitchEvent> {
        if cancelled {
            Some(TwitchEvent::Ended(SessionEnd::Cancelled))
        } else {
            match end {
                Some(end) => Some(TwitchEvent::Ended(end)),
                None => None,
            }
        }
    }

    /// The client after an event. While a session is listening no waiting time is due, and each
    /// session that is to be followed by another makes the next waiting time longer.
    pub open spec fn after(self, event: TwitchEvent) -> TwitchModel {
        match event {
            TwitchEvent::Started => TwitchModel { phase: TwitchPhase::Running, ..self },
            TwitchEvent::Listening => TwitchModel { backoff: 0, ..self },
            TwitchEvent::Ended(end) => TwitchModel {
                phase: TwitchPhase::Joining,
                end: Some(end),
                ..self
            },
            TwitchEvent::Joined => match self.next(self.end->Some_0) {
                ClientNext::Stop(_) => TwitchModel {
                    phase: TwitchPhase::Stopped,
                    end: None,
                    ..self
                },
                ClientNext::Reconnect { wait } => TwitchModel {
                    phase: if wait is Some {
                        TwitchPhase::Waiting
                    } else {
                        TwitchPhase::Starting
                    },
                    backoff: grown(self.backoff as nat) as u32,
                    end: None,
                },
            },
            TwitchEvent::Waited => TwitchModel { phase: TwitchPhase::Starting, ..self },
        }
    }

    /// What is to be done about an event.
    pub open spec fn response(self, event: TwitchEvent) -> TwitchAction {
        match event {
            TwitchEvent::Started => TwitchAction::Run,
            TwitchEvent::Listening => TwitchAction::GoOn,
            TwitchEvent::Ended(_) => TwitchAction::Join,
            TwitchEvent::Joined => match self.next(self.end->Some_0) {
                ClientNext::Stop(result) => TwitchAction::Stop(result),
                ClientNext::Reconnect { wait: Some(seconds) } => TwitchAction::Wait { seconds },
                ClientNext::Reconnect { wait: None } => TwitchAction::Start,
            },
            TwitchEvent::Waited => TwitchAction::Start,
        }
    }

    /// The client after some events.
    pub open spec fn after_all(self, events: Seq<TwitchEvent>) -> TwitchModel
        decreases events.len(),
    {
        if events.len() == 0 {
            self
        } else {
            self.after_all(events.drop_last()).after(events.last())
        }
    }

    /// Each of the events can happen when it does.
    pub open spec fn accepts_all(self, events: Seq<TwitchEvent>) -> bool
        decreases events.len(),
    {
        if events.len() == 0 {
            true
        } else {
            self.accepts_all(events.drop_last()) && self.after_all(events.drop_last()).accepts(
                events.last(),
            )
        }
    }
}

/// How many sessions are begun in the course of some events.
pub open spec fn begun(events: Seq<TwitchEvent>) -> nat
    decreases events.len(),
{
    if events.len() == 0 {
        0
    } else {
        begun(events.drop_last()) + if events.last() is Started {
            1nat
        } else {
            0nat
        }
    }
}

/// How many sessions have ended in the course of some events.
pub open spec fn over(events: Seq<TwitchEvent>) -> nat
    decreases events.len(),
{
    if events.len() == 0 {
        0
    } else {
        over(events.drop_last()) + if events.last() is Joined {
            1nat
        } else {
            0nat
        }
    }
}

/// How the last session came to its end.
pub open spec fn last_end(events: Seq<TwitchEvent>) -> Option<SessionEnd>
    decreases events.len(),
{
    if events.len() == 0 {
        None
    } else {
        match events.last() {
            TwitchEvent::Ended(end) => Some(end),
            _ => last_end(events.drop_last()),
        }
    }
}

/// Begins sessions one after the other.
#[derive(Debug)]
pub struct TwitchClient {
    state: TwitchModel,
}

impl View for TwitchClient {
    type V = TwitchModel;

    closed spec fn view(&self) -> TwitchModel {
        self.state
    }
}

impl TwitchClient {
    /// A client that is yet to begin its first session.
    pub fn new() -> (r: Self)
        ensures
            r@.inv(),
            r@ == TwitchModel::fresh(),
    {
        TwitchClient {
            state: TwitchModel { phase: TwitchPhase::Starting, backoff: BACKOFF_MIN, end: None },
        }
    }

    /// Whether `event` can happen next.
    pub fn takes(&self, event: &TwitchEvent) -> (r: bool)
        ensures
            r == self@.accepts(*event),
    {
        match event {
            TwitchEvent::Started => self.state.phase == TwitchPhase::Starting,
            TwitchEvent::Listening => self.state.phase == TwitchPhase::Running
                || self.state.phase == TwitchPhase::Joining,
            TwitchEvent::Ended(_) => self.state.phase == TwitchPhase::Running,
            TwitchEvent::Joined => self.state.phase == TwitchPhase::Joining,
            TwitchEvent::Waited => self.state.phase == TwitchPhase::Waiting,
        }
    }

    /// Which of the things that are ready happens to a client whose session runs.
    pub fn chosen(&self, cancelled: bool, end: Option<SessionEnd>) -> (r: Option<TwitchEvent>)
        requires
            self@.phase == TwitchPhase::Running,
        ensures
            r == TwitchModel::choice(cancelled, end),
            r matches Some(event) ==> self@.accepts(event),
    {
        if cancelled {
            return Some(TwitchEvent::Ended(SessionEnd::Cancelled));
        }
        match end {
            Some(end) => Some(TwitchEvent::Ended(end)),
            None => None,
        }
    }

    /// Takes note of what has happened, and says what is to be done next.
    pub fn step(&mut self, event: TwitchEvent) -> (r: TwitchAction)
        requires
            old(self)@.inv(),
            old(self)@.accepts(event),
        ensures
            final(self)@.inv(),
            final(self)@ == old(self)@.after(event),
            r == old(self)@.response(event),
    {
        match event {
            TwitchEvent::Started => {
                self.state.phase = TwitchPhase::Running;
                TwitchAction::Run
            },
            TwitchEvent::Listening => {
                self.state.backoff = 0;
                TwitchAction::GoOn
            },
            TwitchEvent::Ended(end) => {
                self.state.phase = TwitchPhase::Joining;
                self.state.end = Some(end);
                TwitchAction::Join
            },
            TwitchEvent::Joined => match self.state.end.take() {
                Some(end) => self.session_over(end),
                None => TwitchAction::GoOn,
            },
            TwitchEvent::Waited => {
                self.state.phase = TwitchPhase::Starting;
                TwitchAction::Start
            },
        }
    }

    /// Decides what follows on a session that has ended.
    fn session_over(&mut self, end: SessionEnd) -> (r: TwitchAction)
        requires
            old(self)@.phase == TwitchPhase::Joining,
            old(self)@.backoff <= BACKOFF_MAX,
            old(self)@.end is None,
        ensures
            final(self)@.inv(),
            final(self)@ == (TwitchModel { end: Some(end), ..old(self)@ }).after(
                TwitchEvent::Joined,
            ),
            r == (TwitchModel { end: Some(end), ..old(self)@ }).response(TwitchEvent::Joined),
    {
        match end {
            SessionEnd::Cancelled => {
                self.state.phase = TwitchPhase::Stopped;
                TwitchAction::Stop(Ok(()))
            },
            SessionEnd::Finished(Ok(ControlFlow::Break(_))) => {
                self.state.phase = TwitchPhase::Stopped;
                TwitchAction::Stop(Ok(()))
            },
            SessionEnd::Finished(Err(ControlFlow::Break(e))) => {
                self.state.phase = TwitchPhase::Stopped;
                TwitchAction::Stop(Err(TwitchError::Session(e)))
            },
            SessionEnd::Failed(e) => {
                self.state.phase = TwitchPhase::Stopped;
                TwitchAction::Stop(Err(TwitchError::Join(e)))
            },
            SessionEnd::Finished(Ok(ControlFlow::Continue(_)))
            | SessionEnd::Finished(Err(ControlFlow::Continue(_))) => {
                let seconds: u32 = self.state.backoff;
                let longer: u32 = seconds + BACKOFF_STEP;
                self.state.backoff = if longer > BACKOFF_MAX {
                    BACKOFF_MAX
                } else {
                    longer
                };
                if seconds > 0 {
                    self.state.phase = TwitchPhase::Waiting;
                    TwitchAction::Wait { seconds }
                } else {
                    self.state.phase = TwitchPhase::Starting;
                    TwitchAction::Start
                }
            },
        }
    }
}

/// Waiting times grow by two seconds each, up to the longest one: from one second in a client that
/// has not been listening yet, and from none at all in one that has.
pub proof fn law_backoff_grows_steadily(sessions: nat)
    ensures
        backoff_after(BACKOFF_MIN as nat, sessions) == (if 1 + 2 * sessions <= BACKOFF_MAX {
            1 + 2 * sessions
        } else {
            BACKOFF_MAX as nat
        }),
        backoff_after(0, sessions) == (if 2 * sessions <= BACKOFF_MAX {
            2 * sessions
        } else {
            BACKOFF_MAX as nat
        }),
    decreases sessions,
{
    if sessions > 0 {
        law_backoff_grows_steadily((sessions - 1) as nat);
    }
}

/// A client counts the sessions that have ended before they were listening: after so many of them it
/// waits accordingly, and then begins another one with one more behind it. The count begins with a
/// new client, and anew whenever a session is listening.
pub proof fn law_sessions_add_up(
    client: TwitchModel,
    first: nat,
    sessions: nat,
    end: SessionEnd,
)
    requires
        client.inv(),
        client.phase == TwitchPhase::Running,
        client.backoff == backoff_after(first, sessions),
        client.next(end) is Reconnect,
    ensures
        TwitchModel::fresh().backoff == backoff_after(BACKOFF_MIN as nat, 0),
        client.after(TwitchEvent::Listening).backoff == backoff_after(0, 0),
        ({
            let joining = client.after(TwitchEvent::Ended(end));
            let over = joining.after(TwitchEvent::Joined);
            let action = joining.response(TwitchEvent::Joined);
            let again = if over.phase == TwitchPhase::Waiting {
                over.after(TwitchEvent::Waited)
            } else {
                over
            };
            let seconds = backoff_after(first, sessions);
            &&& seconds > 0 ==> over.phase == TwitchPhase::Waiting && action == (
            TwitchAction::Wait { seconds: seconds as u32 })
            &&& seconds == 0 ==> over.phase == TwitchPhase::Starting && action == TwitchAction::Start
            &&& again.inv()
            &&& again.accepts(TwitchEvent::Started)
            &&& again.backoff == backoff_after(first, sessions + 1)
        }),
{
}

/// The client goes on after every session but one that ended for good, one that could not be run, and
/// one that was cancelled; and a client that has been listening connects again at once.
pub proof fn law_client_goes_on(client: TwitchModel, end: SessionEnd)
    ensures
        client.next(end) is Reconnect <==> match end {
            SessionEnd::Finished(Ok(flow)) => flow is Continue,
            SessionEnd::Finished(Err(flow)) => flow is Continue,
            _ => false,
        },
        client.backoff == 0 && client.next(end) is Reconnect ==> client.next(end) == (
        ClientNext::Reconnect { wait: None }),
{
}

/// At most one session runs at any time, and none while the client is about to begin one, waits or
/// has stopped.
pub proof fn law_one_session_at_a_time(events: Seq<TwitchEvent>)
    requires
        TwitchModel::fresh().accepts_all(events),
    ensures
        ({
            let now = TwitchModel::fresh().after_all(events);
            &&& now.inv()
            &&& begun(events) - over(events) == (if now.phase == TwitchPhase::Running || now.phase
                == TwitchPhase::Joining {
                1int
            } else {
                0int
            })
        }),
    decreases events.len(),
{
    if events.len() > 0 {
        law_one_session_at_a_time(events.drop_last());
    }
}

/// A client stops only after a session that was cancelled, could not be run or ended for good. It
/// stops without an error only if it was cancelled or the session asked for a clean exit.
pub proof fn law_when_the_client_stops(events: Seq<TwitchEvent>)
    requires
        TwitchModel::fresh().accepts_all(events),
    ensures
        ({
            let now = TwitchModel::fresh().after_all(events);
            &&& now.phase == TwitchPhase::Joining ==> now.end == last_end(events)
            &&& now.phase == TwitchPhase::Stopped ==> {
                let before = TwitchModel::fresh().after_all(events.drop_last());
                &&& events.last() is Joined
                &&& last_end(events) is Some
                &&& before.response(events.last()) matches TwitchAction::Stop(result)
                &&& match last_end(events)->Some_0 {
                    SessionEnd::Cancelled => result is Ok,
                    SessionEnd::Finished(Ok(flow)) => flow is Break && result is Ok,
                    SessionEnd::Finished(Err(ControlFlow::Break(e))) => result == Err::<
                        (),
                        TwitchError,
                    >(TwitchError::Session(e)),
                    SessionEnd::Finished(Err(ControlFlow::Continue(_))) => false,
                    SessionEnd::Failed(e) => result == Err::<(), TwitchError>(TwitchError::Join(e)),
                }
            }
        }),
    decreases events.len(),
{
    if events.len() > 0 {
        law_one_session_at_a_time(events.drop_last());
        law_when_the_client_stops(events.drop_last());
    }
}

/// Nothing happens to a client that has stopped: it begins no other session.
pub proof fn law_stopped_client_stays_so(client: TwitchModel, events: Seq<TwitchEvent>)
    requires
        client.phase == TwitchPhase::Stopped,
        client.accepts_all(events),
    ensures
        events.len() == 0,
    decreases events.len(),
{
    if events.len() > 0 {
        law_stopped_client_stays_so(client, events.drop_last());
    }
}

/// After a session that was cancelled, could not be run or ended for good, the client stops as soon as
/// the session is over. After any other it begins another one.
pub proof fn law_sessions_that_end_for_good(client: TwitchModel, end: SessionEnd)
    requires
        client.inv(),
        client.phase == TwitchPhase::Running,
    ensures
        ({
            let joining = client.after(TwitchEvent::Ended(end));
            let next = joining.after(TwitchEvent::Joined);
            &&& joining.accepts(TwitchEvent::Joined)
            &&& next.phase == TwitchPhase::Stopped <==> client.next(end) is Stop
            &&& next.phase == TwitchPhase::Waiting || next.phase == TwitchPhase::Starting
                <==> client.next(end) is Reconnect
            &&& client.next(end) matches ClientNext::Stop(result) ==> joining.response(
                TwitchEvent::Joined,
            ) == TwitchAction::Stop(result)
        }),
{
}

/// A token names a channel if and only if its user ID is there and a number, and its login is there too.
/// What is missing is reported in this order.
pub proof fn law_what_a_token_names(token: ChannelToken)
    ensures
        token.identity() is Ok <==> token.user_id is Some && parsed_u32(token.user_id->Some_0@) is Some
            && token.login is Some,
        token.identity() matches Ok(channel_id) ==> parsed_u32(token.user_id->Some_0@) == Some(
            channel_id,
        ),
        token.user_id is None ==> token.identity() == Err::<u32, TokenError>(TokenError::NoUserId),
        token.user_id is Some && parsed_u32(token.user_id->Some_0@) is None ==> token.identity()
            == Err::<u32, TokenError>(TokenError::BadChannelId),
        token.user_id is Some && parsed_u32(token.user_id->Some_0@) is Some && token.login is None
            ==> token.identity() == Err::<u32, TokenError>(TokenError::NoLogin),
{
}

/// What can happen to a client: it begins a session, which may come to listen and to its end, is waited
/// for, and may be followed by a wait. Nothing happens to one that has stopped.
pub proof fn law_what_can_happen_to_a_client(client: TwitchModel, event: TwitchEvent)
    ensures
        client.accepts(event) <==> match client.phase {
            TwitchPhase::Starting => event is Started,
            TwitchPhase::Running => event is Ended || event is Listening,
            TwitchPhase::Joining => event is Joined || event is Listening,
            TwitchPhase::Waiting => event is Waited,
            TwitchPhase::Stopped => false,
        },
{
}

/// What a client does next. After a session that may be followed by another, it begins that one: at once
/// where it was listening, and otherwise after the waiting time that it has reached. After any other
/// it stops, with the error of a session that ended for good or could not be run.
pub proof fn law_what_a_client_does_next(client: TwitchModel, event: TwitchEvent)
    requires
        client.inv(),
        client.accepts(event),
    ensures
        client.after(event).inv(),
        ({
            let action = client.response(event);
            match event {
                TwitchEvent::Started => action is Run,
                TwitchEvent::Listening => action is GoOn,
                TwitchEvent::Ended(_) => action is Join,
                TwitchEvent::Waited => action is Start,
                TwitchEvent::Joined => match client.end->Some_0 {
                    SessionEnd::Cancelled => action == TwitchAction::Stop(Ok(())),
                    SessionEnd::Failed(e) => action == TwitchAction::Stop(
                        Err(TwitchError::Join(e)),
                    ),
                    SessionEnd::Finished(Ok(ControlFlow::Break(_))) => action
                        == TwitchAction::Stop(Ok(())),
                    SessionEnd::Finished(Err(ControlFlow::Break(e))) => action
                        == TwitchAction::Stop(Err(TwitchError::Session(e))),
                    _ => if client.backoff == 0 {
                        action is Start
                    } else {
                        action == (TwitchAction::Wait { seconds: client.backoff })
                    },
                },
            }
        }),
{
}

/// What is to be done next says where the client is; and only a session that comes to its end is
/// remembered, until it is over.
pub proof fn law_where_a_client_is(client: TwitchModel, event: TwitchEvent)
    requires
        client.inv(),
        client.accepts(event),
    ensures
        client.after(event).phase == (match client.response(event) {
            TwitchAction::Start => TwitchPhase::Starting,
            TwitchAction::Run => TwitchPhase::Running,
            TwitchAction::Join => TwitchPhase::Joining,
            TwitchAction::Wait { .. } => TwitchPhase::Waiting,
            TwitchAction::Stop(_) => TwitchPhase::Stopped,
            TwitchAction::GoOn => client.phase,
        }),
        client.after(event).end == (match event {
            TwitchEvent::Ended(end) => Some(end),
            TwitchEvent::Joined => None,
            _ => client.end,
        }),
{
}

/// The waiting time is dropped when a session is listening, grows by two seconds up to two minutes with
/// each session that is followed by another, and stays otherwise.
pub proof fn law_client_waiting_time(client: TwitchModel, event: TwitchEvent)
    requires
        client.inv(),
        client.accepts(event),
    ensures
        client.after(event).backoff == (if event is Listening {
            0
        } else if event is Joined && !(client.response(event) is Stop) {
            if client.backoff + 2 > 120 {
                120
            } else {
                client.backoff + 2
            }
        } else {
            client.backoff as int
        }),
        TwitchModel::fresh().backoff == 1,
        TwitchModel::fresh().phase == TwitchPhase::Starting,
        TwitchModel::fresh().end is None,
{
}

/// A client that was cancelled does not look at how its session ended, and one that was not takes it as it
/// is.
pub proof fn law_what_a_client_acts_on_first(end: SessionEnd, other: Option<SessionEnd>)
    ensures
        TwitchModel::choice(true, other) == Some(TwitchEvent::Ended(SessionEnd::Cancelled)),
        TwitchModel::choice(false, Some(end)) == Some(TwitchEvent::Ended(end)),
        TwitchModel::choice(false, None) is None,
{
}

/// What is said about a client that has stopped does not depend on the cause.
pub proof fn law_client_errors_read_alike(a: SessionError, b: SessionError, c: String, d: String)
    ensures
        TwitchError::Session(a).text() == TwitchError::Session(b).text(),
        TwitchError::Join(c).text() == TwitchError::Join(d).text(),
{
}

} // verus!
