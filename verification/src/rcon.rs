//! The game server's side: commands, and the client that sends them.

use crate::util::DropSend;
use std::sync::Arc;
use vstd::prelude::*;

verus! {

/// Waiting times are counted in parts of a second of this size. All the waiting times that occur are
/// whole numbers of them.
pub const TICKS_PER_SECOND: u32 = 256;

/// The shortest waiting time: one second.
pub const BACKOFF_MIN: u32 = 256;

/// The longest waiting time: thirty seconds.
pub const BACKOFF_MAX: u32 = 7680;

/// A request to the game server's client.
#[derive(Clone, Debug)]
pub enum RconCommand {
    /// Sends a command.
    Handle(Arc<str>),
}

/// The waiting time that follows on another: half as long again, within the limits.
pub open spec fn grown(backoff: nat) -> nat {
    let longer = backoff * 3 / 2;
    if longer < BACKOFF_MIN {
        BACKOFF_MIN as nat
    } else if longer > BACKOFF_MAX {
        BACKOFF_MAX as nat
    } else {
        longer
    }
}

/// A waiting time that the client can have: none, or one within the limits.
pub open spec fn is_backoff(backoff: nat) -> bool {
    backoff == 0 || BACKOFF_MIN <= backoff <= BACKOFF_MAX
}

/// What the client is at.
#[derive(Clone, Copy, Debug, PartialEq, Eq, Structural)]
pub enum ClientPhase {
    /// It looks whether commands can still come.
    Checking,
    /// It makes a connection.
    Connecting,
    /// It is connected and waits for a command.
    Receiving,
    /// It has sent a command and waits for the answer.
    Sending,
    /// It waits before it makes another connection.
    Waiting,
    /// It is done.
    Stopped,
}

/// What has happened.
#[derive(Clone, Debug)]
pub enum ClientEvent {
    /// Whether all that could give commands are gone.
    Checked { disconnected: bool },
    /// The connection was made.
    Connected,
    /// The connection was not made, and whether the client has been cancelled.
    ConnectFailed { cancelled: bool },
    /// A command came in.
    Command(Arc<str>),
    /// No more commands will come.
    Closed,
    /// The client was cancelled while it waited.
    Cancelled,
    /// The command was answered.
    Answered,
    /// The command was not answered, and whether the client has been cancelled.
    SendFailed { cancelled: bool },
    /// The waiting time is over.
    Waited,
}

/// What is to be done next.
#[derive(Clone, Copy, Debug, PartialEq, Eq, Structural)]
pub enum ClientAction {
    /// Look whether commands can still come.
    Check,
    /// Make a connection.
    Connect,
    /// Wait for a command.
    Receive,
    /// Send the command in hand.
    Send,
    /// Wait for so long.
    Wait { ticks: u32 },
    /// Stop.
    Stop,
}

/// The client, as far as it shows.
pub struct ClientModel {
    pub phase: ClientPhase,
    /// How long to wait after the next failure.
    pub backoff: nat,
    /// Whether a command that was not answered is sent again.
    pub retry: bool,
    /// The command that is waiting for its answer.
    pub in_flight: Option<Arc<str>>,
    /// The command that is to be sent again.
    pub resend: Option<Arc<str>>,
}

impl ClientModel {
    /// A client that is yet to connect, with the command that an earlier one was left with.
    pub open spec fn fresh(retry: bool, resend: Option<Arc<str>>) -> ClientModel {
        ClientModel {
            phase: ClientPhase::Checking,
            backoff: BACKOFF_MIN as nat,
            retry,
            in_flight: None,
            resend,
        }
    }

    /// At most one command is in hand: it is in flight exactly while it is being sent, and a client
    /// that waits for a command has none to send again.
    pub open spec fn inv(self) -> bool {
        &&& self.in_flight is Some <==> self.phase == ClientPhase::Sending
        &&& self.phase == ClientPhase::Sending ==> self.resend is None
        &&& self.phase == ClientPhase::Receiving ==> self.resend is None
        &&& self.phase == ClientPhase::Waiting ==> self.backoff > 0
        &&& is_backoff(self.backoff)
    }

    /// What can happen next.
    pub open spec fn accepts(self, event: ClientEvent) -> bool {
        match event {
            ClientEvent::Checked { .. } => self.phase == ClientPhase::Checking,
            ClientEvent::Connected => self.phase == ClientPhase::Connecting,
            ClientEvent::ConnectFailed { .. } => self.phase == ClientPhase::Connecting,
            ClientEvent::Command(_) => self.phase == ClientPhase::Receiving,
            ClientEvent::Closed => self.phase == ClientPhase::Receiving,
            ClientEvent::Cancelled => self.phase == ClientPhase::Receiving || self.phase
                == ClientPhase::Waiting,
            ClientEvent::Answered => self.phase == ClientPhase::Sending,
            ClientEvent::SendFailed { .. } => self.phase == ClientPhase::Sending,
            ClientEvent::Waited => self.phase == ClientPhase::Waiting,
        }
    }

    /// What is acted on while the client waits for a command, where several things may be ready at
    /// once: a command first, then that no more will come, and that the client was cancelled last.
    pub open spec fn choice(
        command: Option<Arc<str>>,
        closed: bool,
        cancelled: bool,
    ) -> Option<ClientEvent> {
        match command {
            Some(command) => Some(ClientEvent::Command(command)),
            None => if closed {
                Some(ClientEvent::Closed)
            } else if cancelled {
                Some(ClientEvent::Cancelled)
            } else {
                None
            },
        }
    }

    /// What is acted on while the client waits to connect again: that it was cancelled first, and
    /// then that the waiting time is over.
    pub open spec fn pause_choice(cancelled: bool, over: bool) -> Option<ClientEvent> {
        if cancelled {
            Some(ClientEvent::Cancelled)
        } else if over {
            Some(ClientEvent::Waited)
        } else {
            None
        }
    }

    /// Turns to the next command: the one to be sent again where there is one, else one that is yet
    /// to come.
    pub open spec fn to_next_command(self) -> ClientModel {
        if self.resend is Some {
            ClientModel {
                phase: ClientPhase::Sending,
                in_flight: self.resend,
                resend: None,
                ..self
            }
        } else {
            ClientModel { phase: ClientPhase::Receiving, ..self }
        }
    }

    /// Gives up the connection. A cancelled client stops; another one makes a new connection, after
    /// the waiting time where there is one.
    pub open spec fn after_failure(self, cancelled: bool) -> ClientModel {
        if cancelled {
            ClientModel { phase: ClientPhase::Stopped, ..self }
        } else if self.backoff > 0 {
            ClientModel { phase: ClientPhase::Waiting, ..self }
        } else {
            ClientModel { phase: ClientPhase::Checking, backoff: grown(self.backoff), ..self }
        }
    }

    /// The client after an event.
    pub open spec fn after(self, event: ClientEvent) -> ClientModel {
        match event {
            ClientEvent::Checked { disconnected } => ClientModel {
                phase: if disconnected {
                    ClientPhase::Stopped
                } else {
                    ClientPhase::Connecting
                },
                ..self
            },
            ClientEvent::Connected => (ClientModel { backoff: 0, ..self }).to_next_command(),
            ClientEvent::ConnectFailed { cancelled } => self.after_failure(cancelled),
            ClientEvent::Command(command) => ClientModel {
                phase: ClientPhase::Sending,
                in_flight: Some(command),
                ..self
            },
            ClientEvent::Closed => ClientModel { phase: ClientPhase::Stopped, ..self },
            ClientEvent::Cancelled => ClientModel { phase: ClientPhase::Stopped, ..self },
            ClientEvent::Answered => (ClientModel { in_flight: None, ..self }).to_next_command(),
            ClientEvent::SendFailed { cancelled } => (ClientModel {
                in_flight: None,
                resend: if self.retry {
                    self.in_flight
                } else {
                    None
                },
                ..self
            }).after_failure(cancelled),
            ClientEvent::Waited => ClientModel {
                phase: ClientPhase::Checking,
                backoff: grown(self.backoff),
                ..self
            },
        }
    }

    /// What is to be done next.
    pub open spec fn action(self) -> ClientAction {
        match self.phase {
            ClientPhase::Checking => ClientAction::Check,
            ClientPhase::Connecting => ClientAction::Connect,
            ClientPhase::Receiving => ClientAction::Receive,
            ClientPhase::Sending => ClientAction::Send,
            ClientPhase::Waiting => ClientAction::Wait { ticks: self.backoff as u32 },
            ClientPhase::Stopped => ClientAction::Stop,
        }
    }

    /// The commands that came in and have not been answered, oldest first.
    pub open spec fn backlog(self) -> Seq<Arc<str>> {
        match (self.in_flight, self.resend) {
            (Some(command), _) => seq![command],
            (None, Some(command)) => seq![command],
            (None, None) => Seq::empty(),
        }
    }

    /// The command that the client leaves when it is done, wherever that finds it. One that is waiting
    /// for its answer is left only where commands are sent again.
    pub open spec fn left(self) -> Option<Arc<str>> {
        if self.in_flight is Some {
            if self.retry {
                self.in_flight
            } else {
                None
            }
        } else {
            self.resend
        }
    }

    /// The client after some events.
    pub open spec fn after_all(self, events: Seq<ClientEvent>) -> ClientModel
        decreases events.len(),
    {
        if events.len() == 0 {
            self
        } else {
            self.after_all(events.drop_last()).after(events.last())
        }
    }

    /// Each of the events can happen when it does.
    pub open spec fn accepts_all(self, events: Seq<ClientEvent>) -> bool
        decreases events.len(),
    {
        if events.len() == 0 {
            true
        } else {
            self.accepts_all(events.drop_last()) && self.after_all(events.drop_last()).accepts(
                events.last(),
            )
        }
    }

    /// The commands that are answered in the course of some events, in this order.
    pub open spec fn answered(self, events: Seq<ClientEvent>) -> Seq<Arc<str>>
        decreases events.len(),
    {
        if events.len() == 0 {
            Seq::empty()
        } else {
            let before = self.answered(events.drop_last());
            match events.last() {
                ClientEvent::Answered => before + self.after_all(events.drop_last()).backlog(),
                _ => before,
            }
        }
    }
}

impl ClientModel {
    /// The commands that are handed to a connection in the course of some events, each as often as
    /// it is handed over.
    pub open spec fn handed(self, events: Seq<ClientEvent>) -> Seq<Arc<str>>
        decreases events.len(),
    {
        if events.len() == 0 {
            Seq::empty()
        } else {
            let before = self.handed(events.drop_last());
            match (self.after_all(events).action(), self.after_all(events).in_flight) {
                (ClientAction::Send, Some(command)) => before.push(command),
                _ => before,
            }
        }
    }
}

/// The commands that come in in the course of some events.
pub open spec fn arrived(events: Seq<ClientEvent>) -> Seq<Arc<str>>
    decreases events.len(),
{
    if events.len() == 0 {
        Seq::empty()
    } else {
        let before = arrived(events.drop_last());
        match events.last() {
            ClientEvent::Command(command) => before.push(command),
            _ => before,
        }
    }
}

/// Sends commands to the game server, one at a time, and connects again when the connection fails.
#[derive(Debug)]
pub struct RconClient {
    phase: ClientPhase,
    backoff: u32,
    retry: bool,
    in_flight: Option<DropSend<Arc<str>>>,
    resend: Option<Arc<str>>,
}

impl View for RconClient {
    type V = ClientModel;

    closed spec fn view(&self) -> ClientModel {
        ClientModel {
            phase: self.phase,
            backoff: self.backoff as nat,
            retry: self.retry,
            in_flight: match self.in_flight {
                Some(message) => message.held(),
                None => None,
            },
            resend: self.resend,
        }
    }
}

/// The waiting time that follows on another.
fn grow(backoff: u32) -> (r: u32)
    requires
        is_backoff(backoff as nat),
    ensures
        r == grown(backoff as nat),
        is_backoff(r as nat),
{
    let longer: u32 = backoff * 3 / 2;
    if longer < BACKOFF_MIN {
        BACKOFF_MIN
    } else if longer > BACKOFF_MAX {
        BACKOFF_MAX
    } else {
        longer
    }
}

impl RconClient {
    /// What is in flight is really held.
    pub closed spec fn holds(&self) -> bool {
        self.in_flight matches Some(message) ==> message.held() is Some
    }

    /// The client is in order.
    pub open spec fn wf(&self) -> bool {
        self@.inv() && self.holds()
    }

    /// A client that is yet to connect. It first sends the command that an earlier client was left
    /// with, where there is one.
    pub fn new(retry: bool, resend: Option<Arc<str>>) -> (r: Self)
        ensures
            r.wf(),
            r@ == ClientModel::fresh(retry, resend),
    {
        RconClient {
            phase: ClientPhase::Checking,
            backoff: BACKOFF_MIN,
            retry,
            in_flight: None,
            resend,
        }
    }

    /// What is to be done next.
    pub fn action(&self) -> (r: ClientAction)
        requires
            self.wf(),
        ensures
            r == self@.action(),
    {
        match self.phase {
            ClientPhase::Checking => ClientAction::Check,
            ClientPhase::Connecting => ClientAction::Connect,
            ClientPhase::Receiving => ClientAction::Receive,
            ClientPhase::Sending => ClientAction::Send,
            ClientPhase::Waiting => ClientAction::Wait { ticks: self.backoff },
            ClientPhase::Stopped => ClientAction::Stop,
        }
    }

    /// Whether `event` can happen next.
    pub fn takes(&self, event: &ClientEvent) -> (r: bool)
        ensures
            r == self@.accepts(*event),
    {
        match event {
            ClientEvent::Checked { .. } => self.phase == ClientPhase::Checking,
            ClientEvent::Connected => self.phase == ClientPhase::Connecting,
            ClientEvent::ConnectFailed { .. } => self.phase == ClientPhase::Connecting,
            ClientEvent::Command(_) => self.phase == ClientPhase::Receiving,
            ClientEvent::Closed => self.phase == ClientPhase::Receiving,
            ClientEvent::Cancelled => self.phase == ClientPhase::Receiving || self.phase
                == ClientPhase::Waiting,
            ClientEvent::Answered => self.phase == ClientPhase::Sending,
            ClientEvent::SendFailed { .. } => self.phase == ClientPhase::Sending,
            ClientEvent::Waited => self.phase == ClientPhase::Waiting,
        }
    }

    /// Which of the things that are ready happens to a client that waits for a command.
    pub fn chosen(&self, command: Option<Arc<str>>, closed: bool, cancelled: bool) -> (r: Option<
        ClientEvent,
    >)
        requires
            self@.phase == ClientPhase::Receiving,
        ensures
            r == ClientModel::choice(command, closed, cancelled),
            r matches Some(event) ==> self@.accepts(event),
            command matches Some(first) ==> r == Some(ClientEvent::Command(first)),
            r == Some(ClientEvent::Cancelled) ==> command is None && !closed && cancelled,
    {
        match command {
            Some(command) => Some(ClientEvent::Command(command)),
            None => if closed {
                Some(ClientEvent::Closed)
            } else if cancelled {
                Some(ClientEvent::Cancelled)
            } else {
                None
            },
        }
    }

    /// Which of the things that are ready happens to a client that waits to connect again.
    pub fn chosen_in_pause(&self, cancelled: bool, over: bool) -> (r: Option<ClientEvent>)
        requires
            self@.phase == ClientPhase::Waiting,
        ensures
            r == ClientModel::pause_choice(cancelled, over),
            r matches Some(event) ==> self@.accepts(event),
    {
        if cancelled {
            Some(ClientEvent::Cancelled)
        } else if over {
            Some(ClientEvent::Waited)
        } else {
            None
        }
    }

    /// The command in hand.
    pub fn command(&self) -> (r: Option<&Arc<str>>)
        requires
            self.wf(),
        ensures
            r is Some <==> self@.in_flight is Some,
            r matches Some(command) ==> self@.in_flight == Some(*command),
    {
        match &self.in_flight {
            Some(message) => Some(message.as_ref()),
            None => None,
        }
    }

    /// Takes note of what has happened, and says what is to be done next.
    pub fn step(&mut self, event: ClientEvent) -> (r: ClientAction)
        requires
            old(self).wf(),
            old(self)@.accepts(event),
        ensures
            final(self).wf(),
            final(self)@ == old(self)@.after(event),
            r == final(self)@.action(),
    {
        match event {
            ClientEvent::Checked { disconnected } => {
                self.phase = if disconnected {
                    ClientPhase::Stopped
                } else {
                    ClientPhase::Connecting
                };
            },
            ClientEvent::Connected => {
                self.backoff = 0;
                self.turn_to_next_command();
            },
            ClientEvent::ConnectFailed { cancelled } => {
                self.fail(cancelled);
            },
            ClientEvent::Command(command) => {
                self.in_flight = Some(DropSend::new(command));
                self.phase = ClientPhase::Sending;
            },
            ClientEvent::Closed => {
                self.phase = ClientPhase::Stopped;
            },
            ClientEvent::Cancelled => {
                self.phase = ClientPhase::Stopped;
            },
            ClientEvent::Answered => {
                match self.in_flight.take() {
                    Some(message) => {
                        let _ = message.consume();
                    },
                    None => {},
                }
                self.turn_to_next_command();
            },
            ClientEvent::SendFailed { cancelled } => {
                match self.in_flight.take() {
                    Some(message) => {
                        let mut message: DropSend<Arc<str>> = message;
                        let unsent: Option<Arc<str>> = message.unsent();
                        if self.retry {
                            self.resend = unsent;
                        }
                    },
                    None => {},
                }
                self.fail(cancelled);
            },
            ClientEvent::Waited => {
                self.backoff = grow(self.backoff);
                self.phase = ClientPhase::Checking;
            },
        }
        self.action()
    }

    fn turn_to_next_command(&mut self)
        requires
            old(self)@.in_flight is None,
            old(self).in_flight is None,
            is_backoff(old(self)@.backoff),
        ensures
            final(self).wf(),
            final(self)@ == old(self)@.to_next_command(),
    {
        match self.resend.take() {
            Some(command) => {
                self.in_flight = Some(DropSend::new(command));
                self.phase = ClientPhase::Sending;
            },
            None => {
                self.phase = ClientPhase::Receiving;
            },
        }
    }

    fn fail(&mut self, cancelled: bool)
        requires
            old(self).in_flight is None,
            is_backoff(old(self)@.backoff),
        ensures
            final(self).wf(),
            final(self)@ == old(self)@.after_failure(cancelled),
    {
        if cancelled {
            self.phase = ClientPhase::Stopped;
        } else if self.backoff > 0 {
            self.phase = ClientPhase::Waiting;
        } else {
            self.backoff = grow(self.backoff);
            self.phase = ClientPhase::Checking;
        }
    }

    /// The command that the client leaves to the next one. However the client ends, what has not
    /// been answered is handed back, provided that commands are sent again.
    pub fn into_unsent(self) -> (r: Option<Arc<str>>)
        requires
            self.wf(),
        ensures
            r == self@.left(),
    {
        match self.in_flight {
            Some(message) => {
                let mut message: DropSend<Arc<str>> = message;
                let unsent: Option<Arc<str>> = message.unsent();
                if self.retry {
                    unsent
                } else {
                    None
                }
            },
            None => self.resend,
        }
    }
}

/// The waiting time after so many failures to connect in a row, the first of which follows on a
/// waiting time of one second.
pub open spec fn backoff_after(failures: nat) -> nat
    decreases failures,
{
    if failures == 0 {
        BACKOFF_MIN as nat
    } else {
        grown(backoff_after((failures - 1) as nat))
    }
}

/// Each waiting time is exactly half as long again as the one before, without any rounding, until
/// the longest one is reached; and there it stays.
pub proof fn law_backoff_grows_by_half(failures: nat)
    ensures
        failures < 8 ==> 2 * backoff_after(failures + 1) == 3 * backoff_after(failures),
        failures > 8 ==> backoff_after(failures) == BACKOFF_MAX,
        backoff_after(failures) <= backoff_after(failures + 1),
    decreases failures,
{
    if failures > 9 {
        law_backoff_grows_by_half((failures - 1) as nat);
    } else {
        assert(backoff_after(0) == 256);
        assert(backoff_after(1) == 384);
        assert(backoff_after(2) == 576);
        assert(backoff_after(3) == 864);
        assert(backoff_after(4) == 1296);
        assert(backoff_after(5) == 1944);
        assert(backoff_after(6) == 2916);
        assert(backoff_after(7) == 4374);
        assert(backoff_after(8) == 6561);
        assert(backoff_after(9) == BACKOFF_MAX);
        assert(backoff_after(10) == BACKOFF_MAX);
    }
}

/// A client that has failed to connect so many times in a row waits accordingly when it fails again,
/// and then makes another attempt with one more failure behind it.
pub proof fn law_failures_add_up(client: ClientModel, failures: nat)
    requires
        client.inv(),
        client.phase == ClientPhase::Connecting,
        client.backoff == backoff_after(failures),
    ensures
        ({
            let waits = client.after(ClientEvent::ConnectFailed { cancelled: false });
            let again = waits.after(ClientEvent::Waited).after(
                ClientEvent::Checked { disconnected: false },
            );
            &&& waits.action() == (ClientAction::Wait { ticks: backoff_after(failures) as u32 })
            &&& again.inv()
            &&& again.phase == ClientPhase::Connecting
            &&& again.backoff == backoff_after(failures + 1)
            &&& again.backlog() == client.backlog()
        }),
{
    assert(backoff_after(failures) > 0);
}

/// A client that was connected makes its first attempt to connect again at once, and waits for a
/// second when that fails; and a failure that finds it cancelled ends it.
pub proof fn law_reconnects_at_once(client: ClientModel)
    requires
        client.inv(),
        client.phase == ClientPhase::Sending,
        client.backoff == 0,
    ensures
        client.after(ClientEvent::SendFailed { cancelled: true }).action() == ClientAction::Stop,
        ({
            let failed = client.after(ClientEvent::SendFailed { cancelled: false });
            let again = failed.after(ClientEvent::Checked { disconnected: false });
            let waits = again.after(ClientEvent::ConnectFailed { cancelled: false });
            &&& failed.action() == ClientAction::Check
            &&& again.action() == ClientAction::Connect
            &&& waits.action() == (ClientAction::Wait { ticks: BACKOFF_MIN })
        }),
{
}

/// What a cancelled client does that waits for a command, has `waiting` commands ready and gets an
/// answer to each: the commands that are answered, and the client in the end.
pub open spec fn wound_up(client: ClientModel, waiting: Seq<Arc<str>>) -> (
    Seq<Arc<str>>,
    ClientModel,
)
    decreases waiting.len(),
{
    if waiting.len() == 0 {
        match ClientModel::choice(None, false, true) {
            Some(event) => (Seq::empty(), client.after(event)),
            None => (Seq::empty(), client),
        }
    } else {
        match ClientModel::choice(Some(waiting[0]), false, true) {
            Some(ClientEvent::Command(command)) => {
                let sending = client.after(ClientEvent::Command(command));
                let (later, end) = wound_up(
                    sending.after(ClientEvent::Answered),
                    waiting.drop_first(),
                );
                (sending.backlog() + later, end)
            },
            Some(event) => (Seq::empty(), client.after(event)),
            None => (Seq::empty(), client),
        }
    }
}

/// A cancelled client that is connected sends all the commands that are ready before it stops, in
/// their order: it acts on the cancellation only when none is left.
pub proof fn law_waiting_commands_are_sent_first(client: ClientModel, waiting: Seq<Arc<str>>)
    requires
        client.inv(),
        client.phase == ClientPhase::Receiving,
    ensures
        wound_up(client, waiting).0 == waiting,
        wound_up(client, waiting).1.action() == ClientAction::Stop,
    decreases waiting.len(),
{
    if waiting.len() > 0 {
        let sending = client.after(ClientEvent::Command(waiting[0]));
        law_waiting_commands_are_sent_first(
            sending.after(ClientEvent::Answered),
            waiting.drop_first(),
        );
        assert(sending.backlog() =~= seq![waiting[0]]);
        assert(waiting =~= seq![waiting[0]] + waiting.drop_first());
    } else {
        assert(waiting =~= Seq::empty());
    }
}

/// Once a client is connected, the command that is to be sent again goes before all others, and
/// before a cancellation: only when it was answered does the client turn to the commands that are
/// ready, and then to the cancellation.
pub proof fn law_resend_goes_first(client: ClientModel, waiting: Seq<Arc<str>>)
    requires
        client.inv(),
        client.phase == ClientPhase::Connecting,
    ensures
        ({
            let connected = client.after(ClientEvent::Connected);
            match client.resend {
                Some(command) => {
                    let ready = connected.after(ClientEvent::Answered);
                    &&& connected.action() == ClientAction::Send
                    &&& connected.in_flight == Some(command)
                    &&& !connected.accepts(ClientEvent::Cancelled)
                    &&& connected.backlog() + wound_up(ready, waiting).0 == seq![command] + waiting
                    &&& wound_up(ready, waiting).1.action() == ClientAction::Stop
                },
                None => {
                    &&& connected.action() == ClientAction::Receive
                    &&& wound_up(connected, waiting).0 == waiting
                    &&& wound_up(connected, waiting).1.action() == ClientAction::Stop
                },
            }
        }),
{
    let connected = client.after(ClientEvent::Connected);
    match client.resend {
        Some(command) => {
            law_waiting_commands_are_sent_first(connected.after(ClientEvent::Answered), waiting);
            assert(connected.backlog() =~= seq![command]);
        },
        None => {
            law_waiting_commands_are_sent_first(connected, waiting);
        },
    }
}

/// A client that finds all that could give commands gone stops without an attempt to connect.
pub proof fn law_disconnected_client_stops(retry: bool, resend: Option<Arc<str>>)
    ensures
        ({
            let client = ClientModel::fresh(retry, resend);
            &&& client.action() == ClientAction::Check
            &&& client.after(ClientEvent::Checked { disconnected: true }).action()
                == ClientAction::Stop
        }),
{
}

/// While a client is connected no waiting time is due.
pub proof fn law_connection_resets_backoff(client: ClientModel, events: Seq<ClientEvent>)
    requires
        client.inv(),
        client.phase == ClientPhase::Checking,
        client.accepts_all(events),
    ensures
        ({
            let now = client.after_all(events);
            &&& now.inv()
            &&& now.phase == ClientPhase::Receiving || now.phase == ClientPhase::Sending
                ==> now.backoff == 0
        }),
    decreases events.len(),
{
    if events.len() > 0 {
        law_connection_resets_backoff(client, events.drop_last());
    }
}

/// Where commands are sent again, none gets lost, none overtakes another, and none is answered twice:
/// at any time, those that have been answered and then the one in hand are those that came in, in
/// the order in which they came in.
pub proof fn law_commands_are_answered_in_order(client: ClientModel, events: Seq<ClientEvent>)
    requires
        client.inv(),
        client.retry,
        client.accepts_all(events),
    ensures
        client.after_all(events).inv(),
        client.after_all(events).retry,
        client.answered(events) + client.after_all(events).backlog() == client.backlog() + arrived(
            events,
        ),
    decreases events.len(),
{
    if events.len() == 0 {
        assert(client.answered(events) + client.backlog() =~= client.backlog() + arrived(events));
    } else {
        let front = events.drop_last();
        let before = client.after_all(front);
        let after = client.after_all(events);
        law_commands_are_answered_in_order(client, front);
        match events.last() {
            ClientEvent::Command(command) => {
                assert(after.backlog() =~= before.backlog().push(command));
                assert(client.answered(events) + after.backlog() =~= (client.answered(front)
                    + before.backlog()).push(command));
                assert((client.backlog() + arrived(front)).push(command) =~= client.backlog()
                    + arrived(events));
            },
            ClientEvent::Answered => {
                assert(after.backlog() =~= Seq::empty());
                assert(client.answered(events) + after.backlog() =~= client.answered(front)
                    + before.backlog());
            },
            _ => {
                assert(after.backlog() =~= before.backlog());
            },
        }
    }
}

/// Wherever a cancellation finds the client, it stops: from every state in which it waits, for a command
/// or for however long to connect again, and with every attempt to connect or to send that fails once it
/// is cancelled. It also stops when no more commands will come.
pub proof fn law_cancelled_client_stops(client: ClientModel)
    requires
        client.inv(),
    ensures
        client.action() is Wait || client.action() is Receive ==> client.accepts(
            ClientEvent::Cancelled,
        ) && client.after(ClientEvent::Cancelled).action() is Stop,
        client.action() is Connect ==> client.after(
            ClientEvent::ConnectFailed { cancelled: true },
        ).action() is Stop,
        client.action() is Send ==> client.after(
            ClientEvent::SendFailed { cancelled: true },
        ).action() is Stop,
        client.action() is Receive ==> client.after(ClientEvent::Closed).action() is Stop,
        client.action() is Check ==> client.after(
            ClientEvent::Checked { disconnected: true },
        ).action() is Stop,
{
}

/// What can happen to a client is what can come of that which was to be done, and nothing happens to one
/// that has stopped.
pub proof fn law_what_can_come_of_it(client: ClientModel, event: ClientEvent)
    requires
        client.inv(),
    ensures
        client.accepts(event) <==> match client.action() {
            ClientAction::Check => event is Checked,
            ClientAction::Connect => event is Connected || event is ConnectFailed,
            ClientAction::Receive => event is Command || event is Closed || event is Cancelled,
            ClientAction::Send => event is Answered || event is SendFailed,
            ClientAction::Wait { .. } => event is Waited || event is Cancelled,
            ClientAction::Stop => false,
        },
{
}

/// What a client goes on with that was not cancelled: it connects where commands can still come, sends
/// what it has and what comes in, and after a failure connects again, once the waiting time that it
/// has reached is over.
pub proof fn law_client_goes_on_with(client: ClientModel, event: ClientEvent)
    requires
        client.inv(),
        client.accepts(event),
    ensures
        client.after(event).inv(),
        ({
            let next = client.after(event).action();
            match event {
                ClientEvent::Checked { disconnected: false } => next is Connect,
                ClientEvent::Connected => if client.resend is Some {
                    next is Send
                } else {
                    next is Receive
                },
                ClientEvent::Command(_) => next is Send,
                ClientEvent::Answered => next is Receive,
                ClientEvent::ConnectFailed { cancelled: false }
                | ClientEvent::SendFailed { cancelled: false } => if client.backoff == 0 {
                    next is Check
                } else {
                    next matches ClientAction::Wait { ticks } && ticks == client.backoff
                },
                ClientEvent::Waited => next is Check,
                _ => next is Stop,
            }
        }),
{
}

/// What a client has in hand: a command that comes in is sent, one that was answered is done with, one
/// that was not is kept to be sent again or dropped, as the client was made, and nothing else touches
/// what it has. It stays as it was made.
pub proof fn law_client_keeps_its_commands(client: ClientModel, event: ClientEvent)
    requires
        client.inv(),
        client.accepts(event),
    ensures
        ({
            let next = client.after(event);
            &&& next.retry == client.retry
            &&& match event {
                ClientEvent::Command(command) => next.in_flight == Some(command) && next.resend
                    is None,
                ClientEvent::Answered => next.in_flight is None && next.resend is None,
                ClientEvent::SendFailed { .. } => next.in_flight is None && next.resend == (
                if client.retry {
                    client.in_flight
                } else {
                    None
                }),
                ClientEvent::Connected => next.in_flight == client.resend && next.resend is None,
                _ => next.in_flight == client.in_flight && next.resend == client.resend,
            }
        }),
{
}

/// How long a client will wait: not at all once it was connected, otherwise half as long again each time
/// it has waited or has failed without a wait, never less than one second or more than thirty.
pub proof fn law_client_waiting_time(client: ClientModel, event: ClientEvent)
    requires
        client.inv(),
        client.accepts(event),
    ensures
        ({
            let next = client.after(event);
            let longer = client.backoff * 3 / 2;
            let grows = match event {
                ClientEvent::Waited => true,
                ClientEvent::ConnectFailed { cancelled } => !cancelled && client.backoff == 0,
                ClientEvent::SendFailed { cancelled } => !cancelled && client.backoff == 0,
                _ => false,
            };
            next.backoff == (if event is Connected {
                0
            } else if !grows {
                client.backoff as int
            } else if longer < 256 {
                256
            } else if longer > 7680 {
                7680
            } else {
                longer as int
            })
        }),
{
}

/// A new client first looks whether commands can come, would wait for a second, and has the command that
/// it was made with to send and no other. What a client leaves is what it was still to send, or, where
/// commands are sent again, what it was sending.
pub proof fn law_from_client_to_client(retry: bool, resend: Option<Arc<str>>, client: ClientModel)
    requires
        client.inv(),
    ensures
        ({
            let new = ClientModel::fresh(retry, resend);
            &&& new.inv()
            &&& new.action() is Check
            &&& new.backoff == 256
            &&& new.retry == retry
            &&& new.resend == resend
            &&& new.in_flight is None
            &&& new.left() == resend
        }),
        !(client.action() is Send) ==> client.left() == client.resend,
        client.action() is Send && client.retry ==> client.left() == client.in_flight,
        client.action() is Send && !client.retry ==> client.left() is None,
{
}

/// Of what is ready while the client waits for a command, a command comes first, and a cancellation only
/// when there is none and more can come; of what is ready while it waits to connect again, a
/// cancellation comes first.
pub proof fn law_what_comes_first(
    command: Arc<str>,
    closed: bool,
    cancelled: bool,
    over: bool,
)
    ensures
        ClientModel::choice(Some(command), closed, cancelled) == Some(
            ClientEvent::Command(command),
        ),
        ClientModel::choice(None, true, cancelled) == Some(ClientEvent::Closed),
        ClientModel::choice(None, false, true) == Some(ClientEvent::Cancelled),
        ClientModel::choice(None, false, false) is None,
        ClientModel::pause_choice(true, over) == Some(ClientEvent::Cancelled),
        ClientModel::pause_choice(false, true) == Some(ClientEvent::Waited),
        ClientModel::pause_choice(false, false) is None,
{
}

} // verus!
