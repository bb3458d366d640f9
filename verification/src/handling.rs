//! Sending the commands of one redemption after the other.

use crate::config::CommandError;
use crate::rcon::RconCommand;
use vstd::prelude::*;

verus! {

/// What the handler is at.
#[derive(Clone, Copy, Debug, PartialEq, Eq, Structural)]
pub enum HandlerPhase {
    /// It waits for a redemption.
    Receiving,
    /// It sends a command.
    Sending,
    /// It reports a command that could not be put together.
    Reporting,
    /// It is done.
    Stopped,
}

/// What has happened.
#[derive(Debug)]
pub enum RedeemEvent {
    /// A redemption came in that triggers these commands.
    Triggered(Vec<Result<RconCommand, CommandError>>),
    /// The command was sent.
    Sent,
    /// Nobody takes commands.
    SendFailed,
    /// The command that could not be put together was reported.
    Reported,
    /// No more redemptions will come.
    Closed,
}

/// What is to be done next.
#[derive(Debug)]
pub enum RedeemAction {
    /// Wait for a redemption.
    Receive,
    /// Send a command.
    Send(RconCommand),
    /// Report a command that could not be put together.
    Report(CommandError),
    /// Stop.
    Stop,
}

/// The handler, as far as it shows.
pub struct HandlerModel {
    pub phase: HandlerPhase,
    /// The commands of the redemption at hand that are yet to be dealt with.
    pub queue: Seq<Result<RconCommand, CommandError>>,
}

/// The commands that could be put together, in their order.
pub open spec fn sendable(commands: Seq<Result<RconCommand, CommandError>>) -> Seq<RconCommand>
    decreases commands.len(),
{
    if commands.len() == 0 {
        Seq::empty()
    } else {
        let rest = sendable(commands.drop_first());
        match commands[0] {
            Ok(command) => seq![command] + rest,
            Err(_) => rest,
        }
    }
}

impl HandlerModel {
    /// A handler that waits for its first redemption.
    pub open spec fn fresh() -> HandlerModel {
        HandlerModel { phase: HandlerPhase::Receiving, queue: Seq::empty() }
    }

    /// Commands are left only while the handler is at one.
    pub open spec fn inv(self) -> bool {
        self.phase == HandlerPhase::Receiving || self.phase == HandlerPhase::Stopped
            ==> self.queue.len() == 0
    }

    /// What can happen next.
    pub open spec fn accepts(self, event: RedeemEvent) -> bool {
        match event {
            RedeemEvent::Triggered(_) | RedeemEvent::Closed => self.phase
                == HandlerPhase::Receiving,
            RedeemEvent::Sent | RedeemEvent::SendFailed => self.phase == HandlerPhase::Sending,
            RedeemEvent::Reported => self.phase == HandlerPhase::Reporting,
        }
    }

    /// The handler once it has turned to the first of some commands, or to the next redemption where
    /// there is none.
    pub open spec fn turned_to(queue: Seq<Result<RconCommand, CommandError>>) -> HandlerModel {
        if queue.len() == 0 {
            HandlerModel::fresh()
        } else {
            HandlerModel {
                phase: if queue[0] is Ok {
                    HandlerPhase::Sending
                } else {
                    HandlerPhase::Reporting
                },
                queue: queue.drop_first(),
            }
        }
    }

    /// What is to be done about the first of some commands.
    pub open spec fn action_for(queue: Seq<Result<RconCommand, CommandError>>) -> RedeemAction {
        if queue.len() == 0 {
            RedeemAction::Receive
        } else {
            match queue[0] {
                Ok(command) => RedeemAction::Send(command),
                Err(e) => RedeemAction::Report(e),
            }
        }
    }

    /// The handler after an event. When nobody takes a command, the others of the same redemption
    /// are dropped.
    pub open spec fn after(self, event: RedeemEvent) -> HandlerModel {
        match event {
            RedeemEvent::Triggered(commands) => HandlerModel::turned_to(commands@),
            RedeemEvent::Sent | RedeemEvent::Reported => HandlerModel::turned_to(self.queue),
            RedeemEvent::SendFailed => HandlerModel::fresh(),
            RedeemEvent::Closed => HandlerModel { phase: HandlerPhase::Stopped, ..self },
        }
    }

    /// What is to be done about an event.
    pub open spec fn response(self, event: RedeemEvent) -> RedeemAction {
        match event {
            RedeemEvent::Triggered(commands) => HandlerModel::action_for(commands@),
            RedeemEvent::Sent | RedeemEvent::Reported => HandlerModel::action_for(self.queue),
            RedeemEvent::SendFailed => RedeemAction::Receive,
            RedeemEvent::Closed => RedeemAction::Stop,
        }
    }

    /// The handler after some events.
    pub open spec fn after_all(self, events: Seq<RedeemEvent>) -> HandlerModel
        decreases events.len(),
    {
        if events.len() == 0 {
            self
        } else {
            self.after_all(events.drop_last()).after(events.last())
        }
    }

    /// Each of the events can happen when it does.
    pub open spec fn accepts_all(self, events: Seq<RedeemEvent>) -> bool
        decreases events.len(),
    {
        if events.len() == 0 {
            true
        } else {
            self.accepts_all(events.drop_last()) && self.after_all(events.drop_last()).accepts(
                events.last(),
            )
        }
    }

    /// The commands that are to be sent in the course of some events.
    pub open spec fn handed(self, events: Seq<RedeemEvent>) -> Seq<RconCommand>
        decreases events.len(),
    {
        if events.len() == 0 {
            Seq::empty()
        } else {
            let front = events.drop_last();
            match self.after_all(front).response(events.last()) {
                RedeemAction::Send(command) => self.handed(front).push(command),
                _ => self.handed(front),
            }
        }
    }
}

/// How many commands are sent in the course of some events.
pub open spec fn sent_count(events: Seq<RedeemEvent>) -> nat
    decreases events.len(),
{
    if events.len() == 0 {
        0
    } else {
        sent_count(events.drop_last()) + if events.last() is Sent {
            1nat
        } else {
            0nat
        }
    }
}

/// Handles one redemption after the other, and sends the commands of each one by one.
#[derive(Debug)]
pub struct RedeemHandler {
    phase: HandlerPhase,
    queue: Vec<Result<RconCommand, CommandError>>,
}

impl View for RedeemHandler {
    type V = HandlerModel;

    closed spec fn view(&self) -> HandlerModel {
        HandlerModel { phase: self.phase, queue: self.queue@ }
    }
}

impl RedeemHandler {
    /// A handler that waits for its first redemption.
    pub fn new() -> (r: Self)
        ensures
            r@.inv(),
            r@ == HandlerModel::fresh(),
    {
        let r = RedeemHandler { phase: HandlerPhase::Receiving, queue: Vec::new() };
        assert(r@.queue =~= Seq::empty());
        r
    }

    /// Whether `event` can happen next.
    pub fn takes(&self, event: &RedeemEvent) -> (r: bool)
        ensures
            r == self@.accepts(*event),
    {
        match event {
            RedeemEvent::Triggered(_) | RedeemEvent::Closed => self.phase
                == HandlerPhase::Receiving,
            RedeemEvent::Sent | RedeemEvent::SendFailed => self.phase == HandlerPhase::Sending,
            RedeemEvent::Reported => self.phase == HandlerPhase::Reporting,
        }
    }

    /// Turns to the first command that is yet to be dealt with.
    fn turn(&mut self) -> (r: RedeemAction)
        ensures
            final(self)@ == HandlerModel::turned_to(old(self)@.queue),
            r == HandlerModel::action_for(old(self)@.queue),
    {
        if self.queue.len() == 0 {
            self.phase = HandlerPhase::Receiving;
            assert(self@.queue =~= Seq::empty());
            return RedeemAction::Receive;
        }
        let ghost given = self.queue@;
        let first: Result<RconCommand, CommandError> = self.queue.remove(0);
        assert(self.queue@ =~= given.drop_first());
        match first {
            Ok(command) => {
                self.phase = HandlerPhase::Sending;
                RedeemAction::Send(command)
            },
            Err(e) => {
                self.phase = HandlerPhase::Reporting;
                RedeemAction::Report(e)
            },
        }
    }

    /// Takes note of what has happened, and says what is to be done next.
    pub fn step(&mut self, event: RedeemEvent) -> (r: RedeemAction)
        requires
            old(self)@.inv(),
            old(self)@.accepts(event),
        ensures
            final(self)@.inv(),
            final(self)@ == old(self)@.after(event),
            r == old(self)@.response(event),
    {
        match event {
            RedeemEvent::Triggered(commands) => {
                self.queue = commands;
                self.turn()
            },
            RedeemEvent::Sent => self.turn(),
            RedeemEvent::Reported => self.turn(),
            RedeemEvent::SendFailed => {
                self.phase = HandlerPhase::Receiving;
                self.queue = Vec::new();
                assert(self@.queue =~= Seq::empty());
                RedeemAction::Receive
            },
            RedeemEvent::Closed => {
                self.phase = HandlerPhase::Stopped;
                RedeemAction::Stop
            },
        }
    }
}

/// All of the events are about the commands of one redemption, and none about what follows it.
pub open spec fn within_one_redemption(replies: Seq<RedeemEvent>) -> bool {
    forall|i: int|
        0 <= i < replies.len() ==> !((#[trigger] replies[i]) is Triggered) && !(
        replies[i] is Closed)
}

/// What is sent of the commands that a redemption triggers is those that could be put together, in
/// their order and each once, up to the first one that nobody takes; commands that could not be put
/// together are passed over. Where none fails to be sent, all of them are sent.
pub proof fn law_commands_are_sent_until_one_fails(
    commands: Vec<Result<RconCommand, CommandError>>,
    replies: Seq<RedeemEvent>,
)
    requires
        within_one_redemption(replies),
        HandlerModel::fresh().accepts_all(seq![RedeemEvent::Triggered(commands)] + replies),
    ensures
        ({
            let events = seq![RedeemEvent::Triggered(commands)] + replies;
            let now = HandlerModel::fresh().after_all(events);
            let handed = HandlerModel::fresh().handed(events);
            let failed = replies.len() > 0 && replies.last() is SendFailed;
            let all = sendable(commands@);
            &&& now.inv()
            &&& handed.is_prefix_of(all)
            &&& !failed ==> handed + sendable(now.queue) == all
            &&& !failed && now.phase == HandlerPhase::Receiving ==> handed == all
            &&& failed ==> now.phase == HandlerPhase::Receiving
            &&& sent_count(events) + (if failed || now.phase == HandlerPhase::Sending {
                1nat
            } else {
                0nat
            }) == handed.len()
            &&& forall|i: int|
                0 <= i < replies.len() - 1 ==> !((#[trigger] replies[i]) is SendFailed)
        }),
    decreases replies.len(),
{
    let fresh = HandlerModel::fresh();
    let first = RedeemEvent::Triggered(commands);
    let events = seq![first] + replies;
    let all = sendable(commands@);
    if replies.len() == 0 {
        assert(events.drop_last() =~= Seq::empty());
        assert(events.last() == first);
        assert(fresh.after_all(events.drop_last()) == fresh);
        assert(fresh.handed(events.drop_last()) =~= Seq::empty());
        assert(sent_count(events.drop_last()) == 0);
        lemma_first_of_queue(Seq::empty(), commands@);
        assert(Seq::<RconCommand>::empty() + all =~= all);
    } else {
        let front = replies.drop_last();
        assert(events.drop_last() =~= seq![first] + front);
        assert(events.last() == replies.last());
        assert forall|i: int| 0 <= i < front.len() implies !((#[trigger] front[i]) is Triggered)
            && !(front[i] is Closed) by {
            assert(front[i] == replies[i]);
        }
        law_commands_are_sent_until_one_fails(commands, front);
        let before = fresh.after_all(seq![first] + front);
        let handed = fresh.handed(seq![first] + front);
        assert(!(replies[replies.len() - 1] is Triggered) && !(replies[replies.len() - 1]
            is Closed));
        assert forall|i: int| 0 <= i < replies.len() - 1 implies !((
        #[trigger] replies[i]) is SendFailed) by {
            assert(front[i] == replies[i]);
            if i == front.len() - 1 {
                assert(front.last() == replies[i]);
            }
        }
        if front.len() > 0 {
            assert(front.last() == replies[replies.len() - 2]);
        }
        match replies.last() {
            RedeemEvent::SendFailed => {},
            _ => {
                lemma_first_of_queue(handed, before.queue);
            },
        }
    }
    let handed = fresh.handed(events);
    let left = sendable(fresh.after_all(events).queue);
    if !(replies.len() > 0 && replies.last() is SendFailed) {
        assert((handed + left).take(handed.len() as int) =~= handed);
        if fresh.after_all(events).phase == HandlerPhase::Receiving {
            assert(handed + left =~= handed);
        }
    }
}

/// Turning to the first command of a queue moves it from what is left to what is handed over.
proof fn lemma_first_of_queue(
    handed: Seq<RconCommand>,
    queue: Seq<Result<RconCommand, CommandError>>,
)
    ensures
        match HandlerModel::action_for(queue) {
            RedeemAction::Send(command) => handed.push(command) + sendable(
                HandlerModel::turned_to(queue).queue,
            ) == handed + sendable(queue),
            _ => handed + sendable(HandlerModel::turned_to(queue).queue) == handed + sendable(
                queue,
            ),
        },
{
    match HandlerModel::action_for(queue) {
        RedeemAction::Send(command) => {
            let rest = sendable(queue.drop_first());
            assert(handed.push(command) + rest =~= handed + (seq![command] + rest));
        },
        _ => {},
    }
}

/// The handler stops when no more redemptions will come and for no other reason. In particular it
/// takes the next redemption after a command that nobody took.
pub proof fn law_handles_until_closed(events: Seq<RedeemEvent>)
    requires
        HandlerModel::fresh().accepts_all(events),
    ensures
        HandlerModel::fresh().after_all(events).inv(),
        HandlerModel::fresh().after_all(events).phase == HandlerPhase::Stopped <==> events.len() > 0
            && events.last() is Closed,
        events.len() > 0 && events.last() is SendFailed ==> HandlerModel::fresh().after_all(events)
            == HandlerModel::fresh(),
    decreases events.len(),
{
    if events.len() > 0 {
        law_handles_until_closed(events.drop_last());
    }
}

/// The handler turns to the commands that a redemption triggers one by one, from the first to the last, and
/// leaves the others as they are: one that could be put together is sent, another is reported. When there
/// is none left, or nobody takes one, it waits for the next redemption with nothing left to do.
pub proof fn law_one_command_after_the_other(model: HandlerModel, event: RedeemEvent)
    requires
        model.inv(),
        model.accepts(event),
    ensures
        model.after(event).inv(),
        ({
            let next = model.after(event);
            let action = model.response(event);
            match event {
                RedeemEvent::Closed => action is Stop && next.phase == HandlerPhase::Stopped,
                RedeemEvent::SendFailed => action is Receive && next.phase
                    == HandlerPhase::Receiving && next.queue.len() == 0,
                _ => {
                    let queue = match event {
                        RedeemEvent::Triggered(commands) => commands@,
                        _ => model.queue,
                    };
                    if queue.len() == 0 {
                        action is Receive && next.phase == HandlerPhase::Receiving
                            && next.queue.len() == 0
                    } else {
                        &&& next.queue.len() == queue.len() - 1
                        &&& forall|i: int|
                            0 <= i < next.queue.len() ==> #[trigger] next.queue[i] == queue[i + 1]
                        &&& queue[0] matches Ok(command) ==> action == RedeemAction::Send(command)
                            && next.phase == HandlerPhase::Sending
                        &&& queue[0] matches Err(e) ==> action == RedeemAction::Report(e)
                            && next.phase == HandlerPhase::Reporting
                    }
                },
            }
        }),
        HandlerModel::fresh().phase == HandlerPhase::Receiving,
        HandlerModel::fresh().queue.len() == 0,
{
}

/// What can happen to a handler is the outcome of what it does. Nothing happens to one that has stopped.
pub proof fn law_what_can_happen_to_a_handler(model: HandlerModel, event: RedeemEvent)
    ensures
        model.accepts(event) <==> match model.phase {
            HandlerPhase::Receiving => event is Triggered || event is Closed,
            HandlerPhase::Sending => event is Sent || event is SendFailed,
            HandlerPhase::Reporting => event is Reported,
            HandlerPhase::Stopped => false,
        },
{
}

/// Where all commands could be put together, all of them are to be sent, each at its place.
pub proof fn law_all_good_commands_are_sendable(commands: Seq<Result<RconCommand, CommandError>>)
    requires
        forall|i: int| 0 <= i < commands.len() ==> (#[trigger] commands[i]) is Ok,
    ensures
        sendable(commands).len() == commands.len(),
        forall|i: int|
            0 <= i < commands.len() ==> Ok::<RconCommand, CommandError>(
                #[trigger] sendable(commands)[i],
            ) == commands[i],
    decreases commands.len(),
{
    if commands.len() > 0 {
        let rest = commands.drop_first();
        assert(commands[0] is Ok);
        assert forall|i: int| 0 <= i < rest.len() implies (#[trigger] rest[i]) is Ok by {
            assert(commands[i + 1] is Ok);
        }
        law_all_good_commands_are_sendable(rest);
        assert forall|i: int| 0 <= i < commands.len() implies Ok::<RconCommand, CommandError>(
            #[trigger] sendable(commands)[i],
        ) == commands[i] by {
            if i > 0 {
                assert(sendable(commands)[i] == sendable(rest)[i - 1]);
            }
        }
    }
}

} // verus!
