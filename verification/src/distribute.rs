//! Handing out configurations that were read anew.

use crate::config::{same_config, same_redeem, same_redeems, AppConfig, Notified, Settings};
use crate::extra::same_pair;
use vstd::prelude::*;

verus! {

/// What is at hand.
#[derive(Clone, Copy, Debug, PartialEq, Eq, Structural)]
pub enum DistributePhase {
    /// A configuration is waited for.
    Receiving,
    /// A configuration is offered to the parts of the program.
    Offering,
    /// It is over.
    Stopped,
}

/// What has happened.
#[derive(Clone, Debug)]
pub enum DistributeEvent {
    /// A configuration came in.
    Received(AppConfig),
    /// The configuration was offered to all parts of the program, whether or not they still run.
    Offered,
    /// No more configurations will come.
    Closed,
}

/// What is to be done next.
#[derive(Clone, Debug)]
pub enum DistributeAction {
    /// Wait for a configuration.
    Receive,
    /// Offer the configuration to all parts of the program.
    Offer(AppConfig),
    /// Stop.
    Stop,
}

/// The distribution, as far as it shows.
#[derive(Clone, Copy, Debug)]
pub struct DistributeModel {
    pub phase: DistributePhase,
}

impl DistributeModel {
    /// A distribution that waits for its first configuration.
    pub open spec fn fresh() -> DistributeModel {
        DistributeModel { phase: DistributePhase::Receiving }
    }

    /// What can happen next.
    pub open spec fn accepts(self, event: DistributeEvent) -> bool {
        match event {
            DistributeEvent::Received(_) | DistributeEvent::Closed => self.phase
                == DistributePhase::Receiving,
            DistributeEvent::Offered => self.phase == DistributePhase::Offering,
        }
    }

    /// The distribution after an event.
    pub open spec fn after(self, event: DistributeEvent) -> DistributeModel {
        DistributeModel {
            phase: match event {
                DistributeEvent::Received(_) => DistributePhase::Offering,
                DistributeEvent::Offered => DistributePhase::Receiving,
                DistributeEvent::Closed => DistributePhase::Stopped,
            },
        }
    }

    /// What is to be done about an event.
    pub open spec fn response(event: DistributeEvent) -> DistributeAction {
        match event {
            DistributeEvent::Received(config) => DistributeAction::Offer(config),
            DistributeEvent::Offered => DistributeAction::Receive,
            DistributeEvent::Closed => DistributeAction::Stop,
        }
    }

    /// The distribution after some events.
    pub open spec fn after_all(self, events: Seq<DistributeEvent>) -> DistributeModel
        decreases events.len(),
    {
        if events.len() == 0 {
            self
        } else {
            self.after_all(events.drop_last()).after(events.last())
        }
    }

    /// Each of the events can happen when it does.
    pub open spec fn accepts_all(self, events: Seq<DistributeEvent>) -> bool
        decreases events.len(),
    {
        if events.len() == 0 {
            true
        } else {
            self.accepts_all(events.drop_last()) && self.after_all(events.drop_last()).accepts(
                events.last(),
            )
        }
    }
}

/// Takes configurations one after the other and has each of them offered.
#[derive(Debug)]
pub struct Distribution {
    state: DistributeModel,
}

impl View for Distribution {
    type V = DistributeModel;

    closed spec fn view(&self) -> DistributeModel {
        self.state
    }
}

impl Distribution {
    /// A distribution that waits for its first configuration.
    pub fn new() -> (r: Self)
        ensures
            r@ == DistributeModel::fresh(),
    {
        Distribution { state: DistributeModel { phase: DistributePhase::Receiving } }
    }

    /// Whether `event` can happen next.
    pub fn takes(&self, event: &DistributeEvent) -> (r: bool)
        ensures
            r == self@.accepts(*event),
    {
        match event {
            DistributeEvent::Received(_) | DistributeEvent::Closed => self.state.phase
                == DistributePhase::Receiving,
            DistributeEvent::Offered => self.state.phase == DistributePhase::Offering,
        }
    }

    /// Takes note of what has happened, and says what is to be done next.
    pub fn step(&mut self, event: DistributeEvent) -> (r: DistributeAction)
        requires
            old(self)@.accepts(event),
        ensures
            final(self)@ == old(self)@.after(event),
            r == DistributeModel::response(event),
    {
        match event {
            DistributeEvent::Received(config) => {
                self.state.phase = DistributePhase::Offering;
                DistributeAction::Offer(config)
            },
            DistributeEvent::Offered => {
                self.state.phase = DistributePhase::Receiving;
                DistributeAction::Receive
            },
            DistributeEvent::Closed => {
                self.state.phase = DistributePhase::Stopped;
                DistributeAction::Stop
            },
        }
    }
}

/// The configurations that are offered in the course of some events.
pub open spec fn offered(events: Seq<DistributeEvent>) -> Seq<AppConfig>
    decreases events.len(),
{
    if events.len() == 0 {
        Seq::empty()
    } else {
        match DistributeModel::response(events.last()) {
            DistributeAction::Offer(config) => offered(events.drop_last()).push(config),
            _ => offered(events.drop_last()),
        }
    }
}

/// The configurations that come in in the course of some events.
pub open spec fn received(events: Seq<DistributeEvent>) -> Seq<AppConfig>
    decreases events.len(),
{
    if events.len() == 0 {
        Seq::empty()
    } else {
        match events.last() {
            DistributeEvent::Received(config) => received(events.drop_last()).push(config),
            _ => received(events.drop_last()),
        }
    }
}

/// The distribution ends when no more configurations will come and for no other reason, and every
/// configuration that comes in is offered, in the order in which they come in.
pub proof fn law_distributes_until_closed(events: Seq<DistributeEvent>)
    requires
        DistributeModel::fresh().accepts_all(events),
    ensures
        DistributeModel::fresh().after_all(events).phase == DistributePhase::Stopped
            <==> events.len() > 0 && events.last() is Closed,
        forall|i: int| 0 <= i < events.len() - 1 ==> !((#[trigger] events[i]) is Closed),
        offered(events) == received(events),
    decreases events.len(),
{
    if events.len() > 0 {
        let front = events.drop_last();
        law_distributes_until_closed(front);
        assert forall|i: int| 0 <= i < events.len() - 1 implies !((
        #[trigger] events[i]) is Closed) by {
            assert(front[i] == events[i]);
            if i == front.len() - 1 {
                assert(front.last() == events[i]);
            }
        }
    }
}

/// Whatever the settings in use were, when a configuration that is equal to the one offered last is
/// offered, nobody is told and the settings stay as they are. (A redeem with a NaN among its values
/// is equal to none, and counts as changed each time.)
pub proof fn law_equal_configuration_changes_nothing(
    current: Settings,
    new: AppConfig,
    again: AppConfig,
)
    requires
        same_config(new, again),
    ensures
        current.offered(new.settings()).notified(again.settings()) == (Notified {
            rcon: false,
            redeems: false,
            twitch: false,
        }),
        current.offered(new.settings()).offered(again.settings()) == current.offered(
            new.settings(),
        ),
{
    if same_redeems(current.redeems, new.redeems@) {
        assert forall|i: int| 0 <= i < current.redeems.len() implies same_redeem(
            #[trigger] current.redeems[i],
            again.redeems@[i],
        ) by {
            let used = current.redeems[i];
            let middle = new.redeems@[i];
            let last = again.redeems@[i];
            assert(same_redeem(used, middle));
            assert(same_redeem(middle, last));
            assert forall|k: int| 0 <= k < used.extra.0@.len() implies same_pair(
                #[trigger] used.extra.0@[k],
                last.extra.0@[k],
            ) by {
                assert(same_pair(used.extra.0@[k], middle.extra.0@[k]));
                assert(same_pair(middle.extra.0@[k], last.extra.0@[k]));
            }
        }
    }
}

/// A configuration that came in is offered as it is, then the next one is waited for, and when none will
/// come the distribution stops. Nothing else can happen to it, and nothing at all once it has stopped.
pub proof fn law_what_a_distribution_does_next(model: DistributeModel, event: DistributeEvent)
    ensures
        model.accepts(event) <==> match model.phase {
            DistributePhase::Receiving => event is Received || event is Closed,
            DistributePhase::Offering => event is Offered,
            DistributePhase::Stopped => false,
        },
        match event {
            DistributeEvent::Received(config) => DistributeModel::response(event)
                == DistributeAction::Offer(config) && model.after(event).phase
                == DistributePhase::Offering,
            DistributeEvent::Offered => DistributeModel::response(event) is Receive && model.after(
                event,
            ).phase == DistributePhase::Receiving,
            DistributeEvent::Closed => DistributeModel::response(event) is Stop && model.after(
                event,
            ).phase == DistributePhase::Stopped,
        },
        DistributeModel::fresh().phase == DistributePhase::Receiving,
{
}

} // verus!
