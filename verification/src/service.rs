//! When the clients are started, stopped, and started again.

use vstd::prelude::*;

verus! {

/// Whose client the service runs.
#[derive(Clone, Copy, Debug, PartialEq, Eq, Structural)]
pub enum ServiceKind {
    /// The game server's. Its client is started again whenever it stops, and notices by itself when
    /// the service is cancelled.
    Rcon,
    /// The channel's. When its client stops by itself, the service does too.
    Twitch,
}

/// What the service is at.
#[derive(Clone, Copy, Debug, PartialEq, Eq, Structural)]
pub enum ServicePhase {
    /// It looks whether it was cancelled.
    Checking,
    /// It looks up the configuration.
    Configuring,
    /// A client runs.
    Running,
    /// A client was cancelled and has not stopped yet.
    Joining,
    /// It is done.
    Stopped,
}

/// What has happened, where `C` is the client's configuration.
#[derive(Clone, Debug)]
pub enum ServiceEvent<C> {
    /// Whether the service has been cancelled.
    Checked { cancelled: bool },
    /// The configuration as it is now.
    Configured(C),
    /// The service was cancelled while its client ran.
    Cancelled,
    /// The configuration has changed.
    ConfigChanged,
    /// The client has stopped by itself.
    ClientExited,
    /// The client that was cancelled has stopped.
    Joined,
}

/// What is to be done next.
#[derive(Clone, Debug)]
pub enum ServiceAction<C> {
    /// Look whether the service was cancelled.
    Check,
    /// Look up the configuration.
    ReadConfig,
    /// Start a client with this configuration, and wait for whatever comes first.
    Start(C),
    /// Cancel the client, and wait for it to stop.
    CancelClient,
    /// Stop. A client that still runs is cancelled.
    Stop,
}

/// The service, as far as it shows.
#[derive(Clone, Copy, Debug)]
pub struct ServiceModel {
    pub kind: ServiceKind,
    pub phase: ServicePhase,
}

impl ServiceModel {
    /// A service that has not started anything.
    pub open spec fn fresh(kind: ServiceKind) -> ServiceModel {
        ServiceModel { kind, phase: ServicePhase::Checking }
    }

    /// What can happen next.
    pub open spec fn accepts<C>(self, event: ServiceEvent<C>) -> bool {
        match event {
            ServiceEvent::Checked { .. } => self.phase == ServicePhase::Checking,
            ServiceEvent::Configured(_) => self.phase == ServicePhase::Configuring,
            ServiceEvent::Cancelled => self.phase == ServicePhase::Running && self.kind
                == ServiceKind::Twitch,
            ServiceEvent::ConfigChanged => self.phase == ServicePhase::Running,
            ServiceEvent::ClientExited => self.phase == ServicePhase::Running,
            ServiceEvent::Joined => self.phase == ServicePhase::Joining,
        }
    }

    /// What is acted on while a client runs, where several things may be ready at once. The game
    /// server's service acts on its client's end first and then on a new configuration; the channel's
    /// on its cancellation, then on a new configuration, and on its client's end last.
    pub open spec fn choice<C>(
        self,
        cancelled: bool,
        config_changed: bool,
        client_exited: bool,
    ) -> Option<ServiceEvent<C>> {
        match self.kind {
            ServiceKind::Rcon => if client_exited {
                Some(ServiceEvent::ClientExited)
            } else if config_changed {
                Some(ServiceEvent::ConfigChanged)
            } else {
                None
            },
            ServiceKind::Twitch => if cancelled {
                Some(ServiceEvent::Cancelled)
            } else if config_changed {
                Some(ServiceEvent::ConfigChanged)
            } else if client_exited {
                Some(ServiceEvent::ClientExited)
            } else {
                None
            },
        }
    }

    /// The service after an event.
    pub open spec fn after<C>(self, event: ServiceEvent<C>) -> ServiceModel {
        ServiceModel {
            phase: match event {
                ServiceEvent::Checked { cancelled } => if cancelled {
                    ServicePhase::Stopped
                } else {
                    ServicePhase::Configuring
                },
                ServiceEvent::Configured(_) => ServicePhase::Running,
                ServiceEvent::Cancelled => ServicePhase::Stopped,
                ServiceEvent::ConfigChanged => ServicePhase::Joining,
                ServiceEvent::ClientExited => match self.kind {
                    ServiceKind::Rcon => ServicePhase::Checking,
                    ServiceKind::Twitch => ServicePhase::Stopped,
                },
                ServiceEvent::Joined => ServicePhase::Checking,
            },
            ..self
        }
    }

    /// What is to be done about an event.
    pub open spec fn response<C>(self, event: ServiceEvent<C>) -> ServiceAction<C> {
        match event {
            ServiceEvent::Checked { cancelled } => if cancelled {
                ServiceAction::Stop
            } else {
                ServiceAction::ReadConfig
            },
            ServiceEvent::Configured(config) => ServiceAction::Start(config),
            ServiceEvent::Cancelled => ServiceAction::Stop,
            ServiceEvent::ConfigChanged => ServiceAction::CancelClient,
            ServiceEvent::ClientExited => match self.kind {
                ServiceKind::Rcon => ServiceAction::Check,
                ServiceKind::Twitch => ServiceAction::Stop,
            },
            ServiceEvent::Joined => ServiceAction::Check,
        }
    }

    /// The service after some events.
    pub open spec fn after_all<C>(self, events: Seq<ServiceEvent<C>>) -> ServiceModel
        decreases events.len(),
    {
        if events.len() == 0 {
            self
        } else {
            self.after_all(events.drop_last()).after(events.last())
        }
    }

    /// Each of the events can happen when it does.
    pub open spec fn accepts_all<C>(self, events: Seq<ServiceEvent<C>>) -> bool
        decreases events.len(),
    {
        if events.len() == 0 {
            true
        } else {
            self.accepts_all(events.drop_last()) && self.after_all(events.drop_last()).accepts(
                events.last(),
            )
        }
    }

    /// How many clients are started in the course of some events.
    pub open spec fn started<C>(self, events: Seq<ServiceEvent<C>>) -> nat
        decreases events.len(),
    {
        if events.len() == 0 {
            0
        } else {
            let front = events.drop_last();
            self.started(front) + if self.after_all(front).response(events.last()) is Start {
                1nat
            } else {
                0nat
            }
        }
    }
}

/// How many clients stop in the course of some events.
pub open spec fn ended<C>(events: Seq<ServiceEvent<C>>) -> nat
    decreases events.len(),
{
    if events.len() == 0 {
        0
    } else {
        ended(events.drop_last()) + match events.last() {
            ServiceEvent::ClientExited | ServiceEvent::Joined => 1nat,
            _ => 0nat,
        }
    }
}

/// Runs one client at a time, and starts another one when the configuration has changed.
#[derive(Debug)]
pub struct Service {
    state: ServiceModel,
}

impl View for Service {
    type V = ServiceModel;

    closed spec fn view(&self) -> ServiceModel {
        self.state
    }
}

impl Service {
    /// A service that has not started anything. First it looks whether it was cancelled.
    pub fn new(kind: ServiceKind) -> (r: Self)
        ensures
            r@ == ServiceModel::fresh(kind),
    {
        Service { state: ServiceModel { kind, phase: ServicePhase::Checking } }
    }

    /// Whether `event` can happen next.
    pub fn takes<C>(&self, event: &ServiceEvent<C>) -> (r: bool)
        ensures
            r == self@.accepts(*event),
    {
        match event {
            ServiceEvent::Checked { .. } => self.state.phase == ServicePhase::Checking,
            ServiceEvent::Configured(_) => self.state.phase == ServicePhase::Configuring,
            ServiceEvent::Cancelled => self.state.phase == ServicePhase::Running
                && self.state.kind == ServiceKind::Twitch,
            ServiceEvent::ConfigChanged => self.state.phase == ServicePhase::Running,
            ServiceEvent::ClientExited => self.state.phase == ServicePhase::Running,
            ServiceEvent::Joined => self.state.phase == ServicePhase::Joining,
        }
    }

    /// Which of the things that are ready happens to a service whose client runs.
    pub fn chosen<C>(&self, cancelled: bool, config_changed: bool, client_exited: bool) -> (r:
        Option<ServiceEvent<C>>)
        requires
            self@.phase == ServicePhase::Running,
        ensures
            r == self@.choice::<C>(cancelled, config_changed, client_exited),
            r matches Some(event) ==> self@.accepts(event),
    {
        match self.state.kind {
            ServiceKind::Rcon => if client_exited {
                Some(ServiceEvent::ClientExited)
            } else if config_changed {
                Some(ServiceEvent::ConfigChanged)
            } else {
                None
            },
            ServiceKind::Twitch => if cancelled {
                Some(ServiceEvent::Cancelled)
            } else if config_changed {
                Some(ServiceEvent::ConfigChanged)
            } else if client_exited {
                Some(ServiceEvent::ClientExited)
            } else {
                None
            },
        }
    }

    /// Takes note of what has happened, and says what is to be done next.
    pub fn step<C>(&mut self, event: ServiceEvent<C>) -> (r: ServiceAction<C>)
        requires
            old(self)@.accepts(event),
        ensures
            final(self)@ == old(self)@.after(event),
            r == old(self)@.response(event),
    {
        match event {
            ServiceEvent::Checked { cancelled } => {
                if cancelled {
                    self.state.phase = ServicePhase::Stopped;
                    ServiceAction::Stop
                } else {
                    self.state.phase = ServicePhase::Configuring;
                    ServiceAction::ReadConfig
                }
            },
            ServiceEvent::Configured(config) => {
                self.state.phase = ServicePhase::Running;
                ServiceAction::Start(config)
            },
            ServiceEvent::Cancelled => {
                self.state.phase = ServicePhase::Stopped;
                ServiceAction::Stop
            },
            ServiceEvent::ConfigChanged => {
                self.state.phase = ServicePhase::Joining;
                ServiceAction::CancelClient
            },
            ServiceEvent::ClientExited => match self.state.kind {
                ServiceKind::Rcon => {
                    self.state.phase = ServicePhase::Checking;
                    ServiceAction::Check
                },
                ServiceKind::Twitch => {
                    self.state.phase = ServicePhase::Stopped;
                    ServiceAction::Stop
                },
            },
            ServiceEvent::Joined => {
                self.state.phase = ServicePhase::Checking;
                ServiceAction::Check
            },
        }
    }
}

/// At most one client runs at any time, and none while a service is about to start one: the one
/// before has stopped by then.
pub proof fn law_one_client_at_a_time<C>(kind: ServiceKind, events: Seq<ServiceEvent<C>>)
    requires
        ServiceModel::fresh(kind).accepts_all(events),
    ensures
        ({
            let now = ServiceModel::fresh(kind).after_all(events);
            let running = ServiceModel::fresh(kind).started(events) - ended(events);
            &&& now.kind == kind
            &&& 0 <= running <= 1
            &&& now.phase == ServicePhase::Checking || now.phase == ServicePhase::Configuring
                ==> running == 0
            &&& now.phase == ServicePhase::Running || now.phase == ServicePhase::Joining ==> running
                == 1
        }),
    decreases events.len(),
{
    if events.len() > 0 {
        law_one_client_at_a_time(kind, events.drop_last());
    }
}

/// From when a service is cancelled it starts no client, unless it had already looked and was about
/// to. So one that is cancelled from the beginning never starts any.
pub proof fn law_none_started_once_cancelled<C>(
    service: ServiceModel,
    events: Seq<ServiceEvent<C>>,
)
    requires
        service.phase != ServicePhase::Configuring,
        service.accepts_all(events),
        forall|i: int|
            0 <= i < events.len() ==> !((#[trigger] events[i]) matches ServiceEvent::Checked {
                cancelled: false,
            }),
    ensures
        service.started(events) == 0,
        service.after_all(events).phase != ServicePhase::Configuring,
    decreases events.len(),
{
    if events.len() > 0 {
        let front = events.drop_last();
        assert forall|i: int| 0 <= i < front.len() implies !(
        (#[trigger] front[i]) matches ServiceEvent::Checked { cancelled: false }) by {
            assert(front[i] == events[i]);
        }
        law_none_started_once_cancelled(service, front);
        assert(!(events[events.len() - 1] matches ServiceEvent::Checked { cancelled: false }));
    }
}

/// The game server's service stops only because it finds itself cancelled, and then no client runs.
/// The channel's stops for that reason too, because it is cancelled while its client runs, or because
/// its client has stopped by itself; and it is then that it stops.
pub proof fn law_when_services_stop<C>(kind: ServiceKind, events: Seq<ServiceEvent<C>>)
    requires
        ServiceModel::fresh(kind).accepts_all(events),
    ensures
        ServiceModel::fresh(kind).after_all(events).kind == kind,
        ServiceModel::fresh(kind).after_all(events).phase == ServicePhase::Stopped <==> events.len()
            > 0 && match events.last() {
            ServiceEvent::Checked { cancelled } => cancelled,
            ServiceEvent::Cancelled => true,
            ServiceEvent::ClientExited => kind == ServiceKind::Twitch,
            _ => false,
        },
        kind == ServiceKind::Rcon && events.len() > 0 ==> !(events.last() is Cancelled),
        kind == ServiceKind::Rcon && ServiceModel::fresh(kind).after_all(events).phase
            == ServicePhase::Stopped ==> ServiceModel::fresh(kind).started(events) == ended(events),
    decreases events.len(),
{
    if events.len() > 0 {
        law_when_services_stop(kind, events.drop_last());
        law_one_client_at_a_time(kind, events.drop_last());
    }
}

/// Nothing happens to a service that has stopped: it starts no other client.
pub proof fn law_stopped_services_stay_so<C>(service: ServiceModel, events: Seq<ServiceEvent<C>>)
    requires
        service.phase == ServicePhase::Stopped,
        service.accepts_all(events),
    ensures
        events.len() == 0,
        service.started(events) == 0,
    decreases events.len(),
{
    if events.len() > 0 {
        law_stopped_services_stay_so(service, events.drop_last());
    }
}

/// When the configuration changes, the client is cancelled; once that has stopped, and unless the
/// service was cancelled, another one is started with the configuration as it is by then.
pub proof fn law_new_configuration_is_taken<C>(service: ServiceModel, config: C)
    requires
        service.phase == ServicePhase::Running,
    ensures
        ({
            let changed = ServiceEvent::<C>::ConfigChanged;
            let joined = ServiceEvent::<C>::Joined;
            let checked = ServiceEvent::<C>::Checked { cancelled: false };
            let joining = service.after(changed);
            let checking = joining.after(joined);
            let configuring = checking.after(checked);
            &&& service.accepts(changed)
            &&& service.response(changed) is CancelClient
            &&& forall|event: ServiceEvent<C>| joining.accepts(event) ==> event == joined
            &&& joining.response(joined) is Check
            &&& checking.response(checked) is ReadConfig
            &&& configuring.accepts(ServiceEvent::Configured(config))
            &&& configuring.response(ServiceEvent::Configured(config)) == ServiceAction::Start(
                config,
            )
        }),
{
}

/// What can happen to a service: the outcome of what it looks up, and while its client runs that the
/// client stops, that the configuration changes, and for the channel's that it is cancelled; then that
/// the client it has cancelled has stopped. Nothing happens to one that has stopped.
pub proof fn law_what_can_happen_to_a_service<C>(service: ServiceModel, event: ServiceEvent<C>)
    ensures
        service.accepts(event) <==> match service.phase {
            ServicePhase::Checking => event is Checked,
            ServicePhase::Configuring => event is Configured,
            ServicePhase::Running => event is ClientExited || event is ConfigChanged || (event
                is Cancelled && service.kind is Twitch),
            ServicePhase::Joining => event is Joined,
            ServicePhase::Stopped => false,
        },
{
}

/// What a service does next, and where that brings it. Whose service it is does not change, and it goes on
/// after its client has stopped by itself only where it is the game server's.
pub proof fn law_what_a_service_does_next<C>(service: ServiceModel, event: ServiceEvent<C>)
    requires
        service.accepts(event),
    ensures
        ({
            let action = service.response(event);
            &&& match event {
                ServiceEvent::Checked { cancelled: true } => action is Stop,
                ServiceEvent::Checked { cancelled: false } => action is ReadConfig,
                ServiceEvent::Configured(config) => action == ServiceAction::Start(config),
                ServiceEvent::Cancelled => action is Stop,
                ServiceEvent::ConfigChanged => action is CancelClient,
                ServiceEvent::ClientExited => if service.kind is Rcon {
                    action is Check
                } else {
                    action is Stop
                },
                ServiceEvent::Joined => action is Check,
            }
            &&& service.after(event).kind == service.kind
            &&& service.after(event).phase == (match action {
                ServiceAction::Check => ServicePhase::Checking,
                ServiceAction::ReadConfig => ServicePhase::Configuring,
                ServiceAction::Start(_) => ServicePhase::Running,
                ServiceAction::CancelClient => ServicePhase::Joining,
                ServiceAction::Stop => ServicePhase::Stopped,
            })
        }),
        ServiceModel::fresh(service.kind).phase == ServicePhase::Checking,
        ServiceModel::fresh(service.kind).kind == service.kind,
{
}

/// Of what is ready while a client runs, the game server's service acts on the end of its client first and
/// never on a cancellation; the channel's on a cancellation first and on the end of its client last.
pub proof fn law_what_a_service_acts_on_first<C>(
    service: ServiceModel,
    cancelled: bool,
    changed: bool,
    exited: bool,
)
    ensures
        service.kind is Rcon ==> {
            &&& service.choice::<C>(cancelled, changed, true) == Some(
                ServiceEvent::<C>::ClientExited,
            )
            &&& service.choice::<C>(cancelled, true, false) == Some(
                ServiceEvent::<C>::ConfigChanged,
            )
            &&& service.choice::<C>(cancelled, false, false) is None
        },
        service.kind is Twitch ==> {
            &&& service.choice::<C>(true, changed, exited) == Some(ServiceEvent::<C>::Cancelled)
            &&& service.choice::<C>(false, true, exited) == Some(ServiceEvent::<C>::ConfigChanged)
            &&& service.choice::<C>(false, false, true) == Some(ServiceEvent::<C>::ClientExited)
            &&& service.choice::<C>(false, false, false) is None
        },
{
}

} // verus!
