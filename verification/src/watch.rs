//! When the configuration is read again after its file has changed.

use crate::config::AppConfig;
use vstd::prelude::*;

verus! {

/// How long the file has to stay unchanged before it is read, in milliseconds.
pub const LOAD_DELAY_MILLIS: u64 = 100;

/// What the watch is at.
#[derive(Clone, Copy, Debug, PartialEq, Eq, Structural)]
pub enum WatchPhase {
    /// It waits for a change, or for the load timer.
    Watching,
    /// It reads the file.
    Loading,
    /// It passes on what it has read.
    Passing,
    /// It is done.
    Done,
}

/// Why the watch ended early.
#[derive(Clone, Copy, Debug, PartialEq, Eq, Structural)]
pub enum WatchError {
    /// Changes are no longer reported.
    Communicate,
    /// A report says that watching failed.
    Listen,
    /// Nobody takes the configuration.
    Propagate,
}

/// What has happened.
#[derive(Clone, Debug)]
pub enum WatchEvent {
    /// The watch was cancelled.
    Cancelled,
    /// The file has changed.
    Changed,
    /// Changes are no longer reported.
    Disconnected,
    /// Watching failed.
    Failed,
    /// The load timer ran out.
    TimerFired,
    /// The configuration was read.
    Loaded(AppConfig),
    /// The configuration could not be read, or is not in order.
    LoadFailed,
    /// The configuration was passed on.
    Passed,
    /// Nobody took the configuration.
    PassFailed,
}

/// A report on the file.
#[derive(Clone, Copy, Debug, PartialEq, Eq, Structural)]
pub enum ChangeReport {
    /// The file has changed.
    Changed,
    /// Watching failed.
    Failed,
    /// There will be no more reports.
    Disconnected,
}

/// What is to be done next.
#[derive(Clone, Debug)]
pub enum WatchAction {
    /// Wait, without a load timer.
    Wait,
    /// Start the load timer, anew where it runs already, and wait.
    StartTimer { millis: u64 },
    /// Read the configuration.
    Load,
    /// Pass on the configuration.
    Pass(AppConfig),
    /// Stop.
    Stop,
    /// Stop and report.
    Fail(WatchError),
}

/// The watch, as far as it shows.
#[derive(Clone, Copy, Debug)]
pub struct WatchModel {
    pub phase: WatchPhase,
    /// Whether the load timer runs.
    pub armed: bool,
}

impl WatchModel {
    /// A watch that has seen no change yet.
    pub open spec fn fresh() -> WatchModel {
        WatchModel { phase: WatchPhase::Watching, armed: false }
    }

    /// What can happen next.
    pub open spec fn accepts(self, event: WatchEvent) -> bool {
        match event {
            WatchEvent::Cancelled | WatchEvent::Changed | WatchEvent::Disconnected
            | WatchEvent::Failed => self.phase == WatchPhase::Watching,
            WatchEvent::TimerFired => self.phase == WatchPhase::Watching && self.armed,
            WatchEvent::Loaded(_) | WatchEvent::LoadFailed => self.phase == WatchPhase::Loading,
            WatchEvent::Passed | WatchEvent::PassFailed => self.phase == WatchPhase::Passing,
        }
    }

    /// What is acted on while the watch waits, where several things may be ready at once: that it was
    /// cancelled first, then a report on the file, and the load timer last. So a change that is
    /// reported puts off a load that is due.
    pub open spec fn choice(
        self,
        cancelled: bool,
        report: Option<ChangeReport>,
        timer_over: bool,
    ) -> Option<WatchEvent> {
        if cancelled {
            Some(WatchEvent::Cancelled)
        } else {
            match report {
                Some(ChangeReport::Changed) => Some(WatchEvent::Changed),
                Some(ChangeReport::Failed) => Some(WatchEvent::Failed),
                Some(ChangeReport::Disconnected) => Some(WatchEvent::Disconnected),
                None => if self.armed && timer_over {
                    Some(WatchEvent::TimerFired)
                } else {
                    None
                },
            }
        }
    }

    /// The watch after an event.
    pub open spec fn after(self, event: WatchEvent) -> WatchModel {
        match event {
            WatchEvent::Changed => WatchModel { armed: true, ..self },
            WatchEvent::TimerFired => WatchModel { phase: WatchPhase::Loading, armed: false },
            WatchEvent::Loaded(_) => WatchModel { phase: WatchPhase::Passing, ..self },
            WatchEvent::LoadFailed | WatchEvent::Passed => WatchModel {
                phase: WatchPhase::Watching,
                ..self
            },
            WatchEvent::Cancelled | WatchEvent::Disconnected | WatchEvent::Failed
            | WatchEvent::PassFailed => WatchModel { phase: WatchPhase::Done, ..self },
        }
    }

    /// What is to be done about an event.
    pub open spec fn response(event: WatchEvent) -> WatchAction {
        match event {
            WatchEvent::Cancelled => WatchAction::Stop,
            WatchEvent::Changed => WatchAction::StartTimer { millis: LOAD_DELAY_MILLIS },
            WatchEvent::Disconnected => WatchAction::Fail(WatchError::Communicate),
            WatchEvent::Failed => WatchAction::Fail(WatchError::Listen),
            WatchEvent::TimerFired => WatchAction::Load,
            WatchEvent::Loaded(config) => WatchAction::Pass(config),
            WatchEvent::LoadFailed => WatchAction::Wait,
            WatchEvent::Passed => WatchAction::Wait,
            WatchEvent::PassFailed => WatchAction::Fail(WatchError::Propagate),
        }
    }

    /// The watch after some events.
    pub open spec fn after_all(self, events: Seq<WatchEvent>) -> WatchModel
        decreases events.len(),
    {
        if events.len() == 0 {
            self
        } else {
            self.after_all(events.drop_last()).after(events.last())
        }
    }

    /// Each of the events can happen when it does.
    pub open spec fn accepts_all(self, events: Seq<WatchEvent>) -> bool
        decreases events.len(),
    {
        if events.len() == 0 {
            true
        } else {
            self.accepts_all(events.drop_last()) && self.after_all(events.drop_last()).accepts(
                events.last(),
            )
        }
    }
}

/// Reads the configuration again some time after its file has changed.
#[derive(Debug)]
pub struct ConfigWatch {
    state: WatchModel,
}

impl View for ConfigWatch {
    type V = WatchModel;

    closed spec fn view(&self) -> WatchModel {
        self.state
    }
}

impl ConfigWatch {
    /// A watch that has seen no change yet.
    pub fn new() -> (r: Self)
        ensures
            r@ == WatchModel::fresh(),
    {
        ConfigWatch { state: WatchModel { phase: WatchPhase::Watching, armed: false } }
    }

    /// Whether `event` can happen next.
    pub fn takes(&self, event: &WatchEvent) -> (r: bool)
        ensures
            r == self@.accepts(*event),
    {
        match event {
            WatchEvent::Cancelled | WatchEvent::Changed | WatchEvent::Disconnected
            | WatchEvent::Failed => self.state.phase == WatchPhase::Watching,
            WatchEvent::TimerFired => self.state.phase == WatchPhase::Watching && self.state.armed,
            WatchEvent::Loaded(_) | WatchEvent::LoadFailed => self.state.phase == WatchPhase::Loading,
            WatchEvent::Passed | WatchEvent::PassFailed => self.state.phase == WatchPhase::Passing,
        }
    }

    /// Which of the things that are ready happens to a watch that waits.
    pub fn chosen(&self, cancelled: bool, report: Option<ChangeReport>, timer_over: bool) -> (r:
        Option<WatchEvent>)
        requires
            self@.phase == WatchPhase::Watching,
        ensures
            r == self@.choice(cancelled, report, timer_over),
            r matches Some(event) ==> self@.accepts(event),
    {
        if cancelled {
            return Some(WatchEvent::Cancelled);
        }
        match report {
            Some(ChangeReport::Changed) => Some(WatchEvent::Changed),
            Some(ChangeReport::Failed) => Some(WatchEvent::Failed),
            Some(ChangeReport::Disconnected) => Some(WatchEvent::Disconnected),
            None => if self.state.armed && timer_over {
                Some(WatchEvent::TimerFired)
            } else {
                None
            },
        }
    }

    /// Takes note of what has happened, and says what is to be done next.
    pub fn step(&mut self, event: WatchEvent) -> (r: WatchAction)
        requires
            old(self)@.accepts(event),
        ensures
            final(self)@ == old(self)@.after(event),
            r == WatchModel::response(event),
    {
        match event {
            WatchEvent::Cancelled => {
                self.state.phase = WatchPhase::Done;
                WatchAction::Stop
            },
            WatchEvent::Changed => {
                self.state.armed = true;
                WatchAction::StartTimer { millis: LOAD_DELAY_MILLIS }
            },
            WatchEvent::Disconnected => {
                self.state.phase = WatchPhase::Done;
                WatchAction::Fail(WatchError::Communicate)
            },
            WatchEvent::Failed => {
                self.state.phase = WatchPhase::Done;
                WatchAction::Fail(WatchError::Listen)
            },
            WatchEvent::TimerFired => {
                self.state.phase = WatchPhase::Loading;
                self.state.armed = false;
                WatchAction::Load
            },
            WatchEvent::Loaded(config) => {
                self.state.phase = WatchPhase::Passing;
                WatchAction::Pass(config)
            },
            WatchEvent::LoadFailed => {
                self.state.phase = WatchPhase::Watching;
                WatchAction::Wait
            },
            WatchEvent::Passed => {
                self.state.phase = WatchPhase::Watching;
                WatchAction::Wait
            },
            WatchEvent::PassFailed => {
                self.state.phase = WatchPhase::Done;
                WatchAction::Fail(WatchError::Propagate)
            },
        }
    }
}

impl WatchError {
    /// What failed.
    pub open spec fn text(self) -> Seq<char> {
        match self {
            WatchError::Communicate => "Failed to communicate config change events"@,
            WatchError::Listen => "Failed to listen for config change events"@,
            WatchError::Propagate => "Failed to propagate updated configuration"@,
        }
    }

    /// A phrase for the user.
    pub fn message(&self) -> (r: &'static str)
        ensures
            r@ == self.text(),
    {
        match self {
            WatchError::Communicate => "Failed to communicate config change events",
            WatchError::Listen => "Failed to listen for config change events",
            WatchError::Propagate => "Failed to propagate updated configuration",
        }
    }
}

/// The file has changed since it was last read.
pub open spec fn changed_since_load(events: Seq<WatchEvent>) -> bool
    decreases events.len(),
{
    if events.len() == 0 {
        false
    } else {
        match events.last() {
            WatchEvent::Changed => true,
            WatchEvent::TimerFired => false,
            _ => changed_since_load(events.drop_last()),
        }
    }
}

/// How often the file is read in the course of some events.
pub open spec fn loads(events: Seq<WatchEvent>) -> nat {
    events.filter(|event: WatchEvent| event is TimerFired).len()
}

/// How often the file changes in the course of some events.
pub open spec fn changes(events: Seq<WatchEvent>) -> nat {
    events.filter(|event: WatchEvent| event is Changed).len()
}

/// No change is forgotten, and none is loaded twice: the load timer runs exactly while the file has
/// changed since it was last read, so that any number of changes in a row make for one load.
pub proof fn law_changes_are_loaded_once(events: Seq<WatchEvent>)
    requires
        WatchModel::fresh().accepts_all(events),
    ensures
        ({
            let now = WatchModel::fresh().after_all(events);
            &&& now.armed == changed_since_load(events)
            &&& loads(events) + (if now.armed { 1nat } else { 0nat }) <= changes(events)
        }),
    decreases events.len(),
{
    let fires = |event: WatchEvent| event is TimerFired;
    let changed = |event: WatchEvent| event is Changed;
    if events.len() == 0 {
        assert(events.filter(fires) =~= events) by {
            reveal(Seq::filter);
        }
        assert(events.filter(changed) =~= events) by {
            reveal(Seq::filter);
        }
    } else {
        let front = events.drop_last();
        law_changes_are_loaded_once(front);
        assert(front.push(events.last()) =~= events);
        front.lemma_filter_push(events.last(), fires);
        front.lemma_filter_push(events.last(), changed);
    }
}

/// The configurations that are read in the course of some events.
pub open spec fn loaded(events: Seq<WatchEvent>) -> Seq<AppConfig>
    decreases events.len(),
{
    if events.len() == 0 {
        Seq::empty()
    } else {
        match events.last() {
            WatchEvent::Loaded(config) => loaded(events.drop_last()).push(config),
            _ => loaded(events.drop_last()),
        }
    }
}

/// The configurations that are to be passed on in the course of some events.
pub open spec fn passed_on(events: Seq<WatchEvent>) -> Seq<AppConfig>
    decreases events.len(),
{
    if events.len() == 0 {
        Seq::empty()
    } else {
        match WatchModel::response(events.last()) {
            WatchAction::Pass(config) => passed_on(events.drop_last()).push(config),
            _ => passed_on(events.drop_last()),
        }
    }
}

/// What is passed on is exactly what was read, in the same order. The file is read only when the load
/// timer has run out, and each time what was read before has been passed on.
pub proof fn law_what_is_read_is_passed_on(events: Seq<WatchEvent>)
    requires
        WatchModel::fresh().accepts_all(events),
    ensures
        passed_on(events) == loaded(events),
        ({
            let now = WatchModel::fresh().after_all(events);
            let taken = events.filter(|event: WatchEvent| event is Passed).len();
            &&& now.phase == WatchPhase::Watching || now.phase == WatchPhase::Loading ==> taken
                == loaded(events).len()
            &&& now.phase == WatchPhase::Passing ==> taken + 1 == loaded(events).len()
            &&& taken <= loaded(events).len() <= taken + 1
            &&& loaded(events).len() <= loads(events)
            &&& now.phase == WatchPhase::Loading ==> loaded(events).len() < loads(events)
        }),
    decreases events.len(),
{
    let fires = |event: WatchEvent| event is TimerFired;
    let passed = |event: WatchEvent| event is Passed;
    if events.len() == 0 {
        assert(events.filter(fires) =~= events) by {
            reveal(Seq::filter);
        }
        assert(events.filter(passed) =~= events) by {
            reveal(Seq::filter);
        }
    } else {
        let front = events.drop_last();
        law_what_is_read_is_passed_on(front);
        assert(front.push(events.last()) =~= events);
        front.lemma_filter_push(events.last(), fires);
        front.lemma_filter_push(events.last(), passed);
    }
}

/// What can happen to a watch: while it waits, that it is cancelled, a report on the file, and that its
/// load timer runs out where it runs; while it reads or passes on, the outcome of that. Nothing happens to
/// one that is done.
pub proof fn law_what_can_happen_to_a_watch(watch: WatchModel, event: WatchEvent)
    ensures
        watch.accepts(event) <==> match watch.phase {
            WatchPhase::Watching => event is Cancelled || event is Changed || event is Disconnected
                || event is Failed || (event is TimerFired && watch.armed),
            WatchPhase::Loading => event is Loaded || event is LoadFailed,
            WatchPhase::Passing => event is Passed || event is PassFailed,
            WatchPhase::Done => false,
        },
{
}

/// What a watch does next, and where that brings it. Each change starts the load timer anew, for a tenth of
/// a second; a file that cannot be read changes nothing; and the watch goes on until it is cancelled or
/// something fails, which is reported.
pub proof fn law_what_a_watch_does_next(watch: WatchModel, event: WatchEvent)
    requires
        watch.accepts(event),
    ensures
        ({
            let action = WatchModel::response(event);
            let next = watch.after(event);
            &&& match event {
                WatchEvent::Cancelled => action is Stop,
                WatchEvent::Changed => action == (WatchAction::StartTimer { millis: 100 }),
                WatchEvent::Disconnected => action == WatchAction::Fail(WatchError::Communicate),
                WatchEvent::Failed => action == WatchAction::Fail(WatchError::Listen),
                WatchEvent::TimerFired => action is Load,
                WatchEvent::Loaded(config) => action == WatchAction::Pass(config),
                WatchEvent::LoadFailed => action is Wait,
                WatchEvent::Passed => action is Wait,
                WatchEvent::PassFailed => action == WatchAction::Fail(WatchError::Propagate),
            }
            &&& next.phase == (match action {
                WatchAction::Wait | WatchAction::StartTimer { .. } => WatchPhase::Watching,
                WatchAction::Load => WatchPhase::Loading,
                WatchAction::Pass(_) => WatchPhase::Passing,
                WatchAction::Stop | WatchAction::Fail(_) => WatchPhase::Done,
            })
            &&& next.armed == (event is Changed || (watch.armed && !(event is TimerFired)))
        }),
        WatchModel::fresh().phase == WatchPhase::Watching,
        !WatchModel::fresh().armed,
{
}

/// Of what is ready while a watch waits, a cancellation comes first, then a report on the file, and the
/// load timer last, if it runs.
pub proof fn law_what_a_watch_acts_on_first(
    watch: WatchModel,
    report: Option<ChangeReport>,
    timer_over: bool,
)
    ensures
        watch.choice(true, report, timer_over) == Some(WatchEvent::Cancelled),
        watch.choice(false, Some(ChangeReport::Changed), timer_over) == Some(WatchEvent::Changed),
        watch.choice(false, Some(ChangeReport::Failed), timer_over) == Some(WatchEvent::Failed),
        watch.choice(false, Some(ChangeReport::Disconnected), timer_over) == Some(
            WatchEvent::Disconnected,
        ),
        watch.armed ==> watch.choice(false, None, true) == Some(WatchEvent::TimerFired),
        !watch.armed ==> watch.choice(false, None, timer_over) is None,
        watch.choice(false, None, false) is None,
{
}

} // verus!
