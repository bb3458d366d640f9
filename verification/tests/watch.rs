use std::sync::Arc;
use twitch_rcon::config::{AppConfig, RconConfig, RconMode, TwitchConfig};
use twitch_rcon::watch::{ChangeReport, ConfigWatch, WatchAction, WatchError, WatchEvent};

fn config() -> AppConfig {
    AppConfig {
        rcon: RconConfig { host: String::from("h"), password: String::new(), mode: RconMode::Source },
        twitch: TwitchConfig { auth_token: Arc::from("t") },
        redeems: Vec::new(),
    }
}

#[test]
fn several_changes_make_for_one_load() {
    let mut watch = ConfigWatch::new();
    let mut loads = 0;
    assert!(!watch.takes(&WatchEvent::TimerFired));
    for _ in 0..5 {
        assert!(matches!(watch.step(WatchEvent::Changed), WatchAction::StartTimer { millis: 100 }));
    }
    while watch.takes(&WatchEvent::TimerFired) {
        assert!(matches!(watch.step(WatchEvent::TimerFired), WatchAction::Load));
        loads += 1;
        assert!(matches!(watch.step(WatchEvent::LoadFailed), WatchAction::Wait));
    }
    assert_eq!(loads, 1);
    assert!(watch.takes(&WatchEvent::Changed));
}

#[test]
fn passes_on_what_was_loaded() {
    let mut watch = ConfigWatch::new();
    watch.step(WatchEvent::Changed);
    watch.step(WatchEvent::TimerFired);
    match watch.step(WatchEvent::Loaded(config())) {
        WatchAction::Pass(passed) => assert!(passed == config()),
        other => panic!("{:?}", other),
    }
    assert!(matches!(watch.step(WatchEvent::Passed), WatchAction::Wait));
    assert!(watch.takes(&WatchEvent::Changed));
}

#[test]
fn watching_ends_early() {
    let mut cancelled = ConfigWatch::new();
    assert!(matches!(cancelled.step(WatchEvent::Cancelled), WatchAction::Stop));
    assert!(!cancelled.takes(&WatchEvent::Changed));

    let mut silent = ConfigWatch::new();
    assert!(matches!(silent.step(WatchEvent::Disconnected), WatchAction::Fail(WatchError::Communicate)));

    let mut failed = ConfigWatch::new();
    assert!(matches!(failed.step(WatchEvent::Failed), WatchAction::Fail(WatchError::Listen)));

    let mut unheard = ConfigWatch::new();
    unheard.step(WatchEvent::Changed);
    unheard.step(WatchEvent::TimerFired);
    unheard.step(WatchEvent::Loaded(config()));
    assert!(matches!(unheard.step(WatchEvent::PassFailed), WatchAction::Fail(WatchError::Propagate)));
}

#[test]
fn watch_errors_have_messages() {
    assert_eq!(WatchError::Communicate.message(), "Failed to communicate config change events");
    assert_eq!(WatchError::Listen.message(), "Failed to listen for config change events");
    assert_eq!(WatchError::Propagate.message(), "Failed to propagate updated configuration");
}

#[test]
fn a_report_puts_off_a_load_that_is_due() {
    let mut watch = ConfigWatch::new();
    assert!(watch.chosen(false, None, true).is_none());
    watch.step(WatchEvent::Changed);
    let changed = Some(ChangeReport::Changed);
    assert!(matches!(watch.chosen(true, changed, true), Some(WatchEvent::Cancelled)));
    assert!(matches!(watch.chosen(false, changed, true), Some(WatchEvent::Changed)));
    let failed = Some(ChangeReport::Failed);
    assert!(matches!(watch.chosen(false, failed, true), Some(WatchEvent::Failed)));
    let gone = Some(ChangeReport::Disconnected);
    assert!(matches!(watch.chosen(false, gone, true), Some(WatchEvent::Disconnected)));
    assert!(matches!(watch.chosen(false, None, true), Some(WatchEvent::TimerFired)));
    assert!(watch.chosen(false, None, false).is_none());
}
