use twitch_rcon::service::{Service, ServiceAction, ServiceEvent, ServiceKind};

type Event = ServiceEvent<u8>;

fn running(kind: ServiceKind, config: u8) -> Service {
    let mut service = Service::new(kind);
    assert!(matches!(service.step(Event::Checked { cancelled: false }), ServiceAction::ReadConfig));
    assert!(matches!(service.step(Event::Configured(config)), ServiceAction::Start(c) if c == config));
    service
}

#[test]
fn a_cancelled_service_starts_nothing() {
    for kind in [ServiceKind::Rcon, ServiceKind::Twitch] {
        let mut service = Service::new(kind);
        assert!(!service.takes(&Event::Configured(1)));
        assert!(matches!(service.step(Event::Checked { cancelled: true }), ServiceAction::Stop));
        assert!(!service.takes(&Event::Checked { cancelled: false }));
        assert!(!service.takes(&Event::Configured(1)));
    }
}

#[test]
fn the_game_server_client_is_always_started_again() {
    let mut service = running(ServiceKind::Rcon, 1);
    assert!(!service.takes(&Event::Cancelled));
    assert!(matches!(service.step(Event::ClientExited), ServiceAction::Check));
    assert!(matches!(service.step(Event::Checked { cancelled: false }), ServiceAction::ReadConfig));
    assert!(matches!(service.step(Event::Configured(1)), ServiceAction::Start(1)));
    service.step(Event::ClientExited);
    assert!(matches!(service.step(Event::Checked { cancelled: true }), ServiceAction::Stop));
}

#[test]
fn a_new_client_waits_for_the_end_of_the_old_one() {
    for kind in [ServiceKind::Rcon, ServiceKind::Twitch] {
        let mut service = running(kind, 1);
        assert!(matches!(service.step(Event::ConfigChanged), ServiceAction::CancelClient));
        assert!(!service.takes(&Event::Checked { cancelled: false }));
        assert!(!service.takes(&Event::Configured(2)));
        assert!(matches!(service.step(Event::Joined), ServiceAction::Check));
        assert!(matches!(service.step(Event::Checked { cancelled: false }), ServiceAction::ReadConfig));
        assert!(matches!(service.step(Event::Configured(2)), ServiceAction::Start(2)));
    }
}

#[test]
fn the_channel_service_stops_with_its_client() {
    let mut exited = running(ServiceKind::Twitch, 1);
    assert!(matches!(exited.step(Event::ClientExited), ServiceAction::Stop));
    assert!(!exited.takes(&Event::Checked { cancelled: false }));
    let mut cancelled = running(ServiceKind::Twitch, 1);
    assert!(matches!(cancelled.step(Event::Cancelled), ServiceAction::Stop));
    assert!(!cancelled.takes(&Event::Checked { cancelled: false }));
}

#[test]
fn what_a_service_acts_on_first() {
    let rcon = running(ServiceKind::Rcon, 1);
    assert!(matches!(rcon.chosen::<u8>(true, true, true), Some(ServiceEvent::ClientExited)));
    assert!(matches!(rcon.chosen::<u8>(true, true, false), Some(ServiceEvent::ConfigChanged)));
    assert!(rcon.chosen::<u8>(true, false, false).is_none());
    let twitch = running(ServiceKind::Twitch, 1);
    assert!(matches!(twitch.chosen::<u8>(true, true, true), Some(ServiceEvent::Cancelled)));
    assert!(matches!(twitch.chosen::<u8>(false, true, true), Some(ServiceEvent::ConfigChanged)));
    assert!(matches!(twitch.chosen::<u8>(false, false, true), Some(ServiceEvent::ClientExited)));
    assert!(twitch.chosen::<u8>(false, false, false).is_none());
}
