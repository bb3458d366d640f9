use std::sync::Arc;
use twitch_rcon::config::{
    offer_rcon, offer_redeems, offer_twitch, AppConfig, RconConfig, RconMode, RedeemConfig,
    TwitchConfig,
};
use twitch_rcon::distribute::{DistributeAction, DistributeEvent, Distribution};
use twitch_rcon::extra::{ExtraFormat, ExtraMap};

fn config(host: &str, command: &str, token: &str) -> AppConfig {
    AppConfig {
        rcon: RconConfig {
            host: String::from(host),
            password: String::new(),
            mode: RconMode::Source,
        },
        twitch: TwitchConfig { auth_token: Arc::from(token) },
        redeems: vec![RedeemConfig {
            reward: String::from("r"),
            channel: None,
            command: String::from(command),
            extra: ExtraMap(Vec::new()),
            format: ExtraFormat::JsonMap,
        }],
    }
}

#[test]
fn every_configuration_is_offered_until_the_end() {
    let mut distribution = Distribution::new();
    for host in ["a", "b", "b"] {
        match distribution.step(DistributeEvent::Received(config(host, "c", "t"))) {
            DistributeAction::Offer(offered) => assert_eq!(offered.rcon.host, host),
            other => panic!("{:?}", other),
        }
        assert!(!distribution.takes(&DistributeEvent::Closed));
        assert!(matches!(distribution.step(DistributeEvent::Offered), DistributeAction::Receive));
    }
    assert!(matches!(distribution.step(DistributeEvent::Closed), DistributeAction::Stop));
    assert!(!distribution.takes(&DistributeEvent::Offered));
    assert!(!distribution.takes(&DistributeEvent::Received(config("a", "c", "t"))));
}

#[test]
fn only_parts_with_new_settings_are_told() {
    let first = config("a", "c", "t");
    let mut rcon = Arc::new(first.rcon);
    let mut redeems = first.redeems;
    let mut twitch = Arc::new(first.twitch);
    let mut told: Vec<(bool, bool, bool)> = Vec::new();
    for next in [
        config("a", "c", "t"),
        config("b", "c", "t"),
        config("b", "d", "t"),
        config("b", "d", "u"),
        config("b", "d", "u"),
    ] {
        told.push((
            offer_rcon(&mut rcon, next.rcon),
            offer_redeems(&mut redeems, next.redeems),
            offer_twitch(&mut twitch, next.twitch),
        ));
    }
    assert_eq!(
        told,
        [
            (false, false, false),
            (true, false, false),
            (false, true, false),
            (false, false, true),
            (false, false, false),
        ]
    );
    assert_eq!(rcon.host, "b");
    assert_eq!(redeems[0].command, "d");
    assert_eq!(&*twitch.auth_token, "u");
}
