use std::sync::Arc;
use twitch_rcon::config::{
    offer_rcon, offer_redeems, offer_twitch, AppConfig, ConfigError, ConfigSection, MissingSetting,
    RconConfig, RconMode, RedeemConfig, SetRconMode, TwitchConfig,
};
use twitch_rcon::extra::{ExtraFormat, ExtraMap, ExtraValue, FloatValue};

fn rcon(host: &str) -> RconConfig {
    RconConfig { host: String::from(host), password: String::from("secret"), mode: RconMode::Source }
}

fn twitch(token: &str) -> TwitchConfig {
    TwitchConfig { auth_token: Arc::from(token) }
}

fn redeem(reward: &str, command: &str) -> RedeemConfig {
    RedeemConfig {
        reward: String::from(reward),
        channel: None,
        command: String::from(command),
        extra: ExtraMap(Vec::new()),
        format: ExtraFormat::JsonMap,
    }
}

fn app(redeems: Vec<RedeemConfig>) -> AppConfig {
    AppConfig { rcon: rcon("localhost:27015"), twitch: twitch("token"), redeems }
}

fn error(section: ConfigSection, setting: MissingSetting) -> ConfigError {
    ConfigError { section, setting }
}

fn rewards(config: &AppConfig) -> Vec<(String, String)> {
    config.redeems.iter().map(|r| (r.reward.clone(), r.command.clone())).collect()
}

#[test]
fn needs_a_host() {
    assert_eq!(rcon("h").validate(), Ok(()));
    assert_eq!(rcon("").validate(), Err(MissingSetting::RconHost));
}

#[test]
fn needs_an_auth_token() {
    assert_eq!(twitch("t").validate(), Ok(()));
    assert_eq!(twitch("").validate(), Err(MissingSetting::AuthToken));
}

#[test]
fn needs_a_reward_and_a_command() {
    assert_eq!(redeem("r", "c").validate(), Ok(()));
    assert_eq!(redeem("", "c").validate(), Err(MissingSetting::Reward));
    assert_eq!(redeem("r", "").validate(), Err(MissingSetting::Command));
    assert_eq!(redeem("", "").validate(), Err(MissingSetting::Reward));
}

#[test]
fn an_empty_password_is_in_order() {
    let mut config = app(vec![]);
    config.rcon.password = String::new();
    assert_eq!(config.validate(), Ok(()));
}

#[test]
fn the_first_problem_is_reported() {
    let mut config = app(vec![redeem("a", "c"), redeem("b", ""), redeem("", "c")]);
    assert_eq!(config.validate(), Err(error(ConfigSection::Redeem, MissingSetting::Command)));
    config.twitch = twitch("");
    assert_eq!(config.validate(), Err(error(ConfigSection::Twitch, MissingSetting::AuthToken)));
    config.rcon = rcon("");
    assert_eq!(config.validate(), Err(error(ConfigSection::Rcon, MissingSetting::RconHost)));
}

#[test]
fn messages_for_the_user() {
    assert_eq!(ConfigSection::Rcon.message(), "Failed to validate RCON configuration");
    assert_eq!(ConfigSection::Twitch.message(), "Failed to validate Twitch configuration");
    assert_eq!(ConfigSection::Redeem.message(), "Failed to validate redeem configuration");
    assert_eq!(
        MissingSetting::RconHost.message(),
        "An RCON host must be specified. See twitch-rcon.toml for more information."
    );
    assert_eq!(
        MissingSetting::Reward.message(),
        "A channel point reward name must be configured for every redeem."
    );
    assert_eq!(
        MissingSetting::Command.message(),
        "A command to send must be configured for every redeem."
    );
    assert_eq!(
        MissingSetting::AuthToken.message(),
        "A Twitch auth token must be configured. See twitch-rcon.toml for more information."
    );
}

#[test]
fn loading_sorts_the_redeems_and_keeps_equals_in_order() {
    let parsed = app(vec![redeem("b", "1"), redeem("a", "2"), redeem("b", "3"), redeem("A", "4"), redeem("b", "0"), redeem("a", "1")]);
    let config = AppConfig::read_from(parsed).unwrap();
    let expected: Vec<(String, String)> = [("A", "4"), ("a", "2"), ("a", "1"), ("b", "1"), ("b", "3"), ("b", "0")]
        .iter()
        .map(|(r, c)| (String::from(*r), String::from(*c)))
        .collect();
    assert_eq!(rewards(&config), expected);
    assert_eq!(config.rcon.host, "localhost:27015");
    assert_eq!(&*config.twitch.auth_token, "token");
}

#[test]
fn loading_an_empty_list() {
    assert!(AppConfig::read_from(app(vec![])).unwrap().redeems.is_empty());
}

#[test]
fn loading_refuses_what_is_not_in_order() {
    let missing_command = app(vec![redeem("b", ""), redeem("a", "c")]);
    assert_eq!(
        AppConfig::read_from(missing_command).err(),
        Some(error(ConfigSection::Redeem, MissingSetting::Command))
    );
    // A redeem without a reward comes first once they are sorted.
    let both = app(vec![redeem("b", ""), redeem("", "c")]);
    assert_eq!(both.validate(), Err(error(ConfigSection::Redeem, MissingSetting::Command)));
    assert_eq!(
        AppConfig::read_from(both).err(),
        Some(error(ConfigSection::Redeem, MissingSetting::Reward))
    );
    let mut host = app(vec![redeem("", "")]);
    host.rcon = rcon("");
    assert_eq!(AppConfig::read_from(host).err(), Some(error(ConfigSection::Rcon, MissingSetting::RconHost)));
}

#[test]
fn puts_commands_together() {
    let mut config = redeem("r", "spawn");
    assert_eq!(config.command().unwrap(), "spawn");
    config.extra = ExtraMap(vec![
        (String::from("kind"), ExtraValue::String(String::from("cow"))),
        (String::from("count"), ExtraValue::Int(3)),
    ]);
    assert_eq!(config.command().unwrap(), "spawn {\"kind\":\"cow\",\"count\":3}");
    config.format = ExtraFormat::JsonArray;
    assert_eq!(config.command().unwrap(), "spawn [\"cow\",3]");
    config.format = ExtraFormat::SpaceKeyValue;
    assert_eq!(config.command().unwrap(), "spawn kind=cow count=3");
    config.format = ExtraFormat::SpaceValue;
    assert_eq!(config.command().unwrap(), "spawn cow 3");
    config.command = String::from("h\u{e9} \u{1f600}");
    assert_eq!(config.command().unwrap(), "h\u{e9} \u{1f600} cow 3");
}

#[test]
fn an_unchanged_game_server_is_kept() {
    let mut current = Arc::new(rcon("a"));
    let before = current.clone();
    assert!(!offer_rcon(&mut current, rcon("a")));
    assert!(Arc::ptr_eq(&before, &current));
    assert!(offer_rcon(&mut current, rcon("b")));
    assert_eq!(current.host, "b");
    assert!(!offer_rcon(&mut current, rcon("b")));
}

#[test]
fn every_setting_of_the_game_server_counts() {
    let mut current = Arc::new(rcon("a"));
    let mut password = rcon("a");
    password.password = String::from("other");
    assert!(offer_rcon(&mut current, password));
    assert_eq!(current.password, "other");
    let mut mode = rcon("a");
    mode.password = String::from("other");
    mode.mode = RconMode::Factorio;
    assert!(offer_rcon(&mut current, mode));
    assert_eq!(current.mode, RconMode::Factorio);
}

#[test]
fn a_changed_token_is_taken() {
    let mut current = Arc::new(twitch("a"));
    assert!(!offer_twitch(&mut current, twitch("a")));
    assert!(offer_twitch(&mut current, twitch("b")));
    assert_eq!(&*current.auth_token, "b");
}

#[test]
fn every_setting_of_a_redeem_counts() {
    let base = redeem("r", "c");
    let mut variants = vec![redeem("s", "c"), redeem("r", "d")];
    let mut channel = redeem("r", "c");
    channel.channel = Some(String::from("x"));
    variants.push(channel);
    let mut extra = redeem("r", "c");
    extra.extra = ExtraMap(vec![(String::from("k"), ExtraValue::Int(1))]);
    variants.push(extra);
    let mut format = redeem("r", "c");
    format.format = ExtraFormat::SpaceValue;
    variants.push(format);
    for variant in variants {
        let mut current = vec![base.clone()];
        assert!(offer_redeems(&mut current, vec![variant.clone()]));
        assert!(current[0] == variant);
        assert!(!offer_redeems(&mut current, vec![variant]));
    }
    let mut current = vec![base.clone()];
    assert!(!offer_redeems(&mut current, vec![base.clone()]));
    assert!(offer_redeems(&mut current, vec![base.clone(), base]));
    assert_eq!(current.len(), 2);
    assert!(offer_redeems(&mut current, Vec::new()));
    assert!(current.is_empty());
}

#[test]
fn a_nan_counts_as_changed_each_time() {
    let mut odd = redeem("r", "c");
    odd.extra = ExtraMap(vec![(
        String::from("x"),
        ExtraValue::Float(FloatValue { bits: f64::NAN.to_bits(), text: String::from("NaN"), json: String::from("null") }),
    )]);
    let mut current = vec![odd.clone()];
    assert!(offer_redeems(&mut current, vec![odd.clone()]));
    assert!(offer_redeems(&mut current, vec![odd]));
}

#[test]
fn configurations_are_equal_by_content() {
    assert!(app(vec![redeem("r", "c")]) == app(vec![redeem("r", "c")]));
    assert!(app(vec![redeem("r", "c")]) != app(vec![]));
}

#[test]
fn each_mode_works_around_its_own_quirks() {
    for (mode, factorio, minecraft) in [
        (RconMode::Factorio, true, false),
        (RconMode::Minecraft, false, true),
        (RconMode::Source, false, false),
    ] {
        let fresh = rcon::Builder::<tokio::net::TcpStream>::new();
        let shown = format!("{:?}", mode.apply_to(fresh));
        assert!(shown.contains(&format!("factorio_quirks_enabled: {}", factorio)), "{}", shown);
        assert!(shown.contains(&format!("minecraft_quirks_enabled: {}", minecraft)), "{}", shown);
        let set = rcon::Builder::<tokio::net::TcpStream>::new()
            .enable_factorio_quirks(true)
            .enable_minecraft_quirks(true)
            .set_mode(mode);
        assert_eq!(format!("{:?}", set), shown);
        let twice = RconMode::Factorio.apply_to(rcon::Builder::<tokio::net::TcpStream>::new());
        assert_eq!(format!("{:?}", mode.apply_to(twice)), shown);
        let custom = rcon::Builder::<tokio::net::TcpStream>::new().sleep_fn(tokio::time::sleep);
        let kept = format!("{:?}", mode.apply_to(custom));
        assert!(kept.contains("custom sleep function"), "{}", kept);
    }
}
