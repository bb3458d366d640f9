use std::sync::Arc;
use twitch_rcon::catalog::{is_sorted_by_reward, partition_point, sort_by_reward};
use twitch_rcon::config::{AppConfig, RconConfig, RconMode, RedeemConfig, TwitchConfig};
use twitch_rcon::extra::{ExtraFormat, ExtraMap, ExtraValue};
use twitch_rcon::rcon::RconCommand;
use twitch_rcon::redeem::{ChannelToken, Redeem};

fn configured(reward: &str, channel: Option<&str>, command: &str) -> RedeemConfig {
    RedeemConfig {
        reward: String::from(reward),
        channel: channel.map(String::from),
        command: String::from(command),
        extra: ExtraMap(Vec::new()),
        format: ExtraFormat::JsonMap,
    }
}

fn redeemed(title: &str, channel: &str) -> Redeem {
    Redeem {
        channel_token: Arc::new(ChannelToken {
            login: Some(String::from(channel)),
            user_id: Some(String::from("1")),
        }),
        redeem_id: String::from("id"),
        redeem_input: None,
        reward_cost: 100,
        reward_id: String::from("reward"),
        reward_title: String::from(title),
        user_id: String::from("2"),
        user_login: String::from("viewer"),
        user_name: String::from("Viewer"),
    }
}

fn commands(redeems: &Vec<RedeemConfig>, title: &str, channel: &str) -> Vec<String> {
    redeemed(title, channel)
        .commands(redeems)
        .into_iter()
        .map(|command| match command.unwrap() {
            RconCommand::Handle(text) => String::from(&*text),
        })
        .collect()
}

fn sample() -> Vec<RedeemConfig> {
    vec![
        configured("b", None, "b1"),
        configured("a", None, "a1"),
        configured("b", Some("me"), "b2"),
        configured("c", Some("you"), "c1"),
        configured("b", Some("you"), "b3"),
        configured("b", None, "b4"),
        configured("B", None, "upper"),
    ]
}

#[test]
fn triggers_what_matches_reward_and_channel() {
    let redeems = sort_by_reward(sample());
    assert_eq!(commands(&redeems, "b", "me"), ["b1", "b2", "b4"]);
    assert_eq!(commands(&redeems, "b", "you"), ["b1", "b3", "b4"]);
    assert_eq!(commands(&redeems, "b", "other"), ["b1", "b4"]);
    assert_eq!(commands(&redeems, "a", "me"), ["a1"]);
    assert_eq!(commands(&redeems, "B", "me"), ["upper"]);
    assert_eq!(commands(&redeems, "c", "you"), ["c1"]);
}

#[test]
fn triggers_nothing_for_other_rewards() {
    let redeems = sort_by_reward(sample());
    for title in ["", "A", "aa", "ab", "bb", "d", "b "] {
        assert!(commands(&redeems, title, "me").is_empty(), "{:?}", title);
    }
    assert!(commands(&redeems, "c", "me").is_empty());
    assert!(commands(&Vec::new(), "b", "me").is_empty());
}

#[test]
fn triggers_in_the_order_of_the_file() {
    let parsed = AppConfig {
        rcon: RconConfig { host: String::from("h"), password: String::new(), mode: RconMode::Minecraft },
        twitch: TwitchConfig { auth_token: Arc::from("t") },
        redeems: sample(),
    };
    let in_file: Vec<String> = sample()
        .into_iter()
        .filter(|r| r.reward == "b" && r.channel.as_deref().map_or(true, |c| c == "you"))
        .map(|r| r.command)
        .collect();
    let config = AppConfig::read_from(parsed).unwrap();
    assert_eq!(commands(&config.redeems, "b", "you"), in_file);
}

#[test]
fn commands_carry_their_extra_data() {
    let mut redeem = configured("r", None, "give");
    redeem.extra = ExtraMap(vec![(String::from("item"), ExtraValue::String(String::from("iron-plate")))]);
    redeem.format = ExtraFormat::SpaceValue;
    assert_eq!(commands(&vec![redeem], "r", "me"), ["give iron-plate"]);
}

#[test]
fn finds_where_a_reward_begins() {
    let redeems = sort_by_reward(sample());
    assert_eq!(partition_point(&redeems, ""), 0);
    assert_eq!(partition_point(&redeems, "B"), 0);
    assert_eq!(partition_point(&redeems, "a"), 1);
    assert_eq!(partition_point(&redeems, "b"), 2);
    assert_eq!(partition_point(&redeems, "bb"), 6);
    assert_eq!(partition_point(&redeems, "c"), 6);
    assert_eq!(partition_point(&redeems, "d"), 7);
    assert_eq!(partition_point(&Vec::new(), "d"), 0);
}

#[test]
fn sorting_agrees_with_a_stable_sort() {
    let mut expected = sample();
    expected.sort_by(|a, b| a.reward.cmp(&b.reward));
    let sorted = sort_by_reward(sample());
    let names = |list: &Vec<RedeemConfig>| -> Vec<String> {
        list.iter().map(|r| r.command.clone()).collect()
    };
    assert_eq!(names(&sorted), names(&expected));
    assert_eq!(names(&sort_by_reward(sorted.clone())), names(&sorted));
}

#[test]
fn tells_whether_redeems_are_sorted() {
    assert!(is_sorted_by_reward(&Vec::new()));
    assert!(is_sorted_by_reward(&vec![configured("a", None, "c")]));
    assert!(is_sorted_by_reward(&vec![configured("a", None, "c"), configured("a", None, "d")]));
    assert!(!is_sorted_by_reward(&sample()));
    assert!(is_sorted_by_reward(&sort_by_reward(sample())));
    assert!(!is_sorted_by_reward(&vec![
        configured("a", None, "c"),
        configured("b", None, "d"),
        configured("B", None, "e"),
    ]));
}
