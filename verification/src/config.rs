//! The configuration: what it holds, when it is valid, and how a changed one replaces the one in
//! use.

use crate::catalog::{sort_by_reward, sorted_by_reward, stably_sorted};
use crate::extra::{
    extra_text, float_is_nan, law_same_extra_data, lemma_extra_data_shows, same_extra, same_float,
    same_pair, ExtraFormat, ExtraMap, ExtraValue,
};
use crate::text::{
    is_same, law_order_total, lemma_encoding_concat, push_text, text_at_most, text_of,
};
use std::sync::Arc;
use vstd::prelude::*;
use vstd::std_specs::cmp::PartialEqSpec;
use vstd::utf8::{encode_utf8, encode_utf8_decode_utf8, encode_utf8_valid_utf8};

verus! {

/// The whole configuration.
#[derive(Clone, Debug)]
pub struct AppConfig {
    pub rcon: RconConfig,
    pub twitch: TwitchConfig,
    pub redeems: Vec<RedeemConfig>,
}

/// How the game server is reached.
#[derive(Clone, Debug)]
pub struct RconConfig {
    pub host: String,
    pub password: String,
    pub mode: RconMode,
}

/// The kind of game server.
#[derive(Clone, Copy, Debug, PartialEq, Eq, Structural)]
pub enum RconMode {
    Factorio,
    Minecraft,
    Source,
}

/// A command that is sent when a reward is redeemed.
#[derive(Clone, Debug)]
pub struct RedeemConfig {
    /// The title of the reward.
    pub reward: String,
    /// The channel in which the reward is redeemed, or any.
    pub channel: Option<String>,
    pub command: String,
    pub extra: ExtraMap,
    pub format: ExtraFormat,
}

/// How the channel is reached.
#[derive(Clone, Debug)]
pub struct TwitchConfig {
    pub auth_token: Arc<str>,
}

/// A setting that has to be made and is not.
#[derive(Clone, Copy, Debug, PartialEq, Eq, Structural)]
pub enum MissingSetting {
    RconHost,
    Reward,
    Command,
    AuthToken,
}

/// A part of the configuration.
#[derive(Clone, Copy, Debug, PartialEq, Eq, Structural)]
pub enum ConfigSection {
    Rcon,
    Twitch,
    Redeem,
}

/// Why a configuration is not valid.
#[derive(Clone, Copy, Debug, PartialEq, Eq, Structural)]
pub struct ConfigError {
    pub section: ConfigSection,
    pub setting: MissingSetting,
}

/// Why a command could not be put together.
#[derive(Debug)]
pub enum CommandError {
    Extra(::serde_json::Error),
    Utf8(std::string::FromUtf8Error),
}

impl MissingSetting {
    /// What the setting is for.
    pub open spec fn text(self) -> Seq<char> {
        match self {
            MissingSetting::RconHost =>
                "An RCON host must be specified. See twitch-rcon.toml for more information."@,
            MissingSetting::Reward =>
                "A channel point reward name must be configured for every redeem."@,
            MissingSetting::Command =>
                "A command to send must be configured for every redeem."@,
            MissingSetting::AuthToken =>
                "A Twitch auth token must be configured. See twitch-rcon.toml for more information."@,
        }
    }

    /// A sentence for the user.
    pub fn message(&self) -> (r: &'static str)
        ensures
            r@ == self.text(),
    {
        match self {
            MissingSetting::RconHost =>
                "An RCON host must be specified. See twitch-rcon.toml for more information.",
            MissingSetting::Reward =>
                "A channel point reward name must be configured for every redeem.",
            MissingSetting::Command => "A command to send must be configured for every redeem.",
            MissingSetting::AuthToken =>
                "A Twitch auth token must be configured. See twitch-rcon.toml for more information.",
        }
    }
}

impl ConfigSection {
    /// What failed.
    pub open spec fn text(self) -> Seq<char> {
        match self {
            ConfigSection::Rcon => "Failed to validate RCON configuration"@,
            ConfigSection::Twitch => "Failed to validate Twitch configuration"@,
            ConfigSection::Redeem => "Failed to validate redeem configuration"@,
        }
    }

    /// A phrase for the user.
    pub fn message(&self) -> (r: &'static str)
        ensures
            r@ == self.text(),
    {
        match self {
            ConfigSection::Rcon => "Failed to validate RCON configuration",
            ConfigSection::Twitch => "Failed to validate Twitch configuration",
            ConfigSection::Redeem => "Failed to validate redeem configuration",
        }
    }
}

impl CommandError {
    /// What failed.
    pub open spec fn text(self) -> Seq<char> {
        match self {
            CommandError::Extra(_) => "Failed to serialize extra data for command"@,
            CommandError::Utf8(_) => "Failed to validate command as UTF-8 data"@,
        }
    }

    /// A phrase for the user.
    pub fn message(&self) -> (r: &'static str)
        ensures
            r@ == self.text(),
    {
        match self {
            CommandError::Extra(_) => "Failed to serialize extra data for command",
            CommandError::Utf8(_) => "Failed to validate command as UTF-8 data",
        }
    }
}

impl RconConfig {
    /// What is wrong with the settings.
    pub open spec fn problem(self) -> Option<MissingSetting> {
        if self.host@.len() == 0 {
            Some(MissingSetting::RconHost)
        } else {
            None
        }
    }

    /// Refuses settings without a host.
    pub fn validate(&self) -> (r: Result<(), MissingSetting>)
        ensures
            r == (match self.problem() {
                Some(e) => Err::<(), MissingSetting>(e),
                None => Ok(()),
            }),
    {
        if self.host.as_str().is_empty() {
            return Err(MissingSetting::RconHost);
        }
        Ok(())
    }
}

impl TwitchConfig {
    /// What is wrong with the settings.
    pub open spec fn problem(self) -> Option<MissingSetting> {
        if (*self.auth_token)@.len() == 0 {
            Some(MissingSetting::AuthToken)
        } else {
            None
        }
    }

    /// Refuses settings without an auth token.
    pub fn validate(&self) -> (r: Result<(), MissingSetting>)
        ensures
            r == (match self.problem() {
                Some(e) => Err::<(), MissingSetting>(e),
                None => Ok(()),
            }),
    {
        let token: &str = &self.auth_token;
        if token.is_empty() {
            return Err(MissingSetting::AuthToken);
        }
        Ok(())
    }
}

impl RedeemConfig {
    /// What is wrong with the settings.
    pub open spec fn problem(self) -> Option<MissingSetting> {
        if self.reward@.len() == 0 {
            Some(MissingSetting::Reward)
        } else if self.command@.len() == 0 {
            Some(MissingSetting::Command)
        } else {
            None
        }
    }

    /// Refuses settings without a reward or without a command.
    pub fn validate(&self) -> (r: Result<(), MissingSetting>)
        ensures
            r == (match self.problem() {
                Some(e) => Err::<(), MissingSetting>(e),
                None => Ok(()),
            }),
    {
        if self.reward.as_str().is_empty() {
            return Err(MissingSetting::Reward);
        }
        if self.command.as_str().is_empty() {
            return Err(MissingSetting::Command);
        }
        Ok(())
    }

    /// The command with its extra data behind it.
    pub open spec fn command_text(self) -> Seq<char> {
        self.command@ + extra_text(self.format, self.extra.0@)
    }

    /// Puts the command together that is sent to the game server. This does not fail.
    pub fn command(&self) -> (r: Result<String, CommandError>)
        ensures
            r is Ok,
            r->Ok_0@ == self.command_text(),
    {
        let mut bytes: Vec<u8> = Vec::new();
        push_text(&mut bytes, self.command.as_str());
        match self.format.write(&mut bytes, &self.extra.0) {
            Ok(()) => {},
            Err(e) => {
                return Err(CommandError::Extra(e));
            },
        }
        proof {
            lemma_encoding_concat(self.command@, extra_text(self.format, self.extra.0@));
            assert(bytes@ =~= encode_utf8(self.command_text()));
            encode_utf8_valid_utf8(self.command_text());
            encode_utf8_decode_utf8(self.command_text());
        }
        match text_of(bytes) {
            Ok(command) => Ok(command),
            Err(e) => Err(CommandError::Utf8(e)),
        }
    }
}

/// What is sent begins with the command as it is configured. It is the command itself where there is
/// no extra data, and longer where there is some.
pub proof fn law_command_comes_first(redeem: RedeemConfig)
    ensures
        redeem.command@.is_prefix_of(redeem.command_text()),
        redeem.extra.0@.len() == 0 ==> redeem.command_text() == redeem.command@,
        redeem.extra.0@.len() > 0 ==> redeem.command_text().len() > redeem.command@.len(),
        redeem.command_text().skip(redeem.command@.len() as int) == extra_text(
            redeem.format,
            redeem.extra.0@,
        ),
{
    assert(redeem.command_text().skip(redeem.command@.len() as int) =~= extra_text(
        redeem.format,
        redeem.extra.0@,
    ));
    assert(redeem.command_text().take(redeem.command@.len() as int) =~= redeem.command@);
    if redeem.extra.0@.len() == 0 {
        assert(redeem.command_text() =~= redeem.command@);
    } else {
        lemma_extra_data_shows(redeem.format, redeem.extra.0@);
    }
}

/// The problem of the first redeem that has one.
pub open spec fn first_problem(redeems: Seq<RedeemConfig>) -> Option<MissingSetting>
    decreases redeems.len(),
{
    if redeems.len() == 0 {
        None
    } else {
        match redeems[0].problem() {
            Some(e) => Some(e),
            None => first_problem(redeems.drop_first()),
        }
    }
}

impl AppConfig {
    /// What is wrong with the configuration: with the game server's settings, else with the
    /// channel's, else with the first redeem that is not in order.
    pub open spec fn problem(self) -> Option<ConfigError> {
        match (self.rcon.problem(), self.twitch.problem(), first_problem(self.redeems@)) {
            (Some(setting), _, _) => Some(ConfigError { section: ConfigSection::Rcon, setting }),
            (None, Some(setting), _) => Some(
                ConfigError { section: ConfigSection::Twitch, setting },
            ),
            (None, None, Some(setting)) => Some(
                ConfigError { section: ConfigSection::Redeem, setting },
            ),
            (None, None, None) => None,
        }
    }

    /// Refuses a configuration that is not in order.
    pub fn validate(&self) -> (r: Result<(), ConfigError>)
        ensures
            r == (match self.problem() {
                Some(e) => Err::<(), ConfigError>(e),
                None => Ok(()),
            }),
    {
        match self.rcon.validate() {
            Ok(()) => {},
            Err(setting) => {
                return Err(ConfigError { section: ConfigSection::Rcon, setting });
            },
        }
        match self.twitch.validate() {
            Ok(()) => {},
            Err(setting) => {
                return Err(ConfigError { section: ConfigSection::Twitch, setting });
            },
        }
        let mut i: usize = 0;
        assert(self.redeems@.skip(0) =~= self.redeems@);
        while i < self.redeems.len()
            invariant
                0 <= i <= self.redeems@.len(),
                self.rcon.problem() is None,
                self.twitch.problem() is None,
                first_problem(self.redeems@) == first_problem(self.redeems@.skip(i as int)),
            decreases self.redeems@.len() - i,
        {
            assert(self.redeems@.skip(i as int).drop_first() =~= self.redeems@.skip(i + 1));
            match self.redeems[i].validate() {
                Ok(()) => {},
                Err(setting) => {
                    return Err(ConfigError { section: ConfigSection::Redeem, setting });
                },
            }
            i = i + 1;
        }
        Ok(())
    }

    /// What keeps a configuration from being loaded: a problem with the game server's settings,
    /// else with the channel's, else a redeem without a reward, else one without a command.
    pub open spec fn load_problem(self) -> Option<ConfigError> {
        if self.rcon.problem() is Some {
            Some(
                ConfigError { section: ConfigSection::Rcon, setting: self.rcon.problem()->Some_0 },
            )
        } else if self.twitch.problem() is Some {
            Some(
                ConfigError {
                    section: ConfigSection::Twitch,
                    setting: self.twitch.problem()->Some_0,
                },
            )
        } else if exists|i: int|
            0 <= i < self.redeems@.len() && #[trigger] self.redeems@[i].reward@.len() == 0 {
            Some(ConfigError { section: ConfigSection::Redeem, setting: MissingSetting::Reward })
        } else if exists|i: int|
            0 <= i < self.redeems@.len() && #[trigger] self.redeems@[i].command@.len() == 0 {
            Some(ConfigError { section: ConfigSection::Redeem, setting: MissingSetting::Command })
        } else {
            None
        }
    }

    /// Makes a configuration, as it was read from its file, ready for use: sorts the redeems by
    /// their rewards and refuses what is not in order.
    pub fn read_from(parsed: AppConfig) -> (r: Result<AppConfig, ConfigError>)
        ensures
            r is Ok <==> parsed.load_problem() is None,
            r matches Err(e) ==> parsed.load_problem() == Some(e),
            r matches Ok(config) ==> {
                &&& config.rcon == parsed.rcon
                &&& config.twitch == parsed.twitch
                &&& stably_sorted(parsed.redeems@, config.redeems@)
                &&& config.redeems@.to_multiset() == parsed.redeems@.to_multiset()
                &&& config.problem() is None
            },
    {
        let ghost given: Seq<RedeemConfig> = parsed.redeems@;
        let config: AppConfig = AppConfig {
            rcon: parsed.rcon,
            twitch: parsed.twitch,
            redeems: sort_by_reward(parsed.redeems),
        };
        proof {
            lemma_first_problem_when_sorted(given, config.redeems@);
        }
        match config.validate() {
            Ok(()) => Ok(config),
            Err(e) => Err(e),
        }
    }
}

proof fn lemma_first_problem(redeems: Seq<RedeemConfig>)
    ensures
        first_problem(redeems) is None ==> forall|i: int|
            0 <= i < redeems.len() ==> (#[trigger] redeems[i]).problem() is None,
        first_problem(redeems) matches Some(e) ==> exists|i: int|
            0 <= i < redeems.len() && (#[trigger] redeems[i]).problem() == Some(e),
    decreases redeems.len(),
{
    if redeems.len() > 0 {
        let rest = redeems.drop_first();
        lemma_first_problem(rest);
        if redeems[0].problem() is None {
            if first_problem(rest) is None {
                assert forall|i: int| 0 <= i < redeems.len() implies (
                #[trigger] redeems[i]).problem() is None by {
                    if i > 0 {
                        assert(redeems[i] == rest[i - 1]);
                    }
                }
            } else {
                let e = first_problem(rest)->Some_0;
                let i = choose|i: int|
                    0 <= i < rest.len() && (#[trigger] rest[i]).problem() == Some(e);
                assert(redeems[i + 1] == rest[i]);
            }
        }
    }
}

/// Sorting brings a redeem without a reward to the front, so that it is the first to be refused.
proof fn lemma_first_problem_when_sorted(given: Seq<RedeemConfig>, sorted: Seq<RedeemConfig>)
    requires
        sorted_by_reward(sorted),
        sorted.to_multiset() == given.to_multiset(),
    ensures
        first_problem(sorted) == (if exists|i: int|
            0 <= i < given.len() && #[trigger] given[i].reward@.len() == 0 {
            Some(MissingSetting::Reward)
        } else if exists|i: int|
            0 <= i < given.len() && #[trigger] given[i].command@.len() == 0 {
            Some(MissingSetting::Command)
        } else {
            None
        }),
{
    lemma_first_problem(sorted);
    given.to_multiset_ensures();
    sorted.to_multiset_ensures();
    assert forall|i: int| 0 <= i < given.len() implies sorted.contains(#[trigger] given[i]) by {
        assert(given.contains(given[i]));
        assert(given.to_multiset().count(given[i]) > 0);
    }
    assert forall|i: int| 0 <= i < sorted.len() implies given.contains(#[trigger] sorted[i]) by {
        assert(sorted.contains(sorted[i]));
        assert(sorted.to_multiset().count(sorted[i]) > 0);
    }
    if exists|i: int| 0 <= i < given.len() && #[trigger] given[i].reward@.len() == 0 {
        let i = choose|i: int| 0 <= i < given.len() && #[trigger] given[i].reward@.len() == 0;
        let k = choose|k: int| 0 <= k < sorted.len() && sorted[k] == given[i];
        assert(given[i].reward@ =~= Seq::<char>::empty());
        let first = sorted[0].reward@;
        let empty = sorted[k].reward@;
        assert(encode_utf8(empty) =~= Seq::<u8>::empty());
        assert(text_at_most(first, empty));
        assert(text_at_most(empty, first));
        law_order_total(first, empty);
        assert(sorted[0].problem() == Some(MissingSetting::Reward));
    } else {
        assert forall|k: int| 0 <= k < sorted.len() implies (
        #[trigger] sorted[k]).reward@.len() != 0 by {
            let i = choose|i: int| 0 <= i < given.len() && given[i] == sorted[k];
            assert(given[i].reward@.len() != 0);
        }
        if exists|i: int| 0 <= i < given.len() && #[trigger] given[i].command@.len() == 0 {
            let i = choose|i: int| 0 <= i < given.len() && #[trigger] given[i].command@.len() == 0;
            let k = choose|k: int| 0 <= k < sorted.len() && sorted[k] == given[i];
            assert(sorted[k].problem() == Some(MissingSetting::Command));
        } else {
            assert forall|k: int| 0 <= k < sorted.len() implies (
            #[trigger] sorted[k]).problem() is None by {
                let i = choose|i: int| 0 <= i < given.len() && given[i] == sorted[k];
                assert(given[i].command@.len() != 0);
            }
        }
    }
}

/// A configuration can be loaded if and only if it is in order: sorting the redeems decides which
/// of several problems is reported, and never whether there is one.
pub proof fn law_loads_what_is_valid(parsed: AppConfig)
    ensures
        parsed.load_problem() is None <==> parsed.problem() is None,
{
    lemma_first_problem(parsed.redeems@);
}

/// Two game servers have the same settings.
pub open spec fn same_rcon(a: RconConfig, b: RconConfig) -> bool {
    a.host@ == b.host@ && a.password@ == b.password@ && a.mode == b.mode
}

/// Two channels have the same settings.
pub open spec fn same_twitch(a: TwitchConfig, b: TwitchConfig) -> bool {
    (*a.auth_token)@ == (*b.auth_token)@
}

/// Two redeems are for the same channel, or both for any.
pub open spec fn same_channel(a: Option<String>, b: Option<String>) -> bool {
    match (a, b) {
        (Some(x), Some(y)) => x@ == y@,
        (None, None) => true,
        _ => false,
    }
}

/// Two redeems have the same settings.
pub open spec fn same_redeem(a: RedeemConfig, b: RedeemConfig) -> bool {
    &&& a.reward@ == b.reward@
    &&& same_channel(a.channel, b.channel)
    &&& a.command@ == b.command@
    &&& same_extra(a.extra.0@, b.extra.0@)
    &&& a.format == b.format
}

/// Two lists hold redeems with the same settings in the same order.
pub open spec fn same_redeems(a: Seq<RedeemConfig>, b: Seq<RedeemConfig>) -> bool {
    a.len() == b.len() && forall|i: int| 0 <= i < a.len() ==> same_redeem(#[trigger] a[i], b[i])
}

/// Two configurations have the same settings.
pub open spec fn same_config(a: AppConfig, b: AppConfig) -> bool {
    &&& same_rcon(a.rcon, b.rcon)
    &&& same_twitch(a.twitch, b.twitch)
    &&& same_redeems(a.redeems@, b.redeems@)
}

impl PartialEq for RconConfig {
    fn eq(&self, other: &Self) -> (r: bool) {
        self.host == other.host && self.password == other.password && self.mode == other.mode
    }
}

impl vstd::std_specs::cmp::PartialEqSpecImpl for RconConfig {
    open spec fn obeys_eq_spec() -> bool {
        true
    }

    open spec fn eq_spec(&self, other: &Self) -> bool {
        same_rcon(*self, *other)
    }
}

impl PartialEq for TwitchConfig {
    fn eq(&self, other: &Self) -> (r: bool) {
        is_same(&self.auth_token, &other.auth_token)
    }
}

impl vstd::std_specs::cmp::PartialEqSpecImpl for TwitchConfig {
    open spec fn obeys_eq_spec() -> bool {
        true
    }

    open spec fn eq_spec(&self, other: &Self) -> bool {
        same_twitch(*self, *other)
    }
}

impl PartialEq for RedeemConfig {
    fn eq(&self, other: &Self) -> (r: bool) {
        let channels: bool = match (&self.channel, &other.channel) {
            (Some(x), Some(y)) => *x == *y,
            (None, None) => true,
            _ => false,
        };
        channels && self.reward == other.reward && self.command == other.command && self.extra
            == other.extra && self.format == other.format
    }
}

impl vstd::std_specs::cmp::PartialEqSpecImpl for RedeemConfig {
    open spec fn obeys_eq_spec() -> bool {
        true
    }

    open spec fn eq_spec(&self, other: &Self) -> bool {
        same_redeem(*self, *other)
    }
}

fn are_same_redeems(a: &Vec<RedeemConfig>, b: &Vec<RedeemConfig>) -> (r: bool)
    ensures
        r == same_redeems(a@, b@),
{
    if a.len() != b.len() {
        return false;
    }
    let mut i: usize = 0;
    while i < a.len()
        invariant
            0 <= i <= a@.len(),
            a@.len() == b@.len(),
            forall|k: int| 0 <= k < i ==> same_redeem(#[trigger] a@[k], b@[k]),
        decreases a@.len() - i,
    {
        if a[i] != b[i] {
            assert(!same_redeem(a@[i as int], b@[i as int]));
            return false;
        }
        i = i + 1;
    }
    true
}

impl PartialEq for AppConfig {
    fn eq(&self, other: &Self) -> (r: bool) {
        self.rcon == other.rcon && self.twitch == other.twitch && are_same_redeems(
            &self.redeems,
            &other.redeems,
        )
    }
}

impl vstd::std_specs::cmp::PartialEqSpecImpl for AppConfig {
    open spec fn obeys_eq_spec() -> bool {
        true
    }

    open spec fn eq_spec(&self, other: &Self) -> bool {
        same_config(*self, *other)
    }
}

/// The settings that are in use, part by part.
pub struct Settings {
    pub rcon: RconConfig,
    pub redeems: Seq<RedeemConfig>,
    pub twitch: TwitchConfig,
}

/// Which parts of the program are told of new settings.
pub struct Notified {
    pub rcon: bool,
    pub redeems: bool,
    pub twitch: bool,
}

impl AppConfig {
    /// The settings that the configuration holds.
    pub open spec fn settings(self) -> Settings {
        Settings { rcon: self.rcon, redeems: self.redeems@, twitch: self.twitch }
    }
}

impl Settings {
    /// The parts that are told when `new` is offered: those whose settings differ.
    pub open spec fn notified(self, new: Settings) -> Notified {
        Notified {
            rcon: !same_rcon(self.rcon, new.rcon),
            redeems: !same_redeems(self.redeems, new.redeems),
            twitch: !same_twitch(self.twitch, new.twitch),
        }
    }

    /// The settings in use once `new` has been offered: the new ones in the parts that were told,
    /// and those in use in the others.
    pub open spec fn offered(self, new: Settings) -> Settings {
        Settings {
            rcon: if self.notified(new).rcon {
                new.rcon
            } else {
                self.rcon
            },
            redeems: if self.notified(new).redeems {
                new.redeems
            } else {
                self.redeems
            },
            twitch: if self.notified(new).twitch {
                new.twitch
            } else {
                self.twitch
            },
        }
    }
}

/// Replaces the game server's settings in use where new ones differ, and says whether it did: one
/// part of offering new settings, whatever the other parts are.
pub fn offer_rcon(current: &mut Arc<RconConfig>, new: RconConfig) -> (changed: bool)
    ensures
        changed == !same_rcon(**old(current), new),
        **final(current) == (if changed {
            new
        } else {
            **old(current)
        }),
        forall|used: Settings, offer: Settings|
            used.rcon == **old(current) && offer.rcon == new ==> changed == (
            #[trigger] used.notified(offer)).rcon && **final(current) == used.offered(offer).rcon,
{
    let changed: bool = **current != new;
    if changed {
        *current = Arc::new(new);
    }
    changed
}

/// Replaces the redeems in use where new ones differ, and says whether it did: one part of offering
/// new settings, whatever the other parts are.
pub fn offer_redeems(current: &mut Vec<RedeemConfig>, new: Vec<RedeemConfig>) -> (changed: bool)
    ensures
        changed == !same_redeems(old(current)@, new@),
        final(current)@ == (if changed {
            new@
        } else {
            old(current)@
        }),
        forall|used: Settings, offer: Settings|
            used.redeems == old(current)@ && offer.redeems == new@ ==> changed == (
            #[trigger] used.notified(offer)).redeems && final(current)@ == used.offered(
                offer,
            ).redeems,
{
    let changed: bool = !are_same_redeems(current, &new);
    if changed {
        *current = new;
    }
    changed
}

/// Replaces the channel's settings in use where new ones differ, and says whether it did: one part of
/// offering new settings, whatever the other parts are.
pub fn offer_twitch(current: &mut Arc<TwitchConfig>, new: TwitchConfig) -> (changed: bool)
    ensures
        changed == !same_twitch(**old(current), new),
        **final(current) == (if changed {
            new
        } else {
            **old(current)
        }),
        forall|used: Settings, offer: Settings|
            used.twitch == **old(current) && offer.twitch == new ==> changed == (
            #[trigger] used.notified(offer)).twitch && **final(current) == used.offered(
                offer,
            ).twitch,
{
    let changed: bool = **current != new;
    if changed {
        *current = Arc::new(new);
    }
    changed
}

/// No value of the extra data is a NaN.
pub open spec fn without_nan(redeem: RedeemConfig) -> bool {
    forall|i: int|
        0 <= i < redeem.extra.0@.len() ==> match (#[trigger] redeem.extra.0@[i]).1 {
            ExtraValue::Float(x) => !float_is_nan(x.bits),
            _ => true,
        }
}

/// A configuration is equal to itself exactly when there is no NaN among the values of its redeems.
pub proof fn law_equal_to_itself_without_nan(config: AppConfig)
    ensures
        same_config(config, config) <==> forall|i: int|
            0 <= i < config.redeems@.len() ==> without_nan(#[trigger] config.redeems@[i]),
{
    assert forall|i: int| 0 <= i < config.redeems@.len() implies (same_redeem(
        #[trigger] config.redeems@[i],
        config.redeems@[i],
    ) <==> without_nan(config.redeems@[i])) by {
        let pairs = config.redeems@[i].extra.0@;
        if without_nan(config.redeems@[i]) {
            assert forall|k: int| 0 <= k < pairs.len() implies same_pair(
                #[trigger] pairs[k],
                pairs[k],
            ) by {}
        } else {
            let k = choose|k: int|
                0 <= k < pairs.len() && !(match (#[trigger] pairs[k]).1 {
                    ExtraValue::Float(x) => !float_is_nan(x.bits),
                    _ => true,
                });
            assert(!same_pair(pairs[k], pairs[k]));
        }
    }
}

/// A TCP connection of the asynchronous runtime.
#[verifier::external_type_specification]
#[verifier::external_body]
pub struct ExTcpStream(::tokio::net::TcpStream);

/// The settings of an RCON connection that is yet to be made.
#[verifier::external_type_specification]
#[verifier::external_body]
#[verifier::reject_recursive_types(T)]
pub struct ExBuilder<T>(::rcon::Builder<T>);

/// Whether the connection will read each response as a single packet.
pub uninterp spec fn factorio_quirks(builder: ::rcon::Builder<::tokio::net::TcpStream>) -> bool;

/// Whether the connection will delay commands and limit their length.
pub uninterp spec fn minecraft_quirks(builder: ::rcon::Builder<::tokio::net::TcpStream>) -> bool;

/// Which function the connection will wait with when it delays a command, as a number that stands
/// for the function.
pub uninterp spec fn sleep_function(builder: ::rcon::Builder<::tokio::net::TcpStream>) -> int;

/// `rcon::Builder::enable_factorio_quirks` sets the one setting to the given value and leaves the
/// two others as they are.
#[verifier::external_body]
fn enable_factorio_quirks(
    builder: ::rcon::Builder<::tokio::net::TcpStream>,
    value: bool,
) -> (r: ::rcon::Builder<::tokio::net::TcpStream>)
    ensures
        factorio_quirks(r) == value,
        minecraft_quirks(r) == minecraft_quirks(builder),
        sleep_function(r) == sleep_function(builder),
{
    builder.enable_factorio_quirks(value)
}

/// `rcon::Builder::enable_minecraft_quirks` sets the one setting to the given value and leaves the
/// two others as they are.
#[verifier::external_body]
fn enable_minecraft_quirks(
    builder: ::rcon::Builder<::tokio::net::TcpStream>,
    value: bool,
) -> (r: ::rcon::Builder<::tokio::net::TcpStream>)
    ensures
        minecraft_quirks(r) == value,
        factorio_quirks(r) == factorio_quirks(builder),
        sleep_function(r) == sleep_function(builder),
{
    builder.enable_minecraft_quirks(value)
}

/// Two builders agree in every setting that a builder has.
pub open spec fn same_settings(
    a: ::rcon::Builder<::tokio::net::TcpStream>,
    b: ::rcon::Builder<::tokio::net::TcpStream>,
) -> bool {
    &&& factorio_quirks(a) == factorio_quirks(b)
    &&& minecraft_quirks(a) == minecraft_quirks(b)
    &&& sleep_function(a) == sleep_function(b)
}

/// `after` is `before` made to suit the kind of game server: it works around the quirks of that
/// kind and of no other, and every other setting is as it was.
pub open spec fn suits(
    mode: RconMode,
    before: ::rcon::Builder<::tokio::net::TcpStream>,
    after: ::rcon::Builder<::tokio::net::TcpStream>,
) -> bool {
    &&& factorio_quirks(after) == (mode == RconMode::Factorio)
    &&& minecraft_quirks(after) == (mode == RconMode::Minecraft)
    &&& sleep_function(after) == sleep_function(before)
}

impl RconMode {
    /// Makes the connection suit the kind of game server.
    pub fn apply_to(
        &self,
        builder: ::rcon::Builder<::tokio::net::TcpStream>,
    ) -> (r: ::rcon::Builder<::tokio::net::TcpStream>)
        ensures
            suits(*self, builder, r),
    {
        let builder = enable_factorio_quirks(builder, *self == RconMode::Factorio);
        enable_minecraft_quirks(builder, *self == RconMode::Minecraft)
    }
}

/// What can be made to suit a kind of game server.
pub trait SetRconMode: Sized {
    fn set_mode(self, mode: RconMode) -> Self;
}

impl SetRconMode for ::rcon::Builder<::tokio::net::TcpStream> {
    fn set_mode(self, mode: RconMode) -> (r: Self)
        ensures
            suits(mode, self, r),
    {
        mode.apply_to(self)
    }
}

/// Making a connection suit a kind of game server always has the same outcome, whichever way it is
/// done, and never works around the quirks of two kinds.
pub proof fn law_mode_decides(
    mode: RconMode,
    builder: ::rcon::Builder<::tokio::net::TcpStream>,
    set: ::rcon::Builder<::tokio::net::TcpStream>,
    applied: ::rcon::Builder<::tokio::net::TcpStream>,
)
    requires
        suits(mode, builder, set),
        suits(mode, builder, applied),
    ensures
        same_settings(set, applied),
        !(factorio_quirks(set) && minecraft_quirks(set)),
        factorio_quirks(set) <==> mode is Factorio,
        minecraft_quirks(set) <==> mode is Minecraft,
        sleep_function(set) == sleep_function(builder),
{
}

/// The last mode wins: what a connection was made to suit before has no effect.
pub proof fn law_last_mode_wins(
    first: RconMode,
    last: RconMode,
    builder: ::rcon::Builder<::tokio::net::TcpStream>,
    between: ::rcon::Builder<::tokio::net::TcpStream>,
    after_both: ::rcon::Builder<::tokio::net::TcpStream>,
    after_last: ::rcon::Builder<::tokio::net::TcpStream>,
)
    requires
        suits(first, builder, between),
        suits(last, between, after_both),
        suits(last, builder, after_last),
    ensures
        same_settings(after_both, after_last),
{
}

/// Two redeems count as the same if and only if they have the same reward, channel, command and format,
/// and the same names in the same order among their extra data, each with a value of the same kind and
/// content.
pub proof fn law_what_makes_redeems_the_same(a: RedeemConfig, b: RedeemConfig)
    ensures
        same_redeem(a, b) <==> {
            &&& a.reward@ == b.reward@
            &&& a.command@ == b.command@
            &&& a.format == b.format
            &&& a.channel is Some <==> b.channel is Some
            &&& a.channel is Some ==> a.channel->Some_0@ == b.channel->Some_0@
            &&& a.extra.0@.len() == b.extra.0@.len()
            &&& forall|k: int|
                0 <= k < a.extra.0@.len() ==> (#[trigger] a.extra.0@[k]).0@ == b.extra.0@[k].0@
            &&& forall|k: int|
                0 <= k < a.extra.0@.len() ==> match ((#[trigger] a.extra.0@[k]).1, b.extra.0@[k].1) {
                    (ExtraValue::Int(x), ExtraValue::Int(y)) => x == y,
                    (ExtraValue::Float(x), ExtraValue::Float(y)) => same_float(x.bits, y.bits),
                    (ExtraValue::String(x), ExtraValue::String(y)) => x@ == y@,
                    _ => false,
                }
        },
{
    law_same_extra_data(a.extra.0@, b.extra.0@);
}

/// What counts as a change when new settings are offered. For the game server: another host, password or
/// kind. For the channel: another token. For the redeems: another number of them, or at some place one
/// that differs. A part that has changed is told and gets the new settings, and any other is not told
/// and keeps its own.
pub proof fn law_what_counts_as_changed(used: Settings, new: Settings)
    ensures
        used.notified(new).rcon <==> used.rcon.host@ != new.rcon.host@ || used.rcon.password@
            != new.rcon.password@ || used.rcon.mode != new.rcon.mode,
        used.notified(new).twitch <==> (*used.twitch.auth_token)@ != (*new.twitch.auth_token)@,
        used.notified(new).redeems <==> used.redeems.len() != new.redeems.len() || exists|i: int|
            0 <= i < used.redeems.len() && !same_redeem(#[trigger] used.redeems[i], new.redeems[i]),
        used.notified(new).redeems == !same_redeems(used.redeems, new.redeems),
        used.offered(new).rcon == (if used.notified(new).rcon {
            new.rcon
        } else {
            used.rcon
        }),
        used.offered(new).redeems == (if used.notified(new).redeems {
            new.redeems
        } else {
            used.redeems
        }),
        used.offered(new).twitch == (if used.notified(new).twitch {
            new.twitch
        } else {
            used.twitch
        }),
{
}

/// Redeems whose extra data has another name anywhere are reported as changed and taken, whatever the
/// values are.
pub proof fn law_renamed_extra_data_is_a_change(used: Settings, new: Settings, at: int, place: int)
    requires
        0 <= at < used.redeems.len(),
        at < new.redeems.len(),
        0 <= place < used.redeems[at].extra.0@.len(),
        place < new.redeems[at].extra.0@.len(),
        used.redeems[at].extra.0@[place].0@ != new.redeems[at].extra.0@[place].0@,
    ensures
        used.notified(new).redeems,
        !same_redeems(used.redeems, new.redeems),
        used.offered(new).redeems == new.redeems,
{
    law_what_makes_redeems_the_same(used.redeems[at], new.redeems[at]);
}

/// A configuration is in order if and only if it has a host and a token, and every redeem a reward and a
/// command. Otherwise the first of these that is missing is reported, in this order and with the part
/// where it belongs; among the redeems, `first` is the first that is not in order.
pub proof fn law_what_is_in_order(config: AppConfig, first: int)
    requires
        0 <= first <= config.redeems@.len(),
        forall|i: int|
            0 <= i < first ==> (#[trigger] config.redeems@[i]).reward@.len() > 0
                && config.redeems@[i].command@.len() > 0,
        first < config.redeems@.len() ==> config.redeems@[first].reward@.len() == 0
            || config.redeems@[first].command@.len() == 0,
    ensures
        config.rcon.problem() is None <==> config.rcon.host@.len() > 0,
        config.rcon.problem() is Some ==> config.rcon.problem()->Some_0 is RconHost,
        config.twitch.problem() is None <==> (*config.twitch.auth_token)@.len() > 0,
        config.twitch.problem() is Some ==> config.twitch.problem()->Some_0 is AuthToken,
        config.problem() == (if config.rcon.host@.len() == 0 {
            Some(ConfigError { section: ConfigSection::Rcon, setting: MissingSetting::RconHost })
        } else if (*config.twitch.auth_token)@.len() == 0 {
            Some(ConfigError { section: ConfigSection::Twitch, setting: MissingSetting::AuthToken })
        } else if first == config.redeems@.len() {
            None
        } else if config.redeems@[first].reward@.len() == 0 {
            Some(ConfigError { section: ConfigSection::Redeem, setting: MissingSetting::Reward })
        } else {
            Some(ConfigError { section: ConfigSection::Redeem, setting: MissingSetting::Command })
        }),
        first < config.redeems@.len() ==> config.redeems@[first].problem() == Some(
            if config.redeems@[first].reward@.len() == 0 {
                MissingSetting::Reward
            } else {
                MissingSetting::Command
            },
        ),
        forall|i: int| 0 <= i < first ==> (#[trigger] config.redeems@[i]).problem() is None,
{
    lemma_problem_at(config.redeems@, first);
}

proof fn lemma_problem_at(redeems: Seq<RedeemConfig>, first: int)
    requires
        0 <= first <= redeems.len(),
        forall|i: int| 0 <= i < first ==> (#[trigger] redeems[i]).problem() is None,
        first < redeems.len() ==> redeems[first].problem() is Some,
    ensures
        first_problem(redeems) == (if first < redeems.len() {
            redeems[first].problem()
        } else {
            None
        }),
    decreases first,
{
    if first > 0 {
        let rest = redeems.drop_first();
        assert(redeems[0].problem() is None);
        assert forall|i: int| 0 <= i < first - 1 implies (#[trigger] rest[i]).problem() is None by {
            assert(rest[i] == redeems[i + 1]);
        }
        lemma_problem_at(rest, first - 1);
    }
}

/// A configuration that is read from its file is refused for a missing host, else for a missing token,
/// else for a redeem without a reward wherever it stands, else for one without a command, and taken
/// otherwise.
pub proof fn law_what_is_loaded(parsed: AppConfig)
    ensures
        parsed.load_problem() == (if parsed.rcon.host@.len() == 0 {
            Some(ConfigError { section: ConfigSection::Rcon, setting: MissingSetting::RconHost })
        } else if (*parsed.twitch.auth_token)@.len() == 0 {
            Some(ConfigError { section: ConfigSection::Twitch, setting: MissingSetting::AuthToken })
        } else if exists|i: int|
            0 <= i < parsed.redeems@.len() && (#[trigger] parsed.redeems@[i]).reward@.len() == 0 {
            Some(ConfigError { section: ConfigSection::Redeem, setting: MissingSetting::Reward })
        } else if exists|i: int|
            0 <= i < parsed.redeems@.len() && (#[trigger] parsed.redeems@[i]).command@.len() == 0 {
            Some(ConfigError { section: ConfigSection::Redeem, setting: MissingSetting::Command })
        } else {
            None
        }),
{
}

/// What is said about a command that could not be put together does not depend on the cause.
pub proof fn law_command_errors_read_alike(
    a: ::serde_json::Error,
    b: ::serde_json::Error,
    c: std::string::FromUtf8Error,
    d: std::string::FromUtf8Error,
)
    ensures
        CommandError::Extra(a).text() == CommandError::Extra(b).text(),
        CommandError::Extra(a).text() == "Failed to serialize extra data for command"@,
        CommandError::Utf8(c).text() == CommandError::Utf8(d).text(),
{
}

/// `==` on settings means that nothing counts as changed between them.
pub proof fn law_settings_are_compared_by_content(a: AppConfig, b: AppConfig)
    ensures
        a.rcon.eq_spec(&b.rcon) <==> !a.settings().notified(b.settings()).rcon,
        a.twitch.eq_spec(&b.twitch) <==> !a.settings().notified(b.settings()).twitch,
        forall|x: RedeemConfig, y: RedeemConfig| #[trigger] x.eq_spec(&y) <==> same_redeem(x, y),
        a.eq_spec(&b) <==> a.rcon.eq_spec(&b.rcon) && a.twitch.eq_spec(&b.twitch)
            && !a.settings().notified(b.settings()).redeems,
        a.eq_spec(&b) <==> same_config(a, b),
        a.settings().rcon == a.rcon,
        a.settings().twitch == a.twitch,
        a.settings().redeems == a.redeems@,
{
}

} // verus!
