//! Messages to and from the PubSub service.

use crate::json::json_quoted;
use crate::text::nat_text;
use twitch_api2::pubsub::channel_points::{ChannelPointsChannelV1, ChannelPointsChannelV1Reply};
use twitch_api2::pubsub::{Response, Topic, TopicData};
use vstd::prelude::*;

verus! {

/// The error for a message that cannot be read.
#[verifier::external_type_specification]
#[verifier::external_body]
pub struct ExDeserError(::twitch_api2::DeserError);

/// A reward that was redeemed, as the service reports it.
#[derive(Clone, Debug)]
pub struct Redemption {
    pub id: String,
    pub user_input: Option<String>,
    pub reward_cost: u32,
    pub reward_id: String,
    pub reward_title: String,
    pub user_id: String,
    pub user_login: String,
    pub user_name: String,
}

/// A message from the service, as far as it matters.
#[derive(Clone, Debug)]
pub enum PubSubMessage {
    /// A reward was redeemed.
    RewardRedeemed(Redemption),
    /// Something else happened.
    Other,
    /// The answer to a ping.
    Pong,
    /// The service wants the client to connect again.
    Reconnect,
    /// The answer to a request.
    Response { nonce: Option<String>, error: Option<String> },
}

/// The texts of a redemption.
pub struct RedemptionModel {
    pub id: Seq<char>,
    pub user_input: Option<Seq<char>>,
    pub reward_cost: u32,
    pub reward_id: Seq<char>,
    pub reward_title: Seq<char>,
    pub user_id: Seq<char>,
    pub user_login: Seq<char>,
    pub user_name: Seq<char>,
}

/// The texts of a message.
pub enum PubSubModel {
    RewardRedeemed(RedemptionModel),
    Other,
    Pong,
    Reconnect,
    Response { nonce: Option<Seq<char>>, error: Option<Seq<char>> },
}

/// The text, where there is one.
pub open spec fn optional_text(s: Option<String>) -> Option<Seq<char>> {
    match s {
        Some(text) => Some(text@),
        None => None,
    }
}

impl View for Redemption {
    type V = RedemptionModel;

    open spec fn view(&self) -> RedemptionModel {
        RedemptionModel {
            id: self.id@,
            user_input: optional_text(self.user_input),
            reward_cost: self.reward_cost,
            reward_id: self.reward_id@,
            reward_title: self.reward_title@,
            user_id: self.user_id@,
            user_login: self.user_login@,
            user_name: self.user_name@,
        }
    }
}

impl View for PubSubMessage {
    type V = PubSubModel;

    open spec fn view(&self) -> PubSubModel {
        match self {
            PubSubMessage::RewardRedeemed(redemption) => PubSubModel::RewardRedeemed(redemption@),
            PubSubMessage::Other => PubSubModel::Other,
            PubSubMessage::Pong => PubSubModel::Pong,
            PubSubMessage::Reconnect => PubSubModel::Reconnect,
            PubSubMessage::Response { nonce, error } => PubSubModel::Response {
                nonce: optional_text(*nonce),
                error: optional_text(*error),
            },
        }
    }
}

/// What `twitch_api2::pubsub::Response::parse` makes of a text, or `None` where it refuses it.
pub uninterp spec fn pubsub_message(text: Seq<char>) -> Option<PubSubModel>;

/// `twitch_api2::pubsub::Response::parse`, which reads a message from its JSON text. What it makes
/// of a text depends on the text alone. Replies other than a redeemed reward, and messages on other
/// topics, are not told apart here.
#[verifier::external_body]
pub(crate) fn parse_message(text: &str) -> (r: Result<PubSubMessage, ::twitch_api2::DeserError>)
    ensures
        r is Ok <==> pubsub_message(text@) is Some,
        r is Ok ==> pubsub_message(text@) == Some(r->Ok_0@),
{
    Ok(match Response::parse(text)? {
        Response::Response(r) => PubSubMessage::Response { nonce: r.nonce, error: r.error },
        Response::Message { data: TopicData::ChannelPointsChannelV1 { reply, .. } } => match *reply {
            ChannelPointsChannelV1Reply::RewardRedeemed { redemption: r, .. } =>
                PubSubMessage::RewardRedeemed(Redemption {
                    id: r.id.to_string(), user_input: r.user_input, reward_cost: r.reward.cost,
                    reward_id: r.reward.id.to_string(), reward_title: r.reward.title,
                    user_id: r.user.id.to_string(), user_login: r.user.login.to_string(),
                    user_name: r.user.display_name.to_string() }),
            _ => PubSubMessage::Other,
        },
        Response::Message { .. } => PubSubMessage::Other,
        Response::Pong => PubSubMessage::Pong,
        Response::Reconnect => PubSubMessage::Reconnect,
    })
}

/// The request to be told when rewards are redeemed in a channel.
pub open spec fn listen_text(
    channel_id: u32,
    auth_token: Seq<char>,
    nonce: Seq<char>,
) -> Seq<char> {
    "{\"type\":\"LISTEN\",\"nonce\":"@ + json_quoted(nonce) + ",\"data\":{\"topics\":["@
        + json_quoted("channel-points-channel-v1."@ + nat_text(channel_id as nat))
        + "],\"auth_token\":"@ + json_quoted(auth_token) + "}}"@
}

/// `twitch_api2::pubsub::listen_command` for the channel points topic of one channel. Putting texts
/// into JSON does not fail, and gives the request with its members in this order.
#[verifier::external_body]
pub(crate) fn listen_command(channel_id: u32, auth_token: &str, nonce: &str) -> (r: Result<
    String,
    ::serde_json::Error,
>)
    ensures
        r is Ok,
        r->Ok_0@ == listen_text(channel_id, auth_token@, nonce@),
{
    let topics = [ChannelPointsChannelV1 { channel_id }.into_topic()];
    ::twitch_api2::pubsub::listen_command(&topics, Some(auth_token), Some(nonce))
}

} // verus!
