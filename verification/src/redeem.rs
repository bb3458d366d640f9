//! What a redemption triggers.

use crate::catalog::{is_for_reward, partition_point, sorted_by_reward, stably_sorted};
use crate::config::{CommandError, RedeemConfig};
use crate::extra::extra_text;
use crate::rcon::RconCommand;
use crate::text::{is_same, law_order_total, shared_text, text_at_most};
use std::sync::Arc;
use vstd::prelude::*;

verus! {

/// Whom the auth token belongs to.
#[derive(Clone, Debug)]
pub struct ChannelToken {
    pub login: Option<String>,
    pub user_id: Option<String>,
}

/// A reward that a viewer has redeemed.
#[derive(Clone, Debug)]
pub struct Redeem {
    pub channel_token: Arc<ChannelToken>,
    pub redeem_id: String,
    pub redeem_input: Option<String>,
    pub reward_cost: u32,
    pub reward_id: String,
    pub reward_title: String,
    pub user_id: String,
    pub user_login: String,
    pub user_name: String,
}

/// A request to the part that handles redemptions.
#[derive(Clone, Debug)]
pub enum RedeemCommand {
    /// Handles a redemption.
    Handle(Redeem),
}

/// A redeem is for the reward `title`, and for the channel `channel` or for any.
pub open spec fn triggered_by(
    title: Seq<char>,
    channel: Seq<char>,
) -> spec_fn(RedeemConfig) -> bool {
    |redeem: RedeemConfig|
        redeem.reward@ == title && match redeem.channel {
            Some(only) => only@ == channel,
            None => true,
        }
}

/// The redeems that are triggered when the reward `title` is redeemed in `channel`, in the order in
/// which they stand.
pub open spec fn triggered(
    redeems: Seq<RedeemConfig>,
    title: Seq<char>,
    channel: Seq<char>,
) -> Seq<RedeemConfig> {
    redeems.filter(triggered_by(title, channel))
}

/// The commands of some redeems, one for each in their order.
pub open spec fn commands_of(
    commands: Seq<Result<RconCommand, CommandError>>,
    redeems: Seq<RedeemConfig>,
) -> bool {
    &&& commands.len() == redeems.len()
    &&& forall|i: int|
        0 <= i < commands.len() ==> (#[trigger] commands[i] matches Ok(RconCommand::Handle(text))
            && (*text)@ == redeems[i].command_text())
}

impl Redeem {
    /// The commands to send for this redemption.
    pub fn commands(&self, redeems: &Vec<RedeemConfig>) -> (r: Vec<
        Result<RconCommand, CommandError>,
    >)
        requires
            self.channel_token.login is Some,
            sorted_by_reward(redeems@),
        ensures
            commands_of(
                r@,
                triggered(redeems@, self.reward_title@, self.channel_token.login->Some_0@),
            ),
    {
        let mut commands: Vec<Result<RconCommand, CommandError>> = Vec::new();
        let channel: &String = match &self.channel_token.login {
            Some(login) => login,
            None => {
                return commands;
            },
        };
        let title: &str = self.reward_title.as_str();
        let start: usize = partition_point(redeems, title);
        let ghost keep = triggered_by(title@, channel@);
        proof {
            assert forall|i: int| 0 <= i < redeems@.take(start as int).len() implies !keep(
                redeems@.take(start as int)[i],
            ) by {
                law_order_total(redeems@[i].reward@, redeems@[i].reward@);
            }
            redeems@.take(start as int).lemma_all_neg_filter_empty(keep);
        }
        let mut i: usize = start;
        while i < redeems.len() && is_same(redeems[i].reward.as_str(), title)
            invariant
                start <= i <= redeems@.len(),
                keep == triggered_by(title@, channel@),
                commands_of(commands@, redeems@.take(i as int).filter(keep)),
            decreases redeems@.len() - i,
        {
            let redeem: &RedeemConfig = &redeems[i];
            let here: bool = match &redeem.channel {
                Some(only) => is_same(only.as_str(), channel.as_str()),
                None => true,
            };
            proof {
                redeems@.take(i as int).lemma_filter_push(*redeem, keep);
                assert(redeems@.take(i as int).push(*redeem) =~= redeems@.take(i + 1));
            }
            if here {
                let command: Result<RconCommand, CommandError> = match redeem.command() {
                    Ok(text) => Ok(RconCommand::Handle(shared_text(text))),
                    Err(e) => Err(e),
                };
                commands.push(command);
            }
            i = i + 1;
        }
        proof {
            assert(redeems@ =~= redeems@.take(i as int) + redeems@.skip(i as int));
            Seq::filter_distributes_over_add(redeems@.take(i as int), redeems@.skip(i as int), keep);
            assert forall|k: int| 0 <= k < redeems@.skip(i as int).len() implies !keep(
                redeems@.skip(i as int)[k],
            ) by {
                let first = redeems@[i as int].reward@;
                let other = redeems@[i + k].reward@;
                assert(text_at_most(title@, first));
                assert(text_at_most(first, other));
                law_order_total(title@, first);
            }
            redeems@.skip(i as int).lemma_all_neg_filter_empty(keep);
            assert(redeems@.filter(keep) =~= redeems@.take(i as int).filter(keep));
        }
        commands
    }
}

proof fn lemma_filter_twice(
    redeems: Seq<RedeemConfig>,
    first: spec_fn(RedeemConfig) -> bool,
    second: spec_fn(RedeemConfig) -> bool,
)
    requires
        forall|redeem: RedeemConfig| #[trigger] second(redeem) ==> first(redeem),
    ensures
        redeems.filter(first).filter(second) == redeems.filter(second),
    decreases redeems.len(),
{
    if redeems.len() == 0 {
        assert(redeems.filter(first) =~= redeems) by {
            reveal(Seq::filter);
        }
    } else {
        let front = redeems.drop_last();
        let last = redeems.last();
        lemma_filter_twice(front, first, second);
        assert(front.push(last) =~= redeems);
        front.lemma_filter_push(last, first);
        front.lemma_filter_push(last, second);
        front.filter(first).lemma_filter_push(last, second);
    }
}

/// A redemption triggers the redeems of its reward and channel in the order in which they were
/// configured: sorting them for the lookup shows in nothing.
pub proof fn law_triggered_as_configured(
    configured: Seq<RedeemConfig>,
    sorted: Seq<RedeemConfig>,
    title: Seq<char>,
    channel: Seq<char>,
)
    requires
        stably_sorted(configured, sorted),
    ensures
        triggered(sorted, title, channel) == triggered(configured, title, channel),
{
    let keep = triggered_by(title, channel);
    assert forall|redeem: RedeemConfig| #[trigger] keep(redeem) implies is_for_reward(title)(
        redeem,
    ) by {}
    lemma_filter_twice(configured, is_for_reward(title), keep);
    lemma_filter_twice(sorted, is_for_reward(title), keep);
}

proof fn lemma_no_redeems_trigger_nothing(title: Seq<char>, channel: Seq<char>)
    ensures
        triggered(Seq::empty(), title, channel) == Seq::<RedeemConfig>::empty(),
{
    reveal(Seq::filter);
}

/// What one more redeem adds to what a redemption triggers, behind any number of others: itself, at the
/// end, if it is for exactly this reward and for exactly this channel or for any, and nothing else.
pub proof fn law_one_more_redeem(
    redeems: Seq<RedeemConfig>,
    redeem: RedeemConfig,
    title: Seq<char>,
    channel: Seq<char>,
)
    ensures
        triggered(Seq::empty(), title, channel) == Seq::<RedeemConfig>::empty(),
        triggered(redeems.push(redeem), title, channel) == (if redeem.reward@ == title && (
        redeem.channel is None || redeem.channel->Some_0@ == channel) {
            triggered(redeems, title, channel).push(redeem)
        } else {
            triggered(redeems, title, channel)
        }),
{
    lemma_no_redeems_trigger_nothing(title, channel);
    redeems.lemma_filter_push(redeem, triggered_by(title, channel));
}

/// What a redemption triggers is for its reward, and for its channel where it names one; and every redeem
/// that is so is triggered.
pub proof fn law_only_and_all_that_match_are_triggered(
    redeems: Seq<RedeemConfig>,
    title: Seq<char>,
    channel: Seq<char>,
)
    ensures
        forall|i: int|
            0 <= i < triggered(redeems, title, channel).len() ==> {
                let redeem = #[trigger] triggered(redeems, title, channel)[i];
                &&& redeems.contains(redeem)
                &&& redeem.reward@ == title
                &&& redeem.channel matches Some(only) ==> only@ == channel
            },
        forall|i: int|
            0 <= i < redeems.len() && (#[trigger] redeems[i]).reward@ == title && (
            redeems[i].channel is None || redeems[i].channel->Some_0@ == channel) ==> triggered(
                redeems,
                title,
                channel,
            ).contains(redeems[i]),
    decreases redeems.len(),
{
    let all = triggered(redeems, title, channel);
    if redeems.len() == 0 {
        assert(redeems =~= Seq::empty());
        lemma_no_redeems_trigger_nothing(title, channel);
    } else {
        let front = redeems.drop_last();
        let last = redeems.last();
        let some = triggered(front, title, channel);
        law_only_and_all_that_match_are_triggered(front, title, channel);
        law_one_more_redeem(front, last, title, channel);
        assert(front.push(last) =~= redeems);
        assert forall|i: int| 0 <= i < all.len() implies {
            let redeem = #[trigger] all[i];
            &&& redeems.contains(redeem)
            &&& redeem.reward@ == title
            &&& redeem.channel matches Some(only) ==> only@ == channel
        } by {
            if i < some.len() {
                assert(all[i] == some[i]);
                let k = choose|k: int| 0 <= k < front.len() && front[k] == some[i];
                assert(redeems[k] == front[k]);
            } else {
                assert(all[i] == last);
                assert(redeems[redeems.len() - 1] == last);
            }
        }
        assert forall|i: int|
            0 <= i < redeems.len() && (#[trigger] redeems[i]).reward@ == title && (
            redeems[i].channel is None || redeems[i].channel->Some_0@
                == channel) implies all.contains(redeems[i]) by {
            if i < front.len() {
                assert(front[i] == redeems[i]);
                assert(some.contains(front[i]));
                let k = choose|k: int| 0 <= k < some.len() && some[k] == front[i];
                assert(all[k] == some[k]);
            } else {
                assert(all[all.len() - 1] == last);
            }
        }
    }
}

/// A redeem for one channel is never triggered in another: of two different logins, what names the one
/// is not among what is triggered in the other.
pub proof fn law_other_channels_do_not_trigger(
    redeems: Seq<RedeemConfig>,
    title: Seq<char>,
    here: Seq<char>,
    redeem: RedeemConfig,
)
    requires
        redeem.channel is Some,
        redeem.channel->Some_0@ != here,
    ensures
        !triggered(redeems, title, here).contains(redeem),
{
    law_only_and_all_that_match_are_triggered(redeems, title, here);
    let all = triggered(redeems, title, here);
    if all.contains(redeem) {
        let i = choose|i: int| 0 <= i < all.len() && all[i] == redeem;
        assert(all[i].channel->Some_0@ == here);
    }
}

/// The commands for some redeems are one for each, in their order, and each is the configured command
/// with the extra data behind it.
pub proof fn law_one_command_for_each(
    commands: Seq<Result<RconCommand, CommandError>>,
    redeems: Seq<RedeemConfig>,
)
    requires
        commands_of(commands, redeems),
    ensures
        commands.len() == redeems.len(),
        forall|i: int|
            0 <= i < redeems.len() ==> {
                &&& (#[trigger] commands[i]) is Ok
                &&& (*commands[i]->Ok_0->Handle_0)@ == redeems[i].command@ + extra_text(
                    redeems[i].format,
                    redeems[i].extra.0@,
                )
            },
{
}

} // verus!
