//! The configured redeems, kept in the order in which they are looked up.

use crate::config::RedeemConfig;
use crate::text::{is_before, law_order_total, law_order_transitive, text_at_most, text_before};
use vstd::prelude::*;

verus! {

/// The redeems are in the order of their rewards.
pub open spec fn sorted_by_reward(redeems: Seq<RedeemConfig>) -> bool {
    forall|i: int, j: int|
        0 <= i <= j < redeems.len() ==> text_at_most(
            #[trigger] redeems[i].reward@,
            #[trigger] redeems[j].reward@,
        )
}

/// The redeems of one reward.
pub open spec fn is_for_reward(reward: Seq<char>) -> spec_fn(RedeemConfig) -> bool {
    |redeem: RedeemConfig| redeem.reward@ == reward
}

/// The same redeems in the order of their rewards, with those of one reward in the order in which
/// they were.
pub open spec fn stably_sorted(before: Seq<RedeemConfig>, after: Seq<RedeemConfig>) -> bool {
    &&& sorted_by_reward(after)
    &&& forall|reward: Seq<char>| #[trigger]
        after.filter(is_for_reward(reward)) == before.filter(is_for_reward(reward))
}

/// Whether the redeems are in the order of their rewards.
pub fn is_sorted_by_reward(redeems: &Vec<RedeemConfig>) -> (r: bool)
    ensures
        r == sorted_by_reward(redeems@),
{
    if redeems.len() == 0 {
        return true;
    }
    let mut i: usize = 1;
    proof {
        law_order_total(redeems@[0].reward@, redeems@[0].reward@);
    }
    while i < redeems.len()
        invariant
            1 <= i <= redeems@.len(),
            sorted_by_reward(redeems@.take(i as int)),
        decreases redeems@.len() - i,
    {
        if is_before(redeems[i].reward.as_str(), redeems[i - 1].reward.as_str()) {
            assert(!text_at_most(redeems@[i - 1].reward@, redeems@[i as int].reward@));
            return false;
        }
        proof {
            let front = redeems@.take(i as int);
            let more = redeems@.take(i + 1);
            assert forall|a: int, b: int| 0 <= a <= b < more.len() implies text_at_most(
                #[trigger] more[a].reward@,
                #[trigger] more[b].reward@,
            ) by {
                law_order_total(more[a].reward@, more[b].reward@);
                if b < i {
                    assert(text_at_most(front[a].reward@, front[b].reward@));
                } else if a < i {
                    assert(text_at_most(front[a].reward@, front[i - 1].reward@));
                    law_order_transitive(more[a].reward@, more[i - 1].reward@, more[b].reward@);
                }
            }
        }
        i = i + 1;
    }
    assert(redeems@.take(i as int) =~= redeems@);
    true
}

/// The number of redeems whose reward comes before `reward`.
pub fn partition_point(redeems: &Vec<RedeemConfig>, reward: &str) -> (r: usize)
    requires
        sorted_by_reward(redeems@),
    ensures
        r <= redeems@.len(),
        forall|i: int| 0 <= i < r ==> text_before(#[trigger] redeems@[i].reward@, reward@),
        forall|i: int|
            r <= i < redeems@.len() ==> !text_before(#[trigger] redeems@[i].reward@, reward@),
{
    let mut low: usize = 0;
    let mut high: usize = redeems.len();
    while low < high
        invariant
            low <= high <= redeems@.len(),
            sorted_by_reward(redeems@),
            forall|i: int| 0 <= i < low ==> text_before(#[trigger] redeems@[i].reward@, reward@),
            forall|i: int|
                high <= i < redeems@.len() ==> !text_before(
                    #[trigger] redeems@[i].reward@,
                    reward@,
                ),
        decreases high - low,
    {
        let middle: usize = low + (high - low) / 2;
        if is_before(redeems[middle].reward.as_str(), reward) {
            proof {
                assert forall|i: int| 0 <= i < middle + 1 implies text_before(
                    #[trigger] redeems@[i].reward@,
                    reward@,
                ) by {
                    let here = redeems@[middle as int].reward@;
                    if text_at_most(reward@, redeems@[i].reward@) {
                        law_order_transitive(reward@, redeems@[i].reward@, here);
                    }
                }
            }
            low = middle + 1;
        } else {
            proof {
                assert forall|i: int| middle <= i < redeems@.len() implies !text_before(
                    #[trigger] redeems@[i].reward@,
                    reward@,
                ) by {
                    let here = redeems@[middle as int].reward@;
                    law_order_transitive(reward@, here, redeems@[i].reward@);
                }
            }
            high = middle;
        }
    }
    low
}

proof fn lemma_filter_split(s: Seq<RedeemConfig>, at: int, keep: spec_fn(RedeemConfig) -> bool)
    requires
        0 <= at <= s.len(),
    ensures
        s.filter(keep) == s.take(at).filter(keep) + s.skip(at).filter(keep),
{
    assert(s =~= s.take(at) + s.skip(at));
    Seq::filter_distributes_over_add(s.take(at), s.skip(at), keep);
}

proof fn lemma_filter_one(x: RedeemConfig, keep: spec_fn(RedeemConfig) -> bool)
    ensures
        seq![x].filter(keep) == (if keep(x) {
            seq![x]
        } else {
            Seq::empty()
        }),
{
    let none: Seq<RedeemConfig> = Seq::empty();
    assert(none.filter(keep) =~= none) by {
        reveal(Seq::filter);
    }
    none.lemma_filter_push(x, keep);
    assert(none.push(x) =~= seq![x]);
}

/// Where a redeem is put in front of those whose rewards do not come before its own, it becomes
/// the first of its reward, and nothing changes for the others.
proof fn lemma_insert_keeps_order(
    rest: Seq<RedeemConfig>,
    x: RedeemConfig,
    at: int,
    reward: Seq<char>,
)
    requires
        0 <= at <= rest.len(),
        forall|i: int| 0 <= i < at ==> text_before(#[trigger] rest[i].reward@, x.reward@),
    ensures
        rest.insert(at, x).filter(is_for_reward(reward)) == seq![x].filter(is_for_reward(reward))
            + rest.filter(is_for_reward(reward)),
{
    let keep = is_for_reward(reward);
    let with = rest.insert(at, x);
    lemma_filter_split(rest, at, keep);
    lemma_filter_split(with, at, keep);
    lemma_filter_split(with.skip(at), 1, keep);
    assert(with.take(at) =~= rest.take(at));
    assert(with.skip(at).take(1) =~= seq![x]);
    assert(with.skip(at).skip(1) =~= rest.skip(at));
    lemma_filter_one(x, keep);
    if keep(x) {
        assert forall|i: int| 0 <= i < rest.take(at).len() implies !keep(rest.take(at)[i]) by {
            law_order_total(rest[i].reward@, rest[i].reward@);
        }
        rest.take(at).lemma_all_neg_filter_empty(keep);
    }
    assert(with.filter(keep) =~= seq![x].filter(keep) + rest.filter(keep));
}

/// Sorts the redeems by their rewards. Those of one reward stay in the order in which they were.
pub fn sort_by_reward(redeems: Vec<RedeemConfig>) -> (r: Vec<RedeemConfig>)
    ensures
        stably_sorted(redeems@, r@),
        r@.len() == redeems@.len(),
        r@.to_multiset() == redeems@.to_multiset(),
{
    let ghost given: Seq<RedeemConfig> = redeems@;
    let mut left: Vec<RedeemConfig> = redeems;
    let mut done: Vec<RedeemConfig> = Vec::new();
    proof {
        assert forall|reward: Seq<char>| #[trigger]
            given.filter(is_for_reward(reward)) == left@.filter(is_for_reward(reward))
                + done@.filter(is_for_reward(reward)) by {
            assert(done@.filter(is_for_reward(reward)) =~= Seq::empty()) by {
                reveal(Seq::filter);
            }
            assert(left@.filter(is_for_reward(reward)) =~= left@.filter(is_for_reward(reward))
                + Seq::empty());
        }
        given.to_multiset_ensures();
        done@.to_multiset_ensures();
        assert(given.to_multiset() =~= left@.to_multiset().add(done@.to_multiset()));
    }
    while left.len() > 0
        invariant
            sorted_by_reward(done@),
            given.len() == left@.len() + done@.len(),
            given.to_multiset() == left@.to_multiset().add(done@.to_multiset()),
            forall|reward: Seq<char>| #[trigger]
                given.filter(is_for_reward(reward)) == left@.filter(is_for_reward(reward))
                    + done@.filter(is_for_reward(reward)),
        decreases left@.len(),
    {
        let ghost left_before: Seq<RedeemConfig> = left@;
        let ghost done_before: Seq<RedeemConfig> = done@;
        match left.pop() {
            Some(x) => {
                let at: usize = partition_point(&done, x.reward.as_str());
                let ghost moved: RedeemConfig = x;
                done.insert(at, x);
                proof {
                    assert(done@ == done_before.insert(at as int, moved));
                    assert(left_before =~= left@.push(moved));
                    assert forall|i: int, j: int| 0 <= i <= j < done@.len() implies text_at_most(
                        #[trigger] done@[i].reward@,
                        #[trigger] done@[j].reward@,
                    ) by {
                        law_order_total(done@[i].reward@, done@[j].reward@);
                        if i < at {
                            assert(done@[i] == done_before[i]);
                        }
                        if j > at {
                            assert(done@[j] == done_before[j - 1]);
                        }
                    }
                    assert forall|reward: Seq<char>| #[trigger]
                        given.filter(is_for_reward(reward)) == left@.filter(is_for_reward(reward))
                            + done@.filter(is_for_reward(reward)) by {
                        let keep = is_for_reward(reward);
                        lemma_insert_keeps_order(done_before, moved, at as int, reward);
                        Seq::filter_distributes_over_add(left@, seq![moved], keep);
                        assert(left_before =~= left@ + seq![moved]);
                        assert(left@.filter(keep) + (seq![moved].filter(keep) + done_before.filter(
                            keep,
                        )) =~= (left@.filter(keep) + seq![moved].filter(keep))
                            + done_before.filter(keep));
                    }
                    vstd::seq_lib::to_multiset_insert(done_before, at as int, moved);
                    vstd::seq_lib::to_multiset_build(left@, moved);
                    assert(given.to_multiset() =~= left@.to_multiset().add(done@.to_multiset()));
                }
            },
            None => {},
        }
    }
    proof {
        assert(left@ =~= Seq::empty());
        left@.to_multiset_ensures();
        assert forall|reward: Seq<char>| #[trigger]
            done@.filter(is_for_reward(reward)) == given.filter(is_for_reward(reward)) by {
            assert(left@.filter(is_for_reward(reward)) =~= Seq::empty()) by {
                reveal(Seq::filter);
            }
            assert(given.filter(is_for_reward(reward)) =~= done@.filter(is_for_reward(reward)));
        }
        assert(given.to_multiset() =~= done@.to_multiset());
    }
    done
}

proof fn lemma_filter_front(redeems: Seq<RedeemConfig>, keep: spec_fn(RedeemConfig) -> bool)
    requires
        redeems.len() > 0,
    ensures
        redeems.filter(keep) == seq![redeems[0]].filter(keep) + redeems.drop_first().filter(keep),
        keep(redeems[0]) ==> redeems.filter(keep).len() > 0 && redeems.filter(keep)[0]
            == redeems[0],
{
    lemma_filter_split(redeems, 1, keep);
    assert(redeems.take(1) =~= seq![redeems[0]]);
    assert(redeems.skip(1) =~= redeems.drop_first());
    lemma_filter_one(redeems[0], keep);
}

/// What is in one of two lists with the same redeems for each reward is in the other.
proof fn lemma_has_reward(a: Seq<RedeemConfig>, b: Seq<RedeemConfig>)
    requires
        b.len() > 0,
        a.filter(is_for_reward(b[0].reward@)) == b.filter(is_for_reward(b[0].reward@)),
    ensures
        exists|i: int| 0 <= i < a.len() && #[trigger] a[i].reward@ == b[0].reward@,
{
    let keep = is_for_reward(b[0].reward@);
    lemma_filter_front(b, keep);
    if forall|i: int| 0 <= i < a.len() ==> #[trigger] a[i].reward@ != b[0].reward@ {
        assert forall|i: int| 0 <= i < a.len() implies !keep(a[i]) by {
            assert(a[i].reward@ != b[0].reward@);
        }
        a.lemma_all_neg_filter_empty(keep);
    }
}

proof fn lemma_sorted_determined(a: Seq<RedeemConfig>, b: Seq<RedeemConfig>)
    requires
        sorted_by_reward(a),
        sorted_by_reward(b),
        forall|reward: Seq<char>| #[trigger]
            a.filter(is_for_reward(reward)) == b.filter(is_for_reward(reward)),
    ensures
        a == b,
    decreases a.len(),
{
    if b.len() > 0 {
        lemma_has_reward(a, b);
    }
    if a.len() == 0 {
        assert(a =~= b);
    } else {
        lemma_has_reward(b, a);
        let first = a[0].reward@;
        let other = b[0].reward@;
        let i = choose|i: int| 0 <= i < a.len() && #[trigger] a[i].reward@ == other;
        let j = choose|j: int| 0 <= j < b.len() && #[trigger] b[j].reward@ == first;
        assert(text_at_most(a[0].reward@, a[i].reward@));
        assert(text_at_most(b[0].reward@, b[j].reward@));
        law_order_total(first, other);
        lemma_filter_front(a, is_for_reward(first));
        lemma_filter_front(b, is_for_reward(first));
        assert(a[0] == b[0]);
        let left = a.drop_first();
        let right = b.drop_first();
        assert forall|reward: Seq<char>| #[trigger]
            left.filter(is_for_reward(reward)) == right.filter(is_for_reward(reward)) by {
            let keep = is_for_reward(reward);
            let head = seq![a[0]].filter(keep);
            lemma_filter_front(a, keep);
            lemma_filter_front(b, keep);
            assert(a.filter(keep) == b.filter(keep));
            assert(left.filter(keep) =~= a.filter(keep).skip(head.len() as int));
            assert(right.filter(keep) =~= b.filter(keep).skip(head.len() as int));
        }
        assert forall|i: int, j: int| 0 <= i <= j < left.len() implies text_at_most(
            #[trigger] left[i].reward@,
            #[trigger] left[j].reward@,
        ) by {
            assert(text_at_most(a[i + 1].reward@, a[j + 1].reward@));
        }
        assert forall|i: int, j: int| 0 <= i <= j < right.len() implies text_at_most(
            #[trigger] right[i].reward@,
            #[trigger] right[j].reward@,
        ) by {
            assert(text_at_most(b[i + 1].reward@, b[j + 1].reward@));
        }
        lemma_sorted_determined(left, right);
        assert(a =~= seq![a[0]] + left);
        assert(b =~= seq![b[0]] + right);
    }
}

/// There is one way only to sort redeems so that those of one reward stay in their order.
pub proof fn law_sorting_is_unique(
    redeems: Seq<RedeemConfig>,
    a: Seq<RedeemConfig>,
    b: Seq<RedeemConfig>,
)
    requires
        stably_sorted(redeems, a),
        stably_sorted(redeems, b),
    ensures
        a == b,
{
    assert forall|reward: Seq<char>| #[trigger]
        a.filter(is_for_reward(reward)) == b.filter(is_for_reward(reward)) by {
        assert(a.filter(is_for_reward(reward)) == redeems.filter(is_for_reward(reward)));
    }
    lemma_sorted_determined(a, b);
}

/// What sorting gives: no redeem stands before one whose reward comes before its own, and the redeems of
/// each reward are the given ones in the given order.
pub proof fn law_what_sorting_gives(
    before: Seq<RedeemConfig>,
    after: Seq<RedeemConfig>,
    reward: Seq<char>,
)
    ensures
        sorted_by_reward(after) <==> forall|i: int, j: int|
            0 <= i < j < after.len() ==> !text_before(
                (#[trigger] after[j]).reward@,
                (#[trigger] after[i]).reward@,
            ),
        stably_sorted(before, after) ==> sorted_by_reward(after) && after.filter(
            |redeem: RedeemConfig| redeem.reward@ == reward,
        ) == before.filter(|redeem: RedeemConfig| redeem.reward@ == reward),
{
    if forall|i: int, j: int|
        0 <= i < j < after.len() ==> !text_before(
            (#[trigger] after[j]).reward@,
            (#[trigger] after[i]).reward@,
        ) {
        assert forall|i: int, j: int| 0 <= i <= j < after.len() implies text_at_most(
            #[trigger] after[i].reward@,
            #[trigger] after[j].reward@,
        ) by {
            law_order_total(after[i].reward@, after[i].reward@);
            if i < j {
                assert(!text_before(after[j].reward@, after[i].reward@));
            }
        }
    }
    if stably_sorted(before, after) {
        let inline = |redeem: RedeemConfig| redeem.reward@ == reward;
        assert(inline =~= is_for_reward(reward));
        assert(after.filter(is_for_reward(reward)) == before.filter(is_for_reward(reward)));
    }
}

} // verus!
