//! What becomes of the commands for the game server, over one client and over clients that follow
//! each other.

use crate::rcon::{
    arrived, law_commands_are_answered_in_order, ClientAction, ClientEvent, ClientModel,
};
use std::sync::Arc;
use vstd::prelude::*;

verus! {

/// The commands of `part` stand in `whole` at the places `at`, in the same order and each at a place
/// of its own.
pub open spec fn stands_at(part: Seq<Arc<str>>, whole: Seq<Arc<str>>, at: Seq<int>) -> bool {
    &&& at.len() == part.len()
    &&& forall|i: int|
        0 <= i < at.len() ==> 0 <= #[trigger] at[i] < whole.len() && part[i] == whole[at[i]]
    &&& forall|i: int, j: int| 0 <= i < j < at.len() ==> #[trigger] at[i] < #[trigger] at[j]
}

/// `part` is what is left of `whole` when some commands are taken out.
pub open spec fn is_subsequence(part: Seq<Arc<str>>, whole: Seq<Arc<str>>) -> bool {
    exists|at: Seq<int>| #[trigger] stands_at(part, whole, at)
}

/// `handed` is `arrived` with each command there once or several times in a row.
pub open spec fn repeats_each(handed: Seq<Arc<str>>, arrived: Seq<Arc<str>>) -> bool
    decreases handed.len(),
{
    if handed.len() == 0 || arrived.len() == 0 {
        handed.len() == 0 && arrived.len() == 0
    } else {
        &&& handed.last() == arrived.last()
        &&& repeats_each(handed.drop_last(), arrived) || repeats_each(
            handed.drop_last(),
            arrived.drop_last(),
        )
    }
}

/// The command as a list, where there is one.
pub open spec fn as_list(command: Option<Arc<str>>) -> Seq<Arc<str>> {
    match command {
        Some(command) => seq![command],
        None => Seq::empty(),
    }
}

/// The command that the last of some clients leaves, each of which begins with what the one before
/// has left. `runs` holds what happens to each of them.
pub open spec fn left_by(retry: bool, runs: Seq<Seq<ClientEvent>>) -> Option<Arc<str>>
    decreases runs.len(),
{
    if runs.len() == 0 {
        None
    } else {
        client_of(retry, runs).after_all(runs.last()).left()
    }
}

/// The last of some clients as it begins.
pub open spec fn client_of(retry: bool, runs: Seq<Seq<ClientEvent>>) -> ClientModel
    decreases runs.len(), 0int,
    when runs.len() > 0
{
    ClientModel::fresh(retry, left_by(retry, runs.drop_last()))
}

/// Each of the events can happen to its client when it does.
pub open spec fn runs_accept(retry: bool, runs: Seq<Seq<ClientEvent>>) -> bool
    decreases runs.len(),
{
    if runs.len() == 0 {
        true
    } else {
        runs_accept(retry, runs.drop_last()) && client_of(retry, runs).accepts_all(runs.last())
    }
}

/// The commands that come in over all clients.
pub open spec fn runs_arrived(runs: Seq<Seq<ClientEvent>>) -> Seq<Arc<str>>
    decreases runs.len(),
{
    if runs.len() == 0 {
        Seq::empty()
    } else {
        runs_arrived(runs.drop_last()) + arrived(runs.last())
    }
}

/// The commands that are answered over all clients.
pub open spec fn runs_answered(retry: bool, runs: Seq<Seq<ClientEvent>>) -> Seq<Arc<str>>
    decreases runs.len(),
{
    if runs.len() == 0 {
        Seq::empty()
    } else {
        runs_answered(retry, runs.drop_last()) + client_of(retry, runs).answered(runs.last())
    }
}

/// The commands that are handed to a connection over all clients, each as often as it is handed
/// over.
pub open spec fn runs_handed(retry: bool, runs: Seq<Seq<ClientEvent>>) -> Seq<Arc<str>>
    decreases runs.len(),
{
    if runs.len() == 0 {
        Seq::empty()
    } else {
        runs_handed(retry, runs.drop_last()) + client_of(retry, runs).handed(runs.last())
    }
}

proof fn lemma_subsequence_of_itself(s: Seq<Arc<str>>)
    ensures
        is_subsequence(s, s),
{
    assert(stands_at(s, s, Seq::new(s.len(), |i: int| i)));
}

proof fn lemma_subsequence_transitive(a: Seq<Arc<str>>, b: Seq<Arc<str>>, c: Seq<Arc<str>>)
    requires
        is_subsequence(a, b),
        is_subsequence(b, c),
    ensures
        is_subsequence(a, c),
{
    let inner = choose|at: Seq<int>| #[trigger] stands_at(a, b, at);
    let outer = choose|at: Seq<int>| #[trigger] stands_at(b, c, at);
    let at: Seq<int> = Seq::new(a.len(), |i: int| outer[inner[i]]);
    assert forall|i: int, j: int| 0 <= i < j < at.len() implies #[trigger] at[i] < #[trigger] at[j] by {
        assert(inner[i] < inner[j]);
        assert(outer[inner[i]] < outer[inner[j]]);
    }
    assert(stands_at(a, c, at));
}

proof fn lemma_subsequence_concat(
    a: Seq<Arc<str>>,
    b: Seq<Arc<str>>,
    c: Seq<Arc<str>>,
    d: Seq<Arc<str>>,
)
    requires
        is_subsequence(a, b),
        is_subsequence(c, d),
    ensures
        is_subsequence(a + c, b + d),
{
    let left = choose|at: Seq<int>| #[trigger] stands_at(a, b, at);
    let right = choose|at: Seq<int>| #[trigger] stands_at(c, d, at);
    let at: Seq<int> = Seq::new(
        a.len() + c.len(),
        |i: int|
            if i < a.len() {
                left[i]
            } else {
                right[i - a.len()] + b.len()
            },
    );
    assert forall|i: int| 0 <= i < at.len() implies 0 <= #[trigger] at[i] < (b + d).len() && (a
        + c)[i] == (b + d)[at[i]] by {
        if i < a.len() {
            assert(0 <= left[i] < b.len());
        } else {
            assert(0 <= right[i - a.len()] < d.len());
        }
    }
    assert forall|i: int, j: int| 0 <= i < j < at.len() implies #[trigger] at[i] < #[trigger] at[j] by {
        if j < a.len() {
            assert(left[i] < left[j]);
        } else if i < a.len() {
            assert(0 <= left[i] < b.len());
            assert(0 <= right[j - a.len()] < d.len());
        } else {
            assert(right[i - a.len()] < right[j - a.len()]);
        }
    }
    assert(stands_at(a + c, b + d, at));
}

proof fn lemma_nothing_is_a_subsequence(s: Seq<Arc<str>>)
    ensures
        is_subsequence(Seq::empty(), s),
{
    assert(stands_at(Seq::empty(), s, Seq::<int>::empty()));
}

/// Leaving out what stands at the end leaves a subsequence.
proof fn lemma_front_is_a_subsequence(a: Seq<Arc<str>>, b: Seq<Arc<str>>)
    ensures
        is_subsequence(a, a + b),
{
    lemma_subsequence_of_itself(a);
    lemma_nothing_is_a_subsequence(b);
    lemma_subsequence_concat(a, a, Seq::empty(), b);
    assert(a + Seq::<Arc<str>>::empty() =~= a);
}

/// Whether or not commands are sent again, none overtakes another and none is answered twice: at any
/// time, those that have been answered and then the one in hand are among those that came in, in the
/// order in which they came in.
pub proof fn law_answers_keep_order(client: ClientModel, events: Seq<ClientEvent>)
    requires
        client.inv(),
        client.accepts_all(events),
    ensures
        client.after_all(events).inv(),
        client.after_all(events).retry == client.retry,
        is_subsequence(
            client.answered(events) + client.after_all(events).backlog(),
            client.backlog() + arrived(events),
        ),
        is_subsequence(client.answered(events), client.backlog() + arrived(events)),
    decreases events.len(),
{
    let now = client.after_all(events);
    let whole = client.backlog() + arrived(events);
    if events.len() == 0 {
        assert(client.answered(events) + now.backlog() =~= whole);
        lemma_subsequence_of_itself(whole);
    } else {
        let front = events.drop_last();
        let before = client.after_all(front);
        law_answers_keep_order(client, front);
        match events.last() {
            ClientEvent::Command(command) => {
                let one = seq![command];
                lemma_subsequence_of_itself(one);
                lemma_subsequence_concat(
                    client.answered(front) + before.backlog(),
                    client.backlog() + arrived(front),
                    one,
                    one,
                );
                assert(client.answered(events) + now.backlog() =~= client.answered(front)
                    + before.backlog() + one);
                assert(whole =~= client.backlog() + arrived(front) + one);
            },
            ClientEvent::Answered => {
                assert(client.answered(events) + now.backlog() =~= client.answered(front)
                    + before.backlog());
            },
            ClientEvent::SendFailed { .. } => {
                if client.retry {
                    assert(now.backlog() =~= before.backlog());
                } else {
                    assert(client.answered(events) + now.backlog() =~= client.answered(front));
                    lemma_front_is_a_subsequence(client.answered(front), before.backlog());
                    lemma_subsequence_transitive(
                        client.answered(front),
                        client.answered(front) + before.backlog(),
                        whole,
                    );
                }
            },
            _ => {
                assert(now.backlog() =~= before.backlog());
            },
        }
    }
    lemma_front_is_a_subsequence(client.answered(events), now.backlog());
    lemma_subsequence_transitive(
        client.answered(events),
        client.answered(events) + now.backlog(),
        whole,
    );
}

/// Over clients that follow each other, each with the command that the one before was left with, no
/// command gets lost, overtakes another or is answered twice where commands are sent again: those
/// that have been answered and then the one that is left are those that came in, in the order in
/// which they came in. It does not matter how or when each client ends.
pub proof fn law_no_command_is_lost_between_clients(runs: Seq<Seq<ClientEvent>>)
    requires
        runs_accept(true, runs),
    ensures
        runs_answered(true, runs) + as_list(left_by(true, runs)) == runs_arrived(runs),
    decreases runs.len(),
{
    if runs.len() == 0 {
        assert(runs_answered(true, runs) + as_list(left_by(true, runs)) =~= runs_arrived(runs));
    } else {
        let front = runs.drop_last();
        let client = client_of(true, runs);
        let events = runs.last();
        law_no_command_is_lost_between_clients(front);
        law_commands_are_answered_in_order(client, events);
        assert(client.backlog() =~= as_list(left_by(true, front)));
        assert(client.after_all(events).backlog() =~= as_list(left_by(true, runs)));
        assert(runs_answered(true, runs) + as_list(left_by(true, runs)) =~= runs_answered(true, front)
            + (client.answered(events) + client.after_all(events).backlog()));
        assert(runs_arrived(runs) =~= runs_answered(true, front) + (client.backlog() + arrived(
            events,
        )));
    }
}

/// Over clients that follow each other, whether or not commands are sent again, what is answered is
/// among what came in, in the same order and each command once at most.
pub proof fn law_order_is_kept_between_clients(retry: bool, runs: Seq<Seq<ClientEvent>>)
    requires
        runs_accept(retry, runs),
    ensures
        is_subsequence(
            runs_answered(retry, runs) + as_list(left_by(retry, runs)),
            runs_arrived(runs),
        ),
        is_subsequence(runs_answered(retry, runs), runs_arrived(runs)),
    decreases runs.len(),
{
    let left = as_list(left_by(retry, runs));
    if runs.len() == 0 {
        assert(runs_answered(retry, runs) + left =~= runs_arrived(runs));
        lemma_subsequence_of_itself(runs_arrived(runs));
    } else {
        let front = runs.drop_last();
        let client = client_of(retry, runs);
        let events = runs.last();
        let done = runs_answered(retry, front);
        let now = client.after_all(events);
        law_order_is_kept_between_clients(retry, front);
        law_answers_keep_order(client, events);
        assert(client.backlog() =~= as_list(left_by(retry, front)));
        // What the client leaves is its backlog, or nothing.
        lemma_subsequence_of_itself(client.answered(events));
        if left.len() == 0 {
            lemma_nothing_is_a_subsequence(now.backlog());
            assert(left =~= Seq::empty());
        } else {
            lemma_subsequence_of_itself(left);
            assert(left =~= now.backlog());
        }
        lemma_subsequence_concat(
            client.answered(events),
            client.answered(events),
            left,
            now.backlog(),
        );
        lemma_subsequence_transitive(
            client.answered(events) + left,
            client.answered(events) + now.backlog(),
            client.backlog() + arrived(events),
        );
        // Before it stands what the clients before have answered.
        lemma_subsequence_of_itself(done);
        lemma_subsequence_concat(
            done,
            done,
            client.answered(events) + left,
            client.backlog() + arrived(events),
        );
        lemma_subsequence_of_itself(arrived(events));
        lemma_subsequence_concat(
            done + client.backlog(),
            runs_arrived(front),
            arrived(events),
            arrived(events),
        );
        assert(done + (client.backlog() + arrived(events)) =~= done + client.backlog() + arrived(
            events,
        ));
        assert(runs_answered(retry, runs) + left =~= done + (client.answered(events) + left));
        lemma_subsequence_transitive(
            runs_answered(retry, runs) + left,
            done + (client.backlog() + arrived(events)),
            runs_arrived(runs),
        );
    }
    lemma_front_is_a_subsequence(runs_answered(retry, runs), left);
    lemma_subsequence_transitive(
        runs_answered(retry, runs),
        runs_answered(retry, runs) + left,
        runs_arrived(runs),
    );
}

/// The order in which one client hands over commands, behind what was handed over before it.
proof fn lemma_handed_in_order(
    client: ClientModel,
    events: Seq<ClientEvent>,
    handed: Seq<Arc<str>>,
    came: Seq<Arc<str>>,
)
    requires
        client.inv(),
        client.accepts_all(events),
        repeats_each(handed, came),
        client.backlog().len() > 0 ==> came.len() > 0 && came.last() == client.backlog()[0],
    ensures
        client.after_all(events).inv(),
        repeats_each(handed + client.handed(events), came + arrived(events)),
        ({
            let whole = came + arrived(events);
            let now = client.after_all(events);
            now.backlog().len() > 0 ==> whole.len() > 0 && whole.last() == now.backlog()[0]
        }),
    decreases events.len(),
{
    let now = client.after_all(events);
    if events.len() == 0 {
        assert(handed + client.handed(events) =~= handed);
        assert(came + arrived(events) =~= came);
    } else {
        let front = events.drop_last();
        let before = client.after_all(front);
        lemma_handed_in_order(client, front, handed, came);
        let old_handed = handed + client.handed(front);
        let old_came = came + arrived(front);
        let new_handed = handed + client.handed(events);
        let new_came = came + arrived(events);
        match events.last() {
            ClientEvent::Command(command) => {
                assert(new_handed =~= old_handed.push(command));
                assert(new_came =~= old_came.push(command));
                assert(new_handed.drop_last() =~= old_handed);
                assert(new_came.drop_last() =~= old_came);
            },
            ClientEvent::Connected => {
                assert(new_came =~= old_came);
                if before.resend is Some {
                    let command = before.resend->Some_0;
                    assert(before.backlog() =~= seq![command]);
                    assert(new_handed =~= old_handed.push(command));
                    assert(new_handed.drop_last() =~= old_handed);
                } else {
                    assert(new_handed =~= old_handed);
                }
            },
            _ => {
                assert(now.action() != ClientAction::Send);
                assert(new_handed =~= old_handed);
                assert(new_came =~= old_came);
            },
        }
    }
}

/// Commands are handed to connections in the order in which they come in, over all clients: each
/// command that comes in is handed over, and until the next one is, only it is handed over again.
pub proof fn law_commands_are_handed_over_in_order(retry: bool, runs: Seq<Seq<ClientEvent>>)
    requires
        runs_accept(retry, runs),
    ensures
        repeats_each(runs_handed(retry, runs), runs_arrived(runs)),
        left_by(retry, runs) matches Some(command) ==> runs_arrived(runs).len() > 0 && runs_arrived(
            runs,
        ).last() == command,
    decreases runs.len(),
{
    if runs.len() > 0 {
        let front = runs.drop_last();
        let client = client_of(retry, runs);
        law_commands_are_handed_over_in_order(retry, front);
        lemma_handed_in_order(
            client,
            runs.last(),
            runs_handed(retry, front),
            runs_arrived(front),
        );
    }
}

} // verus!
