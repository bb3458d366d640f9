use std::sync::Arc;
use twitch_rcon::rcon::{
    ClientAction, ClientEvent, RconClient, BACKOFF_MAX, BACKOFF_MIN, TICKS_PER_SECOND,
};

fn text(s: &str) -> Arc<str> {
    Arc::from(s)
}

fn connected(retry: bool) -> RconClient {
    let mut client = RconClient::new(retry, None);
    assert_eq!(client.step(ClientEvent::Checked { disconnected: false }), ClientAction::Connect);
    assert_eq!(client.step(ClientEvent::Connected), ClientAction::Receive);
    client
}

#[test]
fn sends_one_command_at_a_time() {
    let mut client = connected(true);
    assert!(client.command().is_none());
    assert_eq!(client.step(ClientEvent::Command(text("one"))), ClientAction::Send);
    assert_eq!(&**client.command().unwrap(), "one");
    assert!(!client.takes(&ClientEvent::Command(text("two"))));
    assert_eq!(client.step(ClientEvent::Answered), ClientAction::Receive);
    assert!(client.command().is_none());
    assert_eq!(client.step(ClientEvent::Closed), ClientAction::Stop);
    assert!(client.into_unsent().is_none());
}

#[test]
fn sends_again_what_was_not_answered() {
    let mut client = connected(true);
    client.step(ClientEvent::Command(text("one")));
    assert_eq!(client.step(ClientEvent::SendFailed { cancelled: false }), ClientAction::Check);
    assert!(client.command().is_none());
    assert_eq!(client.step(ClientEvent::Checked { disconnected: false }), ClientAction::Connect);
    // The command that failed goes before any that comes in.
    assert_eq!(client.step(ClientEvent::Connected), ClientAction::Send);
    assert_eq!(&**client.command().unwrap(), "one");
    assert_eq!(client.step(ClientEvent::Answered), ClientAction::Receive);
    assert_eq!(client.step(ClientEvent::Command(text("two"))), ClientAction::Send);
    assert_eq!(&**client.command().unwrap(), "two");
}

#[test]
fn drops_what_was_not_answered_where_nothing_is_sent_again() {
    let mut client = connected(false);
    client.step(ClientEvent::Command(text("one")));
    client.step(ClientEvent::SendFailed { cancelled: false });
    client.step(ClientEvent::Checked { disconnected: false });
    assert_eq!(client.step(ClientEvent::Connected), ClientAction::Receive);
}

#[test]
fn leaves_the_command_to_the_next_client() {
    let mut client = connected(true);
    client.step(ClientEvent::Command(text("one")));
    assert_eq!(client.step(ClientEvent::SendFailed { cancelled: true }), ClientAction::Stop);
    let unsent = client.into_unsent();
    assert_eq!(unsent.as_deref(), Some("one"));
    let mut next = RconClient::new(true, unsent);
    assert_eq!(next.action(), ClientAction::Check);
    next.step(ClientEvent::Checked { disconnected: false });
    assert_eq!(next.step(ClientEvent::Connected), ClientAction::Send);
    assert_eq!(&**next.command().unwrap(), "one");
}

#[test]
fn answers_come_in_the_order_of_the_commands() {
    let mut client = RconClient::new(true, Some(text("zero")));
    let mut arriving = vec!["three", "two", "one"];
    let mut answered: Vec<String> = Vec::new();
    let mut failures = 0;
    let mut action = client.action();
    loop {
        let event = match action {
            ClientAction::Check => ClientEvent::Checked { disconnected: false },
            ClientAction::Connect => ClientEvent::Connected,
            ClientAction::Receive => match arriving.pop() {
                Some(command) => ClientEvent::Command(text(command)),
                None => ClientEvent::Closed,
            },
            ClientAction::Send => {
                failures += 1;
                if failures % 3 != 0 {
                    ClientEvent::SendFailed { cancelled: false }
                } else {
                    answered.push(String::from(&**client.command().unwrap()));
                    ClientEvent::Answered
                }
            }
            ClientAction::Wait { .. } => ClientEvent::Waited,
            ClientAction::Stop => break,
        };
        action = client.step(event);
    }
    assert_eq!(answered, ["zero", "one", "two", "three"]);
}

#[test]
fn waits_longer_after_each_failure() {
    let mut client = RconClient::new(true, None);
    let mut waits: Vec<u32> = Vec::new();
    for _ in 0..12 {
        client.step(ClientEvent::Checked { disconnected: false });
        match client.step(ClientEvent::ConnectFailed { cancelled: false }) {
            ClientAction::Wait { ticks } => waits.push(ticks),
            other => panic!("{:?}", other),
        }
        assert_eq!(client.step(ClientEvent::Waited), ClientAction::Check);
    }
    let mut seconds: Vec<f64> = Vec::new();
    let mut backoff = 1.0_f64;
    for _ in 0..12 {
        seconds.push(backoff);
        backoff = f64::clamp(backoff * (1.0 + 0.5), 1.0, 30.0);
    }
    let ticks: Vec<f64> = waits.iter().map(|t| *t as f64 / TICKS_PER_SECOND as f64).collect();
    assert_eq!(ticks, seconds);
    assert_eq!(waits[0], BACKOFF_MIN);
    assert_eq!(waits[8], 6561);
    assert_eq!(waits[9], BACKOFF_MAX);
    assert_eq!(waits[11], BACKOFF_MAX);
}

#[test]
fn a_client_can_end_anywhere() {
    // While the command waits for its answer.
    let mut sending = connected(true);
    sending.step(ClientEvent::Command(text("one")));
    assert_eq!(sending.into_unsent().as_deref(), Some("one"));

    // While the client waits to connect again.
    let mut waiting = connected(true);
    waiting.step(ClientEvent::Command(text("one")));
    waiting.step(ClientEvent::SendFailed { cancelled: false });
    waiting.step(ClientEvent::Checked { disconnected: false });
    waiting.step(ClientEvent::ConnectFailed { cancelled: false });
    assert_eq!(waiting.into_unsent().as_deref(), Some("one"));

    // Before it has done anything.
    assert_eq!(RconClient::new(true, Some(text("one"))).into_unsent().as_deref(), Some("one"));

    // A command in flight is lost where nothing is sent again, one that is yet to be sent is not.
    let mut once = connected(false);
    once.step(ClientEvent::Command(text("one")));
    assert!(once.into_unsent().is_none());
    assert_eq!(RconClient::new(false, Some(text("one"))).into_unsent().as_deref(), Some("one"));

    // Between commands there is nothing to leave.
    assert!(connected(true).into_unsent().is_none());
}

/// Runs clients one after the other, each of which takes note of three events at most once it is
/// connected, and so may end with a command in flight.
fn run_clients(retry: bool) -> (Vec<String>, Vec<String>, Option<String>) {
    let mut arriving = vec!["five", "four", "three", "two", "one"];
    let mut handed: Vec<String> = Vec::new();
    let mut answered: Vec<String> = Vec::new();
    let mut left: Option<Arc<str>> = None;
    for _ in 0..6 {
        let mut client = RconClient::new(retry, left);
        client.step(ClientEvent::Checked { disconnected: false });
        let mut action = client.step(ClientEvent::Connected);
        for _ in 0..3 {
            if action == ClientAction::Stop {
                break;
            }
            let event = if action == ClientAction::Send {
                let command = String::from(&**client.command().unwrap());
                handed.push(command.clone());
                answered.push(command);
                ClientEvent::Answered
            } else {
                match arriving.pop() {
                    Some(command) => ClientEvent::Command(text(command)),
                    None => ClientEvent::Closed,
                }
            };
            action = client.step(event);
        }
        if action == ClientAction::Send {
            handed.push(String::from(&**client.command().unwrap()));
        }
        left = client.into_unsent();
    }
    (handed, answered, left.as_deref().map(String::from))
}

#[test]
fn no_command_is_lost_between_clients() {
    let (handed, answered, left) = run_clients(true);
    assert_eq!(answered, ["one", "two", "three", "four", "five"]);
    assert_eq!(left, None);
    assert!(handed.len() > answered.len());
    let mut first: Vec<String> = handed;
    first.dedup();
    assert_eq!(first, answered);
}

#[test]
fn order_is_kept_between_clients_that_send_once() {
    let (handed, answered, _) = run_clients(false);
    assert_eq!(handed, ["one", "two", "three", "four", "five"]);
    assert_eq!(answered, ["one", "three", "five"]);
}

#[test]
fn reconnects_at_once_and_then_after_a_second() {
    let mut client = connected(true);
    client.step(ClientEvent::Command(text("one")));
    assert_eq!(client.step(ClientEvent::SendFailed { cancelled: false }), ClientAction::Check);
    client.step(ClientEvent::Checked { disconnected: false });
    assert_eq!(
        client.step(ClientEvent::ConnectFailed { cancelled: false }),
        ClientAction::Wait { ticks: BACKOFF_MIN }
    );
}

#[test]
fn stops_when_cancelled_or_left_alone() {
    let mut cancelled = connected(true);
    assert_eq!(cancelled.step(ClientEvent::Cancelled), ClientAction::Stop);

    let mut failing = RconClient::new(true, None);
    failing.step(ClientEvent::Checked { disconnected: false });
    assert_eq!(failing.step(ClientEvent::ConnectFailed { cancelled: true }), ClientAction::Stop);

    let mut waiting = RconClient::new(true, None);
    waiting.step(ClientEvent::Checked { disconnected: false });
    waiting.step(ClientEvent::ConnectFailed { cancelled: false });
    assert_eq!(waiting.step(ClientEvent::Cancelled), ClientAction::Stop);

    let mut alone = RconClient::new(true, None);
    assert_eq!(alone.step(ClientEvent::Checked { disconnected: true }), ClientAction::Stop);
}

#[test]
fn a_ready_command_goes_before_a_cancellation() {
    let client = connected(true);
    for closed in [false, true] {
        for cancelled in [false, true] {
            match client.chosen(Some(text("one")), closed, cancelled) {
                Some(ClientEvent::Command(command)) => assert_eq!(&*command, "one"),
                other => panic!("{:?}", other),
            }
        }
    }
    assert!(matches!(client.chosen(None, true, true), Some(ClientEvent::Closed)));
    assert!(matches!(client.chosen(None, true, false), Some(ClientEvent::Closed)));
    assert!(matches!(client.chosen(None, false, true), Some(ClientEvent::Cancelled)));
    assert!(client.chosen(None, false, false).is_none());
}

#[test]
fn a_cancelled_client_sends_what_is_ready() {
    let mut client = RconClient::new(true, Some(text("zero")));
    client.step(ClientEvent::Checked { disconnected: false });
    let mut action = client.step(ClientEvent::Connected);
    let mut ready = vec!["two", "one"];
    let mut sent: Vec<String> = Vec::new();
    while action != ClientAction::Stop {
        let event = if action == ClientAction::Send {
            sent.push(String::from(&**client.command().unwrap()));
            ClientEvent::Answered
        } else {
            client.chosen(ready.pop().map(text), false, true).unwrap()
        };
        action = client.step(event);
    }
    assert_eq!(sent, ["zero", "one", "two"]);
}

#[test]
fn a_cancellation_ends_the_wait() {
    let mut client = RconClient::new(true, None);
    client.step(ClientEvent::Checked { disconnected: false });
    client.step(ClientEvent::ConnectFailed { cancelled: false });
    assert!(matches!(client.chosen_in_pause(true, true), Some(ClientEvent::Cancelled)));
    assert!(matches!(client.chosen_in_pause(true, false), Some(ClientEvent::Cancelled)));
    assert!(matches!(client.chosen_in_pause(false, true), Some(ClientEvent::Waited)));
    assert!(client.chosen_in_pause(false, false).is_none());
}
