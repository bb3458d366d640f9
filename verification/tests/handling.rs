use std::sync::Arc;
use twitch_rcon::config::CommandError;
use twitch_rcon::handling::{RedeemAction, RedeemEvent, RedeemHandler};
use twitch_rcon::rcon::RconCommand;

fn good(text: &str) -> Result<RconCommand, CommandError> {
    Ok(RconCommand::Handle(Arc::from(text)))
}

fn bad() -> Result<RconCommand, CommandError> {
    Err(CommandError::Utf8(String::from_utf8(vec![255]).unwrap_err()))
}

/// Handles one redemption, whose send number `fails` fails, and gives what was handed over.
fn handle(
    handler: &mut RedeemHandler,
    commands: Vec<Result<RconCommand, CommandError>>,
    fails: usize,
) -> (Vec<String>, usize) {
    let mut handed: Vec<String> = Vec::new();
    let mut reported = 0;
    let mut action = handler.step(RedeemEvent::Triggered(commands));
    loop {
        action = match action {
            RedeemAction::Send(RconCommand::Handle(text)) => {
                handed.push(String::from(&*text));
                assert!(!handler.takes(&RedeemEvent::Closed));
                if handed.len() == fails {
                    handler.step(RedeemEvent::SendFailed)
                } else {
                    handler.step(RedeemEvent::Sent)
                }
            }
            RedeemAction::Report(e) => {
                assert_eq!(e.message(), "Failed to validate command as UTF-8 data");
                reported += 1;
                handler.step(RedeemEvent::Reported)
            }
            RedeemAction::Receive => return (handed, reported),
            RedeemAction::Stop => panic!("The handler has stopped"),
        };
    }
}

#[test]
fn all_commands_of_a_redemption_are_sent_in_order() {
    let mut handler = RedeemHandler::new();
    let (handed, reported) = handle(&mut handler, vec![good("a"), good("b"), good("c")], 0);
    assert_eq!(handed, ["a", "b", "c"]);
    assert_eq!(reported, 0);
    assert_eq!(handle(&mut handler, vec![], 0), (vec![], 0));
}

#[test]
fn commands_that_could_not_be_made_are_passed_over() {
    let mut handler = RedeemHandler::new();
    let (handed, reported) = handle(&mut handler, vec![bad(), good("a"), bad(), good("b"), bad()], 0);
    assert_eq!(handed, ["a", "b"]);
    assert_eq!(reported, 3);
}

#[test]
fn a_failed_send_ends_the_redemption_and_no_more() {
    let mut handler = RedeemHandler::new();
    let (handed, reported) = handle(&mut handler, vec![good("a"), good("b"), bad(), good("c")], 2);
    assert_eq!(handed, ["a", "b"]);
    assert_eq!(reported, 0);
    let (handed, _) = handle(&mut handler, vec![good("d")], 0);
    assert_eq!(handed, ["d"]);
    assert!(matches!(handler.step(RedeemEvent::Closed), RedeemAction::Stop));
    assert!(!handler.takes(&RedeemEvent::Triggered(vec![])));
}
