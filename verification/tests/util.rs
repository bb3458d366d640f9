use std::ops::ControlFlow;
use twitch_rcon::flow::WithControlFlow;
use twitch_rcon::util::DropSend;

#[test]
fn a_message_is_given_back_once() {
    let mut held = DropSend::new(String::from("m"));
    assert_eq!(held.as_ref(), "m");
    held.as_mut().push('!');
    assert_eq!(held.unsent(), Some(String::from("m!")));
    assert_eq!(held.unsent(), None);
}

#[test]
fn a_consumed_message_is_not_given_back() {
    assert_eq!(DropSend::new(5).consume(), 5);
}

#[test]
fn results_say_whether_to_go_on() {
    let ok: Result<u8, u16> = Ok(1);
    let err: Result<u8, u16> = Err(2);
    assert_eq!(ok.with_break_err(), Ok(1));
    assert_eq!(err.with_break_err(), Err(ControlFlow::Break(2)));
    assert_eq!(ok.with_continue_err(), Ok(1));
    assert_eq!(err.with_continue_err(), Err(ControlFlow::Continue(2)));
    assert_eq!(ok.with_break(), Ok(ControlFlow::Break(1)));
    assert_eq!(err.with_break(), Err(2));
    assert_eq!(ok.with_continue(), Ok(ControlFlow::Continue(1)));
    assert_eq!(err.with_continue(), Err(2));
}
