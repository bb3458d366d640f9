use std::ops::ControlFlow;
use twitch_rcon::redeem::ChannelToken;
use twitch_rcon::session::SessionError;
use twitch_rcon::twitch::{
    SessionEnd, TokenError, TwitchAction, TwitchClient, TwitchError, TwitchEvent, BACKOFF_MAX,
};

fn token(user_id: Option<&str>, login: Option<&str>) -> ChannelToken {
    ChannelToken { login: login.map(String::from), user_id: user_id.map(String::from) }
}

fn again() -> SessionEnd {
    SessionEnd::Finished(Ok(ControlFlow::Continue(())))
}

#[test]
fn the_token_names_the_channel() {
    assert_eq!(token(Some("27620241"), Some("me")).channel_id(), Ok(27620241));
    assert_eq!(token(None, Some("me")).channel_id(), Err(TokenError::NoUserId));
    assert_eq!(token(None, None).channel_id(), Err(TokenError::NoUserId));
    assert_eq!(token(Some("me"), Some("me")).channel_id(), Err(TokenError::BadChannelId));
    assert_eq!(token(Some("4294967296"), None).channel_id(), Err(TokenError::BadChannelId));
    assert_eq!(token(Some("1"), None).channel_id(), Err(TokenError::NoLogin));
}

#[test]
fn token_errors_have_messages() {
    assert_eq!(TokenError::NoUserId.message(), "User token does not specify a user ID!");
    assert_eq!(TokenError::BadChannelId.message(), "Failed to parse channel ID");
    assert_eq!(TokenError::NoLogin.message(), "User token does not specify a login!");
}

/// Lets the client begin a session and sees it end.
fn session(client: &mut TwitchClient, listening: bool, end: SessionEnd) -> TwitchAction {
    assert!(matches!(client.step(TwitchEvent::Started), TwitchAction::Run));
    assert!(!client.takes(&TwitchEvent::Started));
    if listening {
        assert!(matches!(client.step(TwitchEvent::Listening), TwitchAction::GoOn));
    }
    assert!(matches!(client.step(TwitchEvent::Ended(end)), TwitchAction::Join));
    assert!(!client.takes(&TwitchEvent::Started));
    client.step(TwitchEvent::Joined)
}

#[test]
fn waiting_times_grow_by_two_seconds() {
    let mut client = TwitchClient::new();
    let mut backoff = 1.0_f64;
    let mut last = 0;
    for _ in 0..70 {
        match session(&mut client, false, again()) {
            TwitchAction::Wait { seconds } => {
                assert_eq!(seconds as f64, backoff);
                last = seconds;
            }
            other => panic!("{:?}", other),
        }
        assert!(matches!(client.step(TwitchEvent::Waited), TwitchAction::Start));
        backoff = f64::clamp(backoff + (1.0 + 1.0), 1.0, 120.0);
    }
    assert_eq!(last, BACKOFF_MAX);
}

#[test]
fn a_client_that_was_listening_reconnects_at_once() {
    let mut client = TwitchClient::new();
    session(&mut client, false, again());
    client.step(TwitchEvent::Waited);
    assert!(matches!(session(&mut client, true, again()), TwitchAction::Start));
    assert!(matches!(session(&mut client, false, again()), TwitchAction::Wait { seconds: 2 }));
    client.step(TwitchEvent::Waited);
    assert!(matches!(session(&mut client, false, again()), TwitchAction::Wait { seconds: 4 }));
}

#[test]
fn recoverable_errors_are_followed_by_another_session() {
    let mut client = TwitchClient::new();
    let end = SessionEnd::Finished(Err(ControlFlow::Continue(SessionError::PingTimeout)));
    assert!(matches!(session(&mut client, false, end), TwitchAction::Wait { seconds: 1 }));
}

fn stops(end: SessionEnd) -> Result<(), TwitchError> {
    let mut client = TwitchClient::new();
    match session(&mut client, false, end) {
        TwitchAction::Stop(result) => {
            assert!(!client.takes(&TwitchEvent::Started));
            assert!(!client.takes(&TwitchEvent::Waited));
            result
        }
        other => panic!("{:?}", other),
    }
}

#[test]
fn the_client_stops() {
    assert!(stops(SessionEnd::Cancelled).is_ok());
    assert!(stops(SessionEnd::Finished(Ok(ControlFlow::Break(())))).is_ok());
    let fatal = stops(SessionEnd::Finished(Err(ControlFlow::Break(SessionError::Forward))));
    let fatal = fatal.unwrap_err();
    assert!(matches!(fatal, TwitchError::Session(SessionError::Forward)));
    assert_eq!(fatal.message(), "Twitch session ended with an unrecoverable error");
    let failed = stops(SessionEnd::Failed(String::from("panicked"))).unwrap_err();
    assert!(matches!(&failed, TwitchError::Join(text) if text == "panicked"));
    assert_eq!(failed.message(), "Twitch session failed to run");
}

#[test]
fn a_cancelled_client_does_not_ask_how_its_session_ended() {
    let mut client = TwitchClient::new();
    client.step(TwitchEvent::Started);
    assert!(matches!(
        client.chosen(true, Some(again())),
        Some(TwitchEvent::Ended(SessionEnd::Cancelled))
    ));
    assert!(matches!(
        client.chosen(false, Some(again())),
        Some(TwitchEvent::Ended(SessionEnd::Finished(Ok(ControlFlow::Continue(())))))
    ));
    assert!(client.chosen(false, None).is_none());
}
