use std::ops::ControlFlow;
use std::sync::Arc;
use twitch_rcon::pubsub::PubSubMessage;
use twitch_rcon::redeem::{ChannelToken, Redeem, RedeemCommand};
use twitch_rcon::session::{
    close_reason, ping_message, Session, SessionAction, SessionChoice, SessionError, SessionEvent, SessionOutcome,
    SessionPhase, TimerChange,
};

const REDEMPTION: &str = r##"
{
    "type": "reward-redeemed",
    "data": {
        "timestamp": "2020-10-10T19:13:30.536153182Z",
        "redemption": {
            "id": "b021f290-bedb-49c2-b90f-e6ceb1c0d4ab",
            "user": {
                "id": "27620241",
                "login": "emilgardis",
                "display_name": "EmilGardis"
            },
            "channel_id": "1234",
            "redeemed_at": "2020-10-10T19:13:30.536153182Z",
            "reward": {
                "id": "252e209d-4f16-4886-a0d1-97f458ad5698",
                "channel_id": "1234",
                "title": "Hydration",
                "prompt": "Drink water",
                "cost": 2000,
                "is_user_input_required": true,
                "is_sub_only": false,
                "image": null,
                "default_image": null,
                "background_color": "#81AEFF",
                "is_enabled": true,
                "is_paused": false,
                "is_in_stock": true,
                "max_per_stream": { "is_enabled": false, "max_per_stream": 10 },
                "should_redemptions_skip_request_queue": false,
                "template_id": null,
                "updated_for_indicator_at": "2020-02-06T17:29:19.737311439Z",
                "max_per_user_per_stream": { "is_enabled": false, "max_per_user_per_stream": 0 },
                "global_cooldown": { "is_enabled": false, "global_cooldown_seconds": 0 },
                "redemptions_redeemed_current_stream": 0,
                "cooldown_expires_at": null
            },
            "user_input": "bap",
            "status": "UNFULFILLED"
        }
    }
}
"##;

fn redemption_text() -> String {
    format!(
        r#"{{"type": "MESSAGE","data": {{ "topic": "channel-points-channel-v1.1234", "message": {} }}}}"#,
        serde_json::to_string(REDEMPTION).unwrap()
    )
}

fn open() -> Session {
    let token = Arc::new(ChannelToken {
        login: Some(String::from("me")),
        user_id: Some(String::from("1234")),
    });
    Session::open(token, 1234, "to\"ken").unwrap()
}

fn selecting() -> Session {
    let mut session = open();
    assert!(matches!(session.step(SessionEvent::Connected).action, SessionAction::SendListen));
    let step = session.step(SessionEvent::Sent);
    assert!(matches!(step.action, SessionAction::Select));
    assert_eq!(step.ping_timer, TimerChange::Start { seconds: 270 });
    assert_eq!(step.pong_timer, TimerChange::Keep);
    assert!(!step.reset_backoff);
    session
}

fn text(s: &str) -> String {
    String::from(s)
}

fn is_continue(outcome: &SessionOutcome) -> bool {
    matches!(outcome, Ok(ControlFlow::Continue(())))
}

#[test]
fn the_listen_request() {
    let session = open();
    assert_eq!(session.phase(), SessionPhase::Connecting);
    assert_eq!(
        session.listen_message(),
        "{\"type\":\"LISTEN\",\"nonce\":\"Listen\",\"data\":{\"topics\":[\"channel-points-channel-v1.1234\"],\"auth_token\":\"to\\\"ken\"}}"
    );
}

#[test]
fn without_a_listen_request_there_is_no_session() {
    let token = Arc::new(ChannelToken { login: Some(text("me")), user_id: None });
    let error = serde_json::from_str::<u8>("x").unwrap_err();
    match Session::new(token, Err(error)) {
        Err(ControlFlow::Break(e)) => {
            assert!(matches!(e, SessionError::ListenCommand(_)));
            assert_eq!(e.message(), "Failed to construct listen command");
        }
        other => panic!("{:?}", other),
    }
}

#[test]
fn fixed_texts() {
    assert_eq!(ping_message(), "{\"type\":\"PING\"}");
    assert_eq!(close_reason(), "Shutting down");
}

#[test]
fn a_connection_that_is_not_made() {
    let mut session = open();
    assert!(matches!(session.step(SessionEvent::ConnectFailed(text("no route"))).action, SessionAction::End));
    match session.finish() {
        Err(ControlFlow::Continue(e)) => {
            assert!(matches!(&e, SessionError::Connect(why) if why == "no route"));
            assert_eq!(e.message(), "Failed to connect to PubSub API");
        }
        other => panic!("{:?}", other),
    }
}

#[test]
fn a_listen_request_that_is_not_sent() {
    let mut session = open();
    session.step(SessionEvent::Connected);
    assert!(matches!(session.step(SessionEvent::SendFailed(text("reset"))).action, SessionAction::End));
    assert!(matches!(session.finish(), Err(ControlFlow::Continue(SessionError::Listen(why))) if why == "reset"));
}

#[test]
fn redemptions_are_passed_on() {
    let mut session = selecting();
    match session.on_text(&redemption_text()).action {
        SessionAction::Forward(RedeemCommand::Handle(redeem)) => {
            let Redeem { channel_token, redeem_id, redeem_input, reward_cost, reward_id, reward_title, user_id, user_login, user_name } = redeem;
            assert_eq!(channel_token.login.as_deref(), Some("me"));
            assert_eq!(redeem_id, "b021f290-bedb-49c2-b90f-e6ceb1c0d4ab");
            assert_eq!(redeem_input.as_deref(), Some("bap"));
            assert_eq!(reward_cost, 2000);
            assert_eq!(reward_id, "252e209d-4f16-4886-a0d1-97f458ad5698");
            assert_eq!(reward_title, "Hydration");
            assert_eq!(user_id, "27620241");
            assert_eq!(user_login, "emilgardis");
            assert_eq!(user_name, "EmilGardis");
        }
        other => panic!("{:?}", other),
    }
    assert!(!session.takes(&SessionEvent::PingDue));
    assert!(matches!(session.step(SessionEvent::Forwarded).action, SessionAction::Select));
}

#[test]
fn a_redemption_that_nobody_takes_ends_the_session_for_good() {
    let mut session = selecting();
    session.on_text(&redemption_text());
    assert!(matches!(session.step(SessionEvent::ForwardFailed).action, SessionAction::End));
    match session.finish() {
        Err(ControlFlow::Break(e)) => assert_eq!(e.message(), "Failed to forward redemption info"),
        other => panic!("{:?}", other),
    }
}

#[test]
fn other_messages_are_ignored() {
    let mut session = selecting();
    let updated = REDEMPTION.replace("reward-redeemed", "redemption-status-update");
    let text = format!(
        r#"{{"type": "MESSAGE","data": {{ "topic": "channel-points-channel-v1.1234", "message": {} }}}}"#,
        serde_json::to_string(&updated).unwrap()
    );
    assert!(matches!(session.on_text(&text).action, SessionAction::Select));
    let foreign = r#"{"type":"RESPONSE","nonce":"other","error":"ERR_BADAUTH"}"#;
    let step = session.on_text(foreign);
    assert!(matches!(step.action, SessionAction::Select));
    assert!(!step.reset_backoff);
    let unmarked = session.on_text(r#"{"type":"RESPONSE","error":""}"#);
    assert!(!unmarked.reset_backoff);
    assert!(matches!(session.step(SessionEvent::Unsupported).action, SessionAction::Select));
    assert!(session.takes(&SessionEvent::PingDue));
}

#[test]
fn an_accepted_listen_request_drops_the_waiting_time() {
    let mut session = selecting();
    let step = session.on_text(r#"{"type":"RESPONSE","nonce":"Listen","error":""}"#);
    assert!(step.reset_backoff);
    assert!(matches!(step.action, SessionAction::Select));
    let none = session.step(SessionEvent::Message(PubSubMessage::Response { nonce: Some(text("Listen")), error: None }));
    assert!(none.reset_backoff);
}

#[test]
fn a_refused_listen_request_ends_the_session_for_good() {
    let mut session = selecting();
    let step = session.on_text(r#"{"type":"RESPONSE","nonce":"Listen","error":"ERR_BADAUTH"}"#);
    assert!(!step.reset_backoff);
    assert!(matches!(step.action, SessionAction::Close));
    assert!(matches!(session.step(SessionEvent::CloseSent).action, SessionAction::Select));
    assert!(matches!(session.step(SessionEvent::StreamEnded).action, SessionAction::End));
    match session.finish() {
        Err(ControlFlow::Break(e)) => {
            assert!(matches!(&e, SessionError::Refused(why) if why == "ERR_BADAUTH"));
            assert_eq!(e.message(), "Failed to listen for channel point redemptions");
        }
        other => panic!("{:?}", other),
    }
}

#[test]
fn a_close_frame_after_a_refusal_makes_for_another_session() {
    let mut session = selecting();
    session.on_text(r#"{"type":"RESPONSE","nonce":"Listen","error":"ERR_BADAUTH"}"#);
    session.step(SessionEvent::CloseSent);
    assert!(matches!(session.step(SessionEvent::CloseReceived).action, SessionAction::End));
    assert!(is_continue(&session.finish()));
}

#[test]
fn pings_are_sent_and_answers_expected() {
    let mut session = selecting();
    assert!(!session.takes(&SessionEvent::PongTimeout));
    assert!(matches!(session.step(SessionEvent::PingDue).action, SessionAction::SendPing));
    let sent = session.step(SessionEvent::Sent);
    assert_eq!(sent.ping_timer, TimerChange::Start { seconds: 270 });
    assert_eq!(sent.pong_timer, TimerChange::Start { seconds: 10 });
    assert!(session.takes(&SessionEvent::PongTimeout));
    let answered = session.on_text(r#"{"type":"PONG"}"#);
    assert_eq!(answered.ping_timer, TimerChange::Keep);
    assert_eq!(answered.pong_timer, TimerChange::Stop);
    assert!(!session.takes(&SessionEvent::PongTimeout));
}

#[test]
fn a_ping_without_an_answer_closes_the_connection() {
    let mut session = selecting();
    session.step(SessionEvent::PingDue);
    session.step(SessionEvent::Sent);
    assert!(matches!(session.step(SessionEvent::PongTimeout).action, SessionAction::Close));
    session.step(SessionEvent::CloseSent);
    assert!(!session.takes(&SessionEvent::PongTimeout));
    assert!(!session.takes(&SessionEvent::PingDue));
    assert!(!session.takes(&SessionEvent::Cancelled));
    session.step(SessionEvent::StreamEnded);
    match session.finish() {
        Err(ControlFlow::Continue(e)) => {
            assert_eq!(e.message(), "Ping was not acknowledged within 10.0 seconds.")
        }
        other => panic!("{:?}", other),
    }
}

#[test]
fn a_ping_that_is_not_sent_ends_the_session() {
    let mut session = selecting();
    session.step(SessionEvent::PingDue);
    session.step(SessionEvent::SendFailed(text("gone")));
    match session.finish() {
        Err(ControlFlow::Continue(e)) => {
            assert!(matches!(e, SessionError::SendPing(_)));
            assert_eq!(e.message(), "Failed to send ping to PubSub interface");
        }
        other => panic!("{:?}", other),
    }
}

#[test]
fn pings_are_answered_with_their_payload() {
    let mut session = selecting();
    match session.step(SessionEvent::PingReceived(vec![1, 2, 3])).action {
        SessionAction::SendPong(payload) => assert_eq!(payload, vec![1, 2, 3]),
        other => panic!("{:?}", other),
    }
    let sent = session.step(SessionEvent::Sent);
    assert_eq!(sent.ping_timer, TimerChange::Keep);
    assert_eq!(sent.pong_timer, TimerChange::Keep);
    session.step(SessionEvent::PingReceived(Vec::new()));
    session.step(SessionEvent::SendFailed(text("gone")));
    match session.finish() {
        Err(ControlFlow::Continue(e)) => assert_eq!(e.message(), "Failed to send pong on PubSub socket"),
        other => panic!("{:?}", other),
    }
}

#[test]
fn a_request_to_reconnect_closes_the_connection_in_order() {
    let mut session = selecting();
    assert!(matches!(session.on_text(r#"{"type":"RECONNECT"}"#).action, SessionAction::Close));
    session.step(SessionEvent::CloseSent);
    // A second one has no effect.
    assert!(matches!(session.on_text(r#"{"type":"RECONNECT"}"#).action, SessionAction::Select));
    session.step(SessionEvent::CloseReceived);
    assert!(is_continue(&session.finish()));
}

#[test]
fn a_cancelled_session_ends_in_order() {
    let mut session = selecting();
    assert!(matches!(session.step(SessionEvent::Cancelled).action, SessionAction::Close));
    // A failure to close is of no account where nothing else went wrong.
    session.step(SessionEvent::CloseFailed(text("broken")));
    // Redemptions that come in meanwhile are still passed on.
    assert!(matches!(session.on_text(&redemption_text()).action, SessionAction::Forward(_)));
    session.step(SessionEvent::Forwarded);
    session.step(SessionEvent::StreamEnded);
    assert!(is_continue(&session.finish()));
}

#[test]
fn a_failure_to_close_takes_the_place_of_the_error_before() {
    let mut session = selecting();
    assert!(matches!(session.step(SessionEvent::ReadFailed(text("reset"))).action, SessionAction::Close));
    session.step(SessionEvent::CloseFailed(text("broken")));
    session.step(SessionEvent::StreamEnded);
    match session.finish() {
        Err(ControlFlow::Continue(e)) => {
            assert!(matches!(&e, SessionError::Close(why) if why == "broken"));
            assert_eq!(e.message(), "Failed to shut down WebSocket connection");
        }
        other => panic!("{:?}", other),
    }
}

#[test]
fn a_failed_connection() {
    let mut session = selecting();
    session.step(SessionEvent::ReadFailed(text("reset")));
    session.step(SessionEvent::CloseSent);
    session.step(SessionEvent::StreamEnded);
    match session.finish() {
        Err(ControlFlow::Continue(e)) => {
            assert!(matches!(&e, SessionError::Read(why) if why == "reset"));
            assert_eq!(e.message(), "An error occurred reading from the WebSocket");
        }
        other => panic!("{:?}", other),
    }
}

#[test]
fn a_message_that_cannot_be_read_ends_the_session() {
    for odd in ["", "{", "[]", r#"{"type":"NEWS"}"#, r#"{"type":"MESSAGE"}"#] {
        let mut session = selecting();
        assert!(matches!(session.on_text(odd).action, SessionAction::End), "{:?}", odd);
        match session.finish() {
            Err(ControlFlow::Continue(e)) => {
                assert!(matches!(e, SessionError::Parse(_)));
                assert_eq!(e.message(), "Failed to parse PubSub message");
            }
            other => panic!("{:?}", other),
        }
    }
}

#[test]
fn what_a_session_acts_on_first() {
    let mut session = selecting();
    assert_eq!(session.chosen(true, true, true, true), Some(SessionChoice::Cancelled));
    // No ping is waiting for its answer yet.
    assert_eq!(session.chosen(false, true, true, true), Some(SessionChoice::PingDue));
    assert_eq!(session.chosen(false, true, false, true), Some(SessionChoice::Incoming));
    assert_eq!(session.chosen(false, true, false, false), None);
    session.step(SessionEvent::PingDue);
    session.step(SessionEvent::Sent);
    assert_eq!(session.chosen(false, true, true, true), Some(SessionChoice::PongTimeout));
    session.step(SessionEvent::Cancelled);
    session.step(SessionEvent::CloseSent);
    assert_eq!(session.chosen(true, true, true, true), Some(SessionChoice::Incoming));
    assert_eq!(session.chosen(true, true, true, false), None);
}
