use qapi::engine::{response_id, Engine, EventAction, Lifecycle, ProtocolError, SendDecision};
use qapi::json::Json;

fn sent(d: SendDecision) -> (Option<u32>, u64) {
    match d {
        SendDecision::Send { id, ticket } => (id, ticket),
        other => panic!("not sent: {:?}", other),
    }
}

#[test]
fn oob_responses_are_matched_by_id() {
    let mut e = Engine::new(true);
    let (id_a, t_a) = sent(e.begin_execute());
    let (id_b, t_b) = sent(e.begin_execute());
    assert_eq!(id_a, Some(0));
    assert_eq!(id_b, Some(1));
    assert_eq!(e.on_response(Some(&Json::UInt(1))), Ok(Some(t_b)));
    assert_eq!(e.on_response(Some(&Json::UInt(0))), Ok(Some(t_a)));
}

#[test]
fn in_band_commands_are_sent_one_at_a_time() {
    let mut e = Engine::new(false);
    let (id, t1) = sent(e.begin_execute());
    assert_eq!(id, None);
    assert_eq!(e.begin_execute(), SendDecision::Busy);
    assert_eq!(e.on_response(None), Ok(Some(t1)));
    let (_, t2) = sent(e.begin_execute());
    assert_ne!(t1, t2);
    assert_eq!(e.on_response(None), Ok(Some(t2)));
}

#[test]
fn events_between_send_and_response_are_delivered() {
    let mut e = Engine::new(false);
    let (_, t) = sent(e.begin_execute());
    assert_eq!(e.on_event(true), EventAction::Deliver);
    assert_eq!(e.on_event(true), EventAction::Deliver);
    assert_eq!(e.on_event(false), EventAction::Discard);
    assert_eq!(e.on_response(None), Ok(Some(t)));
}

#[test]
fn cancelled_command_does_not_disturb_others() {
    let mut e = Engine::new(true);
    let (_, t0) = sent(e.begin_execute());
    e.cancel(t0);
    assert_eq!(e.on_response(Some(&Json::UInt(0))), Ok(None));
    let (id, t1) = sent(e.begin_execute());
    assert_eq!(id, Some(1));
    assert_eq!(e.on_response(Some(&Json::UInt(1))), Ok(Some(t1)));
}

#[test]
fn shutdown_fails_every_waiting_command() {
    let mut e = Engine::new(true);
    let (_, t0) = sent(e.begin_execute());
    let (_, t1) = sent(e.begin_execute());
    let (_, t2) = sent(e.begin_execute());
    e.cancel(t1);
    assert_eq!(e.shutdown(), vec![t0, t2]);
    assert!(e.is_stopped());
    assert_eq!(e.begin_execute(), SendDecision::Stopped);
}

#[test]
fn response_id_rules() {
    assert_eq!(response_id(Some(&Json::UInt(5)), true), Ok(5));
    assert_eq!(response_id(None, true), Err(ProtocolError::MissingId));
    assert_eq!(response_id(Some(&Json::Str("x".to_string())), true), Err(ProtocolError::MissingId));
    assert_eq!(response_id(Some(&Json::UInt(4294967295)), true), Ok(u32::MAX));
    assert_eq!(response_id(Some(&Json::UInt(4294967296)), true), Err(ProtocolError::MissingId));
    assert_eq!(response_id(None, false), Ok(0));
    assert_eq!(response_id(Some(&Json::UInt(5)), false), Err(ProtocolError::UnexpectedId));
    let mut e = Engine::new(true);
    assert_eq!(e.on_response(Some(&Json::UInt(9))), Err(ProtocolError::UnknownId));
}

#[test]
fn lifecycle_runs_drains_and_stops() {
    let mut e = Engine::new(false);
    assert_eq!(e.lifecycle(), Lifecycle::Running);
    let (_, t) = sent(e.begin_execute());
    e.abandon();
    assert_eq!(e.lifecycle(), Lifecycle::Draining);
    assert_eq!(e.on_event(true), EventAction::Deliver);
    assert_eq!(e.shutdown(), vec![t]);
    assert_eq!(e.lifecycle(), Lifecycle::Stopped);
}
