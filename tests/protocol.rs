use qapi::client::{Qga, Qmp, ReadOutcome, Stream};
use qapi::codec::{encode, JsonLinesCodec};
use qapi::engine::{Engine, SendDecision};
use qapi::json::{json_to_vec, Json};
use qapi::protocol::{negotiation_arguments, QapiCapabilities, QmpMessage, SyncError};
use qapi::qga::{signed_decimal, GuestExecStatus, GuestShutdownMode};
use qapi::wire::{envelope_json, Enum, ErrorClass, Execute, Response, Timestamp};

fn read(bytes: &[u8]) -> Json {
    let mut codec = JsonLinesCodec::new();
    let mut buf = bytes.to_vec();
    codec.decode(&mut buf).unwrap().unwrap()
}

fn wire(j: &Json) -> Vec<u8> {
    let mut buf = Vec::new();
    encode(j, &mut buf);
    buf
}

#[test]
fn qga_handshake_accepts_the_same_value() {
    let qga = Qga::new(());
    assert_eq!(wire(&qga.handshake_command(42)), b"{\"execute\":\"guest-sync\",\"arguments\":{\"id\":42}}\n".to_vec());
    let reply = Response::from_json(read(b"{\"return\":42}\n")).unwrap().result();
    assert!(qga.handshake(42, reply).is_ok());
}

#[test]
fn qga_handshake_mismatch_is_invalid_data() {
    let qga = Qga::new(());
    let reply = Response::from_json(read(b"{\"return\":41}\n")).unwrap().result();
    assert!(matches!(qga.handshake(42, reply), Err(SyncError::InvalidData)));
}

#[test]
fn qmp_greeting_enables_oob() {
    let greeting = read(b"{\"QMP\":{\"version\":{\"qemu\":{\"micro\":0,\"minor\":2,\"major\":8},\"package\":\"\"},\"capabilities\":[\"oob\"]}}\n");
    let caps = QapiCapabilities::from_json(greeting).unwrap();
    assert!(caps.supports_oob());
    let enable = caps.capabilities();
    let mut engine = Engine::new(caps.supports_oob());
    let (id, ticket) = match engine.begin_execute() {
        SendDecision::Send { id, ticket } => (id, ticket),
        d => panic!("{:?}", d),
    };
    let cmd = envelope_json("qmp_capabilities".to_string(), negotiation_arguments(&enable), id, false);
    assert_eq!(wire(&cmd), b"{\"execute\":\"qmp_capabilities\",\"arguments\":{\"enable\":[\"oob\"]},\"id\":0}\n".to_vec());
    let res = match QmpMessage::from_json(read(b"{\"return\":{},\"id\":0}\n")).unwrap() {
        QmpMessage::Response(r) => r,
        _ => panic!(),
    };
    assert_eq!(engine.on_response(res.id()), Ok(Some(ticket)));
    assert!(engine.supports_oob());
}

#[test]
fn greeting_without_oob() {
    let caps = QapiCapabilities::from_json(read(b"{\"QMP\":{\"version\":{},\"capabilities\":[]}}\n")).unwrap();
    assert!(!caps.supports_oob());
    assert!(caps.capabilities().is_empty());
}

#[test]
fn oob_reorder_resolves_each_command() {
    let mut engine = Engine::new(true);
    let ta = match engine.begin_execute() { SendDecision::Send { ticket, .. } => ticket, d => panic!("{:?}", d) };
    let tb = match engine.begin_execute() { SendDecision::Send { ticket, .. } => ticket, d => panic!("{:?}", d) };
    let rb = Response::from_json(read(b"{\"return\":\"B\",\"id\":1}\n")).unwrap();
    assert_eq!(engine.on_response(rb.id()), Ok(Some(tb)));
    assert!(matches!(rb.result(), Ok(Json::Str(s)) if s == "B"));
    let ra = Response::from_json(read(b"{\"return\":\"A\",\"id\":0}\n")).unwrap();
    assert_eq!(engine.on_response(ra.id()), Ok(Some(ta)));
    assert!(matches!(ra.result(), Ok(Json::Str(s)) if s == "A"));
}

#[test]
fn error_response_reaches_its_command() {
    let mut engine = Engine::new(true);
    let mut last = 0;
    for _ in 0..6 {
        last = match engine.begin_execute() { SendDecision::Send { ticket, .. } => ticket, d => panic!("{:?}", d) };
    }
    let res = Response::from_json(read(b"{\"error\":{\"class\":\"DeviceNotFound\",\"desc\":\"no such device\"},\"id\":5}\n")).unwrap();
    assert_eq!(engine.on_response(res.id()), Ok(Some(last)));
    match res.result() {
        Err(e) => {
            assert_eq!(e.class, ErrorClass::DeviceNotFound);
            assert_eq!(e.desc, "no such device");
        },
        Ok(_) => panic!("expected an error"),
    }
    assert!(!engine.is_stopped());
}

#[test]
fn events_are_told_from_responses() {
    let ev = QmpMessage::from_json(read(b"{\"event\":\"STOP\",\"data\":{},\"timestamp\":{\"seconds\":1,\"microseconds\":2}}\n")).unwrap();
    let mut qmp = Qmp::new(());
    match &ev {
        QmpMessage::Event(e) => {
            assert_eq!(e.name, "STOP");
            assert_eq!(e.timestamp, Timestamp::new(1, 2));
        },
        _ => panic!(),
    }
    assert!(matches!(qmp.on_message(ev), ReadOutcome::Queued));
    let res = QmpMessage::from_json(read(b"{\"return\":{}}\n")).unwrap();
    assert!(matches!(qmp.on_message(res), ReadOutcome::Done(Ok(_))));
    assert_eq!(qmp.events().len(), 1);
    assert!(qmp.events().is_empty());
    assert!(QmpMessage::from_json(read(b"{\"hello\":1}\n")).is_none());
}

#[test]
fn enum_names_round_trip() {
    for c in [ErrorClass::GenericError, ErrorClass::CommandNotFound, ErrorClass::DeviceNotActive, ErrorClass::DeviceNotFound, ErrorClass::KVMMissingCap] {
        assert_eq!(ErrorClass::from_name(c.name()), Some(c));
    }
    for m in [GuestShutdownMode::Halt, GuestShutdownMode::Powerdown, GuestShutdownMode::Reboot] {
        assert_eq!(GuestShutdownMode::from_name(m.name()), Some(m));
    }
    assert_eq!(ErrorClass::from_name("Nope"), None);
    assert_eq!(GuestShutdownMode::Reboot.discriminant(), 2);
}

#[test]
fn envelope_forms() {
    let e = envelope_json("stop".to_string(), Json::Object(vec![]), Some(3), true);
    assert_eq!(json_to_vec(&e), b"{\"exec-oob\":\"stop\",\"arguments\":{},\"id\":3}".to_vec());
    let x: Execute<u8, u32> = Execute::with_id(1, 9);
    assert_eq!(x.id, Some(9));
    let y: Execute<u8, u32> = Execute::with_command(1);
    assert_eq!(y.id, None);
}

#[test]
fn exec_status_result_and_message() {
    let running = GuestExecStatus { exited: false, exitcode: None, signal: None, out_data: None, err_data: None, out_truncated: None, err_truncated: None };
    assert_eq!(running.message(), "guest process is still running");
    assert!(running.result().is_ok());
    let failed = GuestExecStatus { exited: true, exitcode: Some(2), signal: None, out_data: None, err_data: Some(b"boom".to_vec()), out_truncated: None, err_truncated: None };
    assert_eq!(failed.message(), "guest process exited with code 2: boom");
    assert!(failed.result().is_err());
    let killed = GuestExecStatus { exited: true, exitcode: None, signal: Some(9), out_data: None, err_data: Some(vec![0xff]), out_truncated: None, err_truncated: None };
    assert_eq!(killed.message(), "guest process exited (terminated by signal 9)");
    assert!(killed.result().is_err());
    let ok = GuestExecStatus { exited: true, exitcode: Some(0), signal: None, out_data: None, err_data: None, out_truncated: None, err_truncated: None };
    assert!(ok.result().is_ok());
    assert_eq!(signed_decimal(-45), "-45");
    assert_eq!(signed_decimal(i64::MIN), "-9223372036854775808");
}

#[test]
fn stream_halves() {
    let mut s = Stream::new(1u8, 2u16);
    *s.get_mut_read() += 1;
    *s.get_mut_write() += 1;
    assert_eq!(*s.get_ref_read(), 2);
    assert_eq!(*s.get_ref_write(), 3);
    assert_eq!(s.into_inner(), (2, 3));
    let mut q = Qga::new(5u8);
    *q.inner_mut() = 6;
    assert_eq!(*q.inner(), 6);
    assert_eq!(q.into_inner(), 6);
}

#[test]
fn error_round_trips_through_json() {
    let e = qapi::wire::Error { class: ErrorClass::CommandNotFound, desc: "no such command".to_string(), id: Some(Json::UInt(3)) };
    let j = e.to_json();
    assert_eq!(json_to_vec(&j), b"{\"error\":{\"class\":\"CommandNotFound\",\"desc\":\"no such command\"},\"id\":3}".to_vec());
    match Response::from_json(j).unwrap() {
        Response::Failure(back) => {
            assert_eq!(back.class, ErrorClass::CommandNotFound);
            assert_eq!(back.desc, "no such command");
        },
        _ => panic!(),
    }
    assert_eq!(ErrorClass::CommandNotFound.io_kind(), qapi::wire::IoKind::InvalidInput);
    assert_eq!(ErrorClass::DeviceNotFound.io_kind(), qapi::wire::IoKind::NotFound);
    assert_eq!(ErrorClass::KVMMissingCap.io_kind(), qapi::wire::IoKind::Other);
}

#[test]
fn event_where_response_expected() {
    let ev = QmpMessage::from_json(read(b"{\"event\":\"RESUME\",\"timestamp\":{\"seconds\":5,\"microseconds\":6}}\n")).unwrap();
    match ev.into_response() {
        Err(e) => {
            assert_eq!(e.name, "RESUME");
            assert!(matches!(e.data, Json::Object(ref f) if f.is_empty()));
        },
        Ok(_) => panic!(),
    }
}

#[test]
fn exec_status_from_reply() {
    let j = read(b"{\"exited\":true,\"exitcode\":1,\"err-data\":\"Ym9vbQ==\",\"out-truncated\":false}\n");
    let st = GuestExecStatus::from_json(&j).unwrap();
    assert!(st.exited);
    assert_eq!(st.exitcode, Some(1));
    assert_eq!(st.err_data, Some(b"boom".to_vec()));
    assert_eq!(st.out_truncated, Some(false));
    assert_eq!(st.signal, None);
    assert_eq!(st.message(), "guest process exited with code 1: boom");
    assert!(GuestExecStatus::from_json(&read(b"{\"exited\":true,\"err-data\":\"%%%\"}\n")).is_none());
    assert!(GuestExecStatus::from_json(&read(b"{\"exitcode\":0}\n")).is_none());
}

struct Stop;

impl qapi::wire::Command for Stop {
    fn name(&self) -> String {
        "stop".to_string()
    }

    fn allow_oob(&self) -> bool {
        false
    }

    fn arguments(&self) -> Json {
        Json::Object(Vec::new())
    }
}

#[test]
fn execute_wire_forms() {
    let with_id: Execute<Stop, u32> = Execute::with_id(Stop, 4);
    assert_eq!(json_to_vec(&with_id.to_json(false)), b"{\"execute\":\"stop\",\"arguments\":{},\"id\":4}".to_vec());
    let plain: Execute<Stop, u32> = Execute::with_command(Stop);
    assert_eq!(json_to_vec(&plain.to_json(false)), b"{\"execute\":\"stop\",\"arguments\":{}}".to_vec());
    let oob: Execute<Stop, u32> = Execute::new(Stop, Some(7));
    assert_eq!(json_to_vec(&oob.to_json(true)), b"{\"exec-oob\":\"stop\",\"arguments\":{},\"id\":7}".to_vec());
}
