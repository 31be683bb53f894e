use scribec::call::Method;
use scribec::client::{ScribeClient, State, DEFAULT_MAX_FRAME_SIZE};
use scribec::frame::read_frame;
use scribec::inbound::decode_log_call;
use scribec::model::{render_status, ClientError, LogEntry, ResultCode, ServiceStatus};
use scribec::reply::{decode_reply, Reply};
use thrift::protocol::{
    TBinaryOutputProtocol, TFieldIdentifier, TMapIdentifier, TMessageIdentifier, TMessageType,
    TOutputProtocol, TStructIdentifier, TType,
};
use thrift::{ApplicationError, ApplicationErrorKind};

fn begin<'a>(
    buf: &'a mut Vec<u8>,
    name: &str,
    kind: TMessageType,
    seq: i32,
) -> TBinaryOutputProtocol<&'a mut Vec<u8>> {
    let mut o = TBinaryOutputProtocol::new(buf, true);
    o.write_message_begin(&TMessageIdentifier::new(name, kind, seq)).unwrap();
    o
}

fn finish(mut o: TBinaryOutputProtocol<&mut Vec<u8>>) {
    o.write_field_stop().unwrap();
    o.write_struct_end().unwrap();
    o.write_message_end().unwrap();
    o.flush().unwrap();
}

fn i32_reply(name: &str, seq: i32, value: i32) -> Vec<u8> {
    let mut buf = Vec::new();
    let mut o = begin(&mut buf, name, TMessageType::Reply, seq);
    o.write_struct_begin(&TStructIdentifier::new("result")).unwrap();
    o.write_field_begin(&TFieldIdentifier::new("success", TType::I32, 0i16)).unwrap();
    o.write_i32(value).unwrap();
    o.write_field_end().unwrap();
    finish(o);
    buf
}

fn i64_reply(name: &str, seq: i32, value: i64) -> Vec<u8> {
    let mut buf = Vec::new();
    let mut o = begin(&mut buf, name, TMessageType::Reply, seq);
    o.write_struct_begin(&TStructIdentifier::new("result")).unwrap();
    o.write_field_begin(&TFieldIdentifier::new("success", TType::I64, 0i16)).unwrap();
    o.write_i64(value).unwrap();
    o.write_field_end().unwrap();
    finish(o);
    buf
}

fn text_reply(name: &str, seq: i32, value: &str) -> Vec<u8> {
    let mut buf = Vec::new();
    let mut o = begin(&mut buf, name, TMessageType::Reply, seq);
    o.write_struct_begin(&TStructIdentifier::new("result")).unwrap();
    o.write_field_begin(&TFieldIdentifier::new("success", TType::String, 0i16)).unwrap();
    o.write_string(value).unwrap();
    o.write_field_end().unwrap();
    finish(o);
    buf
}

fn counters_reply(seq: i32, entries: &[(&str, i64)]) -> Vec<u8> {
    let mut buf = Vec::new();
    let mut o = begin(&mut buf, "getCounters", TMessageType::Reply, seq);
    o.write_struct_begin(&TStructIdentifier::new("result")).unwrap();
    o.write_field_begin(&TFieldIdentifier::new("success", TType::Map, 0i16)).unwrap();
    o.write_map_begin(&TMapIdentifier::new(TType::String, TType::I64, entries.len() as i32))
        .unwrap();
    for (k, v) in entries {
        o.write_string(k).unwrap();
        o.write_i64(*v).unwrap();
    }
    o.write_map_end().unwrap();
    o.write_field_end().unwrap();
    finish(o);
    buf
}

fn fault_reply(name: &str, seq: i32, kind: ApplicationErrorKind, message: &str) -> Vec<u8> {
    let mut buf = Vec::new();
    {
        let mut o = begin(&mut buf, name, TMessageType::Exception, seq);
        thrift::Error::write_application_error_to_out_protocol(
            &ApplicationError::new(kind, message),
            &mut o,
        )
        .unwrap();
        o.write_message_end().unwrap();
        o.flush().unwrap();
    }
    buf
}

fn client() -> ScribeClient {
    ScribeClient::new(String::from("localhost"), 1463)
}

fn one_entry() -> Vec<LogEntry> {
    vec![LogEntry { category: Some(String::from("test")), message: Some(String::from("hello\n")) }]
}

#[test]
fn new_client_is_ready() {
    let c = client();
    assert_eq!(c.host(), "localhost");
    assert_eq!(c.port(), 1463);
    assert_eq!(c.state(), State::Ready);
    assert_eq!(c.last_seq(), 0);
    assert_eq!(c.max_frame_size(), DEFAULT_MAX_FRAME_SIZE);
    assert_eq!(DEFAULT_MAX_FRAME_SIZE, 16_384_000);
}

#[test]
fn log_against_a_collector_that_accepts() {
    let mut c = client();
    let frame = c.log(one_entry()).unwrap();
    assert_eq!(c.state(), State::Awaiting(Method::Log));
    assert_eq!(c.last_seq(), 1);
    // what the collector sees
    let payload = read_frame(&frame, DEFAULT_MAX_FRAME_SIZE).unwrap();
    let (seq, entries) = decode_log_call(&payload).unwrap();
    assert_eq!(seq, 1);
    assert_eq!(entries.len(), 1);
    assert_eq!(entries[0].category.as_deref(), Some("test"));
    assert_eq!(entries[0].message.as_deref(), Some("hello\n"));
    // what it answers
    let answer = i32_reply("Log", seq, 0);
    assert_eq!(c.expect_frame(&(answer.len() as u32).to_be_bytes()).unwrap(), answer.len());
    match c.reply(&answer) {
        Ok(Reply::Code(code)) => assert_eq!(code, ResultCode::OK),
        other => panic!("unexpected {:?}", other),
    }
    assert_eq!(c.state(), State::Ready);
}

#[test]
fn log_try_later_is_a_value() {
    let mut c = client();
    c.log(one_entry()).unwrap();
    match c.reply(&i32_reply("Log", 1, 1)) {
        Ok(Reply::Code(code)) => assert_eq!(code, ResultCode::TRY_LATER),
        other => panic!("unexpected {:?}", other),
    }
    assert_eq!(c.state(), State::Ready);
}

#[test]
fn log_with_an_unknown_result_code() {
    let mut c = client();
    c.log(one_entry()).unwrap();
    assert!(matches!(c.reply(&i32_reply("Log", 1, 2)), Err(ClientError::Protocol)));
    assert_eq!(c.state(), State::Broken);
}

#[test]
fn a_batch_is_one_frame() {
    let mut c = client();
    let batch: Vec<LogEntry> = (0..50)
        .map(|i| LogEntry { category: Some(String::from("c")), message: Some(format!("m{}", i)) })
        .collect();
    let frame = c.log(batch).unwrap();
    let payload = read_frame(&frame, DEFAULT_MAX_FRAME_SIZE).unwrap();
    assert_eq!(payload.len() + 4, frame.len());
    let (_, entries) = decode_log_call(&payload).unwrap();
    assert_eq!(entries.len(), 50);
    assert_eq!(entries[49].message.as_deref(), Some("m49"));
}

#[test]
fn counters_snapshot() {
    let mut c = client();
    c.get_counters().unwrap();
    match c.reply(&counters_reply(1, &[("calls", 42), ("errors", 0)])) {
        Ok(Reply::Counters(v)) => {
            assert_eq!(v, vec![(String::from("calls"), 42i64), (String::from("errors"), 0i64)]);
        }
        other => panic!("unexpected {:?}", other),
    }
}

#[test]
fn counters_may_be_empty_or_negative() {
    match decode_reply(&counters_reply(3, &[]), Method::GetCounters, 3) {
        Ok(Reply::Counters(v)) => assert!(v.is_empty()),
        other => panic!("unexpected {:?}", other),
    }
    match decode_reply(&counters_reply(3, &[("x", -5), ("y", i64::MIN)]), Method::GetCounters, 3) {
        Ok(Reply::Counters(v)) => {
            assert_eq!(v, vec![(String::from("x"), -5i64), (String::from("y"), i64::MIN)]);
        }
        other => panic!("unexpected {:?}", other),
    }
}

#[test]
fn counters_come_out_ordered_by_key() {
    let sent = [("zeta", 1), ("alpha", 2), ("mid", 3), ("alpha", 7), ("", 9), ("alpha2", 4)];
    match decode_reply(&counters_reply(3, &sent), Method::GetCounters, 3) {
        Ok(Reply::Counters(v)) => {
            let expected: Vec<(String, i64)> =
                [("", 9i64), ("alpha", 7), ("alpha2", 4), ("mid", 3), ("zeta", 1)]
                    .iter()
                    .map(|(k, n)| (k.to_string(), *n))
                    .collect();
            assert_eq!(v, expected);
            let as_map: std::collections::BTreeMap<String, i64> =
                sent.iter().map(|(k, n)| (k.to_string(), *n)).collect();
            assert_eq!(v, as_map.into_iter().collect::<Vec<_>>());
        }
        other => panic!("unexpected {:?}", other),
    }
}

#[test]
fn counters_cut_short() {
    let mut bytes = counters_reply(3, &[("x", 1)]);
    let n = bytes.len();
    bytes.truncate(n - 3);
    assert!(matches!(decode_reply(&bytes, Method::GetCounters, 3), Err(ClientError::Protocol)));
}

#[test]
fn status_alive_renders_with_and_without_detail() {
    let mut c = client();
    c.get_status().unwrap();
    let status = match c.reply(&i32_reply("getStatus", 1, 2)) {
        Ok(Reply::Status(s)) => s,
        other => panic!("unexpected {:?}", other),
    };
    assert_eq!(status, ServiceStatus::ALIVE);
    c.get_status_details().unwrap();
    let details = match c.reply(&text_reply("getStatusDetails", 2, "")) {
        Ok(Reply::Text(t)) => t,
        other => panic!("unexpected {:?}", other),
    };
    assert_eq!(render_status(status, &details), "ALIVE");
    c.get_status_details().unwrap();
    let details = match c.reply(&text_reply("getStatusDetails", 3, "ok")) {
        Ok(Reply::Text(t)) => t,
        other => panic!("unexpected {:?}", other),
    };
    assert_eq!(render_status(status, &details), "ALIVE - ok");
}

#[test]
fn unknown_status_code_is_not_an_error() {
    for code in [6, 99, -1, i32::MIN, i32::MAX] {
        let mut c = client();
        c.get_status().unwrap();
        match c.reply(&i32_reply("getStatus", 1, code)) {
            Ok(Reply::Status(s)) => assert_eq!(s, ServiceStatus::UNKNOWN(code)),
            other => panic!("unexpected {:?}", other),
        }
        assert_eq!(c.state(), State::Ready);
    }
}

#[test]
fn name_version_and_uptime() {
    let mut c = client();
    c.get_name().unwrap();
    assert!(matches!(c.reply(&text_reply("getName", 1, "scribe")), Ok(Reply::Text(t)) if t == "scribe"));
    c.get_version().unwrap();
    assert!(matches!(c.reply(&text_reply("getVersion", 2, "2.2")), Ok(Reply::Text(t)) if t == "2.2"));
    c.alive_since().unwrap();
    assert!(matches!(c.reply(&i64_reply("aliveSince", 3, 1_300_000_000)), Ok(Reply::Since(1_300_000_000))));
    c.alive_since().unwrap();
    assert!(matches!(c.reply(&i64_reply("aliveSince", 4, -1)), Ok(Reply::Since(-1))));
    assert_eq!(c.last_seq(), 4);
}

#[test]
fn mismatched_sequence_id_is_a_protocol_failure() {
    let mut c = client();
    c.get_name().unwrap();
    assert!(matches!(c.reply(&text_reply("getName", 2, "scribe")), Err(ClientError::Protocol)));
    assert_eq!(c.state(), State::Broken);
    assert!(matches!(c.get_name(), Err(ClientError::Connection)));
    assert!(matches!(
        decode_reply(&i32_reply("Log", 7, 0), Method::Log, 8),
        Err(ClientError::Protocol)
    ));
    assert!(matches!(decode_reply(&i32_reply("Log", 8, 0), Method::Log, 8), Ok(Reply::Code(ResultCode::OK))));
}

#[test]
fn reply_for_another_method_is_a_protocol_failure() {
    assert!(matches!(
        decode_reply(&text_reply("getVersion", 1, "x"), Method::GetName, 1),
        Err(ClientError::Protocol)
    ));
    assert!(matches!(
        decode_reply(&text_reply("getName", 1, "x"), Method::GetName, 1),
        Ok(Reply::Text(_))
    ));
}

#[test]
fn reply_of_another_type_is_a_protocol_failure() {
    assert!(matches!(
        decode_reply(&text_reply("getStatus", 1, "x"), Method::GetStatus, 1),
        Err(ClientError::Protocol)
    ));
    assert!(matches!(
        decode_reply(&i32_reply("aliveSince", 1, 5), Method::AliveSince, 1),
        Err(ClientError::Protocol)
    ));
}

#[test]
fn unknown_message_kind_is_a_protocol_failure() {
    let mut bytes = i32_reply("Log", 1, 0);
    bytes[3] = 9;
    assert!(matches!(decode_reply(&bytes, Method::Log, 1), Err(ClientError::Protocol)));
    bytes[3] = 1;
    assert!(matches!(decode_reply(&bytes, Method::Log, 1), Err(ClientError::Protocol)));
    bytes[0] = 0x7f;
    assert!(matches!(decode_reply(&bytes, Method::Log, 1), Err(ClientError::Protocol)));
    assert!(matches!(decode_reply(&[], Method::Log, 1), Err(ClientError::Protocol)));
}

#[test]
fn remote_fault_is_reported_and_leaves_the_connection_ready() {
    let mut c = client();
    c.log(one_entry()).unwrap();
    let answer = fault_reply("Log", 1, ApplicationErrorKind::InternalError, "boom");
    match c.reply(&answer) {
        Err(ClientError::RemoteService { message, code }) => {
            assert_eq!(message.as_deref(), Some("boom"));
            assert_eq!(code, Some(6));
        }
        other => panic!("unexpected {:?}", other),
    }
    assert_eq!(c.state(), State::Ready);
    assert!(c.get_name().is_ok());
    assert_eq!(c.last_seq(), 2);
}

#[test]
fn calls_are_one_at_a_time() {
    let mut c = client();
    c.get_name().unwrap();
    assert!(matches!(c.get_version(), Err(ClientError::Connection)));
    assert!(matches!(c.log(one_entry()), Err(ClientError::Connection)));
    assert_eq!(c.state(), State::Awaiting(Method::GetName));
    assert_eq!(c.last_seq(), 1);
}

#[test]
fn reply_without_a_call_is_refused() {
    let mut c = client();
    assert!(matches!(c.reply(&i32_reply("Log", 0, 0)), Err(ClientError::Connection)));
    assert!(matches!(c.expect_frame(&[0, 0, 0, 1]), Err(ClientError::Connection)));
    assert_eq!(c.state(), State::Ready);
}

#[test]
fn transport_failure_breaks_the_connection() {
    let mut c = client();
    c.get_name().unwrap();
    assert!(matches!(c.transport_failed(), ClientError::Io));
    assert_eq!(c.state(), State::Broken);
    assert!(matches!(c.get_name(), Err(ClientError::Connection)));
    assert!(matches!(c.reply(&text_reply("getName", 1, "x")), Err(ClientError::Connection)));
}

#[test]
fn oversized_reply_breaks_the_connection() {
    let mut c = client();
    c.set_max_frame_size(64);
    c.get_name().unwrap();
    assert!(matches!(c.expect_frame(&[0, 0, 0, 65]), Err(ClientError::Protocol)));
    assert_eq!(c.state(), State::Broken);
    let mut d = client();
    d.set_max_frame_size(64);
    d.get_name().unwrap();
    assert_eq!(d.expect_frame(&[0, 0, 0, 64]).unwrap(), 64);
    assert_eq!(d.state(), State::Awaiting(Method::GetName));
    let mut e = client();
    e.get_name().unwrap();
    assert!(matches!(e.expect_frame(&[0, 0]), Err(ClientError::Io)));
    assert_eq!(e.state(), State::Broken);
}

#[test]
fn oversized_request_is_refused_before_it_goes_out() {
    let mut c = client();
    c.set_max_frame_size(40);
    assert!(matches!(c.log(one_entry()), Err(ClientError::Protocol)));
    assert_eq!(c.state(), State::Ready);
    assert_eq!(c.last_seq(), 0);
    assert!(c.get_status_details().is_ok());
    let mut d = client();
    d.set_max_frame_size(28);
    assert!(matches!(d.get_status_details(), Err(ClientError::Protocol)));
    assert!(d.get_name().is_ok());
}

#[test]
fn sequence_ids_count_up() {
    let mut c = client();
    for expected in 1..=5 {
        c.get_name().unwrap();
        assert_eq!(c.last_seq(), expected);
        assert!(c.reply(&text_reply("getName", expected, "n")).is_ok());
    }
}
