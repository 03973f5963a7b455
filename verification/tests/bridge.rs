use ejtradermtlib::client::{Functions, RecvOutcome, SendOutcome};
use ejtradermtlib::command::{build_command, Command};
use ejtradermtlib::errors::ClientError;

const ALL_KEYS: [&str; 18] = [
    "actionType",
    "symbol",
    "chartTF",
    "fromDate",
    "toDate",
    "id",
    "magic",
    "volume",
    "price",
    "stoploss",
    "takeprofit",
    "expiration",
    "deviation",
    "comment",
    "chartId",
    "indicatorChartId",
    "chartIndicatorSubWindow",
    "style",
];

#[test]
fn test_command() {
    let command = Command::new(String::from("ACCOUNT"));
    assert_eq!(command.action, "ACCOUNT");
}

#[test]
fn action_only_encodes_exactly_one_field() {
    let functions = Functions::new(String::from("localhost"));
    let command = Command::new(String::from("ACCOUNT"));
    let frame = functions.request_frame(&command);
    assert_eq!(frame, "{\"action\":\"ACCOUNT\"}");
    let value: serde_json::Value = serde_json::from_str(&frame).unwrap();
    let object = value.as_object().unwrap();
    assert_eq!(object.len(), 1);
    assert_eq!(object.get("action").unwrap().as_str().unwrap(), "ACCOUNT");
    for key in ALL_KEYS.iter() {
        assert!(object.get(*key).is_none());
    }
}

#[test]
fn every_parameter_round_trips_exactly() {
    let functions = Functions::new(String::from("localhost"));
    for (n, key) in ALL_KEYS.iter().enumerate() {
        let value = format!("value-{}", n);
        let params = vec![(key.to_string(), value.clone())];
        let frame = functions
            .command_frame(String::from("ORDER"), &params)
            .unwrap();
        let parsed: serde_json::Value = serde_json::from_str(&frame).unwrap();
        let object = parsed.as_object().unwrap();
        assert_eq!(object.len(), 2);
        assert_eq!(object.get("action").unwrap().as_str().unwrap(), "ORDER");
        assert_eq!(object.get(*key).unwrap().as_str().unwrap(), value);
    }
}

#[test]
fn escaped_values_round_trip_exactly() {
    let functions = Functions::new(String::from("localhost"));
    let tricky = "a\"b\\c\nd\te\u{1}f\u{1f}g h\u{e9}i";
    let params = vec![(String::from("comment"), tricky.to_string())];
    let frame = functions
        .command_frame(String::from("ORDER"), &params)
        .unwrap();
    let parsed: serde_json::Value = serde_json::from_str(&frame).unwrap();
    assert_eq!(
        parsed.as_object().unwrap().get("comment").unwrap().as_str().unwrap(),
        tricky
    );
}

#[test]
fn control_characters_use_unicode_escapes() {
    let functions = Functions::new(String::from("localhost"));
    let params = vec![(String::from("comment"), String::from("\u{1}"))];
    let frame = functions
        .command_frame(String::from("ORDER"), &params)
        .unwrap();
    assert_eq!(frame, "{\"action\":\"ORDER\",\"comment\":\"\\u0001\"}");
}

#[test]
fn parameters_keep_schema_order_and_last_value_wins() {
    let params = vec![
        (String::from("symbol"), String::from("EURUSD")),
        (String::from("actionType"), String::from("BUY")),
        (String::from("symbol"), String::from("GBPUSD")),
    ];
    let command = build_command(String::from("ORDER"), &params).unwrap();
    assert_eq!(command.action, "ORDER");
    assert_eq!(command.action_type.as_deref(), Some("BUY"));
    assert_eq!(command.symbol.as_deref(), Some("GBPUSD"));
    let functions = Functions::new(String::from("localhost"));
    let frame = functions.request_frame(&command);
    assert_eq!(
        frame,
        "{\"action\":\"ORDER\",\"actionType\":\"BUY\",\"symbol\":\"GBPUSD\"}"
    );
}

#[test]
fn ok_reply_is_returned_deep_equal() {
    let functions = Functions::new(String::from("localhost"));
    let reply = functions
        .recv_json(RecvOutcome::Text(String::from("{\"status\":\"ok\"}")))
        .unwrap();
    let got: serde_json::Value = serde_json::from_str(&reply).unwrap();
    let expected: serde_json::Value = serde_json::from_str("{\"status\":\"ok\"}").unwrap();
    assert_eq!(got, expected);
}

#[test]
fn silence_is_a_timeout_not_a_hang() {
    let functions = Functions::new(String::from("localhost"));
    assert_eq!(
        functions.recv_json(RecvOutcome::TimedOut),
        Err(ClientError::Timeout)
    );
    assert_eq!(
        functions.ack_result(&RecvOutcome::TimedOut),
        Err(ClientError::Timeout)
    );
    assert_eq!(
        functions.pull_reply(RecvOutcome::TimedOut),
        Err(ClientError::Timeout)
    );
}

#[test]
fn unknown_keyword_is_rejected_with_no_frame() {
    let functions = Functions::new(String::from("localhost"));
    let params = vec![(String::from("bogusField"), String::from("x"))];
    assert_eq!(
        functions.command_frame(String::from("ACCOUNT"), &params),
        Err(ClientError::UnknownParameter)
    );
    assert!(matches!(
        build_command(String::from("ACCOUNT"), &params),
        Err(ClientError::UnknownParameter)
    ));
}

#[test]
fn sequential_calls_produce_distinct_frames_in_order() {
    let functions = Functions::new(String::from("localhost"));
    let first = functions.request_frame(&Command::new(String::from("ACCOUNT")));
    let second = functions.request_frame(&Command::new(String::from("ORDER")));
    assert_ne!(first, second);
    assert_eq!(first, "{\"action\":\"ACCOUNT\"}");
    assert_eq!(second, "{\"action\":\"ORDER\"}");
}

#[test]
fn acknowledgement_must_read_ok() {
    let functions = Functions::new(String::from("localhost"));
    assert_eq!(functions.ack_result(&RecvOutcome::Text(String::from("OK"))), Ok(()));
    assert_eq!(
        functions.ack_result(&RecvOutcome::Text(String::from("NO"))),
        Err(ClientError::Transport)
    );
    assert_eq!(
        functions.ack_result(&RecvOutcome::NotUtf8),
        Err(ClientError::Decoding)
    );
    assert_eq!(
        functions.ack_result(&RecvOutcome::Fault),
        Err(ClientError::Transport)
    );
}

#[test]
fn bad_reply_bytes_cannot_be_decoded() {
    let functions = Functions::new(String::from("localhost"));
    assert_eq!(
        functions.recv_json(RecvOutcome::Text(String::from("not json"))),
        Err(ClientError::Decoding)
    );
    assert_eq!(
        functions.recv_json(RecvOutcome::NotUtf8),
        Err(ClientError::Decoding)
    );
    assert_eq!(
        functions.recv_json(RecvOutcome::Fault),
        Err(ClientError::Transport)
    );
    assert_eq!(
        functions.recv_json(RecvOutcome::Text(String::from("{}"))),
        Ok(String::from("{}"))
    );
}

#[test]
fn send_faults_are_transport_errors() {
    let functions = Functions::new(String::from("localhost"));
    assert_eq!(functions.send_result(&SendOutcome::Sent), Ok(()));
    assert_eq!(
        functions.send_result(&SendOutcome::TimedOut),
        Err(ClientError::Transport)
    );
    assert_eq!(
        functions.send_result(&SendOutcome::Fault),
        Err(ClientError::Transport)
    );
}

#[test]
fn endpoints_use_fixed_distinct_ports() {
    let functions = Functions::new(String::from("192.168.1.153"));
    assert_eq!(functions.request_endpoint(), "tcp://192.168.1.153:15555");
    assert_eq!(functions.data_endpoint(), "tcp://192.168.1.153:15556");
    assert_eq!(functions.timeout_ms, 60000);
}

#[test]
fn connect_rejects_one_shared_port() {
    assert!(matches!(
        Functions::connect(String::from("localhost"), 7000, 7000, 100),
        Err(ClientError::Connection)
    ));
    let functions = Functions::connect(String::from("localhost"), 7000, 7001, 100).unwrap();
    assert_eq!(functions.request_endpoint(), "tcp://localhost:7000");
    assert_eq!(functions.data_endpoint(), "tcp://localhost:7001");
    assert_eq!(functions.timeout_ms, 100);
}

#[test]
fn default_command_is_empty() {
    let command = Command::default();
    assert_eq!(command.action, "");
    assert!(command.symbol.is_none());
    assert!(command.style.is_none());
}

#[test]
fn error_messages_name_the_failure() {
    assert_eq!(
        ClientError::Timeout.message(),
        "no reply within the configured timeout"
    );
    assert_eq!(
        ClientError::Connection.message(),
        "failed to create or connect a socket"
    );
}

#[test]
fn encoded_frames_are_valid_json_replies() {
    let functions = Functions::new(String::from("localhost"));
    let params = vec![
        (String::from("comment"), String::from("q\"uo\\te\u{2}")),
        (String::from("symbol"), String::from("EURUSD")),
    ];
    let frame = functions
        .command_frame(String::from("ORDER"), &params)
        .unwrap();
    let echoed = functions.recv_json(RecvOutcome::Text(frame.clone()));
    assert_eq!(echoed, Ok(frame));
}

#[test]
fn pull_reply_matches_recv_json_on_every_outcome() {
    let functions = Functions::new(String::from("localhost"));
    assert_eq!(
        functions.pull_reply(RecvOutcome::Text(String::from("{\"status\":\"ok\"}"))),
        Ok(String::from("{\"status\":\"ok\"}"))
    );
    assert_eq!(
        functions.pull_reply(RecvOutcome::Text(String::from("not json"))),
        Err(ClientError::Decoding)
    );
    assert_eq!(
        functions.pull_reply(RecvOutcome::NotUtf8),
        Err(ClientError::Decoding)
    );
    assert_eq!(
        functions.pull_reply(RecvOutcome::Fault),
        Err(ClientError::Transport)
    );
}
