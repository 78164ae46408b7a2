use dap::{
    AdapterError, BaseMessage, Command, DAPMessage, DeserializationError, Event, Request, Response,
    ResponseBody, ResponseMessage, ReverseRequest, Sendable,
};

fn json_of(message: &BaseMessage) -> String {
    String::from_utf8(message.to_json()).unwrap()
}

fn initialized() -> Event {
    Event { event: "initialized".to_string(), body: None }
}

#[test]
fn base_message_test_message_serialize() {
    let message = BaseMessage { seq: 10, message: Sendable::Event(initialized()) };
    let json = json_of(&message);

    let expected = "{\"seq\":10,\"type\":\"event\",\"event\":\"initialized\"}";
    assert_eq!(json, expected);
}

#[test]
fn protocol_message_test_message_serialize() {
    let message = DAPMessage { seq: 10, message: Sendable::Event(initialized()) };
    let json = json_of(&message);

    let expected = "{\"seq\":10,\"type\":\"event\",\"event\":\"initialized\"}";
    assert_eq!(json, expected);
}

#[test]
fn event_with_body() {
    let event = Event {
        event: "output".to_string(),
        body: Some("{\"output\":\"hi\"}".to_string()),
    };
    let message = BaseMessage { seq: 3, message: Sendable::Event(event) };
    assert_eq!(
        json_of(&message),
        "{\"seq\":3,\"type\":\"event\",\"event\":\"output\",\"body\":{\"output\":\"hi\"}}"
    );
}

#[test]
fn response_acknowledging_a_command() {
    let response = Response {
        request_seq: 7,
        success: true,
        message: None,
        body: Some(ResponseBody::Ack(Command::Next)),
    };
    let message = BaseMessage { seq: 2, message: Sendable::Response(response) };
    assert_eq!(
        json_of(&message),
        "{\"seq\":2,\"type\":\"response\",\"request_seq\":7,\"success\":true,\"command\":\"next\"}"
    );
}

#[test]
fn response_with_body() {
    let response = Response {
        request_seq: 1,
        success: true,
        message: None,
        body: Some(ResponseBody::Body(Command::Threads, "{\"threads\":[]}".to_string())),
    };
    let message = BaseMessage { seq: 5, message: Sendable::Response(response) };
    assert_eq!(
        json_of(&message),
        "{\"seq\":5,\"type\":\"response\",\"request_seq\":1,\"success\":true,\"command\":\"threads\",\"body\":{\"threads\":[]}}"
    );
}

#[test]
fn failed_response_escapes_its_message() {
    let response = Response {
        request_seq: -1,
        success: false,
        message: Some(ResponseMessage::Error("bad \"x\"\\\n\t\u{1f}é".to_string())),
        body: None,
    };
    let message = BaseMessage { seq: 1, message: Sendable::Response(response) };
    let json = json_of(&message);
    assert_eq!(
        json,
        "{\"seq\":1,\"type\":\"response\",\"request_seq\":-1,\"success\":false,\"message\":\"bad \\\"x\\\"\\\\\\n\\t\\u001fé\"}"
    );
    let value: serde_json::Value = serde_json::from_str(&json).unwrap();
    assert_eq!(value["message"], "bad \"x\"\\\n\t\u{1f}é");
}

#[test]
fn cancelled_response() {
    let response = Response {
        request_seq: 4,
        success: false,
        message: Some(ResponseMessage::Cancelled),
        body: Some(ResponseBody::Ack(Command::Pause)),
    };
    let message = BaseMessage { seq: 9, message: Sendable::Response(response) };
    assert_eq!(
        json_of(&message),
        "{\"seq\":9,\"type\":\"response\",\"request_seq\":4,\"success\":false,\"message\":\"cancelled\",\"command\":\"pause\"}"
    );
}

#[test]
fn reverse_request_with_arguments() {
    let request = ReverseRequest {
        command: "runInTerminal".to_string(),
        arguments: Some("{\"args\":[\"ls\"]}".to_string()),
    };
    let message = BaseMessage { seq: 12, message: Sendable::ReverseRequest(request) };
    assert_eq!(
        json_of(&message),
        "{\"seq\":12,\"type\":\"request\",\"command\":\"runInTerminal\",\"arguments\":{\"args\":[\"ls\"]}}"
    );
}

#[test]
fn command_tags_round_trip() {
    for c in [Command::Attach, Command::SetBreakpoints, Command::WriteMemory, Command::Next] {
        assert_eq!(Command::from_tag(c.tag()).unwrap(), c);
    }
    assert_eq!(Command::from_tag("configurationDone").unwrap(), Command::ConfigurationDone);
}

#[test]
fn unknown_command_tag_is_refused() {
    match Command::from_tag("fly") {
        Err(DeserializationError::StringToEnumParseError { enum_name, value }) => {
            assert_eq!(enum_name, "Command");
            assert_eq!(value, "fly");
        }
        other => panic!("unexpected {:?}", other),
    }
    assert!(Command::from_tag("Next").is_err());
}

#[test]
fn request_from_parts() {
    let request = Request::from_parts(4, "request", "scopes", Some("{\"frameId\":1}".to_string())).unwrap();
    assert_eq!(request.seq, 4);
    assert_eq!(request.command, Command::Scopes);
    assert_eq!(request.arguments.as_deref(), Some("{\"frameId\":1}"));

    match Request::from_parts(4, "event", "scopes", None) {
        Err(DeserializationError::StringToEnumParseError { enum_name, value }) => {
            assert_eq!(enum_name, "type");
            assert_eq!(value, "event");
        }
        other => panic!("unexpected {:?}", other),
    }
}

#[test]
fn acknowledgement_only_for_commands_without_body() {
    let next = Request::from_parts(3, "request", "next", None).unwrap();
    let response = Response::make_ack(&next).unwrap();
    assert_eq!(response.request_seq, 3);
    assert!(response.success);
    assert!(response.message.is_none());
    assert!(matches!(response.body, Some(ResponseBody::Ack(Command::Next))));

    let threads = Request::from_parts(4, "request", "threads", None).unwrap();
    assert!(matches!(Response::make_ack(&threads), Err(AdapterError::ResponseConstructError)));
    assert!(Command::Threads.needs_body());
    assert!(!Command::Disconnect.needs_body());
}

#[test]
fn response_builders() {
    let request = Request::from_parts(6, "request", "evaluate", None).unwrap();
    let ok = request.success("{\"result\":\"2\"}".to_string());
    let message = BaseMessage { seq: 1, message: Sendable::Response(ok) };
    assert_eq!(
        json_of(&message),
        "{\"seq\":1,\"type\":\"response\",\"request_seq\":6,\"success\":true,\"command\":\"evaluate\",\"body\":{\"result\":\"2\"}}"
    );
    let failed = request.error("no such variable".to_string());
    let message = BaseMessage { seq: 2, message: Sendable::Response(failed) };
    assert_eq!(
        json_of(&message),
        "{\"seq\":2,\"type\":\"response\",\"request_seq\":6,\"success\":false,\"message\":\"no such variable\",\"command\":\"evaluate\"}"
    );
    let empty = Response::empty();
    assert!(matches!(empty.body, Some(ResponseBody::Empty)));
    let message = BaseMessage { seq: 3, message: Sendable::Response(empty) };
    assert_eq!(
        json_of(&message),
        "{\"seq\":3,\"type\":\"response\",\"request_seq\":0,\"success\":true}"
    );
}
