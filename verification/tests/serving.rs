use service_gateway::gateway::{register_reply, GatewayServiceImpl, StreamAction, StreamEvent};
use service_gateway::metadata::{inspect_metadata, report, MetadataReport};
use service_gateway::router::Router;
use service_gateway::text::join;
use service_gateway::types::{
    HealthCheckRequest, Message, RegisterResponse, ServiceInfo, CODE_NOT_FOUND,
};

fn service(id: &str) -> ServiceInfo {
    ServiceInfo {
        service_id: id.to_string(),
        service_name: "Accounts".to_string(),
        service_addr: "10.0.0.1:80".to_string(),
        commands: vec!["login".to_string()],
        health_check_interval_sec: 5,
    }
}

fn message(cmd: &str, metadata: &str) -> Message {
    Message {
        source_service: "web".to_string(),
        target_service: String::new(),
        cmd: cmd.to_string(),
        user_id: "u1".to_string(),
        metadata: metadata.to_string(),
        extra: Vec::new(),
    }
}

fn gateway_with(id: &str, client: u64) -> GatewayServiceImpl {
    let mut gateway = GatewayServiceImpl::new(Router::new());
    let info = service(id);
    let start = gateway.register(&info);
    assert_eq!(start.endpoint, "http://10.0.0.1:80");
    gateway.router_mut().complete_registration(&info, Ok(client));
    gateway
}

fn ask(gateway: &GatewayServiceImpl, id: &str) -> (i32, String) {
    let response = gateway.health_check(HealthCheckRequest { service_id: id.to_string() });
    (response.status, response.message)
}

#[test]
fn health_answers() {
    let mut gateway = gateway_with("acc", 1);
    assert_eq!(ask(&gateway, "other"), (3, "Service other not registered".to_string()));
    assert_eq!(ask(&gateway, "acc"), (1, "Service acc is healthy".to_string()));
    gateway.router_mut().complete_health_check("acc", None);
    assert_eq!(ask(&gateway, "acc"), (2, "Service acc is not healthy".to_string()));
    gateway.register(&service("new"));
    assert_eq!(ask(&gateway, "new"), (2, "Service new is not healthy".to_string()));
    assert!(gateway.router().is_registered("new"));
}

#[test]
fn metadata_has_no_part_in_the_route() {
    let mut gateway = gateway_with("acc", 4);
    for metadata in ["", "{\"a\":1}", "no json"] {
        let dispatch = gateway.forward(message("login", metadata)).dispatch.unwrap();
        assert_eq!(dispatch.client, 4);
        assert_eq!(dispatch.message.target_service, "acc");
        assert_eq!(dispatch.message.metadata, metadata);
        let refusal = gateway.forward(message("unknown", metadata)).dispatch.unwrap_err();
        assert_eq!(refusal.code, CODE_NOT_FOUND);
    }
}

#[test]
fn metadata_is_absent_where_the_text_is_empty() {
    let mut gateway = gateway_with("acc", 4);
    assert!(matches!(gateway.forward(message("login", "")).metadata, MetadataReport::Absent));
    assert!(matches!(inspect_metadata(""), MetadataReport::Absent));
    assert!(matches!(inspect_metadata(" "), MetadataReport::Malformed(_)));
}

#[test]
fn metadata_members_are_listed() {
    match inspect_metadata("{\"b\": [1, 2 ], \"a\": \"x\", \"b\": null}") {
        MetadataReport::Parsed(mut entries) => {
            entries.sort();
            assert_eq!(
                entries,
                vec![
                    ("a".to_string(), "\"x\"".to_string()),
                    ("b".to_string(), "null".to_string()),
                ]
            );
        }
        other => panic!("not parsed: {:?}", other),
    }
    match inspect_metadata("{}") {
        MetadataReport::Parsed(entries) => assert!(entries.is_empty()),
        other => panic!("not parsed: {:?}", other),
    }
}

#[test]
fn malformed_metadata_is_reported() {
    match inspect_metadata("{\"a\":") {
        MetadataReport::Malformed(text) => {
            assert_eq!(text, "EOF while parsing a value at line 1 column 5")
        }
        other => panic!("not refused: {:?}", other),
    }
    assert!(matches!(inspect_metadata("[1]"), MetadataReport::Malformed(_)));
    assert!(matches!(report(Err("why".to_string())), MetadataReport::Malformed(text) if text == "why"));
    assert!(matches!(report(Ok(vec![])), MetadataReport::Parsed(entries) if entries.is_empty()));
}

#[test]
fn registration_replies() {
    let response = RegisterResponse { success: true, message: "fine".to_string() };
    let reply = register_reply(Ok(response));
    assert!(reply.success);
    assert_eq!(reply.message, "fine");
    let reply = register_reply(Err("no room".to_string()));
    assert!(!reply.success);
    assert_eq!(reply.message, "Registration failed: no room");
}

#[test]
fn stream_ids_are_random_uuids() {
    let mut gateway = GatewayServiceImpl::new(Router::new());
    let first = gateway.stream(1).stream_id;
    let second = gateway.stream(2).stream_id;
    assert_ne!(first, second);
    for id in [first, second] {
        assert_eq!(id.chars().count(), 36);
        for (i, c) in id.chars().enumerate() {
            match i {
                8 | 13 | 18 | 23 => assert_eq!(c, '-'),
                14 => assert_eq!(c, '4'),
                19 => assert!("89ab".contains(c)),
                _ => assert!("0123456789abcdef".contains(c)),
            }
        }
    }
}

#[test]
fn stream_runs_until_it_ends() {
    let mut gateway = GatewayServiceImpl::new(Router::new());
    let opened = gateway.stream(11);
    assert_eq!(opened.displaced, None);
    let id = opened.stream_id.as_str();
    match gateway.stream_event::<Result<u8, u8>>(id, StreamEvent::Received(message("login", ""))) {
        StreamAction::Forward(msg) => assert_eq!(msg.cmd, "login"),
        other => panic!("not forwarded: {:?}", other),
    }
    assert!(matches!(
        gateway.stream_event::<Result<u8, u8>>(id, StreamEvent::Replied(Ok(1))),
        StreamAction::Send(Ok(1))
    ));
    assert!(matches!(
        gateway.stream_event::<Result<u8, u8>>(id, StreamEvent::Replied(Err(2))),
        StreamAction::Send(Err(2))
    ));
    assert!(matches!(
        gateway.stream_event::<Result<u8, u8>>(id, StreamEvent::Sent),
        StreamAction::Receive
    ));
    assert!(matches!(
        gateway.stream_event::<Result<u8, u8>>(id, StreamEvent::Ended),
        StreamAction::Close(Some(11))
    ));
    assert!(matches!(
        gateway.stream_event::<Result<u8, u8>>(id, StreamEvent::Ended),
        StreamAction::Close(None)
    ));
}

#[test]
fn failures_close_a_stream() {
    let mut gateway = GatewayServiceImpl::new(Router::new());
    assert_eq!(gateway.attach_stream("s", 1), None);
    assert_eq!(gateway.attach_stream("s", 2), Some(1));
    assert_eq!(gateway.attach_stream("t", 3), None);
    assert!(matches!(
        gateway.stream_event::<u8>("s", StreamEvent::ReceiveFailed),
        StreamAction::Close(Some(2))
    ));
    assert!(matches!(
        gateway.stream_event::<u8>("t", StreamEvent::SendFailed),
        StreamAction::Close(Some(3))
    ));
    assert_eq!(gateway.attach_stream("t", 4), None);
}

#[test]
fn table_holds_the_open_streams() {
    let mut gateway = GatewayServiceImpl::new(Router::new());
    let ids: Vec<String> = (0..4).map(|sender| gateway.stream(sender).stream_id).collect();
    // Closing one stream leaves the others open.
    assert!(matches!(
        gateway.stream_event::<u8>(&ids[1], StreamEvent::Ended),
        StreamAction::Close(Some(1))
    ));
    assert!(matches!(
        gateway.stream_event::<u8>(&ids[1], StreamEvent::Ended),
        StreamAction::Close(None)
    ));
    for (sender, id) in [(0, &ids[0]), (2, &ids[2]), (3, &ids[3])] {
        assert!(matches!(
            gateway.stream_event::<u8>(id, StreamEvent::Sent),
            StreamAction::Receive
        ));
        assert!(matches!(
            gateway.stream_event::<u8>(id, StreamEvent::SendFailed),
            StreamAction::Close(Some(closed)) if closed == sender
        ));
    }
    for id in &ids {
        assert!(matches!(
            gateway.stream_event::<u8>(id, StreamEvent::Ended),
            StreamAction::Close(None)
        ));
    }
}

#[test]
fn forwarding_takes_turns() {
    let mut gateway = gateway_with("a", 1);
    let info = service("b");
    gateway.register(&info);
    gateway.router_mut().complete_registration(&info, Ok(2));
    for client in [1, 2, 1, 2] {
        assert_eq!(gateway.forward(message("login", "{}")).dispatch.unwrap().client, client);
    }
}

#[test]
fn texts_are_joined_in_order() {
    assert_eq!(join("a", "b", "c"), "abc");
    assert_eq!(join("", "x", ""), "x");
}
