use netsblox_vm_esp32::http::Response;
use netsblox_vm_esp32::messages::{
    accept, answered_locally, classify, data_as_text, envelope, get_public_id, resolve_targets, route, rpc_url,
    send_message, failed_to_reach, websocket_url, Destination, Field, Frame, InternReplyKey, Member, OutgoingMessage,
    Received, Routed, RpcReply,
};
use netsblox_vm_esp32::reply::{AsyncResult, ReplyTable};
use netsblox_vm_esp32::scheduler::{
    next_action, open_project, project_loaded, single_role, Action, IdleSleeper, OpenProjectError, Scheduler,
    StepKind,
};
use netsblox_vm_esp32::runtime::{Input, RuntimeContext, ServerCommand};
use netsblox_vm_esp32::status::{
    ap_info, client_info, device_url, dotted, editor_link, peripherals_status, root_page, server_address,
};
use netsblox_vm_esp32::broker::InitError;
use netsblox_vm_esp32::ledger::PeripheralError;
use netsblox_vm_esp32::wifi::{client_ip, configuration, wants_client, AuthMethod, Configuration, Seen};

fn text(value: &str) -> Field {
    Field::Text(value.into())
}

fn member(name: &str, value: i32) -> Member<i32> {
    Member { name: name.into(), value }
}

fn frame(kind: &str, msg_type: Field, content: Option<Vec<Member<i32>>>, request_id: Field, src_id: Field) -> Frame<i32> {
    Frame { kind: Some(kind.into()), msg_type, content, request_id, src_id }
}

#[test]
fn pings_are_answered_and_strangers_ignored() {
    assert!(matches!(route(frame("ping", Field::Absent, None, Field::Absent, Field::Absent)), Routed::Pong));
    assert!(matches!(route(frame("pong", Field::Absent, None, Field::Absent, Field::Absent)), Routed::Ignore));
    assert!(matches!(route(frame("message", Field::Absent, Some(vec![]), Field::Absent, Field::Absent)), Routed::Ignore));
    assert!(matches!(route(frame("message", Field::Other, Some(vec![]), Field::Absent, Field::Absent)), Routed::Ignore));
    assert!(matches!(route(frame("message", text("hi"), None, Field::Absent, Field::Absent)), Routed::Ignore));
    let untyped: Frame<i32> = Frame { kind: None, msg_type: text("hi"), content: Some(vec![]), request_id: Field::Absent, src_id: Field::Absent };
    assert!(matches!(route(untyped), Routed::Ignore));
}

#[test]
fn messages_carry_their_reply_key() {
    match route(frame("message", text("hi"), Some(vec![member("a", 1), member("b", 2)]), Field::Absent, text("peer"))) {
        Routed::Message { msg_type, values, reply_key } => {
            assert_eq!(msg_type, "hi");
            assert_eq!(values.len(), 2);
            assert_eq!((values[1].name.as_str(), values[1].value), ("b", 2));
            assert!(reply_key.is_none());
        }
        other => panic!("{:?}", other),
    }
    match route(frame("message", text("ask"), Some(vec![]), text("r1"), text("peer"))) {
        Routed::Message { reply_key: Some(key), .. } => {
            assert_eq!((key.src_id.as_str(), key.request_id.as_str()), ("peer", "r1"));
        }
        other => panic!("{:?}", other),
    }
    assert!(matches!(route(frame("message", text("ask"), Some(vec![]), text("r1"), Field::Absent)), Routed::Ignore));
    assert!(matches!(route(frame("message", text("ask"), Some(vec![]), Field::Other, text("peer"))), Routed::Ignore));
    assert!(matches!(route(frame("message", text("ask"), Some(vec![]), text("r1"), Field::Other)), Routed::Ignore));
}

#[test]
fn replies_need_a_body_and_a_request() {
    let reply = |content, request_id| frame("message", text("__reply__"), Some(content), request_id, Field::Absent);
    match route(reply(vec![member("x", 1), member("body", 42), member("body", 43)], text("r9"))) {
        Routed::Reply { request_id, value } => assert_eq!((request_id.as_str(), value), ("r9", 42)),
        other => panic!("{:?}", other),
    }
    assert!(matches!(route(reply(vec![member("x", 1)], text("r9"))), Routed::Ignore));
    assert!(matches!(route(reply(vec![member("body", 1)], Field::Absent)), Routed::Ignore));
    assert!(matches!(route(reply(vec![member("body", 1)], Field::Other)), Routed::Ignore));
}

#[test]
fn reply_round_trip() {
    let mut replies: ReplyTable<i32> = ReplyTable::new();
    let (message, key) = send_message(&mut replies, "ask".into(), vec![member("q", 1)], vec!["peer".into()], true, 10);
    let key = key.unwrap();
    match &message {
        OutgoingMessage::Blocking { msg_type, targets, reply_key, .. } => {
            assert_eq!(msg_type, "ask");
            assert_eq!(targets, &vec!["peer".to_string()]);
            assert_eq!(reply_key, &key);
        }
        other => panic!("{:?}", other),
    }
    assert!(matches!(replies.poll(&key, 11), AsyncResult::Pending));
    let got = accept(&mut replies, frame("message", text("__reply__"), Some(vec![member("body", 42)]), text(&key), Field::Absent));
    assert!(matches!(got, Received::Nothing));
    let got = accept(&mut replies, frame("message", text("__reply__"), Some(vec![member("body", 7)]), text(&key), Field::Absent));
    assert!(matches!(got, Received::Nothing));
    assert!(matches!(replies.poll(&key, 99_999), AsyncResult::Completed(Some(42))));
    assert!(!replies.awaits(&key));
    assert!(matches!(accept(&mut replies, frame("ping", Field::Absent, None, Field::Absent, Field::Absent)), Received::Pong));
    assert!(matches!(
        accept(&mut replies, frame("message", text("hi"), Some(vec![]), Field::Absent, Field::Absent)),
        Received::Message { reply_key: None, .. }
    ));
}

#[test]
fn messages_without_reply_touch_no_table() {
    let mut replies: ReplyTable<i32> = ReplyTable::new();
    let (message, key) = send_message(&mut replies, "tell".into(), Vec::<Member<i32>>::new(), vec![], false, 10);
    assert!(key.is_none());
    assert!(matches!(message, OutgoingMessage::Normal { msg_type, .. } if msg_type == "tell"));
}

#[test]
fn envelopes_name_the_sender_for_its_room() {
    assert_eq!(
        resolve_targets(vec!["a".into(), "everyone in room".into(), "Everyone in room".into()], "me@id#vm"),
        vec!["a", "me@id#vm", "Everyone in room"]
    );
    let shaped = envelope(
        OutgoingMessage::Normal { msg_type: "hi".into(), values: vec![member("v", 1)], targets: vec!["everyone in room".into()] },
        "p@c#vm",
    );
    assert!(matches!(&shaped.dst_id, Destination::Many(to) if to == &vec!["p@c#vm".to_string()]));
    assert_eq!(shaped.src_id.as_deref(), Some("p@c#vm"));
    assert_eq!(shaped.msg_type, "hi");
    assert!(shaped.request_id.is_none());
    assert_eq!(shaped.content.len(), 1);

    let shaped = envelope(
        OutgoingMessage::Blocking { msg_type: "ask".into(), values: Vec::<Member<i32>>::new(), targets: vec!["x".into()], reply_key: "r1".into() },
        "p@c#vm",
    );
    assert_eq!(shaped.request_id.as_deref(), Some("r1"));
    assert_eq!(shaped.src_id.as_deref(), Some("p@c#vm"));

    let shaped = envelope(
        OutgoingMessage::Reply { value: 5, reply_key: InternReplyKey { src_id: "peer".into(), request_id: "r2".into() } },
        "p@c#vm",
    );
    assert!(matches!(&shaped.dst_id, Destination::One(to) if to == "peer"));
    assert!(shaped.src_id.is_none());
    assert_eq!(shaped.msg_type, "__reply__");
    assert_eq!(shaped.request_id.as_deref(), Some("r2"));
    assert_eq!((shaped.content[0].name.as_str(), shaped.content[0].value), ("body", 5));
}

#[test]
fn addresses_are_derived_from_the_base() {
    assert_eq!(get_public_id("project", "esp-calm-bird"), "project@esp-calm-bird#vm");
    assert_eq!(websocket_url("https://editor.netsblox.org", "c1"), "wss://editor.netsblox.org/network/c1/connect");
    assert_eq!(websocket_url("http://localhost:8080", "c1"), "ws://localhost:8080/network/c1/connect");
    assert_eq!(websocket_url("editor.netsblox.org", "c1"), "wss://editor.netsblox.org/network/c1/connect");
    assert_eq!(websocket_url("", "c"), "wss:///network/c/connect");
    assert_eq!(
        rpc_url("https://services.example", "Weather", "temp", "c1", 1700000000123),
        "https://services.example/Weather/temp?clientId=c1&t=1700000000123"
    );
    assert_eq!(failed_to_reach("https://x"), "Failed to reach https://x");
    assert!(answered_locally("PublicRoles", "getPublicRoleId", 0));
    assert!(!answered_locally("PublicRoles", "getPublicRoleId", 1));
    assert!(!answered_locally("PublicRoles", "other", 0));
    assert!(!answered_locally("Other", "getPublicRoleId", 0));
}

fn response(status: u16, content_type: Option<&str>, body: &[u8]) -> Response {
    Response { status, body: body.to_vec(), content_type: content_type.map(String::from) }
}

#[test]
fn responses_are_sorted_by_status_and_type() {
    assert!(matches!(classify(response(404, Some("image/png"), b"no such thing")), RpcReply::Fail(m) if m == "no such thing"));
    assert!(matches!(classify(response(500, None, &[0xff])), RpcReply::Fail(m) if m == "Received ill-formed error message"));
    assert!(matches!(classify(response(199, None, b"x")), RpcReply::Fail(_)));
    assert!(matches!(classify(response(300, None, b"x")), RpcReply::Fail(_)));
    assert!(matches!(classify(response(200, Some("image/png"), &[1, 2])), RpcReply::Image(b) if b == vec![1, 2]));
    assert!(matches!(classify(response(299, Some("x; audio/mpeg"), &[3])), RpcReply::Audio(b) if b == vec![3]));
    assert!(matches!(classify(response(200, Some("audio/image/"), &[3])), RpcReply::Image(_)));
    assert!(matches!(classify(response(200, Some("application/json"), b"{}")), RpcReply::Data(b) if b == b"{}".to_vec()));
    assert!(matches!(classify(response(200, None, b"plain")), RpcReply::Data(_)));
    assert!(matches!(classify(response(200, Some("image"), b"plain")), RpcReply::Data(_)));
    assert_eq!(data_as_text(b"plain".to_vec()), Ok("plain".to_string()));
    assert_eq!(data_as_text(vec![0xc0]), Err("Received ill-formed success value".to_string()));
}

#[test]
fn loop_sleeps_after_enough_idle_steps() {
    let mut sleeper = IdleSleeper::new(256);
    for _ in 0..255 {
        assert!(!sleeper.consume(StepKind::Yield));
    }
    assert!(sleeper.consume(StepKind::Idle));
    for _ in 0..255 {
        assert!(!sleeper.consume(StepKind::Pause));
    }
    assert!(!sleeper.consume(StepKind::Normal));
    for _ in 0..255 {
        assert!(!sleeper.consume(StepKind::Idle));
    }
    assert!(sleeper.consume(StepKind::Idle));
    for step in [StepKind::Normal, StepKind::ProcessTerminated, StepKind::Error, StepKind::Watcher] {
        assert!(!step.is_idle());
    }
    let mut eager = IdleSleeper::new(0);
    assert!(eager.consume(StepKind::Idle));
    assert!(!eager.consume(StepKind::Normal));
    let mut single = IdleSleeper::new(1);
    assert!(single.consume(StepKind::Idle));
    assert!(single.consume(StepKind::Idle));
}

#[test]
fn collection_is_due_after_more_than_a_thousand_steps() {
    let mut scheduler = Scheduler::new();
    for batch in 0..9 {
        for _ in 0..128 {
            scheduler.note_step(StepKind::Normal);
        }
        assert_eq!(scheduler.end_batch(), batch == 8, "{}", batch);
    }
    for _ in 0..1024 {
        scheduler.note_step(StepKind::Normal);
    }
    assert!(!scheduler.end_batch());
    assert!(!scheduler.note_step(StepKind::Idle));
    assert!(scheduler.end_batch());
    assert!(!scheduler.end_batch());
    let mut idle = Scheduler::new();
    let sleeps = (0..512).filter(|_| idle.note_step(StepKind::Idle)).count();
    assert_eq!(sleeps, 2);
}

#[test]
fn commands_become_actions() {
    let mut context = RuntimeContext::new();
    context.toggle_paused();
    assert!(matches!(next_action(&mut context), Action::Nothing));
    context.enqueue(ServerCommand::Input(Input::Stop));
    context.enqueue(ServerCommand::SetProject("<x/>".into()));
    context.enqueue(ServerCommand::Input(Input::Start));
    assert!(matches!(next_action(&mut context), Action::Inject(Input::Stop)));
    assert!(!context.running());
    assert!(matches!(next_action(&mut context), Action::Load(xml) if xml == "<x/>"));
    assert!(!context.running());
    assert!(matches!(next_action(&mut context), Action::Inject(Input::Start)));
    assert!(context.running());
    assert!(matches!(next_action(&mut context), Action::Nothing));
}

#[test]
fn loading_is_reported() {
    let mut context = RuntimeContext::new();
    context.pull();
    assert_eq!(project_loaded(&mut context, Ok(())), (true, "\n>>> updated project\n".to_string()));
    assert_eq!(context.pull().output, "\n>>> updated project\n\n");
    assert_eq!(
        project_loaded(&mut context, Err("NoRoles".into())),
        (false, "\n>>> failed to load project: NoRoles\n>>> keeping old project\n".to_string())
    );
    let output = context.pull().output;
    assert_eq!(output, "\n>>> failed to load project: NoRoles\n>>> keeping old project\n\n");
    assert!(output.lines().any(|line| line.starts_with(">>> failed to load project")));
}

fn read(xml: &str) -> Result<Vec<netsblox_vm::ast::Role>, String> {
    match netsblox_vm::ast::Parser::default().parse(xml) {
        Ok(project) => Ok(project.roles),
        Err(error) => Err(format!("{:?}", error)),
    }
}

#[test]
fn projects_need_exactly_one_role() {
    assert!(matches!(single_role(vec![]), Err(OpenProjectError::NoRoles)));
    assert!(matches!(open_project(Ok(vec![])), Err(OpenProjectError::NoRoles)));
    assert_eq!(OpenProjectError::NoRoles.describe(), "NoRoles");
    assert_eq!(OpenProjectError::MultipleRoles.describe(), "MultipleRoles");
    assert_eq!(OpenProjectError::ParseError("Error { kind: X }".into()).describe(), "ParseError(Error { kind: X })");
    assert!(matches!(open_project(Err("bad".into())), Err(OpenProjectError::ParseError(reason)) if reason == "bad"));
    assert!(matches!(open_project(read("<room name=\"r\" app=\"NetsBlox\"><role></role></room>")), Err(OpenProjectError::ParseError(_))));
    assert!(matches!(open_project(read("<room name=\"r\" app=\"NetsBlox\"></room>")), Err(OpenProjectError::NoRoles)));
    let role = "<role name=\"one\"><project name=\"one\" app=\"NetsBlox\" version=\"1\"><stage name=\"Stage\" width=\"480\" height=\"360\"><sprites></sprites></stage><variables></variables><blocks></blocks></project></role>";
    let one = format!("<room name=\"r\" app=\"NetsBlox\">{}</room>", role);
    match open_project(read(&one)) {
        Ok(found) => assert_eq!(found.name, "one"),
        Err(error) => panic!("{:?}", error),
    }
    let two = format!("<room name=\"r\" app=\"NetsBlox\">{}{}</room>", role, role.replace("one", "two"));
    assert!(matches!(open_project(read(&two)), Err(OpenProjectError::MultipleRoles)));
    let roles = read(&two).unwrap();
    assert!(matches!(single_role(roles), Err(OpenProjectError::MultipleRoles)));
}

#[test]
fn start_page_tells_addresses_and_binding() {
    assert_eq!(dotted([192, 168, 4, 1]), "192.168.4.1");
    assert_eq!(dotted([0, 0, 0, 0]), "0.0.0.0");
    assert_eq!(ap_info([192, 168, 71, 1]), "<p>IP: 192.168.71.1</p>");
    assert_eq!(client_info(None, "https://editor.netsblox.org"), "<p>Not Connected</p>");
    assert_eq!(
        client_info(Some([10, 0, 0, 255]), "https://editor.netsblox.org"),
        "<p>IP: 10.0.0.255</p><p><a target='_blank' href='https://editor.netsblox.org?extensions=[\"https://10.0.0.255/extension.js\"]'>Open Editor</a></p>"
    );
    assert_eq!(device_url([10, 0, 0, 7]), "https://10.0.0.7");
    assert_eq!(editor_link("http://s", [1, 2, 3, 4]), "http://s?extensions=[\"https://1.2.3.4/extension.js\"]");
    assert_eq!(server_address(None), "https://editor.netsblox.org");
    assert_eq!(server_address(Some("http://mine".into())), "http://mine");
    assert_eq!(peripherals_status(None, &vec![]), "<p>successfully loaded peripherals</p>");
    assert_eq!(
        peripherals_status(Some("bad json"), &vec![]),
        "<p>failed to parse peripherals config: bad json</p><p>successfully loaded peripherals</p>"
    );
    let errors = vec![
        InitError { context: "digital_ins a gpio".into(), error: PeripheralError::PinAlreadyTaken { pin: 9 } },
        InitError { context: "motor_groups g".into(), error: PeripheralError::NameUnknown { name: "L\"".into() } },
        InitError { context: "I2C".into(), error: PeripheralError::BusError { code: -263 } },
        InitError { context: "PWM".into(), error: PeripheralError::PwmOutOfChannels },
    ];
    assert_eq!(
        peripherals_status(None, &errors),
        "<p>failed to initialize peripherals:</p><p>digital_ins a gpio -- PinAlreadyTaken { pin: 9 }</p><p>motor_groups g -- NameUnknown { name: \"L\\\"\" }</p><p>I2C -- BusError { code: -263 }</p><p>PWM -- PwmOutOfChannels</p>"
    );
    for error in [
        PeripheralError::PinUnknown { pin: 200 },
        PeripheralError::PinAlreadyTaken { pin: 0 },
        PeripheralError::PinInsufficientCapability { pin: 34 },
        PeripheralError::NameUnknown { name: "a b".into() },
        PeripheralError::NameAlreadyTaken { name: "ż\n".into() },
        PeripheralError::PwmOutOfChannels,
        PeripheralError::I2cNotConfigured,
        PeripheralError::BusError { code: i32::MIN },
        PeripheralError::BusError { code: 0 },
        PeripheralError::DriverProbe { cause: "nack".into() },
    ] {
        assert_eq!(error.describe(), format!("{:?}", error));
    }
    assert_eq!(
        root_page("<h1>%%%AP_INFO%%%</h1>%%%CLIENT_INFO%%%|%%%PERIPH_INFO%%%|%%%AP_INFO%%%", [1, 1, 1, 1], None, "s", "<p>ok</p>"),
        "<h1><p>IP: 1.1.1.1</p></h1><p>Not Connected</p>|<p>ok</p>|<p>IP: 1.1.1.1</p>"
    );
}

#[test]
fn radio_setup_follows_the_stored_credentials() {
    assert!(!wants_client(&None, &None));
    assert!(!wants_client(&Some("n".into()), &None));
    assert!(!wants_client(&None, &Some("p".into())));
    assert!(wants_client(&Some("n".into()), &Some("p".into())));
    match configuration(None, None, None, Some("password".into()), &vec![]) {
        Configuration::AccessPoint(ap) => {
            assert_eq!((ap.ssid.as_str(), ap.password.as_str(), ap.channel, ap.auth_method), ("nb-esp32", "netsblox", 1, AuthMethod::WPA2Personal));
        }
        other => panic!("{:?}", other),
    }
    let scan = vec![
        Seen { ssid: "other".into(), bssid: [9; 6], channel: 3, auth_method: Some(AuthMethod::WEP) },
        Seen { ssid: "net".into(), bssid: [1, 2, 3, 4, 5, 6], channel: 11, auth_method: Some(AuthMethod::WPAWPA2Personal) },
        Seen { ssid: "net".into(), bssid: [7; 6], channel: 6, auth_method: Some(AuthMethod::WPA3Personal) },
    ];
    match configuration(Some("mine".into()), Some("secret12".into()), Some("net".into()), Some("password".into()), &scan) {
        Configuration::Mixed(client, ap) => {
            assert_eq!((ap.ssid.as_str(), ap.password.as_str()), ("mine", "secret12"));
            assert_eq!((client.ssid.as_str(), client.password.as_str()), ("net", "password"));
            assert_eq!(client.bssid, Some([1, 2, 3, 4, 5, 6]));
            assert_eq!(client.channel, Some(11));
            assert_eq!(client.auth_method, AuthMethod::WPA2Personal);
        }
        other => panic!("{:?}", other),
    }
    match configuration(None, None, Some("other".into()), Some("password".into()), &scan) {
        Configuration::Mixed(client, _) => assert_eq!(client.auth_method, AuthMethod::WEP),
        other => panic!("{:?}", other),
    }
    match configuration(None, None, Some("hidden".into()), Some("password".into()), &scan) {
        Configuration::Mixed(client, _) => {
            assert_eq!((client.bssid, client.channel, client.auth_method), (None, None, AuthMethod::WPA2Personal));
        }
        other => panic!("{:?}", other),
    }
    assert_eq!(client_ip([0, 0, 0, 0]), None);
    assert_eq!(client_ip([0, 0, 0, 1]), Some([0, 0, 0, 1]));
    assert_eq!(client_ip([10, 0, 0, 0]), Some([10, 0, 0, 0]));
}
