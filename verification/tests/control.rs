use netsblox_vm_esp32::handlers::{
    cors_preflight, extension, get_peripherals, get_project, input, pull_status, root, route, server,
    set_peripherals, set_project, toggle_paused, wifi_config, wipe, Endpoint, Method, WifiConfig, WifiKind,
};
use netsblox_vm_esp32::http::{absorb, content_length, request_headers, Header, Response};
use netsblox_vm_esp32::runtime::{Input, RuntimeContext, ServerCommand};
use netsblox_vm_esp32::storage::{
    check, probe, test_bytes, EntryType, Observation, Probe, StorageController, StoreKey,
};

fn header_pairs(reply: &netsblox_vm_esp32::handlers::Reply) -> Vec<(String, String)> {
    reply.headers().into_iter().map(|h| (h.name, h.value)).collect()
}

#[test]
fn every_answer_allows_any_origin() {
    let reply = cors_preflight();
    assert_eq!(reply.status, 200);
    assert_eq!(reply.body, "");
    assert_eq!(
        header_pairs(&reply),
        vec![
            ("Access-Control-Allow-Origin".to_string(), "*".to_string()),
            ("Content-Type".to_string(), "text/plain".to_string())
        ]
    );
    let project = get_project(None, "<empty/>");
    assert_eq!(project.body, "<empty/>");
    assert_eq!(
        header_pairs(&project),
        vec![
            ("Access-Control-Allow-Origin".to_string(), "*".to_string()),
            ("Content-Type".to_string(), "application/octet-stream".to_string()),
            ("Content-Disposition".to_string(), "attachment; filename=project.xml".to_string()),
        ]
    );
    assert_eq!(get_project(Some("<mine/>".into()), "<empty/>").body, "<mine/>");
}

#[test]
fn routes_depend_on_the_connection() {
    assert_eq!(route(Method::Get, "/", false), Some(Endpoint::Root));
    assert_eq!(route(Method::Post, "/", false), None);
    assert_eq!(route(Method::Options, "/", false), Some(Endpoint::Preflight));
    assert_eq!(route(Method::Post, "/wipe", false), Some(Endpoint::Wipe));
    assert_eq!(route(Method::Post, "/wifi", true), Some(Endpoint::Wifi));
    assert_eq!(route(Method::Post, "/server", false), Some(Endpoint::Server));
    assert_eq!(route(Method::Get, "/extension.js", false), None);
    assert_eq!(route(Method::Options, "/extension.js", false), None);
    assert_eq!(route(Method::Get, "/extension.js", true), Some(Endpoint::Extension));
    assert_eq!(route(Method::Post, "/pull", true), Some(Endpoint::Pull));
    assert_eq!(route(Method::Get, "/pull", true), None);
    assert_eq!(route(Method::Post, "/input", true), Some(Endpoint::Input));
    assert_eq!(route(Method::Post, "/toggle-paused", true), Some(Endpoint::TogglePaused));
    assert_eq!(route(Method::Get, "/project", true), Some(Endpoint::GetProject));
    assert_eq!(route(Method::Post, "/project", true), Some(Endpoint::SetProject));
    assert_eq!(route(Method::Get, "/peripherals", true), Some(Endpoint::GetPeripherals));
    assert_eq!(route(Method::Post, "/peripherals", true), Some(Endpoint::SetPeripherals));
    assert_eq!(route(Method::Options, "/peripherals", true), Some(Endpoint::Preflight));
    assert_eq!(route(Method::Other, "/peripherals", true), None);
    assert_eq!(route(Method::Get, "/nowhere", true), None);
}

#[test]
fn pages_are_served_as_they_are() {
    let page = root("<p>Not Connected</p>".into());
    assert_eq!((page.status, page.content_type.as_str(), page.body.as_str()), (200, "text/html", "<p>Not Connected</p>"));
    let script = extension("let x;".into());
    assert_eq!((script.status, script.content_type.as_str(), script.body.as_str()), (200, "application/javascript", "let x;"));
    assert_eq!(get_peripherals(None).body, "{}");
    let stored = get_peripherals(Some("{\"motors\":[]}".into()));
    assert_eq!((stored.status, stored.content_type.as_str(), stored.body.as_str()), (200, "application/json", "{\"motors\":[]}"));
}

#[test]
fn pull_answers_once_with_everything() {
    let mut context = RuntimeContext::new();
    pull_status(&mut context);
    context.print("line1");
    context.print("line2");
    context.print("line3");
    context.report_error("oops", "{\"cause\":\"oops\"}");
    let first = pull_status(&mut context);
    assert_eq!(first.status, 200);
    assert_eq!(first.content_type, "application/json");
    assert_eq!(
        first.body,
        "{\"running\":true,\"output\":\"line1\\nline2\\nline3\\n\\n>>> error oops\\n\\n\",\"errors\":[{\"cause\":\"oops\"}]}"
    );
    let second = pull_status(&mut context);
    assert_eq!(second.body, "{\"running\":true,\"output\":\"\",\"errors\":[]}");
    toggle_paused(&mut context);
    assert_eq!(pull_status(&mut context).body, "{\"running\":false,\"output\":\"\",\"errors\":[]}");
}

#[test]
fn inputs_are_queued_or_refused() {
    let mut context = RuntimeContext::new();
    let reply = input(&mut context, b"start".to_vec());
    assert_eq!((reply.status, reply.body.as_str()), (200, "accepted input"));
    let reply = input(&mut context, b"stop".to_vec());
    assert_eq!((reply.status, reply.body.as_str()), (200, "accepted input"));
    let reply = input(&mut context, b"Start".to_vec());
    assert_eq!((reply.status, reply.body.as_str()), (400, "unknown input sequence"));
    let reply = input(&mut context, vec![0xff, 0xfe]);
    assert_eq!((reply.status, reply.body.as_str()), (400, "failed to parse request body"));
    assert!(matches!(context.take_command(), Some(ServerCommand::Input(Input::Start))));
    assert!(matches!(context.take_command(), Some(ServerCommand::Input(Input::Stop))));
    assert!(context.take_command().is_none());
}

#[test]
fn projects_are_queued_or_refused() {
    let mut context = RuntimeContext::new();
    let reply = set_project(&mut context, "<room name=\"ż\"/>".as_bytes().to_vec());
    assert_eq!((reply.status, reply.content_type.as_str(), reply.body.as_str()), (200, "text/plain", "loaded project"));
    let reply = set_project(&mut context, vec![b'<', 0xc3]);
    assert_eq!((reply.status, reply.body.as_str()), (400, "failed to parse request body"));
    assert!(matches!(context.take_command(), Some(ServerCommand::SetProject(xml)) if xml == "<room name=\"ż\"/>"));
    assert!(context.take_command().is_none());
}

#[test]
fn toggling_pauses_and_resumes() {
    let mut context = RuntimeContext::new();
    let reply = toggle_paused(&mut context);
    assert_eq!((reply.status, reply.content_type.as_str(), reply.body.as_str()), (200, "text/plain", "toggled pause state"));
    assert!(!context.running());
    toggle_paused(&mut context);
    assert!(context.running());
}

#[test]
fn settings_are_written_or_refused() {
    let (reply, write) = set_peripherals(b"{}".to_vec());
    assert_eq!(reply.status, 200);
    assert_eq!(reply.body, "successfully updated peripherals config... restart the board to apply changes...");
    let write = write.unwrap();
    assert_eq!((write.key, write.value.as_str()), (StoreKey::Peripherals, "{}"));
    let (reply, write) = set_peripherals(vec![0x80]);
    assert_eq!((reply.status, reply.body.as_str()), (400, "failed to parse request body"));
    assert!(write.is_none());

    let (reply, write) = server(b"https://example.org".to_vec());
    assert_eq!(reply.body, "successfully updated netsblox server... restart the board to apply changes...");
    let write = write.unwrap();
    assert_eq!((write.key, write.value.as_str()), (StoreKey::NetsbloxServer, "https://example.org"));
    let (reply, write) = server(vec![0xff]);
    assert_eq!((reply.status, reply.body.as_str()), (400, "ERROR: failed to parse request body"));
    assert!(write.is_none());

    let (reply, keys) = wipe();
    assert_eq!((reply.status, reply.body.as_str()), (200, "wiped all data... restart the board to apply changes..."));
    assert_eq!(
        keys,
        vec![
            StoreKey::WifiApSsid, StoreKey::WifiApPass, StoreKey::WifiClientSsid, StoreKey::WifiClientPass,
            StoreKey::NetsbloxServer, StoreKey::Peripherals, StoreKey::Project,
        ]
    );
}

fn credentials(kind: WifiKind, ssid: &str, pass: &str) -> Option<WifiConfig> {
    Some(WifiConfig { kind, ssid: ssid.into(), pass: pass.into() })
}

#[test]
fn wifi_credentials_are_checked_by_length() {
    let (reply, writes) = wifi_config(credentials(WifiKind::Client, "net", "password"));
    assert_eq!(reply.status, 200);
    assert_eq!(reply.body, "successfully updated wifi config... restart the board to apply changes...");
    let written: Vec<(StoreKey, &str)> = writes.iter().map(|w| (w.key, w.value.as_str())).collect();
    assert_eq!(written, vec![(StoreKey::WifiClientSsid, "net"), (StoreKey::WifiClientPass, "password")]);

    let (_, writes) = wifi_config(credentials(WifiKind::AccessPoint, "ab", &"p".repeat(63)));
    let written: Vec<(StoreKey, String)> = writes.into_iter().map(|w| (w.key, w.value)).collect();
    assert_eq!(written, vec![(StoreKey::WifiApSsid, "ab".to_string()), (StoreKey::WifiApPass, "p".repeat(63))]);

    for (ssid, pass) in [
        ("n".to_string(), "password".to_string()),
        ("net".to_string(), "passwor".to_string()),
        ("n".repeat(32), "password".to_string()),
        ("net".to_string(), "p".repeat(64)),
        ("ż".repeat(16), "password".to_string()),
    ] {
        let (reply, writes) = wifi_config(credentials(WifiKind::Client, &ssid, &pass));
        assert_eq!((reply.status, reply.body.as_str()), (400, "ERROR: ssid or password had invalid length"));
        assert!(writes.is_empty());
    }
    let (reply, writes) = wifi_config(credentials(WifiKind::Client, &"n".repeat(31), "password"));
    assert_eq!(reply.status, 200);
    assert_eq!(writes.len(), 2);
    let (reply, writes) = wifi_config(None);
    assert_eq!((reply.status, reply.body.as_str()), (400, "ERROR: failed to parse request body"));
    assert!(writes.is_empty());
}

#[test]
fn responses_and_headers() {
    let header = content_length(1234);
    assert_eq!((header.name.as_str(), header.value.as_str()), ("Content-Length", "1234"));
    assert_eq!(content_length(0).value, "0");
    for (status, success) in [(199, false), (200, true), (204, true), (299, true), (300, false), (404, false)] {
        assert_eq!(Response { status, body: vec![], content_type: None }.is_success(), success);
    }
    let all = request_headers(vec![Header { name: "Content-Type".into(), value: "application/json".into() }], 17);
    let pairs: Vec<(&str, &str)> = all.iter().map(|h| (h.name.as_str(), h.value.as_str())).collect();
    assert_eq!(pairs, vec![("Content-Type", "application/json"), ("Content-Length", "17")]);
    let mut body = vec![1u8];
    assert!(absorb(&mut body, &[2, 3, 4, 9], 3));
    assert!(!absorb(&mut body, &[7, 7], 0));
    assert_eq!(body, vec![1, 2, 3, 4]);
}

#[test]
fn entries_have_their_keys() {
    let keys = [
        (StoreKey::WifiApSsid, "wifi_ap_ssid", "wapssid"),
        (StoreKey::WifiApPass, "wifi_ap_pass", "wappass"),
        (StoreKey::WifiClientSsid, "wifi_client_ssid", "wclssid"),
        (StoreKey::WifiClientPass, "wifi_client_pass", "wclpass"),
        (StoreKey::NetsbloxServer, "netsblox_server", "server"),
        (StoreKey::Peripherals, "peripherals", "periph"),
        (StoreKey::Project, "project", "proj"),
    ];
    for (key, name, raw) in keys {
        assert_eq!(key.name(), name);
        assert_eq!(key.key(), raw);
        assert!(raw.len() <= 15);
    }
}

fn good_answers() -> Vec<Observation> {
    (0..12)
        .map(|step| match probe(step) {
            Probe::Remove | Probe::Write => Observation::Carried,
            Probe::Contains => Observation::Present(step > 4 && step < 8),
            Probe::Len => Observation::Length(if step > 4 && step < 8 { Some(8) } else { None }),
            Probe::Read => Observation::Content(if step > 4 && step < 8 { Some(test_bytes()) } else { None }),
        })
        .collect()
}

#[test]
fn self_test_follows_its_script() {
    let script: Vec<Probe> = (0..12).map(probe).collect();
    assert_eq!(
        script,
        vec![
            Probe::Remove, Probe::Contains, Probe::Len, Probe::Read,
            Probe::Write, Probe::Contains, Probe::Len, Probe::Read,
            Probe::Remove, Probe::Contains, Probe::Len, Probe::Read,
        ]
    );
    assert_eq!(test_bytes(), vec![6, 127, 3, 200, 0, 128, 7, 255]);
    let answers = good_answers();
    for (step, seen) in answers.iter().enumerate() {
        assert!(check(step, seen), "{}", step);
    }
    let controller = StorageController::new(&answers).unwrap();
    assert_eq!(controller.project().key(), StoreKey::Project);
    assert_eq!(controller.peripherals().clear(), StoreKey::Peripherals);
    assert_eq!(
        controller.clear_all(),
        vec![
            StoreKey::WifiApSsid, StoreKey::WifiApPass, StoreKey::WifiClientSsid, StoreKey::WifiClientPass,
            StoreKey::NetsbloxServer, StoreKey::Peripherals, StoreKey::Project,
        ]
    );
}

#[test]
fn self_test_fails_on_any_divergence() {
    assert!(StorageController::new(&vec![]).is_none());
    let mut short = good_answers();
    short.pop();
    assert!(StorageController::new(&short).is_none());
    let wrong: Vec<(usize, Observation)> = vec![
        (1, Observation::Present(true)),
        (2, Observation::Length(Some(8))),
        (3, Observation::Content(Some(vec![]))),
        (5, Observation::Present(false)),
        (6, Observation::Length(Some(7))),
        (6, Observation::Length(None)),
        (7, Observation::Content(None)),
        (7, Observation::Content(Some(vec![6, 127, 3, 200, 0, 128, 7, 254]))),
        (7, Observation::Content(Some(vec![6, 127, 3, 200, 0, 128, 7]))),
        (9, Observation::Present(true)),
        (11, Observation::Content(Some(test_bytes()))),
        (0, Observation::Present(false)),
        (4, Observation::Length(None)),
    ];
    for (step, seen) in wrong {
        assert!(!check(step, &seen), "{}", step);
        let mut answers = good_answers();
        answers[step] = seen;
        assert!(StorageController::new(&answers).is_none(), "{}", step);
    }
}

#[test]
fn entries_turn_text_into_bytes_and_back() {
    let controller = StorageController::new(&good_answers()).unwrap();
    let entry = controller.wifi_ap_ssid();
    assert_eq!(entry.set(&"żółw".to_string()), "żółw".as_bytes().to_vec());
    assert_eq!(entry.get(Some(7), "żółw".as_bytes().to_vec()), Some("żółw".to_string()));
    assert_eq!(entry.get(None, vec![]), None);
    assert_eq!(String::from_bytes("abc".to_string().to_bytes()), "abc");
}
