//! The control plane: what each endpoint of the device does with a request, as a
//! function from the request to the answer and to what changes.

use crate::http::Header;
use crate::runtime::{Input, RuntimeContext, ServerCommand, Status, status_body};
use crate::storage::{all_entries, entry_at, StoreKey, StoreWrite, ENTRIES};
use crate::text::{lines_of, same_text, text_of_utf8};
use vstd::prelude::*;
use vstd::string::*;
use vstd::utf8::{decode_utf8, encode_utf8, valid_utf8};

verus! {

/// The method of a request.
#[derive(Debug, Clone, Copy, PartialEq, Eq, Structural)]
pub enum Method {
    Get,
    Post,
    Options,
    /// Any other method.
    Other,
}

/// The endpoints of the device.
#[derive(Debug, Clone, Copy, PartialEq, Eq, Structural)]
pub enum Endpoint {
    /// The answer to a preflight, on every route.
    Preflight,
    Root,
    Wipe,
    Wifi,
    Server,
    Extension,
    Pull,
    Input,
    TogglePaused,
    GetProject,
    SetProject,
    GetPeripherals,
    SetPeripherals,
}

/// The endpoint behind `path` for GET and for POST, where the path is a route. The
/// routes that concern the running project exist only on a device that is connected.
pub open spec fn routes(path: Seq<char>, connected: bool) -> Option<(
    Option<Endpoint>,
    Option<Endpoint>,
)> {
    if path == "/"@ {
        Some((Some(Endpoint::Root), None))
    } else if path == "/wipe"@ {
        Some((None, Some(Endpoint::Wipe)))
    } else if path == "/wifi"@ {
        Some((None, Some(Endpoint::Wifi)))
    } else if path == "/server"@ {
        Some((None, Some(Endpoint::Server)))
    } else if !connected {
        None
    } else if path == "/extension.js"@ {
        Some((Some(Endpoint::Extension), None))
    } else if path == "/pull"@ {
        Some((None, Some(Endpoint::Pull)))
    } else if path == "/input"@ {
        Some((None, Some(Endpoint::Input)))
    } else if path == "/toggle-paused"@ {
        Some((None, Some(Endpoint::TogglePaused)))
    } else if path == "/project"@ {
        Some((Some(Endpoint::GetProject), Some(Endpoint::SetProject)))
    } else if path == "/peripherals"@ {
        Some((Some(Endpoint::GetPeripherals), Some(Endpoint::SetPeripherals)))
    } else {
        None
    }
}

/// The endpoint that serves a request, if any does: the one of its route and method,
/// or the preflight for OPTIONS on any route.
pub open spec fn served(method: Method, path: Seq<char>, connected: bool) -> Option<Endpoint> {
    match routes(path, connected) {
        None => None,
        Some((get, post)) => match method {
            Method::Get => get,
            Method::Post => post,
            Method::Options => Some(Endpoint::Preflight),
            Method::Other => None,
        },
    }
}

fn find_routes(path: &str, connected: bool) -> (found: Option<(Option<Endpoint>, Option<Endpoint>)>)
    ensures
        found == routes(path@, connected),
{
    if same_text(path, "/") {
        Some((Some(Endpoint::Root), None))
    } else if same_text(path, "/wipe") {
        Some((None, Some(Endpoint::Wipe)))
    } else if same_text(path, "/wifi") {
        Some((None, Some(Endpoint::Wifi)))
    } else if same_text(path, "/server") {
        Some((None, Some(Endpoint::Server)))
    } else if !connected {
        None
    } else if same_text(path, "/extension.js") {
        Some((Some(Endpoint::Extension), None))
    } else if same_text(path, "/pull") {
        Some((None, Some(Endpoint::Pull)))
    } else if same_text(path, "/input") {
        Some((None, Some(Endpoint::Input)))
    } else if same_text(path, "/toggle-paused") {
        Some((None, Some(Endpoint::TogglePaused)))
    } else if same_text(path, "/project") {
        Some((Some(Endpoint::GetProject), Some(Endpoint::SetProject)))
    } else if same_text(path, "/peripherals") {
        Some((Some(Endpoint::GetPeripherals), Some(Endpoint::SetPeripherals)))
    } else {
        None
    }
}

/// Finds the endpoint that serves a request.
pub fn route(method: Method, path: &str, connected: bool) -> (endpoint: Option<Endpoint>)
    ensures
        endpoint == served(method, path@, connected),
{
    match find_routes(path, connected) {
        None => None,
        Some((get, post)) => match method {
            Method::Get => get,
            Method::Post => post,
            Method::Options => Some(Endpoint::Preflight),
            Method::Other => None,
        },
    }
}

/// The answer to a request.
#[derive(Debug)]
pub struct Reply {
    pub status: u16,
    pub content_type: String,
    /// How the body is to be kept by the client, where that is said.
    pub content_disposition: Option<String>,
    pub body: String,
}

/// Whether `reply` is a plain answer with the given status, type and body.
pub open spec fn answers(reply: Reply, status: u16, content_type: Seq<char>, body: Seq<char>)
    -> bool {
    &&& reply.status == status
    &&& reply.content_type@ == content_type
    &&& reply.content_disposition is None
    &&& reply.body@ == body
}

fn answer(status: u16, content_type: &str, body: String) -> (reply: Reply)
    ensures
        answers(reply, status, content_type@, body@),
{
    Reply {
        status,
        content_type: String::from_str(content_type),
        content_disposition: None,
        body,
    }
}

fn say(status: u16, body: &str) -> (reply: Reply)
    ensures
        answers(reply, status, "text/plain"@, body@),
{
    answer(status, "text/plain", String::from_str(body))
}

impl Reply {
    /// The headers of the answer: every answer allows any origin and names its type.
    pub fn headers(&self) -> (headers: Vec<Header>)
        ensures
            headers@.len() == (if self.content_disposition is Some {
                3int
            } else {
                2int
            }),
            headers@[0].name@ == "Access-Control-Allow-Origin"@,
            headers@[0].value@ == "*"@,
            headers@[1].name@ == "Content-Type"@,
            headers@[1].value@ == self.content_type@,
            self.content_disposition is Some ==> headers@[2].name@ == "Content-Disposition"@
                && headers@[2].value@ == self.content_disposition->0@,
    {
        let mut headers: Vec<Header> = Vec::new();
        headers.push(
            Header {
                name: String::from_str("Access-Control-Allow-Origin"),
                value: String::from_str("*"),
            },
        );
        headers.push(
            Header { name: String::from_str("Content-Type"), value: self.content_type.clone() },
        );
        match &self.content_disposition {
            Some(disposition) => {
                headers.push(
                    Header {
                        name: String::from_str("Content-Disposition"),
                        value: disposition.clone(),
                    },
                );
            },
            None => {},
        }
        headers
    }
}

/// Answers a preflight.
pub fn cors_preflight() -> (reply: Reply)
    ensures
        answers(reply, 200, "text/plain"@, ""@),
{
    say(200, "")
}

/// Serves the start page.
pub fn root(content: String) -> (reply: Reply)
    ensures
        answers(reply, 200, "text/html"@, content@),
{
    answer(200, "text/html", content)
}

/// Serves the extension for the editor.
pub fn extension(script: String) -> (reply: Reply)
    ensures
        answers(reply, 200, "application/javascript"@, script@),
{
    answer(200, "application/javascript", script)
}

/// Serves a poll of the status: all output and errors since the last poll, which are
/// gone from the context afterwards.
pub fn pull_status(context: &mut RuntimeContext) -> (reply: Reply)
    requires
        old(context).sound(),
    ensures
        final(context).sound(),
        answers(
            reply,
            200,
            "application/json"@,
            status_body(
                old(context).is_running(),
                old(context).output(),
                lines_of(old(context).errors()),
            ),
        ),
        final(context).output() == Seq::<char>::empty(),
        final(context).errors() == Seq::<char>::empty(),
        final(context).commands() == old(context).commands(),
        final(context).is_running() == old(context).is_running(),
{
    let status: Status = context.pull();
    answer(200, "application/json", status.render())
}

/// Serves the stored project, or `fallback` where none is stored, as a file.
pub fn get_project(stored: Option<String>, fallback: &str) -> (reply: Reply)
    ensures
        reply.status == 200,
        reply.content_type@ == "application/octet-stream"@,
        reply.content_disposition is Some,
        reply.content_disposition->0@ == "attachment; filename=project.xml"@,
        reply.body@ == (match stored {
            Some(project) => project@,
            None => fallback@,
        }),
{
    Reply {
        status: 200,
        content_type: String::from_str("application/octet-stream"),
        content_disposition: Some(String::from_str("attachment; filename=project.xml")),
        body: match stored {
            Some(project) => project,
            None => String::from_str(fallback),
        },
    }
}

/// Takes a new project: a body that is text is queued for the scheduler to load.
pub fn set_project(context: &mut RuntimeContext, body: Vec<u8>) -> (reply: Reply)
    ensures
        old(context).sound() ==> final(context).sound(),
        final(context).output() == old(context).output(),
        final(context).errors() == old(context).errors(),
        final(context).is_running() == old(context).is_running(),
        valid_utf8(body@) ==> answers(reply, 200, "text/plain"@, "loaded project"@)
            && final(context).commands().len() == old(context).commands().len() + 1
            && final(context).commands().drop_last() == old(context).commands()
            && (final(context).commands().last() matches ServerCommand::SetProject(xml) && xml@
            == decode_utf8(body@)),
        !valid_utf8(body@) ==> answers(reply, 400, "text/plain"@, "failed to parse request body"@)
            && final(context).commands() == old(context).commands(),
{
    match text_of_utf8(body) {
        Some(xml) => {
            context.enqueue(ServerCommand::SetProject(xml));
            assert(context.commands().drop_last() =~= old(context).commands());
            say(200, "loaded project")
        },
        None => say(400, "failed to parse request body"),
    }
}

/// Serves the stored layout of the peripherals, or an empty one.
pub fn get_peripherals(stored: Option<String>) -> (reply: Reply)
    ensures
        answers(
            reply,
            200,
            "application/json"@,
            match stored {
                Some(layout) => layout@,
                None => "{}"@,
            },
        ),
{
    answer(
        200,
        "application/json",
        match stored {
            Some(layout) => layout,
            None => String::from_str("{}"),
        },
    )
}

/// What a successful change of the stored settings says.
pub open spec fn restart_notice(what: Seq<char>) -> Seq<char> {
    "successfully updated "@ + what + "... restart the board to apply changes..."@
}

fn say_updated(what: &str) -> (reply: Reply)
    ensures
        answers(reply, 200, "text/plain"@, restart_notice(what@)),
{
    let mut body = String::from_str("successfully updated ");
    body.append(what);
    body.append("... restart the board to apply changes...");
    answer(200, "text/plain", body)
}

/// Takes a body that is to be stored as text under `key`: a body that is text is to be
/// written, any other is refused with `refusal`.
fn store_text(key: StoreKey, what: &str, refusal: &str, body: Vec<u8>) -> (done: (
    Reply,
    Option<StoreWrite>,
))
    ensures
        valid_utf8(body@) ==> answers(done.0, 200, "text/plain"@, restart_notice(what@))
            && done.1 is Some && done.1->0.key == key && done.1->0.value@ == decode_utf8(body@),
        !valid_utf8(body@) ==> answers(done.0, 400, "text/plain"@, refusal@) && done.1 is None,
{
    match text_of_utf8(body) {
        Some(value) => (say_updated(what), Some(StoreWrite { key, value })),
        None => (say(400, refusal), None),
    }
}

/// Takes a new layout of the peripherals. It is stored as it is and takes effect when
/// the device starts again.
pub fn set_peripherals(body: Vec<u8>) -> (done: (Reply, Option<StoreWrite>))
    ensures
        valid_utf8(body@) ==> answers(
            done.0,
            200,
            "text/plain"@,
            restart_notice("peripherals config"@),
        ) && done.1 is Some && done.1->0.key == StoreKey::Peripherals && done.1->0.value@
            == decode_utf8(body@),
        !valid_utf8(body@) ==> answers(
            done.0,
            400,
            "text/plain"@,
            "failed to parse request body"@,
        ) && done.1 is None,
{
    store_text(StoreKey::Peripherals, "peripherals config", "failed to parse request body", body)
}

/// Takes the address of the upstream service.
pub fn server(body: Vec<u8>) -> (done: (Reply, Option<StoreWrite>))
    ensures
        valid_utf8(body@) ==> answers(done.0, 200, "text/plain"@, restart_notice("netsblox server"@))
            && done.1 is Some && done.1->0.key == StoreKey::NetsbloxServer && done.1->0.value@
            == decode_utf8(body@),
        !valid_utf8(body@) ==> answers(
            done.0,
            400,
            "text/plain"@,
            "ERROR: failed to parse request body"@,
        ) && done.1 is None,
{
    store_text(
        StoreKey::NetsbloxServer,
        "netsblox server",
        "ERROR: failed to parse request body",
        body,
    )
}

/// The input that a body asks for.
pub open spec fn input_named(body: Seq<u8>) -> Option<Input> {
    if !valid_utf8(body) {
        None
    } else if decode_utf8(body) == "start"@ {
        Some(Input::Start)
    } else if decode_utf8(body) == "stop"@ {
        Some(Input::Stop)
    } else {
        None
    }
}

/// Takes an input of the operator: `start` and `stop` are queued for the scheduler.
pub fn input(context: &mut RuntimeContext, body: Vec<u8>) -> (reply: Reply)
    ensures
        old(context).sound() ==> final(context).sound(),
        final(context).output() == old(context).output(),
        final(context).errors() == old(context).errors(),
        final(context).is_running() == old(context).is_running(),
        match input_named(body@) {
            Some(input) => answers(reply, 200, "text/plain"@, "accepted input"@) && final(context).commands() == old(context).commands().push(ServerCommand::Input(input)),
            None => reply.status == 400 && reply.content_type@ == "text/plain"@ && reply.body@ == (
            if valid_utf8(body@) {
                "unknown input sequence"@
            } else {
                "failed to parse request body"@
            }) && final(context).commands() == old(context).commands(),
        },
{
    match text_of_utf8(body) {
        None => say(400, "failed to parse request body"),
        Some(text) => {
            let input = if same_text(text.as_str(), "start") {
                Input::Start
            } else if same_text(text.as_str(), "stop") {
                Input::Stop
            } else {
                return say(400, "unknown input sequence");
            };
            context.enqueue(ServerCommand::Input(input));
            say(200, "accepted input")
        },
    }
}

/// Flips the pause flag.
pub fn toggle_paused(context: &mut RuntimeContext) -> (reply: Reply)
    ensures
        answers(reply, 200, "text/plain"@, "toggled pause state"@),
        final(context).is_running() == !old(context).is_running(),
        final(context).output() == old(context).output(),
        final(context).errors() == old(context).errors(),
        final(context).commands() == old(context).commands(),
        old(context).sound() ==> final(context).sound(),
{
    context.toggle_paused();
    say(200, "toggled pause state")
}

/// Wipes the store: every entry is to be cleared, in the order given.
pub fn wipe() -> (done: (Reply, Vec<StoreKey>))
    ensures
        answers(
            done.0,
            200,
            "text/plain"@,
            "wiped all data... restart the board to apply changes..."@,
        ),
        done.1@.len() == ENTRIES,
        forall|i: int| 0 <= i < ENTRIES ==> done.1@[i] == entry_at(i),
{
    (say(200, "wiped all data... restart the board to apply changes..."), all_entries())
}

/// For which side of the radio credentials are.
#[derive(Debug, Clone, Copy, PartialEq, Eq, Structural)]
pub enum WifiKind {
    AccessPoint,
    Client,
}

/// New credentials.
#[derive(Debug)]
pub struct WifiConfig {
    pub kind: WifiKind,
    pub ssid: String,
    pub pass: String,
}

/// Whether credentials have lengths that the radio takes: a name of 2 to 31 bytes and
/// a password of 8 to 63.
pub open spec fn lengths_fit(ssid: Seq<char>, pass: Seq<char>) -> bool {
    2 <= encode_utf8(ssid).len() < 32 && 8 <= encode_utf8(pass).len() < 64
}

/// The status of the answer to new credentials: 200 where they could be read and have
/// fitting lengths, else 400.
pub open spec fn wifi_status(request: Option<WifiConfig>) -> u16 {
    match request {
        Some(config) => if lengths_fit(config.ssid@, config.pass@) {
            200
        } else {
            400
        },
        None => 400,
    }
}

/// The body of the answer to new credentials.
pub open spec fn wifi_answer(request: Option<WifiConfig>) -> Seq<char> {
    match request {
        Some(config) => if lengths_fit(config.ssid@, config.pass@) {
            restart_notice("wifi config"@)
        } else {
            "ERROR: ssid or password had invalid length"@
        },
        None => "ERROR: failed to parse request body"@,
    }
}

/// Takes new credentials. `request` is the body as far as it could be read. Credentials
/// of fitting lengths are to be written, the name before the password, to the entries
/// of their side.
pub fn wifi_config(request: Option<WifiConfig>) -> (done: (Reply, Vec<StoreWrite>))
    ensures
        answers(done.0, wifi_status(request), "text/plain"@, wifi_answer(request)),
        done.1@.len() == (if wifi_status(request) == 200 {
            2int
        } else {
            0int
        }),
        wifi_status(request) == 200 ==> {
            &&& done.1@[0].key == (match request->0.kind {
                WifiKind::AccessPoint => StoreKey::WifiApSsid,
                WifiKind::Client => StoreKey::WifiClientSsid,
            })
            &&& done.1@[0].value == request->0.ssid
            &&& done.1@[1].key == (match request->0.kind {
                WifiKind::AccessPoint => StoreKey::WifiApPass,
                WifiKind::Client => StoreKey::WifiClientPass,
            })
            &&& done.1@[1].value == request->0.pass
        },
{
    match request {
        None => (say(400, "ERROR: failed to parse request body"), Vec::new()),
        Some(config) => {
            let WifiConfig { kind, ssid, pass } = config;
            let ssid_len = ssid.as_str().as_bytes().len();
            let pass_len = pass.as_str().as_bytes().len();
            if !(2 <= ssid_len && ssid_len < 32) || !(8 <= pass_len && pass_len < 64) {
                return (say(400, "ERROR: ssid or password had invalid length"), Vec::new());
            }
            let (ssid_key, pass_key) = match kind {
                WifiKind::AccessPoint => (StoreKey::WifiApSsid, StoreKey::WifiApPass),
                WifiKind::Client => (StoreKey::WifiClientSsid, StoreKey::WifiClientPass),
            };
            let mut writes: Vec<StoreWrite> = Vec::new();
            writes.push(StoreWrite { key: ssid_key, value: ssid });
            writes.push(StoreWrite { key: pass_key, value: pass });
            (say_updated("wifi config"), writes)
        },
    }
}

} // verus!
