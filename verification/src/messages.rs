//! The message bus to the upstream service, as far as it is a matter of deciding: where
//! an inbound frame goes, what an outbound message looks like on the wire, and under
//! which addresses the service is reached.

use crate::http::Response;
use crate::reply::{delivered, expiry_of, ReplyEntry, ReplyTable};
use crate::text::{after_prefix, contains_part, decimal, decimal_text, has_part, same_text, text_of_utf8};
use vstd::prelude::*;
use vstd::string::*;
use vstd::utf8::{decode_utf8, valid_utf8};

verus! {

/// A member of a frame that is expected to be a text.
#[derive(Debug)]
pub enum Field {
    /// The frame has no such member.
    Absent,
    Text(String),
    /// The member is there and is no text.
    Other,
}

/// A named value.
#[derive(Debug)]
pub struct Member<J> {
    pub name: String,
    pub value: J,
}

/// What the router reads of an inbound frame. `J` is the type of the values that the
/// frame carries; the router hands them on as they are.
#[derive(Debug)]
pub struct Frame<J> {
    /// The member `type`, where it is a text.
    pub kind: Option<String>,
    /// The member `msgType`.
    pub msg_type: Field,
    /// The members of `content`, where that is an object.
    pub content: Option<Vec<Member<J>>>,
    /// The member `requestId`.
    pub request_id: Field,
    /// The member `srcId`.
    pub src_id: Field,
}

/// The key that a reply to an incoming request must carry.
#[derive(Debug)]
pub struct InternReplyKey {
    pub src_id: String,
    pub request_id: String,
}

/// Where an inbound frame goes.
#[derive(Debug)]
pub enum Routed<J> {
    /// Nowhere: the frame is dropped.
    Ignore,
    /// A ping: it is answered with a pong.
    Pong,
    /// A reply to the request `request_id`: it goes to the table of replies.
    Reply { request_id: String, value: J },
    /// A message for the project.
    Message { msg_type: String, values: Vec<Member<J>>, reply_key: Option<InternReplyKey> },
}

/// The place of the first member named `body` among `content[from..]`.
pub open spec fn body_from<J>(content: Seq<Member<J>>, from: int) -> Option<int>
    decreases content.len() - from,
{
    if from < 0 || from >= content.len() {
        None
    } else if content[from].name@ == "body"@ {
        Some(from)
    } else {
        body_from(content, from + 1)
    }
}

/// Where the frame `frame` goes.
pub open spec fn routed<J>(frame: Frame<J>) -> Routed<J> {
    match frame.kind {
        None => Routed::Ignore,
        Some(kind) => if kind@ == "ping"@ {
            Routed::Pong
        } else if kind@ == "message"@ {
            match (frame.msg_type, frame.content) {
                (Field::Text(msg_type), Some(content)) => if msg_type@ == "__reply__"@ {
                    match (body_from(content@, 0), frame.request_id) {
                        (Some(at), Field::Text(request_id)) => Routed::Reply {
                            request_id,
                            value: content@[at].value,
                        },
                        _ => Routed::Ignore,
                    }
                } else {
                    match (frame.src_id, frame.request_id) {
                        (_, Field::Absent) => Routed::Message {
                            msg_type,
                            values: content,
                            reply_key: None,
                        },
                        (Field::Text(src_id), Field::Text(request_id)) => Routed::Message {
                            msg_type,
                            values: content,
                            reply_key: Some(InternReplyKey { src_id, request_id }),
                        },
                        _ => Routed::Ignore,
                    }
                },
                _ => Routed::Ignore,
            }
        } else {
            Routed::Ignore
        },
    }
}

fn find_body<J>(content: &Vec<Member<J>>) -> (at: Option<usize>)
    ensures
        match at {
            Some(i) => body_from(content@, 0) == Some(i as int) && i < content@.len(),
            None => body_from(content@, 0) is None,
        },
{
    let mut i: usize = 0;
    while i < content.len()
        invariant
            i <= content.len(),
            body_from(content@, 0) == body_from(content@, i as int),
        decreases content.len() - i,
    {
        if same_text(content[i].name.as_str(), "body") {
            return Some(i);
        }
        i = i + 1;
    }
    None
}

/// Decides where an inbound frame goes.
pub fn route<J>(frame: Frame<J>) -> (to: Routed<J>)
    ensures
        to == routed(frame),
{
    let Frame { kind, msg_type, content, request_id, src_id } = frame;
    let kind = match kind {
        Some(kind) => kind,
        None => {
            return Routed::Ignore;
        },
    };
    if same_text(kind.as_str(), "ping") {
        return Routed::Pong;
    }
    if !same_text(kind.as_str(), "message") {
        return Routed::Ignore;
    }
    match (msg_type, content) {
        (Field::Text(msg_type), Some(content)) => {
            if same_text(msg_type.as_str(), "__reply__") {
                let mut content = content;
                match (find_body(&content), request_id) {
                    (Some(at), Field::Text(request_id)) => {
                        let member = content.remove(at);
                        Routed::Reply { request_id, value: member.value }
                    },
                    _ => Routed::Ignore,
                }
            } else {
                match (src_id, request_id) {
                    (_, Field::Absent) => Routed::Message {
                        msg_type,
                        values: content,
                        reply_key: None,
                    },
                    (Field::Text(src_id), Field::Text(request_id)) => Routed::Message {
                        msg_type,
                        values: content,
                        reply_key: Some(InternReplyKey { src_id, request_id }),
                    },
                    _ => Routed::Ignore,
                }
            }
        },
        _ => Routed::Ignore,
    }
}

/// What is left to do with an inbound frame once the replies are dealt with.
#[derive(Debug)]
pub enum Received<J> {
    Nothing,
    /// Answer with a pong.
    Pong,
    /// Hand the message to the project.
    Message { msg_type: String, values: Vec<Member<J>>, reply_key: Option<InternReplyKey> },
}

/// Takes an inbound frame: a reply goes into the table of replies, where the first
/// reply to an awaited request is kept and any other is dropped; a ping and a message
/// are handed back.
pub fn accept<J>(replies: &mut ReplyTable<J>, frame: Frame<J>) -> (got: Received<J>)
    requires
        old(replies).sound(),
    ensures
        final(replies).sound(),
        match routed(frame) {
            Routed::Ignore => got == Received::<J>::Nothing && final(replies)@ == old(replies)@,
            Routed::Pong => got == Received::<J>::Pong && final(replies)@ == old(replies)@,
            Routed::Reply { request_id, value } => got == Received::<J>::Nothing && final(replies)@ == delivered(old(replies)@, request_id@, value),
            Routed::Message { msg_type, values, reply_key } => got == (Received::Message {
                msg_type,
                values,
                reply_key,
            }) && final(replies)@ == old(replies)@,
        },
{
    match route(frame) {
        Routed::Ignore => Received::Nothing,
        Routed::Pong => Received::Pong,
        Routed::Reply { request_id, value } => {
            replies.deliver(request_id.as_str(), value);
            Received::Nothing
        },
        Routed::Message { msg_type, values, reply_key } => Received::Message {
            msg_type,
            values,
            reply_key,
        },
    }
}

/// A message on its way out.
#[derive(Debug)]
#[allow(inconsistent_fields)]
pub enum OutgoingMessage<J> {
    Normal { msg_type: String, values: Vec<Member<J>>, targets: Vec<String> },
    /// A message to which a reply is awaited under `reply_key`.
    Blocking { msg_type: String, values: Vec<Member<J>>, targets: Vec<String>, reply_key: String },
    /// The reply to an incoming request.
    Reply { value: J, reply_key: InternReplyKey },
}

/// The target that stands for the sender's own room.
pub open spec fn everyone() -> Seq<char> {
    "everyone in room"@
}

/// The targets as they go on the wire: the sender's public id in place of each target
/// that stands for its own room.
pub open spec fn resolved_targets(targets: Seq<Seq<char>>, src_id: Seq<char>) -> Seq<Seq<char>> {
    Seq::new(
        targets.len(),
        |i: int|
            if targets[i] == everyone() {
                src_id
            } else {
                targets[i]
            },
    )
}

/// Puts the sender's public id in place of each target that stands for its own room.
pub fn resolve_targets(targets: Vec<String>, src_id: &str) -> (resolved: Vec<String>)
    ensures
        resolved.deep_view() == resolved_targets(targets.deep_view(), src_id@),
{
    let mut resolved: Vec<String> = Vec::new();
    let mut i: usize = 0;
    while i < targets.len()
        invariant
            i <= targets.len(),
            resolved@.len() == i,
            forall|j: int|
                0 <= j < i ==> (#[trigger] resolved@[j])@ == resolved_targets(
                    targets.deep_view(),
                    src_id@,
                )[j],
        decreases targets.len() - i,
    {
        assert(targets.deep_view()[i as int] == targets[i as int]@);
        if same_text(targets[i].as_str(), "everyone in room") {
            resolved.push(String::from_str(src_id));
        } else {
            resolved.push(targets[i].clone());
        }
        i = i + 1;
    }
    assert(resolved.deep_view() =~= resolved_targets(targets.deep_view(), src_id@));
    resolved
}

/// To whom an envelope goes.
#[derive(Debug)]
pub enum Destination {
    Many(Vec<String>),
    One(String),
}

/// A message as it goes on the wire, member by member.
#[derive(Debug)]
pub struct Envelope<J> {
    pub dst_id: Destination,
    pub src_id: Option<String>,
    pub msg_type: String,
    pub request_id: Option<String>,
    pub content: Vec<Member<J>>,
}

/// Whether `envelope` is how `message` from the sender `src_id` goes on the wire.
pub open spec fn enveloped<J>(message: OutgoingMessage<J>, src_id: Seq<char>, envelope: Envelope<J>)
    -> bool {
    match message {
        OutgoingMessage::Normal { msg_type, values, targets } => {
            &&& envelope.dst_id matches Destination::Many(to) && to.deep_view() == resolved_targets(
                targets.deep_view(),
                src_id,
            )
            &&& envelope.src_id matches Some(from) && from@ == src_id
            &&& envelope.msg_type == msg_type
            &&& envelope.request_id is None
            &&& envelope.content == values
        },
        OutgoingMessage::Blocking { msg_type, values, targets, reply_key } => {
            &&& envelope.dst_id matches Destination::Many(to) && to.deep_view() == resolved_targets(
                targets.deep_view(),
                src_id,
            )
            &&& envelope.src_id matches Some(from) && from@ == src_id
            &&& envelope.msg_type == msg_type
            &&& envelope.request_id == Some(reply_key)
            &&& envelope.content == values
        },
        OutgoingMessage::Reply { value, reply_key } => {
            &&& envelope.dst_id == Destination::One(reply_key.src_id)
            &&& envelope.src_id is None
            &&& envelope.msg_type@ == "__reply__"@
            &&& envelope.request_id == Some(reply_key.request_id)
            &&& envelope.content@.len() == 1
            &&& envelope.content@[0].name@ == "body"@
            &&& envelope.content@[0].value == value
        },
    }
}

/// Shapes a message for the wire.
pub fn envelope<J>(message: OutgoingMessage<J>, src_id: &str) -> (shaped: Envelope<J>)
    ensures
        enveloped(message, src_id@, shaped),
{
    match message {
        OutgoingMessage::Normal { msg_type, values, targets } => Envelope {
            dst_id: Destination::Many(resolve_targets(targets, src_id)),
            src_id: Some(String::from_str(src_id)),
            msg_type,
            request_id: None,
            content: values,
        },
        OutgoingMessage::Blocking { msg_type, values, targets, reply_key } => Envelope {
            dst_id: Destination::Many(resolve_targets(targets, src_id)),
            src_id: Some(String::from_str(src_id)),
            msg_type,
            request_id: Some(reply_key),
            content: values,
        },
        OutgoingMessage::Reply { value, reply_key } => {
            let InternReplyKey { src_id: to, request_id } = reply_key;
            let mut content: Vec<Member<J>> = Vec::new();
            content.push(Member { name: String::from_str("body"), value });
            Envelope {
                dst_id: Destination::One(to),
                src_id: None,
                msg_type: String::from_str("__reply__"),
                request_id: Some(request_id),
                content,
            }
        },
    }
}

/// Makes the message to send and, where a reply is expected, starts to await it from
/// `now` on: the message then carries the id of a new request, which is returned too.
pub fn send_message<J, V>(
    replies: &mut ReplyTable<J>,
    msg_type: String,
    values: Vec<Member<V>>,
    targets: Vec<String>,
    expect_reply: bool,
    now: u64,
) -> (sent: (OutgoingMessage<V>, Option<String>))
    requires
        old(replies).sound(),
    ensures
        final(replies).sound(),
        !expect_reply ==> final(replies)@ == old(replies)@ && sent.1 is None && sent.0
            == (OutgoingMessage::Normal { msg_type, values, targets }),
        expect_reply ==> sent.1 is Some && final(replies)@ == old(replies)@.insert(
            sent.1->0@,
            ReplyEntry { expiry: expiry_of(now), value: None },
        ),
        expect_reply ==> (sent.0 matches OutgoingMessage::Blocking {
            msg_type: m,
            values: v,
            targets: t,
            reply_key,
        } && m == msg_type && v == values && t == targets && reply_key@ == sent.1->0@),
{
    if expect_reply {
        let key = replies.expect(now);
        (OutgoingMessage::Blocking { msg_type, values, targets, reply_key: key.clone() }, Some(key))
    } else {
        (OutgoingMessage::Normal { msg_type, values, targets }, None)
    }
}

/// The id under which other clients reach a project: its name, the client's id, and
/// the mark of this kind of client.
pub open spec fn public_id_text(project_name: Seq<char>, client_id: Seq<char>) -> Seq<char> {
    project_name + "@"@ + client_id + "#vm"@
}

/// Gets the public id of the running system that can be used to send messages to this
/// client.
pub fn get_public_id(project_name: &str, client_id: &str) -> (id: String)
    ensures
        id@ == public_id_text(project_name@, client_id@),
{
    let mut id = String::from_str(project_name);
    id.append("@");
    id.append(client_id);
    id.append("#vm");
    id
}

/// The address of the socket of the client `client_id` at the service `base_url`: the
/// base with `ws` in place of a leading `http` (so that `https` gives `wss`), or with
/// `wss://` before it where it names no scheme, and the path of the client's socket.
pub open spec fn websocket_url_text(base_url: Seq<char>, client_id: Seq<char>) -> Seq<char> {
    (if "http"@.is_prefix_of(base_url) {
        "ws"@ + base_url.skip("http"@.len() as int)
    } else {
        "wss://"@ + base_url
    }) + "/network/"@ + client_id + "/connect"@
}

/// Writes the address of the socket of a client.
pub fn websocket_url(base_url: &str, client_id: &str) -> (url: String)
    ensures
        url@ == websocket_url_text(base_url@, client_id@),
{
    let mut url = match after_prefix(base_url, "http") {
        Some(rest) => {
            assert(rest@ =~= base_url@.skip("http"@.len() as int));
            assert("http"@.is_prefix_of(base_url@)) by {
                assert(base_url@.subrange(0, "http"@.len() as int) =~= "http"@);
            }
            let mut url = String::from_str("ws");
            url.append(rest);
            url
        },
        None => {
            let mut url = String::from_str("wss://");
            url.append(base_url);
            url
        },
    };
    url.append("/network/");
    url.append(client_id);
    url.append("/connect");
    url
}

/// The address of one call of the procedure `rpc` of `service`, made by the client
/// `client_id` at the time `time`, in milliseconds.
pub open spec fn rpc_url_text(
    services_url: Seq<char>,
    service: Seq<char>,
    rpc: Seq<char>,
    client_id: Seq<char>,
    time: u64,
) -> Seq<char> {
    services_url + "/"@ + service + "/"@ + rpc + "?clientId="@ + client_id + "&t="@
        + decimal_text(time as nat)
}

/// Writes the address of one call of a remote procedure.
pub fn rpc_url(services_url: &str, service: &str, rpc: &str, client_id: &str, time: u64) -> (url:
    String)
    ensures
        url@ == rpc_url_text(services_url@, service@, rpc@, client_id@, time),
{
    let mut url = String::from_str(services_url);
    url.append("/");
    url.append(service);
    url.append("/");
    url.append(rpc);
    url.append("?clientId=");
    url.append(client_id);
    url.append("&t=");
    url.append(decimal(time).as_str());
    url
}

/// Whether a call is the one that the client answers itself: the query for its own
/// public id, which takes no arguments.
pub fn answered_locally(service: &str, rpc: &str, args: usize) -> (local: bool)
    ensures
        local == (service@ == "PublicRoles"@ && rpc@ == "getPublicRoleId"@ && args == 0),
{
    same_text(service, "PublicRoles") && same_text(rpc, "getPublicRoleId") && args == 0
}

/// What a call of a remote procedure came to.
#[derive(Debug)]
pub enum RpcReply {
    /// The call failed, with this message.
    Fail(String),
    Image(Vec<u8>),
    Audio(Vec<u8>),
    /// The body holds a value: structured where it can be read so, else a text.
    Data(Vec<u8>),
}

/// The message for a failure whose own message cannot be read.
pub open spec fn ill_formed_error() -> Seq<char> {
    "Received ill-formed error message"@
}

/// The message for a value that can be read neither as structured nor as a text.
pub open spec fn ill_formed_value() -> Seq<char> {
    "Received ill-formed success value"@
}

/// Sorts the response to a remote call: a status outside 200 to 299 is a failure whose
/// message is the body; a body announced as an image or as audio is that; any other
/// body holds a value.
pub fn classify(response: Response) -> (reply: RpcReply)
    ensures
        !(200 <= response.status < 300) ==> (reply matches RpcReply::Fail(message) && message@ == (
        if valid_utf8(response.body@) {
            decode_utf8(response.body@)
        } else {
            ill_formed_error()
        })),
        200 <= response.status < 300 ==> reply == (match response.content_type {
            Some(kind) => if has_part(kind@, "image/"@) {
                RpcReply::Image(response.body)
            } else if has_part(kind@, "audio/"@) {
                RpcReply::Audio(response.body)
            } else {
                RpcReply::Data(response.body)
            },
            None => RpcReply::Data(response.body),
        }),
{
    let Response { status, body, content_type } = response;
    if !(200 <= status && status < 300) {
        return match text_of_utf8(body) {
            Some(message) => RpcReply::Fail(message),
            None => RpcReply::Fail(String::from_str("Received ill-formed error message")),
        };
    }
    match content_type {
        Some(kind) => {
            if contains_part(kind.as_str(), "image/") {
                RpcReply::Image(body)
            } else if contains_part(kind.as_str(), "audio/") {
                RpcReply::Audio(body)
            } else {
                RpcReply::Data(body)
            }
        },
        None => RpcReply::Data(body),
    }
}

/// Reads a body that could not be read as a structured value as a text.
pub fn data_as_text(body: Vec<u8>) -> (text: Result<String, String>)
    ensures
        match text {
            Ok(text) => valid_utf8(body@) && text@ == decode_utf8(body@),
            Err(message) => !valid_utf8(body@) && message@ == ill_formed_value(),
        },
{
    match text_of_utf8(body) {
        Some(text) => Ok(text),
        None => Err(String::from_str("Received ill-formed success value")),
    }
}

/// The message for a call that did not reach the service at `base_url`.
pub fn failed_to_reach(base_url: &str) -> (message: String)
    ensures
        message@ == "Failed to reach "@ + base_url@,
{
    let mut message = String::from_str("Failed to reach ");
    message.append(base_url);
    message
}

} // verus!
