//! The messages exchanged with the manager, and their wire form.
use vstd::prelude::*;
use crate::action::{Action, decode_action, lemma_action_round_trip};
use crate::json::{Json, field, is_text, distinct_keys, take_fields, text, text_is, lemma_field_is};
use crate::plugin::{Input, PluginName};

verus! {

/// The protocol version that every envelope carries.
pub const COLLECTION: u8 = 2;

/// The id that the manager gives a session.
#[derive(Debug, Clone, PartialEq, Eq, Hash)]
pub struct SessionId(pub String);

impl SessionId {
    /// A copy of this id.
    pub fn duplicate(&self) -> (r: SessionId)
        ensures
            r == *self,
    {
        SessionId(self.0.clone())
    }
}

/// A message to the manager.
#[derive(Debug, PartialEq, Eq)]
pub enum Message {
    Data { fqdn: String, plugin: PluginName, session_id: SessionId, session_seq: u64, body: Json },
    SessionCreateRequest { fqdn: String, plugin: PluginName },
}

/// The message of `j`, where it is one: an object whose `type` is `DATA` or
/// `SESSION_CREATE_REQUEST`, with the fields of that kind.
pub open spec fn decode_message(j: Json) -> Option<Message> {
    match j {
        Json::Object(fs) => {
            let f = fs@;
            match (field(f, "type"@), field(f, "fqdn"@), field(f, "plugin"@)) {
                (Some(t), Some(Json::Str(fqdn)), Some(Json::Str(plugin))) => {
                    if is_text(t, "DATA"@) {
                        match (field(f, "session_id"@), field(f, "session_seq"@), field(f, "body"@)) {
                            (Some(Json::Str(id)), Some(Json::UInt(n)), Some(body)) => Some(
                                Message::Data {
                                    fqdn,
                                    plugin: PluginName(plugin),
                                    session_id: SessionId(id),
                                    session_seq: n,
                                    body,
                                },
                            ),
                            _ => None,
                        }
                    } else if is_text(t, "SESSION_CREATE_REQUEST"@) {
                        Some(Message::SessionCreateRequest { fqdn, plugin: PluginName(plugin) })
                    } else {
                        None
                    }
                },
                _ => None,
            }
        },
        _ => None,
    }
}

impl Message {
    /// Whether `j` is the wire form of this message: an object whose first field is
    /// `type`, followed by the message's fields in order.
    pub open spec fn encoded_as(&self, j: Json) -> bool {
        j is Object && {
            let f = j->Object_0@;
            &&& f.len() >= 3
            &&& f[0].0@ == "type"@
            &&& f[1].0@ == "fqdn"@
            &&& f[2].0@ == "plugin"@
            &&& match self {
                Message::Data { fqdn, plugin, session_id, session_seq, body } => {
                    &&& f.len() == 6
                    &&& is_text(f[0].1, "DATA"@)
                    &&& f[1].1 == Json::Str(*fqdn)
                    &&& f[2].1 == Json::Str(plugin.0)
                    &&& f[3].0@ == "session_id"@ && f[3].1 == Json::Str(session_id.0)
                    &&& f[4].0@ == "session_seq"@ && f[4].1 == Json::UInt(*session_seq)
                    &&& f[5].0@ == "body"@ && f[5].1 == *body
                },
                Message::SessionCreateRequest { fqdn, plugin } => {
                    &&& f.len() == 3
                    &&& is_text(f[0].1, "SESSION_CREATE_REQUEST"@)
                    &&& f[1].1 == Json::Str(*fqdn)
                    &&& f[2].1 == Json::Str(plugin.0)
                },
            }
        }
    }

    /// The wire form of this message.
    pub fn into_json(self) -> (j: Json)
        ensures
            self.encoded_as(j),
    {
        let mut f: Vec<(String, Json)> = Vec::new();
        match self {
            Message::Data { fqdn, plugin, session_id, session_seq, body } => {
                f.push((text("type"), Json::Str(text("DATA"))));
                f.push((text("fqdn"), Json::Str(fqdn)));
                f.push((text("plugin"), Json::Str(plugin.0)));
                f.push((text("session_id"), Json::Str(session_id.0)));
                f.push((text("session_seq"), Json::UInt(session_seq)));
                f.push((text("body"), body));
            },
            Message::SessionCreateRequest { fqdn, plugin } => {
                f.push((text("type"), Json::Str(text("SESSION_CREATE_REQUEST"))));
                f.push((text("fqdn"), Json::Str(fqdn)));
                f.push((text("plugin"), Json::Str(plugin.0)));
            },
        }
        Json::Object(f)
    }

    /// Reads a message from its wire form.
    pub fn from_json(j: Json) -> (r: Option<Message>)
        ensures
            r == decode_message(j),
    {
        match j {
            Json::Object(fields) => {
                let mut keys: Vec<String> = Vec::new();
                keys.push(text("type"));
                keys.push(text("fqdn"));
                keys.push(text("plugin"));
                keys.push(text("session_id"));
                keys.push(text("session_seq"));
                keys.push(text("body"));
                proof {
                    lemma_message_keys_distinct();
                }
                assert(distinct_keys(keys@));
                let mut slots = take_fields(fields, &keys);
                let body = slots.pop().unwrap();
                let seq = slots.pop().unwrap();
                let id = slots.pop().unwrap();
                let plugin = slots.pop().unwrap();
                let fqdn = slots.pop().unwrap();
                let ty = slots.pop().unwrap();
                let (t, fqdn, plugin) = match (ty, fqdn, plugin) {
                    (Some(Json::Str(t)), Some(Json::Str(fqdn)), Some(Json::Str(plugin))) => (t, fqdn, plugin),
                    _ => {
                        return None;
                    },
                };
                if text_is(&t, "DATA") {
                    match (id, seq, body) {
                        (Some(Json::Str(id)), Some(Json::UInt(n)), Some(body)) => Some(
                            Message::Data {
                                fqdn,
                                plugin: PluginName(plugin),
                                session_id: SessionId(id),
                                session_seq: n,
                                body,
                            },
                        ),
                        _ => None,
                    }
                } else if text_is(&t, "SESSION_CREATE_REQUEST") {
                    Some(Message::SessionCreateRequest { fqdn, plugin: PluginName(plugin) })
                } else {
                    None
                }
            },
            _ => None,
        }
    }
}

proof fn lemma_message_keys_distinct()
    ensures
        "type"@ != "fqdn"@,
        "type"@ != "plugin"@,
        "type"@ != "session_id"@,
        "type"@ != "session_seq"@,
        "type"@ != "body"@,
        "fqdn"@ != "plugin"@,
        "fqdn"@ != "session_id"@,
        "fqdn"@ != "session_seq"@,
        "fqdn"@ != "body"@,
        "plugin"@ != "session_id"@,
        "plugin"@ != "session_seq"@,
        "plugin"@ != "body"@,
        "session_id"@ != "session_seq"@,
        "session_id"@ != "body"@,
        "session_seq"@ != "body"@,
{
    reveal_strlit("type");
    reveal_strlit("fqdn");
    reveal_strlit("plugin");
    reveal_strlit("session_id");
    reveal_strlit("session_seq");
    reveal_strlit("body");
    assert("plugin"@.len() == 6);
    assert("session_id"@.len() == 10);
    assert("session_seq"@.len() == 11);
    assert("type"@[0] != "fqdn"@[0]);
    assert("type"@[0] != "body"@[0]);
    assert("fqdn"@[0] != "body"@[0]);
}

/// Decoding the wire form of a message gives that message back.
pub proof fn lemma_message_round_trip(m: Message, j: Json)
    requires
        m.encoded_as(j),
    ensures
        decode_message(j) == Some(m),
{
    lemma_message_keys_distinct();
    reveal_strlit("DATA");
    reveal_strlit("SESSION_CREATE_REQUEST");
    let f = j->Object_0@;
    lemma_field_is(f, "type"@, 0);
    lemma_field_is(f, "fqdn"@, 1);
    lemma_field_is(f, "plugin"@, 2);
    match m {
        Message::Data { .. } => {
            lemma_field_is(f, "session_id"@, 3);
            lemma_field_is(f, "session_seq"@, 4);
            lemma_field_is(f, "body"@, 5);
        },
        Message::SessionCreateRequest { .. } => {
            assert("DATA"@.len() != "SESSION_CREATE_REQUEST"@.len());
        },
    }
}

/// A message from the manager.
#[derive(Debug, PartialEq, Eq)]
pub enum ManagerMessage {
    SessionCreateResponse { plugin: PluginName, session_id: SessionId },
    Data { plugin: PluginName, session_id: SessionId, body: Input },
    SessionTerminate { plugin: PluginName, session_id: SessionId },
    SessionTerminateAll,
}

/// The manager's message of `j`, where it is one: an object whose `type` is
/// `SESSION_TERMINATE_ALL`; or `SESSION_CREATE_RESPONSE`, `SESSION_TERMINATE` or
/// `DATA` with string fields `plugin` and `session_id`, and for `DATA` a `body` that
/// is an action request.
pub open spec fn decode_manager_message(j: Json) -> Option<ManagerMessage> {
    match j {
        Json::Object(fs) => {
            let f = fs@;
            match field(f, "type"@) {
                Some(t) => {
                    if is_text(t, "SESSION_TERMINATE_ALL"@) {
                        Some(ManagerMessage::SessionTerminateAll)
                    } else {
                        match (field(f, "plugin"@), field(f, "session_id"@)) {
                            (Some(Json::Str(p)), Some(Json::Str(id))) => {
                                if is_text(t, "SESSION_CREATE_RESPONSE"@) {
                                    Some(ManagerMessage::SessionCreateResponse { plugin: PluginName(p), session_id: SessionId(id) })
                                } else if is_text(t, "SESSION_TERMINATE"@) {
                                    Some(ManagerMessage::SessionTerminate { plugin: PluginName(p), session_id: SessionId(id) })
                                } else if is_text(t, "DATA"@) {
                                    match field(f, "body"@) {
                                        Some(b) => match decode_action(b) {
                                            Some(a) => Some(
                                                ManagerMessage::Data {
                                                    plugin: PluginName(p),
                                                    session_id: SessionId(id),
                                                    body: Input::Action(a),
                                                },
                                            ),
                                            None => None,
                                        },
                                        None => None,
                                    }
                                } else {
                                    None
                                }
                            },
                            _ => None,
                        }
                    }
                },
                None => None,
            }
        },
        _ => None,
    }
}

impl ManagerMessage {
    /// Whether `j` is the wire form of this message: `type`, then `plugin` and
    /// `session_id` (but for a terminate-all), then the `body` of a data message.
    pub open spec fn encoded_as(&self, j: Json) -> bool {
        j is Object && {
            let f = j->Object_0@;
            &&& f.len() >= 1
            &&& f[0].0@ == "type"@
            &&& match self {
                ManagerMessage::SessionTerminateAll => f.len() == 1 && is_text(f[0].1, "SESSION_TERMINATE_ALL"@),
                ManagerMessage::SessionCreateResponse { plugin, session_id } => {
                    &&& f.len() == 3 && is_text(f[0].1, "SESSION_CREATE_RESPONSE"@)
                    &&& f[1].0@ == "plugin"@ && f[1].1 == Json::Str(plugin.0)
                    &&& f[2].0@ == "session_id"@ && f[2].1 == Json::Str(session_id.0)
                },
                ManagerMessage::SessionTerminate { plugin, session_id } => {
                    &&& f.len() == 3 && is_text(f[0].1, "SESSION_TERMINATE"@)
                    &&& f[1].0@ == "plugin"@ && f[1].1 == Json::Str(plugin.0)
                    &&& f[2].0@ == "session_id"@ && f[2].1 == Json::Str(session_id.0)
                },
                ManagerMessage::Data { plugin, session_id, body } => {
                    let Input::Action(a) = *body;
                    &&& f.len() == 4 && is_text(f[0].1, "DATA"@)
                    &&& f[1].0@ == "plugin"@ && f[1].1 == Json::Str(plugin.0)
                    &&& f[2].0@ == "session_id"@ && f[2].1 == Json::Str(session_id.0)
                    &&& f[3].0@ == "body"@ && a.encoded_as(f[3].1)
                },
            }
        }
    }

    /// The wire form of this message.
    pub fn into_json(self) -> (j: Json)
        ensures
            self.encoded_as(j),
    {
        let mut f: Vec<(String, Json)> = Vec::new();
        match self {
            ManagerMessage::SessionTerminateAll => {
                f.push((text("type"), Json::Str(text("SESSION_TERMINATE_ALL"))));
            },
            ManagerMessage::SessionCreateResponse { plugin, session_id } => {
                f.push((text("type"), Json::Str(text("SESSION_CREATE_RESPONSE"))));
                f.push((text("plugin"), Json::Str(plugin.0)));
                f.push((text("session_id"), Json::Str(session_id.0)));
            },
            ManagerMessage::SessionTerminate { plugin, session_id } => {
                f.push((text("type"), Json::Str(text("SESSION_TERMINATE"))));
                f.push((text("plugin"), Json::Str(plugin.0)));
                f.push((text("session_id"), Json::Str(session_id.0)));
            },
            ManagerMessage::Data { plugin, session_id, body } => {
                let Input::Action(a) = body;
                f.push((text("type"), Json::Str(text("DATA"))));
                f.push((text("plugin"), Json::Str(plugin.0)));
                f.push((text("session_id"), Json::Str(session_id.0)));
                f.push((text("body"), a.into_json()));
            },
        }
        Json::Object(f)
    }

    /// Reads a manager's message from its wire form.
    pub fn from_json(j: Json) -> (r: Option<ManagerMessage>)
        ensures
            r == decode_manager_message(j),
    {
        match j {
            Json::Object(fields) => {
                let mut keys: Vec<String> = Vec::new();
                keys.push(text("type"));
                keys.push(text("plugin"));
                keys.push(text("session_id"));
                keys.push(text("body"));
                proof {
                    lemma_message_keys_distinct();
                }
                assert(distinct_keys(keys@));
                let mut slots = take_fields(fields, &keys);
                let body = slots.pop().unwrap();
                let id = slots.pop().unwrap();
                let plugin = slots.pop().unwrap();
                let ty = slots.pop().unwrap();
                let t = match ty {
                    Some(t) => t,
                    None => {
                        return None;
                    },
                };
                let t = match t {
                    Json::Str(t) => t,
                    _ => {
                        return None;
                    },
                };
                if text_is(&t, "SESSION_TERMINATE_ALL") {
                    return Some(ManagerMessage::SessionTerminateAll);
                }
                let (plugin, session_id) = match (plugin, id) {
                    (Some(Json::Str(p)), Some(Json::Str(id))) => (PluginName(p), SessionId(id)),
                    _ => {
                        return None;
                    },
                };
                if text_is(&t, "SESSION_CREATE_RESPONSE") {
                    Some(ManagerMessage::SessionCreateResponse { plugin, session_id })
                } else if text_is(&t, "SESSION_TERMINATE") {
                    Some(ManagerMessage::SessionTerminate { plugin, session_id })
                } else if text_is(&t, "DATA") {
                    match body {
                        Some(b) => match Action::from_json(b) {
                            Some(a) => Some(ManagerMessage::Data { plugin, session_id, body: Input::Action(a) }),
                            None => None,
                        },
                        None => None,
                    }
                } else {
                    None
                }
            },
            _ => None,
        }
    }
}

proof fn lemma_manager_tags_distinct()
    ensures
        "SESSION_TERMINATE_ALL"@ != "SESSION_CREATE_RESPONSE"@,
        "SESSION_TERMINATE_ALL"@ != "SESSION_TERMINATE"@,
        "SESSION_TERMINATE_ALL"@ != "DATA"@,
        "SESSION_CREATE_RESPONSE"@ != "SESSION_TERMINATE"@,
        "SESSION_CREATE_RESPONSE"@ != "DATA"@,
        "SESSION_TERMINATE"@ != "DATA"@,
{
    reveal_strlit("SESSION_TERMINATE_ALL");
    reveal_strlit("SESSION_CREATE_RESPONSE");
    reveal_strlit("SESSION_TERMINATE");
    reveal_strlit("DATA");
    assert("SESSION_TERMINATE_ALL"@.len() == 21);
    assert("SESSION_CREATE_RESPONSE"@.len() == 23);
    assert("SESSION_TERMINATE"@.len() == 17);
    assert("DATA"@.len() == 4);
}

/// Decoding the wire form of a manager's message gives that message back.
pub proof fn lemma_manager_message_round_trip(m: ManagerMessage, j: Json)
    requires
        m.encoded_as(j),
    ensures
        decode_manager_message(j) == Some(m),
{
    lemma_message_keys_distinct();
    lemma_manager_tags_distinct();
    let f = j->Object_0@;
    lemma_field_is(f, "type"@, 0);
    match m {
        ManagerMessage::SessionTerminateAll => {},
        ManagerMessage::Data { body, .. } => {
            lemma_field_is(f, "plugin"@, 1);
            lemma_field_is(f, "session_id"@, 2);
            lemma_field_is(f, "body"@, 3);
            let Input::Action(a) = body;
            lemma_action_round_trip(a, f[3].1);
        },
        _ => {
            lemma_field_is(f, "plugin"@, 1);
            lemma_field_is(f, "session_id"@, 2);
        },
    }
}

/// The batch of messages that one request to the manager returns.
#[derive(Debug, PartialEq, Eq)]
pub struct ManagerMessages {
    pub messages: Vec<ManagerMessage>,
}

/// The items of the `messages` array of `j`, where it has one.
pub open spec fn message_items(j: Json) -> Option<Seq<Json>> {
    match j {
        Json::Object(fs) => match field(fs@, "messages"@) {
            Some(Json::Array(v)) => Some(v@),
            _ => None,
        },
        _ => None,
    }
}

impl ManagerMessages {
    /// Reads a batch `{"messages": [...]}`; it fails where any message fails.
    pub fn from_json(j: Json) -> (r: Option<ManagerMessages>)
        ensures
            r is Some <==> (message_items(j) is Some && forall|i: int|
                0 <= i < message_items(j)->0.len() ==> decode_manager_message(#[trigger] message_items(j)->0[i]) is Some),
            r is Some ==> r->0.messages@.len() == message_items(j)->0.len() && forall|i: int|
                0 <= i < r->0.messages@.len() ==> Some(#[trigger] r->0.messages@[i]) == decode_manager_message(message_items(j)->0[i]),
    {
        let fields = match j {
            Json::Object(fields) => fields,
            _ => {
                return None;
            },
        };
        let mut keys: Vec<String> = Vec::new();
        keys.push(text("messages"));
        let mut slots = take_fields(fields, &keys);
        let items = match slots.pop().unwrap() {
            Some(Json::Array(v)) => v,
            _ => {
                return None;
            },
        };
        let ghost orig = items@;
        assert(message_items(j) == Some(orig));
        let mut items = items;
        let mut rev: Vec<Json> = Vec::new();
        while items.len() > 0
            invariant
                items@ == orig.subrange(0, items@.len() as int),
                message_items(j) == Some(orig),
                rev@.len() + items@.len() == orig.len(),
                forall|k: int| 0 <= k < rev@.len() ==> rev@[k] == orig[orig.len() - 1 - k],
            decreases items@.len(),
        {
            let v = items.pop().unwrap();
            rev.push(v);
        }
        let mut out: Vec<ManagerMessage> = Vec::new();
        while rev.len() > 0
            invariant
                rev@.len() + out@.len() == orig.len(),
                forall|k: int| 0 <= k < rev@.len() ==> rev@[k] == orig[orig.len() - 1 - k],
                forall|k: int| 0 <= k < out@.len() ==> Some(#[trigger] out@[k]) == decode_manager_message(orig[k]),
                message_items(j) == Some(orig),
            decreases rev@.len(),
        {
            let v = rev.pop().unwrap();
            let ghost k = out@.len() as int;
            assert(v == orig[k]);
            match ManagerMessage::from_json(v) {
                Some(m) => out.push(m),
                None => {
                    assert(decode_manager_message(message_items(j)->0[k]) is None);
                    return None;
                },
            }
        }
        assert forall|i: int| 0 <= i < orig.len() implies decode_manager_message(#[trigger] orig[i]) is Some by {
            assert(Some(out@[i]) == decode_manager_message(orig[i]));
        }
        Some(ManagerMessages { messages: out })
    }
}

/// A batch of messages to the manager.
#[derive(Debug, PartialEq, Eq)]
pub struct Envelope {
    collection: u8,
    messages: Vec<Message>,
    server_boot_time: String,
    client_start_time: String,
}

impl Envelope {
    #[verifier::type_invariant]
    spec fn inv(&self) -> bool {
        self.collection == COLLECTION
    }

    pub closed spec fn spec_collection(&self) -> u8 {
        self.collection
    }

    pub closed spec fn spec_messages(&self) -> Seq<Message> {
        self.messages@
    }

    pub closed spec fn spec_server_boot_time(&self) -> String {
        self.server_boot_time
    }

    pub closed spec fn spec_client_start_time(&self) -> String {
        self.client_start_time
    }

    /// Packs `messages` with the agent's boot time and the client's start time.
    pub fn new(messages: Vec<Message>, client_start_time: String, server_boot_time: String) -> (r: Envelope)
        ensures
            r.spec_collection() == COLLECTION,
            r.spec_messages() == messages@,
            r.spec_server_boot_time() == server_boot_time,
            r.spec_client_start_time() == client_start_time,
    {
        Envelope { collection: COLLECTION, messages, server_boot_time, client_start_time }
    }

    /// The protocol version of this envelope.
    pub fn collection(&self) -> (r: u8)
        ensures
            r == self.spec_collection(),
            r == COLLECTION,
    {
        proof {
            use_type_invariant(self);
        }
        self.collection
    }

    /// The wire form: `collection`, `messages`, `server_boot_time` and
    /// `client_start_time`, in that order.
    pub fn into_json(self) -> (j: Json)
        ensures
            j is Object && j->Object_0@.len() == 4 && {
                let f = j->Object_0@;
                &&& f[0].0@ == "collection"@ && f[0].1 == Json::UInt(COLLECTION as u64)
                &&& f[1].0@ == "messages"@ && f[1].1 is Array
                &&& f[1].1->Array_0@.len() == self.spec_messages().len()
                &&& forall|i: int| 0 <= i < self.spec_messages().len()
                    ==> #[trigger] self.spec_messages()[i].encoded_as(f[1].1->Array_0@[i])
                &&& f[2].0@ == "server_boot_time"@ && f[2].1 == Json::Str(self.spec_server_boot_time())
                &&& f[3].0@ == "client_start_time"@ && f[3].1 == Json::Str(self.spec_client_start_time())
            },
    {
        proof {
            use_type_invariant(&self);
        }
        let ghost orig = self.messages@;
        let Envelope { collection, messages, server_boot_time, client_start_time } = self;
        let mut messages = messages;
        let mut rev: Vec<Message> = Vec::new();
        while messages.len() > 0
            invariant
                messages@ == orig.subrange(0, messages@.len() as int),
                rev@.len() + messages@.len() == orig.len(),
                forall|k: int| 0 <= k < rev@.len() ==> rev@[k] == orig[orig.len() - 1 - k],
            decreases messages@.len(),
        {
            let m = messages.pop().unwrap();
            rev.push(m);
        }
        let mut out: Vec<Json> = Vec::new();
        while rev.len() > 0
            invariant
                rev@.len() + out@.len() == orig.len(),
                forall|k: int| 0 <= k < rev@.len() ==> rev@[k] == orig[orig.len() - 1 - k],
                forall|k: int| 0 <= k < out@.len() ==> #[trigger] orig[k].encoded_as(out@[k]),
            decreases rev@.len(),
        {
            let m = rev.pop().unwrap();
            let j = m.into_json();
            out.push(j);
        }
        let mut f: Vec<(String, Json)> = Vec::new();
        f.push((text("collection"), Json::UInt(collection as u64)));
        f.push((text("messages"), Json::Array(out)));
        f.push((text("server_boot_time"), Json::Str(server_boot_time)));
        f.push((text("client_start_time"), Json::Str(client_start_time)));
        Json::Object(f)
    }
}

/// The request for a new session of `plugin`.
pub fn create_session_message(fqdn: String, plugin: PluginName) -> (m: Message)
    ensures
        m == (Message::SessionCreateRequest { fqdn, plugin }),
{
    Message::SessionCreateRequest { fqdn, plugin }
}

/// The query of a request for the manager's messages: `server_boot_time`,
/// `client_start_time` and `collection=2`.
pub fn get_params(server_boot_time: String, client_start_time: String) -> (r: Vec<(String, String)>)
    ensures
        r@.len() == 3,
        r@[0].0@ == "server_boot_time"@ && r@[0].1 == server_boot_time,
        r@[1].0@ == "client_start_time"@ && r@[1].1 == client_start_time,
        r@[2].0@ == "collection"@ && r@[2].1@ == "2"@,
{
    let mut r: Vec<(String, String)> = Vec::new();
    r.push((text("server_boot_time"), server_boot_time));
    r.push((text("client_start_time"), client_start_time));
    r.push((text("collection"), text("2")));
    r
}

} // verus!
