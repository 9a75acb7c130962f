use iml_agent::action::{agent_err, agent_ok, ActionCommand, ActionId, ActionName, Action, AgentError, AgentResult, create_registry, ActionKind, AGENT_RPC_WRAPPER_VERSION};
use iml_agent::json::Json;
use iml_agent::message::{create_session_message, get_params, Envelope, ManagerMessage, ManagerMessages, Message, SessionId, COLLECTION};
use iml_agent::plugin::{get_plugin, plugin_registry, stratagem_session_output, Input, NoPluginError, Output, PluginKind, PluginName, ReadError, StratagemData};

fn object(fields: Vec<(&str, Json)>) -> Json {
    Json::Object(fields.into_iter().map(|(k, v)| (k.to_string(), v)).collect())
}

fn text(s: &str) -> Json {
    Json::Str(s.to_string())
}

fn data_message(seq: u64) -> Message {
    Message::Data {
        fqdn: "node1.local".to_string(),
        plugin: PluginName("stratagem".to_string()),
        session_id: SessionId("S1".to_string()),
        session_seq: seq,
        body: object(vec![("k", Json::Array(vec![Json::UInt(3), Json::Int(-2), Json::Real("1.5".to_string())]))]),
    }
}

#[test]
fn data_message_round_trip() {
    for seq in vec![0, 1, u64::MAX] {
        let j = data_message(seq).into_json();
        assert_eq!(Message::from_json(j), Some(data_message(seq)));
    }
}

#[test]
fn create_request_round_trip() {
    let m = create_session_message("node1".to_string(), PluginName("action_runner".to_string()));
    let j = m.into_json();
    assert_eq!(
        j,
        object(vec![
            ("type", text("SESSION_CREATE_REQUEST")),
            ("fqdn", text("node1")),
            ("plugin", text("action_runner")),
        ])
    );
    assert_eq!(
        Message::from_json(j),
        Some(Message::SessionCreateRequest { fqdn: "node1".to_string(), plugin: PluginName("action_runner".to_string()) })
    );
}

#[test]
fn data_message_wire_form() {
    let j = data_message(4).into_json();
    match j {
        Json::Object(f) => {
            let keys: Vec<&str> = f.iter().map(|(k, _)| k.as_str()).collect();
            assert_eq!(keys, vec!["type", "fqdn", "plugin", "session_id", "session_seq", "body"]);
            assert_eq!(f[0].1, text("DATA"));
            assert_eq!(f[4].1, Json::UInt(4));
        }
        other => panic!("expected an object, got {:?}", other),
    }
}

#[test]
fn malformed_messages_are_refused() {
    assert_eq!(Message::from_json(Json::Null), None);
    assert_eq!(Message::from_json(object(vec![("type", text("NOPE")), ("fqdn", text("a")), ("plugin", text("b"))])), None);
    let missing_seq = object(vec![("type", text("DATA")), ("fqdn", text("a")), ("plugin", text("b")), ("session_id", text("c")), ("body", Json::Null)]);
    assert_eq!(Message::from_json(missing_seq), None);
}

#[test]
fn envelope_carries_collection_two() {
    let env = Envelope::new(vec![data_message(0), data_message(1)], "start".to_string(), "boot".to_string());
    assert_eq!(env.collection(), 2);
    assert_eq!(COLLECTION, 2);
    let j = env.into_json();
    assert_eq!(
        j,
        object(vec![
            ("collection", Json::UInt(2)),
            ("messages", Json::Array(vec![data_message(0).into_json(), data_message(1).into_json()])),
            ("server_boot_time", text("boot")),
            ("client_start_time", text("start")),
        ])
    );
}

#[test]
fn empty_envelope() {
    let env = Envelope::new(vec![], "s".to_string(), "b".to_string());
    let j = env.into_json();
    match j {
        Json::Object(f) => {
            assert_eq!(f[0], ("collection".to_string(), Json::UInt(2)));
            assert_eq!(f[1].1, Json::Array(vec![]));
        }
        other => panic!("expected an object, got {:?}", other),
    }
}

#[test]
fn get_query_parameters() {
    let p = get_params("boot".to_string(), "start".to_string());
    assert_eq!(
        p,
        vec![
            ("server_boot_time".to_string(), "boot".to_string()),
            ("client_start_time".to_string(), "start".to_string()),
            ("collection".to_string(), "2".to_string()),
        ]
    );
}

#[test]
fn manager_messages_decode() {
    let batch = object(vec![(
        "messages",
        Json::Array(vec![
            object(vec![("type", text("SESSION_CREATE_RESPONSE")), ("plugin", text("stratagem")), ("session_id", text("S1"))]),
            object(vec![("type", text("SESSION_TERMINATE")), ("plugin", text("stratagem")), ("session_id", text("S1"))]),
            object(vec![("type", text("SESSION_TERMINATE_ALL"))]),
            object(vec![
                ("type", text("DATA")),
                ("plugin", text("action_runner")),
                ("session_id", text("S2")),
                ("body", object(vec![("type", text("ACTION_CANCEL")), ("id", text("A1"))])),
            ]),
        ]),
    )]);
    let m = ManagerMessages::from_json(batch).expect("a batch");
    assert_eq!(
        m.messages,
        vec![
            ManagerMessage::SessionCreateResponse { plugin: PluginName("stratagem".to_string()), session_id: SessionId("S1".to_string()) },
            ManagerMessage::SessionTerminate { plugin: PluginName("stratagem".to_string()), session_id: SessionId("S1".to_string()) },
            ManagerMessage::SessionTerminateAll,
            ManagerMessage::Data {
                plugin: PluginName("action_runner".to_string()),
                session_id: SessionId("S2".to_string()),
                body: Input::Action(Action {
                    action_type: ActionCommand::ActionCancel,
                    id: ActionId("A1".to_string()),
                    action: None,
                    args: None,
                }),
            },
        ]
    );
}

#[test]
fn unknown_variant_fails_the_batch() {
    let batch = object(vec![(
        "messages",
        Json::Array(vec![
            object(vec![("type", text("SESSION_TERMINATE_ALL"))]),
            object(vec![("type", text("REBOOT"))]),
        ]),
    )]);
    assert_eq!(ManagerMessages::from_json(batch), None);
    assert_eq!(ManagerMessages::from_json(object(vec![])), None);
    let empty = ManagerMessages::from_json(object(vec![("messages", Json::Array(vec![]))])).expect("an empty batch");
    assert!(empty.messages.is_empty());
}

#[test]
fn action_decoding() {
    let j = object(vec![
        ("type", text("ACTION_START")),
        ("id", text("A1")),
        ("action", Json::Null),
        ("args", Json::Null),
    ]);
    assert_eq!(
        Action::from_json(j),
        Some(Action { action_type: ActionCommand::ActionStart, id: ActionId("A1".to_string()), action: None, args: Some(Json::Null) })
    );
    let bad = object(vec![("type", text("ACTION_PAUSE")), ("id", text("A1"))]);
    assert_eq!(Action::from_json(bad), None);
    let bad_name = object(vec![("type", text("ACTION_START")), ("id", text("A1")), ("action", Json::UInt(1))]);
    assert_eq!(Action::from_json(bad_name), None);
    let first_wins = Json::Object(vec![
        ("type".to_string(), text("ACTION_START")),
        ("id".to_string(), text("first")),
        ("id".to_string(), text("second")),
        ("action".to_string(), text("stop_stratagem")),
    ]);
    assert_eq!(
        Action::from_json(first_wins),
        Some(Action {
            action_type: ActionCommand::ActionStart,
            id: ActionId("first".to_string()),
            action: Some(ActionName("stop_stratagem".to_string())),
            args: None,
        })
    );
}

#[test]
fn agent_results_carry_wrapper_version_one() {
    assert_eq!(AGENT_RPC_WRAPPER_VERSION, 1);
    assert_eq!(AgentResult::default().wrapper_version(), 1);
    assert_eq!(agent_ok(Json::Bool(false)).wrapper_version(), 1);
    let e = agent_err(AgentError::Handler("disk full".to_string()));
    assert_eq!(e, AgentResult::AgentErr { wrapper_version: 1, error: "disk full".to_string() });
    assert_eq!(AgentResult::from_result(Ok(Json::UInt(9))), AgentResult::AgentOk { wrapper_version: 1, result: Json::UInt(9) });
    assert_eq!(AgentResult::from_result(Err(AgentError::Required("x".to_string()))).wrapper_version(), 1);
}

#[test]
fn action_registry() {
    let r = create_registry();
    assert_eq!(r.get(&ActionName("start_stratagem".to_string())), Some(ActionKind::StartStratagem));
    assert_eq!(r.get(&ActionName("stop_stratagem".to_string())), Some(ActionKind::StopStratagem));
    assert_eq!(r.get(&ActionName("status_stratagem".to_string())), None);
}

#[test]
fn plugin_lookup() {
    let reg = plugin_registry();
    assert_eq!(reg.names(), vec![PluginName("stratagem".to_string()), PluginName("action_runner".to_string())]);
    assert_eq!(get_plugin(&PluginName("stratagem".to_string()), &reg), Ok(PluginKind::Stratagem));
    assert_eq!(get_plugin(&PluginName("action_runner".to_string()), &reg), Ok(PluginKind::ActionRunner));
    assert_eq!(
        get_plugin(&PluginName("nope".to_string()), &reg),
        Err(NoPluginError(PluginName("nope".to_string())))
    );
}

fn sample_data() -> StratagemData {
    StratagemData { ssh_hosts: vec![], groups: vec![], devices: vec![], dump_flist: false, dry_run: true, only_scan_active: false }
}

#[test]
fn stratagem_output() {
    assert_eq!(stratagem_session_output(Ok(sample_data())), Ok(Some(Output::Stratagem(sample_data()))));
    assert_eq!(stratagem_session_output(Err(ReadError::Io("not found".to_string()))), Ok(None));
    assert_eq!(
        stratagem_session_output(Err(ReadError::Decode("bad json".to_string()))),
        Err(AgentError::Handler("bad json".to_string()))
    );
}

fn action(kind: ActionCommand, id: &str, name: Option<&str>, args: Option<Json>) -> Action {
    Action { action_type: kind, id: ActionId(id.to_string()), action: name.map(|n| ActionName(n.to_string())), args }
}

fn manager_samples() -> Vec<ManagerMessage> {
    vec![
        ManagerMessage::SessionCreateResponse { plugin: PluginName("stratagem".to_string()), session_id: SessionId("S1".to_string()) },
        ManagerMessage::SessionTerminate { plugin: PluginName("stratagem".to_string()), session_id: SessionId("S1".to_string()) },
        ManagerMessage::SessionTerminateAll,
        ManagerMessage::Data {
            plugin: PluginName("action_runner".to_string()),
            session_id: SessionId("S2".to_string()),
            body: Input::Action(action(ActionCommand::ActionStart, "A1", Some("start_stratagem"), Some(Json::Null))),
        },
        ManagerMessage::Data {
            plugin: PluginName("action_runner".to_string()),
            session_id: SessionId("S2".to_string()),
            body: Input::Action(action(ActionCommand::ActionCancel, "A1", None, None)),
        },
    ]
}

#[test]
fn manager_message_round_trip() {
    for (m, again) in manager_samples().into_iter().zip(manager_samples()) {
        assert_eq!(ManagerMessage::from_json(m.into_json()), Some(again));
    }
}

#[test]
fn action_round_trip() {
    let a = action(ActionCommand::ActionStart, "A7", Some("stop_stratagem"), Some(Json::UInt(3)));
    let j = a.into_json();
    assert_eq!(
        j,
        object(vec![
            ("type", text("ACTION_START")),
            ("id", text("A7")),
            ("action", text("stop_stratagem")),
            ("args", Json::UInt(3)),
        ])
    );
    assert_eq!(Action::from_json(j), Some(action(ActionCommand::ActionStart, "A7", Some("stop_stratagem"), Some(Json::UInt(3)))));
}
