use iml_agent::action::{create, ActionCommand, ActionId, ActionName, Action, AgentResult, Dispatch, Outcome, ActionKind};
use iml_agent::json::Json;
use iml_agent::message::{ManagerMessage, Message, SessionId};
use iml_agent::plugin::{plugin_registry, Input, PluginKind, PluginName};
use iml_agent::session::{PollKind, PollTask, ReaderStep, Session, Sessions, State, EMPTY_RETRY, PENDING_TIMEOUT, UPDATE_INTERVAL};

fn name(s: &str) -> PluginName {
    PluginName(s.to_string())
}

fn sid(s: &str) -> SessionId {
    SessionId(s.to_string())
}

fn seeded(now: u64) -> Sessions<u32> {
    let reg = plugin_registry();
    Sessions::with_plugins(&reg.names(), now)
}

fn object(fields: Vec<(&str, Json)>) -> Json {
    Json::Object(fields.into_iter().map(|(k, v)| (k.to_string(), v)).collect())
}

fn text(s: &str) -> Json {
    Json::Str(s.to_string())
}

#[test]
fn cold_start() {
    let reg = plugin_registry();
    let mut s = seeded(0);
    assert_eq!(s.state(&name("stratagem")), Some(&State::Empty(0)));
    assert_eq!(s.state(&name("action_runner")), Some(&State::Empty(0)));

    let tasks = s.tick(0);
    assert_eq!(
        tasks,
        vec![PollTask::CreateSession(name("stratagem")), PollTask::CreateSession(name("action_runner"))]
    );

    let msg = ManagerMessage::SessionCreateResponse { plugin: name("action_runner"), session_id: sid("S1") };
    let step = s.handle_message(msg, &reg, 0);
    assert_eq!(
        step,
        ReaderStep::Start { plugin: name("action_runner"), session_id: sid("S1"), kind: PluginKind::ActionRunner }
    );
    let prior = s.begin_session(name("action_runner"), sid("S1"), 7, 0);
    assert_eq!(prior, None);

    assert_eq!(s.state(&name("stratagem")), Some(&State::Empty(0)));
    match s.state(&name("action_runner")) {
        Some(State::Active { session, next_tick }) => {
            assert_eq!(session.id, sid("S1"));
            assert_eq!(session.seq, 0);
            assert!(session.started);
            assert_eq!(*next_tick, UPDATE_INTERVAL);
        }
        other => panic!("expected an active session, got {:?}", other),
    }
}

#[test]
fn action_happy_path() {
    let reg = plugin_registry();
    let mut s = seeded(0);
    s.begin_session(name("action_runner"), sid("S1"), 1, 0);

    let body = object(vec![
        ("type", text("ACTION_START")),
        ("id", text("A1")),
        ("action", text("start_stratagem")),
        ("args", Json::Null),
    ]);
    let wire = object(vec![
        ("type", text("DATA")),
        ("plugin", text("action_runner")),
        ("session_id", text("S1")),
        ("body", body),
    ]);
    let msg = ManagerMessage::from_json(wire).expect("a data message");
    let input = match s.handle_message(msg, &reg, 0) {
        ReaderStep::Deliver { plugin, session_id, input } => {
            assert_eq!(plugin, name("action_runner"));
            assert_eq!(session_id, sid("S1"));
            input
        }
        other => panic!("expected delivery, got {:?}", other),
    };

    let mut runner = create::<u8>();
    let id = match runner.on_message(input, 11) {
        Dispatch::Run { id, handler, args, displaced } => {
            assert_eq!(handler, ActionKind::StartStratagem);
            assert_eq!(args, Json::Null);
            assert_eq!(displaced, None);
            id
        }
        other => panic!("expected a run, got {:?}", other),
    };
    assert!(runner.contains(&id));
    let reply = runner.finish(&id, Outcome::Completed(Ok(Json::Bool(true))));
    assert!(!runner.contains(&id));

    let out = s.emit_data(&name("action_runner"), &sid("S1"), "node1".to_string(), reply.into_json());
    let expected_body = object(vec![(
        "AgentOk",
        object(vec![("wrapper_version", Json::Int(1)), ("result", Json::Bool(true))]),
    )]);
    assert_eq!(
        out,
        Some(Message::Data {
            fqdn: "node1".to_string(),
            plugin: name("action_runner"),
            session_id: sid("S1"),
            session_seq: 0,
            body: expected_body,
        })
    );
}

fn start(id: &str, action: Option<&str>, args: Option<Json>) -> Input {
    Input::Action(Action {
        action_type: ActionCommand::ActionStart,
        id: ActionId(id.to_string()),
        action: action.map(|a| ActionName(a.to_string())),
        args,
    })
}

fn cancel(id: &str) -> Input {
    Input::Action(Action {
        action_type: ActionCommand::ActionCancel,
        id: ActionId(id.to_string()),
        action: None,
        args: None,
    })
}

#[test]
fn action_cancel() {
    let mut runner = create::<u8>();
    let id = match runner.on_message(start("A2", Some("start_stratagem"), Some(Json::Null)), 1) {
        Dispatch::Run { id, .. } => id,
        other => panic!("expected a run, got {:?}", other),
    };
    assert!(runner.contains(&ActionId("A2".to_string())));
    match runner.on_message(cancel("A2"), 2) {
        Dispatch::Cancel { reply, signal } => {
            assert_eq!(reply, AgentResult::default());
            assert_eq!(signal, Some(1));
        }
        other => panic!("expected a cancel, got {:?}", other),
    }
    let reply = runner.finish(&id, Outcome::Cancelled);
    assert!(!runner.contains(&ActionId("A2".to_string())));
    let expected = object(vec![(
        "AgentOk",
        object(vec![("wrapper_version", Json::Int(1)), ("result", Json::Null)]),
    )]);
    assert_eq!(reply.into_json(), expected);
}

#[test]
fn missing_fields() {
    let mut runner = create::<u8>();
    let reply = match runner.on_message(start("A3", None, Some(Json::Null)), 1) {
        Dispatch::Reply(r) => r,
        other => panic!("expected a reply, got {:?}", other),
    };
    let expected = object(vec![(
        "AgentErr",
        object(vec![
            ("wrapper_version", Json::Int(1)),
            ("error", text("action and args required to start action")),
        ]),
    )]);
    assert_eq!(reply.into_json(), expected);
    assert_eq!(runner.len(), 0);
}

#[test]
fn missing_args_and_unknown_action() {
    let mut runner = create::<u8>();
    for input in vec![start("A4", Some("start_stratagem"), None), start("A5", Some("reboot"), Some(Json::Null))] {
        match runner.on_message(input, 1) {
            Dispatch::Reply(AgentResult::AgentErr { wrapper_version, error }) => {
                assert_eq!(wrapper_version, 1);
                assert_eq!(error, "action and args required to start action");
            }
            other => panic!("expected an error reply, got {:?}", other),
        }
    }
    assert_eq!(runner.len(), 0);
}

#[test]
fn terminate_all() {
    let reg = plugin_registry();
    let mut s = seeded(0);
    s.begin_session(name("stratagem"), sid("S1"), 1, 0);
    s.begin_session(name("action_runner"), sid("S2"), 2, 0);
    match s.handle_message(ManagerMessage::SessionTerminateAll, &reg, 500) {
        ReaderStep::TornDown(v) => {
            let plugins: Vec<u32> = v.iter().map(|x| x.plugin).collect();
            assert_eq!(plugins, vec![1, 2]);
        }
        other => panic!("expected teardown, got {:?}", other),
    }
    assert_eq!(s.state(&name("stratagem")), Some(&State::Empty(500 + EMPTY_RETRY)));
    assert_eq!(s.state(&name("action_runner")), Some(&State::Empty(500 + EMPTY_RETRY)));
}

#[test]
fn pending_timeout() {
    let mut s = seeded(0);
    assert_eq!(s.tick(0).len(), 2);
    s.convert_to_pending(&name("stratagem"), 0);
    assert_eq!(s.state(&name("stratagem")), Some(&State::Pending(PENDING_TIMEOUT)));
    s.convert_to_pending(&name("action_runner"), 0);

    assert_eq!(s.tick(PENDING_TIMEOUT - 1), vec![]);
    assert_eq!(s.state(&name("stratagem")), Some(&State::Pending(PENDING_TIMEOUT)));

    assert_eq!(s.tick(PENDING_TIMEOUT), vec![]);
    assert_eq!(s.state(&name("stratagem")), Some(&State::Empty(PENDING_TIMEOUT + EMPTY_RETRY)));

    let later = s.tick(PENDING_TIMEOUT + EMPTY_RETRY);
    assert_eq!(
        later,
        vec![PollTask::CreateSession(name("stratagem")), PollTask::CreateSession(name("action_runner"))]
    );
}

#[test]
fn tick_before_deadline_is_no_op() {
    let mut s = seeded(100);
    assert_eq!(s.tick(99), vec![]);
    assert_eq!(s.state(&name("stratagem")), Some(&State::Empty(100)));
    s.begin_session(name("stratagem"), sid("S1"), 3, 0);
    assert_eq!(s.tick(UPDATE_INTERVAL - 1), vec![PollTask::CreateSession(name("action_runner"))]);
    match s.state(&name("stratagem")) {
        Some(State::Active { next_tick, session }) => {
            assert_eq!(*next_tick, UPDATE_INTERVAL);
            assert_eq!(session.seq, 0);
        }
        other => panic!("expected an active session, got {:?}", other),
    }
}

#[test]
fn due_session_is_updated() {
    let mut s = seeded(100);
    s.begin_session(name("stratagem"), sid("S1"), 3, 0);
    let tasks = s.tick(UPDATE_INTERVAL);
    assert_eq!(
        tasks,
        vec![
            PollTask::Poll { name: name("stratagem"), session_id: sid("S1"), kind: PollKind::Update },
            PollTask::CreateSession(name("action_runner")),
        ]
    );
    match s.state(&name("stratagem")) {
        Some(State::Active { next_tick, .. }) => assert_eq!(*next_tick, 2 * UPDATE_INTERVAL),
        other => panic!("expected an active session, got {:?}", other),
    }
}

#[test]
fn first_poll_starts_then_updates() {
    let mut session = Session::new(name("stratagem"), sid("S9"), 0u8);
    assert_eq!(session.seq, 0);
    assert_eq!(session.poll(), PollKind::Start);
    assert_eq!(session.poll(), PollKind::Update);
}

#[test]
fn terminate_all_on_empty_registry() {
    let reg = plugin_registry();
    let mut empty: Sessions<u32> = Sessions::new();
    assert_eq!(empty.terminate_all_sessions(5), vec![]);
    match empty.handle_message(ManagerMessage::SessionTerminateAll, &reg, 5) {
        ReaderStep::TornDown(v) => assert!(v.is_empty()),
        other => panic!("expected teardown, got {:?}", other),
    }
    let mut idle = seeded(0);
    assert_eq!(idle.terminate_all_sessions(5), vec![]);
    assert_eq!(idle.state(&name("stratagem")), Some(&State::Empty(5 + EMPTY_RETRY)));
}

#[test]
fn duplicate_create_response_replaces_session() {
    let mut s = seeded(0);
    assert_eq!(s.begin_session(name("action_runner"), sid("S1"), 1, 0), None);
    let prior = s.begin_session(name("action_runner"), sid("S2"), 2, 10).expect("the prior session");
    assert_eq!(prior.id, sid("S1"));
    assert_eq!(prior.plugin, 1);
    match s.state(&name("action_runner")) {
        Some(State::Active { session, next_tick }) => {
            assert_eq!(session.id, sid("S2"));
            assert_eq!(session.plugin, 2);
            assert_eq!(*next_tick, 10 + UPDATE_INTERVAL);
        }
        other => panic!("expected an active session, got {:?}", other),
    }
}

#[test]
fn sequence_numbers_start_at_zero_and_increase() {
    let mut s = seeded(0);
    s.begin_session(name("stratagem"), sid("S1"), 1, 0);
    let mut seqs = Vec::new();
    for _ in 0..3 {
        match s.emit_data(&name("stratagem"), &sid("S1"), "n".to_string(), Json::Null) {
            Some(Message::Data { session_seq, .. }) => seqs.push(session_seq),
            other => panic!("expected data, got {:?}", other),
        }
    }
    assert_eq!(seqs, vec![0, 1, 2]);
}

#[test]
fn no_message_after_teardown() {
    let reg = plugin_registry();
    let mut s = seeded(0);
    s.begin_session(name("stratagem"), sid("S1"), 1, 0);
    let msg = ManagerMessage::SessionTerminate { plugin: name("stratagem"), session_id: sid("S1") };
    match s.handle_message(msg, &reg, 3) {
        ReaderStep::TornDown(v) => assert_eq!(v.len(), 1),
        other => panic!("expected teardown, got {:?}", other),
    }
    assert_eq!(s.emit_data(&name("stratagem"), &sid("S1"), "n".to_string(), Json::Null), None);
    assert_eq!(s.state(&name("stratagem")), Some(&State::Empty(3 + EMPTY_RETRY)));
}

#[test]
fn data_for_other_session_is_dropped() {
    let reg = plugin_registry();
    let mut s = seeded(0);
    s.begin_session(name("action_runner"), sid("S1"), 1, 0);
    let msg = ManagerMessage::Data { plugin: name("action_runner"), session_id: sid("S0"), body: cancel("A1") };
    assert_eq!(
        s.handle_message(msg, &reg, 0),
        ReaderStep::Drop { plugin: name("action_runner"), session_id: sid("S0") }
    );
    assert_eq!(s.emit_data(&name("action_runner"), &sid("S0"), "n".to_string(), Json::Null), None);
}

#[test]
fn unknown_plugin_is_skipped() {
    let reg = plugin_registry();
    let mut s = seeded(0);
    let msg = ManagerMessage::SessionCreateResponse { plugin: name("lustre"), session_id: sid("S1") };
    assert_eq!(s.handle_message(msg, &reg, 0), ReaderStep::NoPlugin(name("lustre")));
}

#[test]
fn reset_active_and_reset_empty() {
    let mut s = seeded(0);
    s.begin_session(name("stratagem"), sid("S1"), 1, 0);
    s.reset_active(&name("stratagem"), 40);
    match s.state(&name("stratagem")) {
        Some(State::Active { next_tick, .. }) => assert_eq!(*next_tick, 40 + UPDATE_INTERVAL),
        other => panic!("expected an active session, got {:?}", other),
    }
    s.reset_active(&name("action_runner"), 40);
    assert_eq!(s.state(&name("action_runner")), Some(&State::Empty(0)));
    let torn = s.reset_empty(&name("stratagem"), 50);
    assert_eq!(torn.map(|x| x.plugin), Some(1));
    assert_eq!(s.state(&name("stratagem")), Some(&State::Empty(50 + EMPTY_RETRY)));
    s.convert_to_pending(&name("missing"), 0);
    assert_eq!(s.state(&name("missing")), None);
}

#[test]
fn deadlines_saturate() {
    let mut s = seeded(0);
    s.terminate_session(&name("stratagem"), u64::MAX - 1);
    assert_eq!(s.state(&name("stratagem")), Some(&State::Empty(u64::MAX)));
}

#[test]
fn duplicate_names_are_kept_once() {
    let names = vec![name("a"), name("b"), name("a")];
    let mut s: Sessions<u8> = Sessions::with_plugins(&names, 0);
    assert_eq!(s.tick(0).len(), 2);
}
