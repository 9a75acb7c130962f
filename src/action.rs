//! Actions: the requests that the action runner dispatches to named handlers,
//! and the result that it returns for each.
use vstd::prelude::*;
use crate::plugin::Input;
use crate::json::{Json, field, is_text, distinct_keys, take_fields, text, text_is, lemma_field_is, lemma_field_absent};

verus! {

/// The version of the result wrapper that every `AgentResult` carries.
pub const AGENT_RPC_WRAPPER_VERSION: i8 = 1;

/// The reply given to a start request that lacks its action or arguments, or
/// names no known action.
pub const REQUIRED_MESSAGE: &'static str = "action and args required to start action";

/// The name of an action handler.
#[derive(Debug, Clone, PartialEq, Eq, Hash)]
pub struct ActionName(pub String);

/// The id of one action invocation.
#[derive(Debug, Clone, PartialEq, Eq, Hash)]
pub struct ActionId(pub String);

/// What a request asks of the action runner.
#[derive(Debug, Clone, Copy, PartialEq, Eq, Structural)]
pub enum ActionCommand {
    ActionStart,
    ActionCancel,
}

/// A request to start or cancel an action.
#[derive(Debug, PartialEq, Eq)]
pub struct Action {
    pub action_type: ActionCommand,
    pub id: ActionId,
    pub action: Option<ActionName>,
    pub args: Option<Json>,
}

/// The reply of an action: a result or an error text, with the wrapper version.
#[derive(Debug, PartialEq, Eq)]
pub enum AgentResult {
    AgentOk { wrapper_version: i8, result: Json },
    AgentErr { wrapper_version: i8, error: String },
}

/// The errors that become an `AgentErr` reply.
#[derive(Debug, PartialEq, Eq)]
pub enum AgentError {
    /// A required part of a request was missing.
    Required(String),
    /// A handler failed, with its own description of the failure.
    Handler(String),
}

impl AgentError {
    pub open spec fn spec_message(&self) -> Seq<char> {
        match self {
            AgentError::Required(s) => s@,
            AgentError::Handler(s) => s@,
        }
    }

    /// The text that stands in an `AgentErr` reply.
    pub fn message(self) -> (r: String)
        ensures
            r@ == self.spec_message(),
    {
        match self {
            AgentError::Required(s) => s,
            AgentError::Handler(s) => s,
        }
    }
}

impl AgentResult {
    pub open spec fn spec_wrapper_version(&self) -> i8 {
        match self {
            AgentResult::AgentOk { wrapper_version, .. } => *wrapper_version,
            AgentResult::AgentErr { wrapper_version, .. } => *wrapper_version,
        }
    }

    /// The wrapper version that this result carries.
    pub fn wrapper_version(&self) -> (r: i8)
        ensures
            r == self.spec_wrapper_version(),
    {
        match self {
            AgentResult::AgentOk { wrapper_version, .. } => *wrapper_version,
            AgentResult::AgentErr { wrapper_version, .. } => *wrapper_version,
        }
    }

    /// The reply for a handler's outcome: its value, or its error's text.
    pub fn from_result(r: Result<Json, AgentError>) -> (a: AgentResult)
        ensures
            a.spec_wrapper_version() == AGENT_RPC_WRAPPER_VERSION,
            match r {
                Ok(v) => a == AgentResult::AgentOk { wrapper_version: 1, result: v },
                Err(e) => a is AgentErr && a->error@ == e.spec_message(),
            },
    {
        match r {
            Ok(v) => agent_ok(v),
            Err(e) => agent_err(e),
        }
    }

    /// Whether `j` is the wire form of this result:
    /// `{"AgentOk": {"wrapper_version": 1, "result": ...}}` or
    /// `{"AgentErr": {"wrapper_version": 1, "error": "..."}}`.
    pub open spec fn encoded_as(&self, j: Json) -> bool {
        j is Object && j->Object_0@.len() == 1 && {
            let outer = j->Object_0@[0];
            outer.1 is Object && {
                let f = outer.1->Object_0@;
                f.len() == 2 && f[0].0@ == "wrapper_version"@ && match self {
                    AgentResult::AgentOk { wrapper_version, result } => outer.0@ == "AgentOk"@
                        && f[0].1 == Json::Int(*wrapper_version as i64) && f[1].0@ == "result"@
                        && f[1].1 == *result,
                    AgentResult::AgentErr { wrapper_version, error } => outer.0@ == "AgentErr"@
                        && f[0].1 == Json::Int(*wrapper_version as i64) && f[1].0@ == "error"@
                        && f[1].1 == Json::Str(*error),
                }
            }
        }
    }

    /// The wire form of this result.
    pub fn into_json(self) -> (j: Json)
        ensures
            self.encoded_as(j),
    {
        let (tag, version, key, value) = match self {
            AgentResult::AgentOk { wrapper_version, result } => (text("AgentOk"), wrapper_version, text("result"), result),
            AgentResult::AgentErr { wrapper_version, error } => (text("AgentErr"), wrapper_version, text("error"), Json::Str(error)),
        };
        let mut inner: Vec<(String, Json)> = Vec::new();
        inner.push((text("wrapper_version"), Json::Int(version as i64)));
        inner.push((key, value));
        let mut outer: Vec<(String, Json)> = Vec::new();
        outer.push((tag, Json::Object(inner)));
        Json::Object(outer)
    }
}

impl Default for AgentResult {
    /// The reply that carries no value: `AgentOk` with a null result.
    fn default() -> (r: AgentResult)
        ensures
            r == (AgentResult::AgentOk { wrapper_version: 1, result: Json::Null }),
    {
        AgentResult::AgentOk { wrapper_version: AGENT_RPC_WRAPPER_VERSION, result: Json::Null }
    }
}

/// A successful reply holding `t`.
pub fn agent_ok(t: Json) -> (r: AgentResult)
    ensures
        r == (AgentResult::AgentOk { wrapper_version: 1, result: t }),
{
    AgentResult::AgentOk { wrapper_version: AGENT_RPC_WRAPPER_VERSION, result: t }
}

/// A failed reply holding the text of `e`.
pub fn agent_err(e: AgentError) -> (r: AgentResult)
    ensures
        r is AgentErr,
        r->AgentErr_wrapper_version == 1,
        r->error@ == e.spec_message(),
{
    AgentResult::AgentErr { wrapper_version: AGENT_RPC_WRAPPER_VERSION, error: e.message() }
}

/// The reply to a start request that cannot be run.
pub fn required_error() -> (r: AgentResult)
    ensures
        r is AgentErr,
        r->AgentErr_wrapper_version == 1,
        r->error@ == REQUIRED_MESSAGE@,
{
    agent_err(AgentError::Required(text(REQUIRED_MESSAGE)))
}

/// The command that `j` names, if any.
pub open spec fn decode_command(j: Json) -> Option<ActionCommand> {
    if is_text(j, "ACTION_START"@) {
        Some(ActionCommand::ActionStart)
    } else if is_text(j, "ACTION_CANCEL"@) {
        Some(ActionCommand::ActionCancel)
    } else {
        None
    }
}

/// An optional action name: absent or null is `None`; a string is a name; anything
/// else is malformed (the outer `None`).
pub open spec fn decode_optional_name(j: Option<Json>) -> Option<Option<ActionName>> {
    match j {
        None => Some(None),
        Some(Json::Null) => Some(None),
        Some(Json::Str(s)) => Some(Some(ActionName(s))),
        _ => None,
    }
}

/// The action request that `j` holds, if it is one.
pub open spec fn decode_action(j: Json) -> Option<Action> {
    match j {
        Json::Object(fs) => {
            let f = fs@;
            match (field(f, "type"@), field(f, "id"@), decode_optional_name(field(f, "action"@))) {
                (Some(t), Some(Json::Str(id)), Some(action)) => match decode_command(t) {
                    Some(c) => Some(
                        Action {
                            action_type: c,
                            id: ActionId(id),
                            action,
                            args: field(f, "args"@),
                        },
                    ),
                    None => None,
                },
                _ => None,
            }
        },
        _ => None,
    }
}

/// The wire name of a command.
pub open spec fn command_text(c: ActionCommand) -> Seq<char> {
    match c {
        ActionCommand::ActionStart => "ACTION_START"@,
        ActionCommand::ActionCancel => "ACTION_CANCEL"@,
    }
}

proof fn lemma_action_keys_distinct()
    ensures
        "type"@ != "id"@,
        "type"@ != "action"@,
        "type"@ != "args"@,
        "id"@ != "action"@,
        "id"@ != "args"@,
        "action"@ != "args"@,
        "ACTION_START"@ != "ACTION_CANCEL"@,
{
    reveal_strlit("type");
    reveal_strlit("id");
    reveal_strlit("action");
    reveal_strlit("args");
    reveal_strlit("ACTION_START");
    reveal_strlit("ACTION_CANCEL");
    assert("type"@.len() == 4 && "id"@.len() == 2 && "action"@.len() == 6 && "args"@.len() == 4);
    assert("type"@[0] != "args"@[0]);
    assert("ACTION_START"@.len() != "ACTION_CANCEL"@.len());
}

/// Decoding the wire form of an action request gives that request back.
pub proof fn lemma_action_round_trip(a: Action, j: Json)
    requires
        a.encoded_as(j),
    ensures
        decode_action(j) == Some(a),
{
    lemma_action_keys_distinct();
    let f = j->Object_0@;
    lemma_field_is(f, "type"@, 0);
    lemma_field_is(f, "id"@, 1);
    lemma_field_is(f, "action"@, 2);
    if a.args is Some {
        lemma_field_is(f, "args"@, 3);
    } else {
        lemma_field_absent(f, "args"@);
    }
}

fn command_from_json(j: Json) -> (r: Option<ActionCommand>)
    ensures
        r == decode_command(j),
{
    match j {
        Json::Str(s) => {
            if text_is(&s, "ACTION_START") {
                Some(ActionCommand::ActionStart)
            } else if text_is(&s, "ACTION_CANCEL") {
                Some(ActionCommand::ActionCancel)
            } else {
                None
            }
        },
        _ => None,
    }
}

impl Action {
    /// Whether `j` is the wire form of this request: `type`, `id` and `action` (null
    /// where there is none), then `args` where there are any.
    pub open spec fn encoded_as(&self, j: Json) -> bool {
        j is Object && {
            let f = j->Object_0@;
            &&& f.len() == (if self.args is Some { 4int } else { 3int })
            &&& f[0].0@ == "type"@ && is_text(f[0].1, command_text(self.action_type))
            &&& f[1].0@ == "id"@ && f[1].1 == Json::Str(self.id.0)
            &&& f[2].0@ == "action"@ && f[2].1 == (match self.action {
                Some(n) => Json::Str(n.0),
                None => Json::Null,
            })
            &&& self.args is Some ==> f[3].0@ == "args"@ && f[3].1 == self.args->0
        }
    }

    /// The wire form of this request.
    pub fn into_json(self) -> (j: Json)
        ensures
            self.encoded_as(j),
    {
        let ghost a = self;
        let Action { action_type, id, action, args } = self;
        let mut f: Vec<(String, Json)> = Vec::new();
        let t = match action_type {
            ActionCommand::ActionStart => text("ACTION_START"),
            ActionCommand::ActionCancel => text("ACTION_CANCEL"),
        };
        f.push((text("type"), Json::Str(t)));
        f.push((text("id"), Json::Str(id.0)));
        let name = match action {
            Some(n) => Json::Str(n.0),
            None => Json::Null,
        };
        f.push((text("action"), name));
        match args {
            Some(v) => f.push((text("args"), v)),
            None => {},
        }
        Json::Object(f)
    }

    /// The action name of the request, empty where there is none.
    pub open spec fn spec_name(&self) -> Seq<char> {
        match self.action {
            Some(n) => n.0@,
            None => Seq::empty(),
        }
    }

    /// Reads an action request from its wire form.
    pub fn from_json(j: Json) -> (r: Option<Action>)
        ensures
            r == decode_action(j),
    {
        match j {
            Json::Object(fields) => {
                let mut keys: Vec<String> = Vec::new();
                keys.push(text("type"));
                keys.push(text("id"));
                keys.push(text("action"));
                keys.push(text("args"));
                proof {
                    reveal_strlit("type");
                    reveal_strlit("id");
                    reveal_strlit("action");
                    reveal_strlit("args");
                }
                assert(keys@[0]@[0] != keys@[3]@[0]);
                assert(keys@[0]@ != keys@[3]@);
                assert(keys@[0]@.len() != keys@[1]@.len() && keys@[0]@.len() != keys@[2]@.len());
                assert(keys@[1]@.len() != keys@[2]@.len() && keys@[1]@.len() != keys@[3]@.len());
                assert(keys@[2]@.len() != keys@[3]@.len());
                assert(distinct_keys(keys@));
                let mut slots = take_fields(fields, &keys);
                let args = slots.pop().unwrap();
                let action = slots.pop().unwrap();
                let id = slots.pop().unwrap();
                let ty = slots.pop().unwrap();
                let action = match action {
                    None => None,
                    Some(Json::Null) => None,
                    Some(Json::Str(s)) => Some(ActionName(s)),
                    _ => {
                        return None;
                    },
                };
                let id = match id {
                    Some(Json::Str(s)) => ActionId(s),
                    _ => {
                        return None;
                    },
                };
                let ty = match ty {
                    Some(t) => t,
                    None => {
                        return None;
                    },
                };
                match command_from_json(ty) {
                    Some(c) => Some(Action { action_type: c, id, action, args }),
                    None => None,
                }
            },
            _ => None,
        }
    }
}

/// The handlers that the action runner can dispatch to.
#[derive(Debug, Clone, Copy, PartialEq, Eq, Structural)]
pub enum ActionKind {
    StartStratagem,
    StopStratagem,
}

/// The built-in handler of each action name.
pub open spec fn builtin_action(name: Seq<char>) -> Option<ActionKind> {
    if name == "start_stratagem"@ {
        Some(ActionKind::StartStratagem)
    } else if name == "stop_stratagem"@ {
        Some(ActionKind::StopStratagem)
    } else {
        None
    }
}

/// The handler of the first entry named `name` at position `i` or later.
pub open spec fn handler_from(h: Seq<(ActionName, ActionKind)>, name: Seq<char>, i: int) -> Option<ActionKind>
    decreases h.len() - i,
{
    if i < 0 || i >= h.len() {
        None
    } else if h[i].0.0@ == name {
        Some(h[i].1)
    } else {
        handler_from(h, name, i + 1)
    }
}

/// The handler registry: action names with the handler each one selects.
#[derive(Debug)]
pub struct ActionRegistry {
    handlers: Vec<(ActionName, ActionKind)>,
}

impl ActionRegistry {
    /// The handler registered under `name`.
    pub closed spec fn handler(&self, name: Seq<char>) -> Option<ActionKind> {
        handler_from(self.handlers@, name, 0)
    }

    /// Looks up the handler registered under `name`.
    pub fn get(&self, name: &ActionName) -> (r: Option<ActionKind>)
        ensures
            r == self.handler(name.0@),
    {
        let mut i: usize = 0;
        while i < self.handlers.len()
            invariant
                i <= self.handlers@.len(),
                handler_from(self.handlers@, name.0@, 0) == handler_from(self.handlers@, name.0@, i as int),
            decreases self.handlers@.len() - i,
        {
            if self.handlers[i].0.0 == name.0 {
                return Some(self.handlers[i].1);
            }
            i = i + 1;
        }
        None
    }
}

/// The registry of the built-in action handlers.
pub fn create_registry() -> (r: ActionRegistry)
    ensures
        forall|name: Seq<char>| #[trigger] r.handler(name) == builtin_action(name),
{
    let mut handlers: Vec<(ActionName, ActionKind)> = Vec::new();
    handlers.push((ActionName(text("start_stratagem")), ActionKind::StartStratagem));
    handlers.push((ActionName(text("stop_stratagem")), ActionKind::StopStratagem));
    let r = ActionRegistry { handlers };
    assert forall|name: Seq<char>| #[trigger] r.handler(name) == builtin_action(name) by {
        reveal_strlit("start_stratagem");
        reveal_strlit("stop_stratagem");
        let h = r.handlers@;
        assert(h[0].0.0@ == "start_stratagem"@);
        assert(h[1].0.0@ == "stop_stratagem"@);
        assert(handler_from(h, name, 2) is None);
        assert(handler_from(h, name, 1) == (if name == "stop_stratagem"@ { Some(ActionKind::StopStratagem) } else { None }));
        assert(handler_from(h, name, 0) == builtin_action(name));
    }
    r
}

/// What happened to a running action.
#[derive(Debug, PartialEq, Eq)]
pub enum Outcome {
    /// The handler finished with this result.
    Completed(Result<Json, AgentError>),
    /// The action was cancelled before its handler finished.
    Cancelled,
}

/// What the caller is to do with a request.
#[derive(Debug, PartialEq, Eq)]
pub enum Dispatch<H> {
    /// Reply at once.
    Reply(AgentResult),
    /// Run `handler` on `args`, racing it against the cancellation that was registered
    /// under `id`. `displaced` is the cancellation of an earlier action with the same
    /// id, which no longer stands in the table and is not to be signalled.
    Run { id: ActionId, handler: ActionKind, args: Json, displaced: Option<H> },
    /// Signal `signal`, if there is one, and reply with `reply`.
    Cancel { reply: AgentResult, signal: Option<H> },
}

/// How `on_message` goes from `pre` to `post` on `input`, given the cancellation
/// `cancel`, and hands out `d`.
pub open spec fn dispatched<H>(pre: ActionRunner<H>, post: ActionRunner<H>, input: Input, cancel: H, d: Dispatch<H>) -> bool {
    {
        let Input::Action(a) = input;
        let id = a.id.0@;
        match a.action_type {
            ActionCommand::ActionStart => {
                if a.action is None || a.args is None
                    || pre.spec_registry().handler(a.spec_name()) is None {
                    &&& d is Reply
                    &&& d->Reply_0 is AgentErr
                    &&& d->Reply_0->AgentErr_wrapper_version == 1
                    &&& d->Reply_0->error@ == REQUIRED_MESSAGE@
                    &&& post.table() == pre.table()
                } else {
                    &&& d is Run
                    &&& d->Run_id == a.id
                    &&& d->handler == pre.spec_registry().handler(a.spec_name())->0
                    &&& d->args == a.args->0
                    &&& post.running(id)
                    &&& if pre.running(id) {
                        exists|i: int| 0 <= i < pre.table().len()
                            && pre.table()[i].0.0@ == id
                            && d->displaced == Some(pre.table()[i].1)
                            && post.table()[i].0.0@ == id
                            && post.table() == pre.table().update(i, (post.table()[i].0, cancel))
                    } else {
                        &&& d->displaced is None
                        &&& post.table().len() == pre.table().len() + 1
                        &&& post.table().drop_last() == pre.table()
                        &&& post.table().last().1 == cancel
                        &&& post.table().last().0.0@ == id
                    }
                }
            },
            ActionCommand::ActionCancel => {
                &&& d is Cancel
                &&& d->reply == (AgentResult::AgentOk { wrapper_version: 1, result: Json::Null })
                &&& !post.running(id)
                &&& if pre.running(id) {
                    exists|i: int| 0 <= i < pre.table().len()
                        && pre.table()[i].0.0@ == id
                        && d->signal == Some(pre.table()[i].1)
                        && post.table() == pre.table().remove(i)
                } else {
                    &&& d->signal is None
                    &&& post.table() == pre.table()
                }
            },
        }
    }
}

/// How `finish` goes from `pre` to `post` for action `id` with `outcome`, and replies `r`.
pub open spec fn finished<H>(pre: ActionRunner<H>, post: ActionRunner<H>, id: Seq<char>, outcome: Outcome, r: AgentResult) -> bool {
    &&& r.spec_wrapper_version() == AGENT_RPC_WRAPPER_VERSION
    &&& match outcome {
        Outcome::Completed(res) => {
            &&& match res {
                Ok(v) => r == AgentResult::AgentOk { wrapper_version: 1, result: v },
                Err(e) => r is AgentErr && r->error@ == e.spec_message(),
            }
            &&& !post.running(id)
            &&& if pre.running(id) {
                exists|i: int| 0 <= i < pre.table().len()
                    && pre.table()[i].0.0@ == id
                    && post.table() == pre.table().remove(i)
            } else {
                post.table() == pre.table()
            }
        },
        Outcome::Cancelled => r == (AgentResult::AgentOk { wrapper_version: 1, result: Json::Null })
            && post.table() == pre.table(),
    }
}

/// Cancelling a running action signals the cancellation that it was started with and
/// removes its id; the action, cancelled before its handler finished, then replies
/// `AgentOk` with a null result.
pub proof fn lemma_start_then_cancel<H>(
    r0: ActionRunner<H>,
    r1: ActionRunner<H>,
    r2: ActionRunner<H>,
    r3: ActionRunner<H>,
    start: Action,
    stop: Action,
    h: H,
    h2: H,
    d1: Dispatch<H>,
    d2: Dispatch<H>,
    reply: AgentResult,
)
    requires
        r0.wf(),
        r1.wf(),
        start.action_type == ActionCommand::ActionStart,
        dispatched(r0, r1, Input::Action(start), h, d1),
        d1 is Run,
        stop.action_type == ActionCommand::ActionCancel,
        stop.id.0@ == start.id.0@,
        dispatched(r1, r2, Input::Action(stop), h2, d2),
        finished(r2, r3, start.id.0@, Outcome::Cancelled, reply),
    ensures
        d2 is Cancel,
        d2->signal == Some(h),
        !r2.running(start.id.0@),
        !r3.running(start.id.0@),
        reply == (AgentResult::AgentOk { wrapper_version: 1, result: Json::Null }),
{
    let id = start.id.0@;
    let k: int = if r0.running(id) {
        choose|i: int| 0 <= i < r0.table().len() && r0.table()[i].0.0@ == id
            && d1->displaced == Some(r0.table()[i].1)
            && r1.table()[i].0.0@ == id
            && r1.table() == r0.table().update(i, (r1.table()[i].0, h))
    } else {
        r1.table().len() - 1
    };
    assert(r1.table()[k].0.0@ == id && r1.table()[k].1 == h);
    let i2 = choose|i: int| 0 <= i < r1.table().len() && r1.table()[i].0.0@ == id
        && d2->signal == Some(r1.table()[i].1)
        && r2.table() == r1.table().remove(i);
    assert(i2 == k);
}

/// The action runner: its handlers and the cancellation of each running action, by id.
#[derive(Debug)]
pub struct ActionRunner<H> {
    ids: Vec<(ActionId, H)>,
    registry: ActionRegistry,
}

/// A fresh action runner with the built-in handlers and nothing running.
pub fn create<H>() -> (r: ActionRunner<H>)
    ensures
        r.wf(),
        r.table().len() == 0,
        forall|name: Seq<char>| #[trigger] r.spec_registry().handler(name) == builtin_action(name),
{
    ActionRunner { ids: Vec::new(), registry: create_registry() }
}

impl<H> ActionRunner<H> {
    /// The running actions: each id with its cancellation.
    pub closed spec fn table(&self) -> Seq<(ActionId, H)> {
        self.ids@
    }

    pub closed spec fn spec_registry(&self) -> ActionRegistry {
        self.registry
    }

    /// No two running actions share an id.
    pub open spec fn wf(&self) -> bool {
        forall|a: int, b: int|
            0 <= a < self.table().len() && 0 <= b < self.table().len() && a != b
                ==> self.table()[a].0.0@ != self.table()[b].0.0@
    }

    /// Whether an action with this id is running.
    pub open spec fn running(&self, id: Seq<char>) -> bool {
        exists|i: int| 0 <= i < self.table().len() && self.table()[i].0.0@ == id
    }

    /// The number of running actions.
    pub fn len(&self) -> (r: usize)
        ensures
            r == self.table().len(),
    {
        self.ids.len()
    }

    /// Whether an action with this id is running.
    pub fn contains(&self, id: &ActionId) -> (r: bool)
        ensures
            r == self.running(id.0@),
    {
        self.position(id).is_some()
    }

    fn position(&self, id: &ActionId) -> (r: Option<usize>)
        ensures
            match r {
                Some(i) => i < self.table().len() && self.table()[i as int].0.0@ == id.0@,
                None => !self.running(id.0@),
            },
    {
        let mut i: usize = 0;
        while i < self.ids.len()
            invariant
                i <= self.ids@.len(),
                forall|j: int| 0 <= j < i ==> self.ids@[j].0.0@ != id.0@,
            decreases self.ids@.len() - i,
        {
            if self.ids[i].0.0 == id.0 {
                return Some(i);
            }
            i = i + 1;
        }
        None
    }

    /// Handles a request. `cancel` is the cancellation under which a started action is
    /// registered; it is dropped where nothing is started.
    ///
    /// A start request without an action name or arguments, or naming no known action,
    /// gets the reply `AgentErr` "action and args required to start action". A valid
    /// start request registers `cancel` under its id, replacing the entry of a running
    /// action with that id, and asks for the handler to be run. A cancel request removes
    /// its id from the table, hands back that action's cancellation to be signalled, and
    /// gets the reply `AgentOk` with a null result, whether or not the id was running.
    pub fn on_message(&mut self, input: Input, cancel: H) -> (d: Dispatch<H>)
        requires
            old(self).wf(),
        ensures
            final(self).wf(),
            final(self).spec_registry() == old(self).spec_registry(),
            dispatched(*old(self), *final(self), input, cancel, d),
    {
        let Input::Action(action) = input;
        match action.action_type {
            ActionCommand::ActionStart => {
                let Action { action_type: _, id, action: name, args } = action;
                let (name, args) = match (name, args) {
                    (Some(n), Some(a)) => (n, a),
                    _ => {
                        return Dispatch::Reply(required_error());
                    },
                };
                let handler = match self.registry.get(&name) {
                    Some(h) => h,
                    None => {
                        return Dispatch::Reply(required_error());
                    },
                };
                match self.position(&id) {
                    Some(i) => {
                        let ghost before = self.ids@;
                        let key = ActionId(id.0.clone());
                        let (_, old_cancel) = self.ids.remove(i);
                        self.ids.insert(i, (key, cancel));
                        assert(self.ids@ =~= before.update(i as int, (self.ids@[i as int].0, cancel)));
                        assert(self.ids@[i as int].0.0@ == id.0@);
                        Dispatch::Run { id, handler, args, displaced: Some(old_cancel) }
                    },
                    None => {
                        let ghost before = self.ids@;
                        self.ids.push((ActionId(id.0.clone()), cancel));
                        assert(self.ids@.drop_last() =~= before);
                        assert(self.ids@[before.len() as int].0.0@ == id.0@);
                        Dispatch::Run { id, handler, args, displaced: None }
                    },
                }
            },
            ActionCommand::ActionCancel => {
                let signal = self.take(&action.id);
                Dispatch::Cancel { reply: AgentResult::default(), signal }
            },
        }
    }

    /// Removes `id` from the table, handing back its cancellation.
    fn take(&mut self, id: &ActionId) -> (r: Option<H>)
        requires
            old(self).wf(),
        ensures
            final(self).wf(),
            final(self).spec_registry() == old(self).spec_registry(),
            !final(self).running(id.0@),
            if old(self).running(id.0@) {
                exists|i: int| 0 <= i < old(self).table().len()
                    && old(self).table()[i].0.0@ == id.0@
                    && r == Some(old(self).table()[i].1)
                    && final(self).table() == old(self).table().remove(i)
            } else {
                &&& r is None
                &&& final(self).table() == old(self).table()
            },
    {
        match self.position(id) {
            Some(i) => {
                let ghost before = self.ids@;
                let (_, tx) = self.ids.remove(i);
                assert(self.ids@ == before.remove(i as int));
                assert forall|j: int| 0 <= j < self.ids@.len() implies self.ids@[j].0.0@ != id.0@ by {
                    if j < i {
                        assert(self.ids@[j] == before[j]);
                    } else {
                        assert(self.ids@[j] == before[j + 1]);
                    }
                }
                Some(tx)
            },
            None => None,
        }
    }

    /// Records how a started action ended and gives its reply: the handler's result
    /// (its id leaves the table), or, for a cancelled action, `AgentOk` with a null
    /// result.
    pub fn finish(&mut self, id: &ActionId, outcome: Outcome) -> (r: AgentResult)
        requires
            old(self).wf(),
        ensures
            final(self).wf(),
            final(self).spec_registry() == old(self).spec_registry(),
            finished(*old(self), *final(self), id.0@, outcome, r),
    {
        match outcome {
            Outcome::Completed(result) => {
                let _ = self.take(id);
                AgentResult::from_result(result)
            },
            Outcome::Cancelled => AgentResult::default(),
        }
    }

    /// Empties the table and hands back every cancellation, each to be signalled.
    pub fn teardown(&mut self) -> (r: Vec<H>)
        ensures
            final(self).wf(),
            final(self).table().len() == 0,
            final(self).spec_registry() == old(self).spec_registry(),
            r@.len() == old(self).table().len(),
            forall|i: int| 0 <= i < r@.len() ==> r@[i] == old(self).table()[i].1,
    {
        let ghost orig = self.ids@;
        let ghost reg = self.registry;
        let mut rev: Vec<H> = Vec::new();
        while self.ids.len() > 0
            invariant
                self.ids@ == orig.subrange(0, self.ids@.len() as int),
                self.registry == reg,
                rev@.len() + self.ids@.len() == orig.len(),
                forall|k: int| 0 <= k < rev@.len() ==> rev@[k] == orig[orig.len() - 1 - k].1,
            decreases self.ids@.len(),
        {
            let (_, tx) = self.ids.pop().unwrap();
            rev.push(tx);
        }
        let mut out: Vec<H> = Vec::new();
        while rev.len() > 0
            invariant
                rev@.len() + out@.len() == orig.len(),
                forall|k: int| 0 <= k < rev@.len() ==> rev@[k] == orig[orig.len() - 1 - k].1,
                forall|k: int| 0 <= k < out@.len() ==> out@[k] == orig[k].1,
            decreases rev@.len(),
        {
            let tx = rev.pop().unwrap();
            out.push(tx);
        }
        out
    }
}

} // verus!
