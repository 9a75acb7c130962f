//! The session registry: the state of each plugin's session with the manager, and
//! the decisions of the poller and of the reader on it.
use vstd::prelude::*;
use crate::json::Json;
use crate::message::{ManagerMessage, Message, SessionId};
use crate::plugin::{DaemonPlugins, Input, PluginKind, PluginName, get_plugin};

verus! {

/// How long, in milliseconds, a plugin without a session waits before it asks again.
pub const EMPTY_RETRY: u64 = 10_000;

/// How long, in milliseconds, a session request waits for the manager's answer.
pub const PENDING_TIMEOUT: u64 = 30_000;

/// How long, in milliseconds, an active session waits between two updates.
pub const UPDATE_INTERVAL: u64 = 10_000;

/// The instant `d` milliseconds after `now`, or the last instant there is.
pub open spec fn after(now: u64, d: u64) -> u64 {
    if now + d > u64::MAX {
        u64::MAX
    } else {
        (now + d) as u64
    }
}

fn deadline(now: u64, d: u64) -> (r: u64)
    ensures
        r == after(now, d),
{
    if now > u64::MAX - d {
        u64::MAX
    } else {
        now + d
    }
}

/// Which plugin call a due poll makes.
#[derive(Debug, Clone, Copy, PartialEq, Eq, Structural)]
pub enum PollKind {
    /// The first poll of a session: `start_session`.
    Start,
    /// A later poll: `update_session`.
    Update,
}

/// One session with the manager: the plugin instance it owns, the sequence number of
/// its next data message, and whether its plugin has been started.
#[derive(Debug, PartialEq, Eq)]
pub struct Session<P> {
    pub name: PluginName,
    pub id: SessionId,
    pub seq: u64,
    pub started: bool,
    pub plugin: P,
}

impl<P> Session<P> {
    /// A fresh session: sequence 0, not yet started.
    pub fn new(name: PluginName, id: SessionId, plugin: P) -> (s: Session<P>)
        ensures
            s == (Session { name, id, seq: 0, started: false, plugin }),
    {
        Session { name, id, seq: 0, started: false, plugin }
    }

    /// Marks the session started and says which call this poll makes: `Start` the
    /// first time, `Update` after that.
    pub fn poll(&mut self) -> (k: PollKind)
        ensures
            k == (if old(self).started { PollKind::Update } else { PollKind::Start }),
            *final(self) == (Session { started: true, ..*old(self) }),
    {
        let k = if self.started { PollKind::Update } else { PollKind::Start };
        self.started = true;
        k
    }
}

/// The state of one plugin's session.
#[derive(Debug, PartialEq, Eq)]
pub enum State<P> {
    /// No session; a request may be made from the given instant on.
    Empty(u64),
    /// A request was made; it is abandoned at the given instant.
    Pending(u64),
    /// A session is established; it is polled from `next_tick` on.
    Active { session: Session<P>, next_tick: u64 },
}

/// The state that a session is reset to: empty, retrying after the back-off.
pub open spec fn empty_state<P>(now: u64) -> State<P> {
    State::Empty(after(now, EMPTY_RETRY))
}

/// The session that a state holds, if any.
pub open spec fn session_of<P>(st: Option<State<P>>) -> Option<Session<P>> {
    match st {
        Some(State::Active { session, .. }) => Some(session),
        _ => None,
    }
}

/// Whether `st` is an active session with the given id.
pub open spec fn active_with<P>(st: Option<State<P>>, id: Seq<char>) -> bool {
    match st {
        Some(State::Active { session, .. }) => session.id.0@ == id,
        _ => false,
    }
}

/// The state of the first entry named `name` at position `i` or later.
pub open spec fn state_from<P>(e: Seq<(PluginName, State<P>)>, name: Seq<char>, i: int) -> Option<State<P>>
    decreases e.len() - i,
{
    if i < 0 || i >= e.len() {
        None
    } else if e[i].0.0@ == name {
        Some(e[i].1)
    } else {
        state_from(e, name, i + 1)
    }
}

/// What the poller is to do for one entry.
#[derive(Debug, PartialEq, Eq)]
pub enum PollTask {
    /// Ask the manager for a session of this plugin.
    CreateSession(PluginName),
    /// Call the plugin of this session.
    Poll { name: PluginName, session_id: SessionId, kind: PollKind },
}

/// The state that a tick at `now` leaves: an empty entry stays empty (the outcome of
/// its request moves it on), a pending one past its deadline becomes empty again, a due session is started or
/// updated and waits for its next interval; anything not yet due stays as it is.
pub open spec fn tick_state<P>(st: State<P>, now: u64) -> State<P> {
    match st {
        State::Empty(_) => st,
        State::Pending(w) => if w <= now { empty_state(now) } else { st },
        State::Active { session, next_tick } => if next_tick <= now {
            State::Active { session: Session { started: true, ..session }, next_tick: after(now, UPDATE_INTERVAL) }
        } else {
            st
        },
    }
}

/// The task that a tick at `now` hands out for an entry.
pub open spec fn task_of<P>(name: PluginName, st: State<P>, now: u64) -> Option<PollTask> {
    match st {
        State::Empty(w) => if w <= now { Some(PollTask::CreateSession(name)) } else { None },
        State::Pending(_) => None,
        State::Active { session, next_tick } => if next_tick <= now {
            Some(PollTask::Poll {
                name,
                session_id: session.id,
                kind: if session.started { PollKind::Update } else { PollKind::Start },
            })
        } else {
            None
        },
    }
}

/// The tasks of the first `i` entries, in order.
pub open spec fn tasks_upto<P>(e: Seq<(PluginName, State<P>)>, now: u64, i: int) -> Seq<PollTask>
    decreases i,
{
    if i <= 0 || i > e.len() {
        Seq::empty()
    } else {
        let prev = tasks_upto(e, now, i - 1);
        match task_of(e[i - 1].0, e[i - 1].1, now) {
            Some(t) => prev.push(t),
            None => prev,
        }
    }
}

/// The sessions of the first `i` entries, in order.
pub open spec fn sessions_upto<P>(e: Seq<(PluginName, State<P>)>, i: int) -> Seq<Session<P>>
    decreases i,
{
    if i <= 0 || i > e.len() {
        Seq::empty()
    } else {
        let prev = sessions_upto(e, i - 1);
        match e[i - 1].1 {
            State::Active { session, .. } => prev.push(session),
            _ => prev,
        }
    }
}

/// The registry: one state for each plugin name.
#[derive(Debug)]
pub struct Sessions<P> {
    entries: Vec<(PluginName, State<P>)>,
}

proof fn lemma_state_from_at<P>(e: Seq<(PluginName, State<P>)>, i: int, k: int)
    requires
        0 <= k <= i < e.len(),
        forall|j: int| 0 <= j < i ==> e[j].0.0@ != e[i].0.0@,
    ensures
        state_from(e, e[i].0.0@, k) == Some(e[i].1),
    decreases i - k,
{
    if k < i {
        lemma_state_from_at(e, i, k + 1);
    }
}

proof fn lemma_state_from_absent<P>(e: Seq<(PluginName, State<P>)>, name: Seq<char>, k: int)
    requires
        0 <= k,
        forall|j: int| 0 <= j < e.len() ==> e[j].0.0@ != name,
    ensures
        state_from(e, name, k) is None,
    decreases e.len() - k,
{
    if k < e.len() {
        lemma_state_from_absent(e, name, k + 1);
    }
}

proof fn lemma_state_from_same<P>(a: Seq<(PluginName, State<P>)>, b: Seq<(PluginName, State<P>)>, name: Seq<char>, k: int)
    requires
        a.len() == b.len(),
        forall|j: int| 0 <= j < a.len() ==> a[j].0 == b[j].0,
        forall|j: int| 0 <= j < a.len() && a[j].0.0@ == name ==> a[j].1 == b[j].1,
    ensures
        state_from(a, name, k) == state_from(b, name, k),
    decreases a.len() - k,
{
    if 0 <= k < a.len() {
        lemma_state_from_same(a, b, name, k + 1);
    }
}

proof fn lemma_state_from_ticked<P>(a: Seq<(PluginName, State<P>)>, b: Seq<(PluginName, State<P>)>, name: Seq<char>, now: u64, k: int)
    requires
        a.len() == b.len(),
        forall|j: int| 0 <= j < a.len() ==> a[j].0 == b[j].0,
        forall|j: int| 0 <= j < a.len() ==> b[j].1 == tick_state(a[j].1, now),
    ensures
        state_from(b, name, k) == (match state_from(a, name, k) {
            Some(st) => Some(tick_state(st, now)),
            None => None,
        }),
    decreases a.len() - k,
{
    if 0 <= k < a.len() {
        lemma_state_from_ticked(a, b, name, now, k + 1);
    }
}

/// Whether an entry of `e` is named `n`.
pub open spec fn names_entry<P>(e: Seq<(PluginName, State<P>)>, n: Seq<char>) -> bool {
    exists|j: int| 0 <= j < e.len() && e[j].0.0@ == n
}

/// Whether one of the first `i` names is `n`.
pub open spec fn lists_name(names: Seq<PluginName>, i: int, n: Seq<char>) -> bool {
    exists|k: int| 0 <= k < i && names[k].0@ == n
}

/// Whether `pre` can emit a data message for session `id` of `name`, going to `post`
/// with message `m`: the session is active, `m` carries its current sequence number,
/// and the session's sequence number goes up by one.
pub open spec fn emits<P>(pre: Sessions<P>, post: Sessions<P>, name: Seq<char>, id: Seq<char>, m: Message) -> bool {
    pre.can_emit(name, id) && {
        let s = session_of(pre.lookup(name))->0;
        &&& m is Data
        &&& m->session_seq == s.seq
        &&& post.lookup(name) == Some(State::Active {
            session: Session { seq: (s.seq + 1) as u64, ..s },
            next_tick: pre.lookup(name)->0->next_tick,
        })
    }
}

/// The instant from which a tick acts on a state.
pub open spec fn due_at<P>(st: State<P>) -> u64 {
    match st {
        State::Empty(w) => w,
        State::Pending(w) => w,
        State::Active { next_tick, .. } => next_tick,
    }
}

fn tick_entry<P>(name: &PluginName, st: State<P>, now: u64) -> (r: (State<P>, Option<PollTask>))
    ensures
        r.0 == tick_state(st, now),
        r.1 == task_of(*name, st, now),
{
    match st {
        State::Empty(w) => {
            if w <= now {
                (State::Empty(w), Some(PollTask::CreateSession(name.duplicate())))
            } else {
                (State::Empty(w), None)
            }
        },
        State::Pending(w) => {
            if w <= now {
                (State::Empty(deadline(now, EMPTY_RETRY)), None)
            } else {
                (State::Pending(w), None)
            }
        },
        State::Active { session, next_tick } => {
            if next_tick <= now {
                let mut session = session;
                let kind = session.poll();
                let task = PollTask::Poll { name: name.duplicate(), session_id: session.id.duplicate(), kind };
                (State::Active { session, next_tick: deadline(now, UPDATE_INTERVAL) }, Some(task))
            } else {
                (State::Active { session, next_tick }, None)
            }
        },
    }
}

/// What the reader is to do with a message from the manager.
#[derive(Debug, PartialEq, Eq)]
pub enum ReaderStep<P> {
    /// Make an instance of `kind` and begin a session with it.
    Start { plugin: PluginName, session_id: SessionId, kind: PluginKind },
    /// No plugin has this name: the message is dropped.
    NoPlugin(PluginName),
    /// Hand `input` to the plugin of this active session.
    Deliver { plugin: PluginName, session_id: SessionId, input: Input },
    /// No such session is active: the message is dropped.
    Drop { plugin: PluginName, session_id: SessionId },
    /// These sessions were ended; tear each one down.
    TornDown(Vec<Session<P>>),
}

impl<P> Sessions<P> {
    /// The entries: each plugin name with its state, in order.
    pub closed spec fn entries(&self) -> Seq<(PluginName, State<P>)> {
        self.entries@
    }

    /// The plugin names, in order.
    pub open spec fn names(&self) -> Seq<Seq<char>> {
        self.entries().map_values(|e: (PluginName, State<P>)| e.0.0@)
    }

    /// No two entries share a name.
    pub open spec fn wf(&self) -> bool {
        forall|a: int, b: int|
            0 <= a < self.entries().len() && 0 <= b < self.entries().len() && a != b
                ==> self.entries()[a].0.0@ != self.entries()[b].0.0@
    }

    /// The state of the plugin `name`, where it is registered.
    pub open spec fn lookup(&self, name: Seq<char>) -> Option<State<P>> {
        state_from(self.entries(), name, 0)
    }

    /// The entry at `i` is the one that `lookup` finds for its name.
    pub proof fn lemma_lookup_at(&self, i: int)
        requires
            self.wf(),
            0 <= i < self.entries().len(),
        ensures
            self.lookup(self.entries()[i].0.0@) == Some(self.entries()[i].1),
    {
        lemma_state_from_at(self.entries(), i, 0);
    }

    /// A registered name has exactly one entry.
    pub proof fn lemma_one_entry(&self, name: Seq<char>)
        requires
            self.wf(),
            self.lookup(name) is Some,
        ensures
            exists|i: int| 0 <= i < self.entries().len() && self.entries()[i].0.0@ == name
                && forall|j: int| 0 <= j < self.entries().len() && self.entries()[j].0.0@ == name ==> j == i,
    {
        if forall|j: int| 0 <= j < self.entries().len() ==> self.entries()[j].0.0@ != name {
            lemma_state_from_absent(self.entries(), name, 0);
        }
    }

    /// An empty registry.
    pub fn new() -> (r: Sessions<P>)
        ensures
            r.wf(),
            r.entries().len() == 0,
    {
        Sessions { entries: Vec::new() }
    }

    /// A registry with an empty entry, due at `now`, for each name of `names`; a name
    /// given twice is kept once.
    pub fn with_plugins(names: &Vec<PluginName>, now: u64) -> (r: Sessions<P>)
        ensures
            r.wf(),
            forall|n: Seq<char>| (#[trigger] r.lookup(n) is Some) == lists_name(names@, names@.len() as int, n),
            forall|n: Seq<char>| #[trigger] r.lookup(n) is Some ==> r.lookup(n) == Some(State::<P>::Empty(now)),
            forall|j: int| 0 <= j < r.entries().len() ==> #[trigger] r.entries()[j].1 == State::<P>::Empty(now),
            r.entries().len() <= names@.len(),
    {
        let mut r: Sessions<P> = Sessions::new();
        let mut i: usize = 0;
        while i < names.len()
            invariant
                i <= names@.len(),
                r.wf(),
                r.entries().len() <= i,
                forall|j: int| 0 <= j < r.entries().len() ==> r.entries()[j].1 == State::<P>::Empty(now),
                forall|n: Seq<char>| #[trigger] names_entry(r.entries(), n) == lists_name(names@, i as int, n),
            decreases names@.len() - i,
        {
            if r.position(&names[i]).is_none() {
                let ghost before = r.entries();
                r.entries.push((names[i].duplicate(), State::Empty(now)));
                assert(r.entries() == before.push((names@[i as int], State::<P>::Empty(now))));
                assert forall|n: Seq<char>| #[trigger] names_entry(r.entries(), n) == lists_name(names@, i + 1, n) by {
                    if exists|k: int| 0 <= k < i + 1 && names@[k].0@ == n {
                        let k = choose|k: int| 0 <= k < i + 1 && names@[k].0@ == n;
                        if k == i {
                            assert(r.entries()[before.len() as int].0.0@ == n);
                        } else {
                            assert(lists_name(names@, i as int, n));
                            assert(names_entry(before, n));
                            let j = choose|j: int| 0 <= j < before.len() && before[j].0.0@ == n;
                            assert(r.entries()[j] == before[j]);
                        }
                    }
                    if exists|j: int| 0 <= j < r.entries().len() && r.entries()[j].0.0@ == n {
                        let j = choose|j: int| 0 <= j < r.entries().len() && r.entries()[j].0.0@ == n;
                        if j < before.len() {
                            assert(before[j].0.0@ == n);
                            assert(names_entry(before, n));
                        } else {
                            assert(names@[i as int].0@ == n);
                        }
                    }
                }
            } else {
                assert forall|n: Seq<char>| #[trigger] names_entry(r.entries(), n) == lists_name(names@, i + 1, n) by {
                    if exists|k: int| 0 <= k < i + 1 && names@[k].0@ == n {
                        let k = choose|k: int| 0 <= k < i + 1 && names@[k].0@ == n;
                        if k < i {
                            assert(exists|k: int| 0 <= k < i && names@[k].0@ == n);
                        }
                    }
                }
            }
            i = i + 1;
        }
        assert forall|n: Seq<char>| (#[trigger] r.lookup(n) is Some) == lists_name(names@, names@.len() as int, n)
            && (r.lookup(n) is Some ==> r.lookup(n) == Some(State::<P>::Empty(now))) by {
            assert(names_entry(r.entries(), n) == lists_name(names@, names@.len() as int, n));
            if exists|j: int| 0 <= j < r.entries().len() && r.entries()[j].0.0@ == n {
                let j = choose|j: int| 0 <= j < r.entries().len() && r.entries()[j].0.0@ == n;
                r.lemma_lookup_at(j);
            } else {
                lemma_state_from_absent(r.entries(), n, 0);
            }
        }
        r
    }

    fn position(&self, name: &PluginName) -> (r: Option<usize>)
        ensures
            match r {
                Some(i) => i < self.entries().len() && self.entries()[i as int].0.0@ == name.0@,
                None => forall|j: int| 0 <= j < self.entries().len() ==> self.entries()[j].0.0@ != name.0@,
            },
    {
        let mut i: usize = 0;
        while i < self.entries.len()
            invariant
                i <= self.entries@.len(),
                forall|j: int| 0 <= j < i ==> self.entries@[j].0.0@ != name.0@,
            decreases self.entries@.len() - i,
        {
            if self.entries[i].0.0 == name.0 {
                return Some(i);
            }
            i = i + 1;
        }
        None
    }

    /// The state of the plugin `name`, where it is registered.
    pub fn state(&self, name: &PluginName) -> (r: Option<&State<P>>)
        requires
            self.wf(),
        ensures
            match r {
                Some(st) => self.lookup(name.0@) == Some(*st),
                None => self.lookup(name.0@) is None,
            },
    {
        match self.position(name) {
            Some(i) => {
                proof {
                    self.lemma_lookup_at(i as int);
                }
                Some(&self.entries[i].1)
            },
            None => {
                proof {
                    lemma_state_from_absent(self.entries(), name.0@, 0);
                }
                None
            },
        }
    }

    /// Replaces the state at `i`, handing back the one it held.
    fn replace(&mut self, i: usize, st: State<P>) -> (r: State<P>)
        requires
            old(self).wf(),
            i < old(self).entries().len(),
        ensures
            final(self).wf(),
            final(self).entries() == old(self).entries().update(i as int, (old(self).entries()[i as int].0, st)),
            r == old(self).entries()[i as int].1,
            final(self).names() == old(self).names(),
            forall|n: Seq<char>| n != old(self).entries()[i as int].0.0@ ==> final(self).lookup(n) == old(self).lookup(n),
            final(self).lookup(old(self).entries()[i as int].0.0@) == Some(st),
    {
        let ghost before = self.entries();
        let (name, prev) = self.entries.remove(i);
        self.entries.insert(i, (name, st));
        assert(self.entries() =~= before.update(i as int, (before[i as int].0, st)));
        assert(self.names() =~= before.map_values(|e: (PluginName, State<P>)| e.0.0@));
        assert forall|n: Seq<char>| n != before[i as int].0.0@ implies self.lookup(n) == state_from(before, n, 0) by {
            lemma_state_from_same(self.entries(), before, n, 0);
        }
        proof {
            self.lemma_lookup_at(i as int);
        }
        prev
    }

    /// Sets `name` empty, retrying after the back-off, and hands back the session it
    /// held, which the caller tears down. Does nothing for an unregistered name.
    pub fn terminate_session(&mut self, name: &PluginName, now: u64) -> (r: Option<Session<P>>)
        requires
            old(self).wf(),
        ensures
            final(self).wf(),
            final(self).names() == old(self).names(),
            forall|n: Seq<char>| n != name.0@ ==> #[trigger] final(self).lookup(n) == old(self).lookup(n),
            final(self).lookup(name.0@) == (if old(self).lookup(name.0@) is Some { Some(empty_state::<P>(now)) } else { None }),
            r == session_of(old(self).lookup(name.0@)),
    {
        match self.position(name) {
            Some(i) => {
                proof {
                    self.lemma_lookup_at(i as int);
                }
                let prev = self.replace(i, State::Empty(deadline(now, EMPTY_RETRY)));
                match prev {
                    State::Active { session, .. } => Some(session),
                    _ => None,
                }
            },
            None => {
                proof {
                    lemma_state_from_absent(self.entries(), name.0@, 0);
                }
                None
            },
        }
    }

    /// Sets `name` empty, retrying after the back-off; the same as `terminate_session`.
    pub fn reset_empty(&mut self, name: &PluginName, now: u64) -> (r: Option<Session<P>>)
        requires
            old(self).wf(),
        ensures
            final(self).wf(),
            final(self).names() == old(self).names(),
            forall|n: Seq<char>| n != name.0@ ==> #[trigger] final(self).lookup(n) == old(self).lookup(n),
            final(self).lookup(name.0@) == (if old(self).lookup(name.0@) is Some { Some(empty_state::<P>(now)) } else { None }),
            r == session_of(old(self).lookup(name.0@)),
    {
        self.terminate_session(name, now)
    }

    /// Moves an empty `name` to pending, abandoned after the timeout; any other state
    /// stays as it is.
    pub fn convert_to_pending(&mut self, name: &PluginName, now: u64)
        requires
            old(self).wf(),
        ensures
            final(self).wf(),
            final(self).names() == old(self).names(),
            forall|n: Seq<char>| n != name.0@ ==> #[trigger] final(self).lookup(n) == old(self).lookup(n),
            final(self).lookup(name.0@) == (match old(self).lookup(name.0@) {
                Some(State::Empty(_)) => Some(State::<P>::Pending(after(now, PENDING_TIMEOUT))),
                other => other,
            }),
    {
        if let Some(i) = self.position(name) {
            proof {
                self.lemma_lookup_at(i as int);
            }
            if let State::Empty(_) = self.entries[i].1 {
                self.replace(i, State::Pending(deadline(now, PENDING_TIMEOUT)));
            }
        } else {
            proof {
                lemma_state_from_absent(self.entries(), name.0@, 0);
            }
        }
    }

    /// Makes `session` the active session of its plugin, polled after the update
    /// interval, and hands back the session that it supersedes, which the caller tears
    /// down. A name not yet registered is added.
    pub fn insert_session(&mut self, session: Session<P>, now: u64) -> (r: Option<Session<P>>)
        requires
            old(self).wf(),
        ensures
            final(self).wf(),
            final(self).names() == (if old(self).lookup(session.name.0@) is Some {
                old(self).names()
            } else {
                old(self).names().push(session.name.0@)
            }),
            forall|n: Seq<char>| n != session.name.0@ ==> #[trigger] final(self).lookup(n) == old(self).lookup(n),
            final(self).lookup(session.name.0@) == Some(State::Active { session, next_tick: after(now, UPDATE_INTERVAL) }),
            r == session_of(old(self).lookup(session.name.0@)),
    {
        let ghost s = session;
        let name = session.name.duplicate();
        match self.position(&name) {
            Some(i) => {
                proof {
                    self.lemma_lookup_at(i as int);
                }
                let prev = self.replace(i, State::Active { session, next_tick: deadline(now, UPDATE_INTERVAL) });
                match prev {
                    State::Active { session, .. } => Some(session),
                    _ => None,
                }
            },
            None => {
                let ghost before = self.entries();
                proof {
                    lemma_state_from_absent(before, name.0@, 0);
                }
                self.entries.push((name, State::Active { session, next_tick: deadline(now, UPDATE_INTERVAL) }));
                assert(self.entries() == before.push(self.entries().last()));
                assert(self.names() =~= before.map_values(|e: (PluginName, State<P>)| e.0.0@).push(s.name.0@));
                assert forall|n: Seq<char>| n != s.name.0@ implies #[trigger] self.lookup(n) == state_from(before, n, 0) by {
                    if names_entry(before, n) {
                        let j = choose|j: int| 0 <= j < before.len() && before[j].0.0@ == n;
                        lemma_state_from_at(before, j, 0);
                        self.lemma_lookup_at(j);
                    } else {
                        lemma_state_from_absent(before, n, 0);
                        lemma_state_from_absent(self.entries(), n, 0);
                    }
                }
                proof {
                    self.lemma_lookup_at(before.len() as int);
                }
                None
            },
        }
    }

    /// Puts off the next poll of an active `name` until the update interval has passed;
    /// any other state stays as it is.
    pub fn reset_active(&mut self, name: &PluginName, now: u64)
        requires
            old(self).wf(),
        ensures
            final(self).wf(),
            final(self).names() == old(self).names(),
            forall|n: Seq<char>| n != name.0@ ==> #[trigger] final(self).lookup(n) == old(self).lookup(n),
            final(self).lookup(name.0@) == (match old(self).lookup(name.0@) {
                Some(State::Active { session, .. }) => Some(State::Active { session, next_tick: after(now, UPDATE_INTERVAL) }),
                other => other,
            }),
    {
        if let Some(i) = self.position(name) {
            proof {
                self.lemma_lookup_at(i as int);
            }
            if let State::Active { .. } = self.entries[i].1 {
                let prev = self.replace(i, State::Empty(0));
                if let State::Active { session, .. } = prev {
                    self.replace(i, State::Active { session, next_tick: deadline(now, UPDATE_INTERVAL) });
                }
            }
        } else {
            proof {
                lemma_state_from_absent(self.entries(), name.0@, 0);
            }
        }
    }

    /// Whether a data message can go out for session `id` of `name`: that session is
    /// active and its sequence number can still grow.
    pub open spec fn can_emit(&self, name: Seq<char>, id: Seq<char>) -> bool {
        active_with(self.lookup(name), id) && session_of(self.lookup(name))->0.seq < u64::MAX
    }

    /// The data message that carries `body` for session `session_id` of `name`, with
    /// the session's current sequence number, which then goes up by one. Where that
    /// session is not active (it ended, or another took its place) nothing is sent and
    /// nothing changes.
    pub fn emit_data(&mut self, name: &PluginName, session_id: &SessionId, fqdn: String, body: Json) -> (r: Option<Message>)
        requires
            old(self).wf(),
        ensures
            final(self).wf(),
            final(self).names() == old(self).names(),
            forall|n: Seq<char>| n != name.0@ ==> #[trigger] final(self).lookup(n) == old(self).lookup(n),
            (r is Some) == old(self).can_emit(name.0@, session_id.0@),
            r is Some ==> emits(*old(self), *final(self), name.0@, session_id.0@, r->0),
            r is Some ==> ({
                let s = session_of(old(self).lookup(name.0@))->0;
                r->0 == Message::Data { fqdn, plugin: s.name, session_id: s.id, session_seq: s.seq, body }
            }),
            r is None ==> final(self).entries() == old(self).entries(),
    {
        let i = match self.position(name) {
            Some(i) => i,
            None => {
                proof {
                    lemma_state_from_absent(self.entries(), name.0@, 0);
                }
                return None;
            },
        };
        proof {
            self.lemma_lookup_at(i as int);
        }
        let ok = match &self.entries[i].1 {
            State::Active { session, .. } => session.id.0 == session_id.0 && session.seq < u64::MAX,
            _ => false,
        };
        if !ok {
            return None;
        }
        let prev = self.replace(i, State::Empty(0));
        match prev {
            State::Active { session, next_tick } => {
                let mut session = session;
                let m = Message::Data {
                    fqdn,
                    plugin: session.name.duplicate(),
                    session_id: session.id.duplicate(),
                    session_seq: session.seq,
                    body,
                };
                session.seq = session.seq + 1;
                self.replace(i, State::Active { session, next_tick });
                Some(m)
            },
            _ => None,
        }
    }

    /// Sets every entry empty, retrying after the back-off, and hands back the sessions
    /// that were active, in order, each to be torn down.
    pub fn terminate_all_sessions(&mut self, now: u64) -> (r: Vec<Session<P>>)
        requires
            old(self).wf(),
        ensures
            final(self).wf(),
            final(self).names() == old(self).names(),
            forall|n: Seq<char>| #[trigger] final(self).lookup(n) == (if old(self).lookup(n) is Some {
                Some(empty_state::<P>(now))
            } else {
                None
            }),
            r@ == sessions_upto(old(self).entries(), old(self).entries().len() as int),
    {
        let ghost orig = self.entries();
        let mut out: Vec<Session<P>> = Vec::new();
        let mut i: usize = 0;
        while i < self.entries.len()
            invariant
                self.wf(),
                i <= self.entries().len(),
                self.entries().len() == orig.len(),
                forall|j: int| 0 <= j < i ==> self.entries()[j] == (orig[j].0, empty_state::<P>(now)),
                forall|j: int| i <= j < orig.len() ==> self.entries()[j] == orig[j],
                out@ == sessions_upto(orig, i as int),
            decreases orig.len() - i,
        {
            let prev = self.replace(i, State::Empty(deadline(now, EMPTY_RETRY)));
            match prev {
                State::Active { session, .. } => out.push(session),
                _ => {},
            }
            i = i + 1;
        }
        assert(self.names() =~= orig.map_values(|e: (PluginName, State<P>)| e.0.0@));
        assert forall|n: Seq<char>| #[trigger] self.lookup(n) == (if state_from(orig, n, 0) is Some {
            Some(empty_state::<P>(now))
        } else {
            None
        }) by {
            if names_entry(orig, n) {
                let j = choose|j: int| 0 <= j < orig.len() && orig[j].0.0@ == n;
                self.lemma_lookup_at(j);
                assert forall|k: int| 0 <= k < j implies orig[k].0.0@ != orig[j].0.0@ by {
                    assert(self.entries()[k].0 == orig[k].0);
                }
                lemma_state_from_at(orig, j, 0);
            } else {
                lemma_state_from_absent(orig, n, 0);
                lemma_state_from_absent(self.entries(), n, 0);
            }
        }
        out
    }

    /// One tick of the poller at `now`: each entry moves as `tick_state` says, and the
    /// tasks of the due entries come back in order.
    pub fn tick(&mut self, now: u64) -> (r: Vec<PollTask>)
        requires
            old(self).wf(),
        ensures
            final(self).wf(),
            final(self).names() == old(self).names(),
            final(self).entries().len() == old(self).entries().len(),
            forall|j: int| 0 <= j < old(self).entries().len() ==> #[trigger] final(self).entries()[j]
                == (old(self).entries()[j].0, tick_state(old(self).entries()[j].1, now)),
            forall|n: Seq<char>| #[trigger] final(self).lookup(n) == (match old(self).lookup(n) {
                Some(st) => Some(tick_state(st, now)),
                None => None,
            }),
            r@ == tasks_upto(old(self).entries(), now, old(self).entries().len() as int),
    {
        let ghost orig = self.entries();
        let mut out: Vec<PollTask> = Vec::new();
        let mut i: usize = 0;
        while i < self.entries.len()
            invariant
                self.wf(),
                i <= self.entries().len(),
                self.entries().len() == orig.len(),
                forall|j: int| 0 <= j < i ==> self.entries()[j] == (orig[j].0, tick_state(orig[j].1, now)),
                forall|j: int| i <= j < orig.len() ==> self.entries()[j] == orig[j],
                out@ == tasks_upto(orig, now, i as int),
            decreases orig.len() - i,
        {
            let name = self.entries[i].0.duplicate();
            let prev = self.replace(i, State::Empty(0));
            let (st, task) = tick_entry(&name, prev, now);
            self.replace(i, st);
            match task {
                Some(t) => out.push(t),
                None => {},
            }
            i = i + 1;
        }
        assert(self.names() =~= orig.map_values(|e: (PluginName, State<P>)| e.0.0@));
        assert forall|n: Seq<char>| #[trigger] self.lookup(n) == (match state_from(orig, n, 0) {
            Some(st) => Some(tick_state(st, now)),
            None => None,
        }) by {
            lemma_state_from_ticked(orig, self.entries(), n, now, 0);
        }
        out
    }

    /// Begins the session `session_id` of `name` with a fresh plugin instance, started
    /// at once, and hands back the session it supersedes, which the caller tears down.
    pub fn begin_session(&mut self, name: PluginName, session_id: SessionId, plugin: P, now: u64) -> (r: Option<Session<P>>)
        requires
            old(self).wf(),
        ensures
            final(self).wf(),
            final(self).names() == (if old(self).lookup(name.0@) is Some {
                old(self).names()
            } else {
                old(self).names().push(name.0@)
            }),
            forall|n: Seq<char>| n != name.0@ ==> #[trigger] final(self).lookup(n) == old(self).lookup(n),
            final(self).lookup(name.0@) == Some(State::Active {
                session: Session { name, id: session_id, seq: 0, started: true, plugin },
                next_tick: after(now, UPDATE_INTERVAL),
            }),
            r == session_of(old(self).lookup(name.0@)),
    {
        let mut session = Session::new(name, session_id, plugin);
        let _ = session.poll();
        self.insert_session(session, now)
    }

    /// Decides what the reader does with a message from the manager. A session
    /// response names the plugin to instantiate; data goes to its session where that
    /// session is active; a terminate ends the plugin's session, whatever its id; a
    /// terminate-all ends every session.
    pub fn handle_message(&mut self, msg: ManagerMessage, registry: &DaemonPlugins, now: u64) -> (r: ReaderStep<P>)
        requires
            old(self).wf(),
        ensures
            final(self).wf(),
            final(self).names() == old(self).names(),
            match msg {
                ManagerMessage::SessionCreateResponse { plugin, session_id } => {
                    &&& final(self).entries() == old(self).entries()
                    &&& match registry.plugin(plugin.0@) {
                        Some(kind) => r == ReaderStep::<P>::Start { plugin, session_id, kind },
                        None => r == ReaderStep::<P>::NoPlugin(plugin),
                    }
                },
                ManagerMessage::Data { plugin, session_id, body } => {
                    &&& final(self).entries() == old(self).entries()
                    &&& if active_with(old(self).lookup(plugin.0@), session_id.0@) {
                        r == ReaderStep::<P>::Deliver { plugin, session_id, input: body }
                    } else {
                        r == ReaderStep::<P>::Drop { plugin, session_id }
                    }
                },
                ManagerMessage::SessionTerminate { plugin, .. } => {
                    &&& forall|n: Seq<char>| n != plugin.0@ ==> #[trigger] final(self).lookup(n) == old(self).lookup(n)
                    &&& final(self).lookup(plugin.0@) == (if old(self).lookup(plugin.0@) is Some {
                        Some(empty_state::<P>(now))
                    } else {
                        None
                    })
                    &&& r is TornDown
                    &&& r->TornDown_0@ == (match session_of(old(self).lookup(plugin.0@)) {
                        Some(s) => seq![s],
                        None => Seq::empty(),
                    })
                },
                ManagerMessage::SessionTerminateAll => {
                    &&& forall|n: Seq<char>| #[trigger] final(self).lookup(n) == (if old(self).lookup(n) is Some {
                        Some(empty_state::<P>(now))
                    } else {
                        None
                    })
                    &&& r is TornDown
                    &&& r->TornDown_0@ == sessions_upto(old(self).entries(), old(self).entries().len() as int)
                },
            },
    {
        match msg {
            ManagerMessage::SessionCreateResponse { plugin, session_id } => {
                match get_plugin(&plugin, registry) {
                    Ok(kind) => ReaderStep::Start { plugin, session_id, kind },
                    Err(_) => ReaderStep::NoPlugin(plugin),
                }
            },
            ManagerMessage::Data { plugin, session_id, body } => {
                let active = match self.state(&plugin) {
                    Some(State::Active { session, .. }) => session.id.0 == session_id.0,
                    _ => false,
                };
                if active {
                    ReaderStep::Deliver { plugin, session_id, input: body }
                } else {
                    ReaderStep::Drop { plugin, session_id }
                }
            },
            ManagerMessage::SessionTerminate { plugin, .. } => {
                let mut torn: Vec<Session<P>> = Vec::new();
                match self.terminate_session(&plugin, now) {
                    Some(s) => torn.push(s),
                    None => {},
                }
                assert(torn@ =~= (match session_of(old(self).lookup(plugin.0@)) {
                    Some(s) => seq![s],
                    None => Seq::<Session<P>>::empty(),
                }));
                ReaderStep::TornDown(torn)
            },
            ManagerMessage::SessionTerminateAll => ReaderStep::TornDown(self.terminate_all_sessions(now)),
        }
    }

} // impl

/// Once a session has emitted a message, the next message it emits carries the next
/// sequence number: sequence numbers strictly increase.
pub proof fn lemma_seq_increases<P>(s0: Sessions<P>, s1: Sessions<P>, s2: Sessions<P>, name: Seq<char>, id: Seq<char>, m1: Message, m2: Message)
    requires
        emits(s0, s1, name, id, m1),
        emits(s1, s2, name, id, m2),
    ensures
        m2->session_seq == m1->session_seq + 1,
        m1->session_seq < m2->session_seq,
{
}

/// A new session emits its first message with sequence number 0.
pub proof fn lemma_seq_starts_at_zero<P>(s0: Sessions<P>, s1: Sessions<P>, name: Seq<char>, id: Seq<char>, m: Message, fresh: Session<P>, next_tick: u64)
    requires
        s0.lookup(name) == Some(State::Active { session: fresh, next_tick }),
        fresh.seq == 0,
        emits(s0, s1, name, id, m),
    ensures
        m->session_seq == 0,
{
}

/// Once a plugin's session has been torn down (its entry set empty, or absent),
/// nothing more is emitted for any session of it.
pub proof fn lemma_silent_after_teardown<P>(s: Sessions<P>, s1: Sessions<P>, name: Seq<char>, id: Seq<char>, now: u64, m: Message)
    requires
        s.lookup(name) == Some(empty_state::<P>(now)) || s.lookup(name) is None,
    ensures
        !s.can_emit(name, id),
        !emits(s, s1, name, id, m),
{
}

/// A tick before an entry is due leaves the entry as it is and hands out no task.
pub proof fn lemma_tick_idle<P>(name: PluginName, st: State<P>, now: u64)
    requires
        now < due_at(st),
    ensures
        tick_state(st, now) == st,
        task_of(name, st, now) is None,
{
}

/// Where no session is active, terminating all sessions tears nothing down.
pub proof fn lemma_terminate_all_idle<P>(s: Sessions<P>)
    requires
        forall|j: int| 0 <= j < s.entries().len() ==> !(s.entries()[j].1 is Active),
    ensures
        sessions_upto(s.entries(), s.entries().len() as int) == Seq::<Session<P>>::empty(),
{
    lemma_sessions_upto_idle(s.entries(), s.entries().len() as int);
}

proof fn lemma_sessions_upto_idle<P>(e: Seq<(PluginName, State<P>)>, i: int)
    requires
        forall|j: int| 0 <= j < e.len() ==> !(e[j].1 is Active),
    ensures
        sessions_upto(e, i) == Seq::<Session<P>>::empty(),
    decreases i,
{
    if 0 < i <= e.len() {
        lemma_sessions_upto_idle(e, i - 1);
    }
}

} // verus!
