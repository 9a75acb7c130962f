//! The daemon plugins: the registry of their names, and what they take and give.
use vstd::prelude::*;
use crate::action::{Action, AgentError};
use crate::json::text;

verus! {

/// What a plugin takes from the manager.
#[derive(Debug, PartialEq, Eq)]
pub enum Input {
    Action(Action),
}

/// What a plugin hands to the manager when its session starts or is updated.
#[derive(Debug, PartialEq, Eq)]
pub enum Output {
    String(String),
    Stratagem(StratagemData),
}

/// A device that the stratagem server scans.
#[derive(Debug, PartialEq, Eq)]
pub struct Devices {
    pub path: String,
    pub host_id: String,
    pub groups: Vec<String>,
    pub device_id: String,
}

/// A named group of rules.
#[derive(Debug, PartialEq, Eq)]
pub struct Groups {
    pub rules: Vec<Rules>,
    pub name: String,
}

/// One rule of a group.
#[derive(Debug, PartialEq, Eq)]
pub struct Rules {
    pub action: String,
    pub expression: String,
    pub argument: String,
}

/// A host that the stratagem server reaches over ssh.
#[derive(Debug, PartialEq, Eq)]
pub struct SshHosts {
    pub host_id: String,
    pub hostname: String,
    pub ssh_identity_file: String,
}

/// The stratagem server's configuration.
#[derive(Debug, PartialEq, Eq)]
pub struct StratagemData {
    pub ssh_hosts: Vec<SshHosts>,
    pub groups: Vec<Groups>,
    pub devices: Vec<Devices>,
    pub dump_flist: bool,
    pub dry_run: bool,
    pub only_scan_active: bool,
}

/// Why the stratagem configuration could not be had.
#[derive(Debug, PartialEq, Eq)]
pub enum ReadError {
    /// The file could not be read: the server may not be installed yet.
    Io(String),
    /// The file was read but does not hold a configuration.
    Decode(String),
}

/// What the stratagem plugin yields when its session starts: the configuration where
/// it was read, nothing where the file could not be read, and an error where it
/// could not be decoded.
pub fn stratagem_session_output(read: Result<StratagemData, ReadError>) -> (r: Result<Option<Output>, AgentError>)
    ensures
        match read {
            Ok(d) => r == Ok::<Option<Output>, AgentError>(Some(Output::Stratagem(d))),
            Err(ReadError::Io(_)) => r == Ok::<Option<Output>, AgentError>(None),
            Err(ReadError::Decode(m)) => r == Err::<Option<Output>, AgentError>(AgentError::Handler(m)),
        },
{
    match read {
        Ok(d) => Ok(Some(Output::Stratagem(d))),
        Err(ReadError::Io(_)) => Ok(None),
        Err(ReadError::Decode(m)) => Err(AgentError::Handler(m)),
    }
}

/// The name of a plugin.
#[derive(Debug, Clone, PartialEq, Eq, Hash)]
pub struct PluginName(pub String);

impl PluginName {
    /// A copy of this name.
    pub fn duplicate(&self) -> (r: PluginName)
        ensures
            r == *self,
    {
        PluginName(self.0.clone())
    }
}

/// The built-in plugins.
#[derive(Debug, Clone, Copy, PartialEq, Eq, Structural)]
pub enum PluginKind {
    Stratagem,
    ActionRunner,
}

/// The built-in plugin of each name.
pub open spec fn builtin_plugin(name: Seq<char>) -> Option<PluginKind> {
    if name == "stratagem"@ {
        Some(PluginKind::Stratagem)
    } else if name == "action_runner"@ {
        Some(PluginKind::ActionRunner)
    } else {
        None
    }
}

/// The plugin of the first entry named `name` at position `i` or later.
pub open spec fn plugin_from(p: Seq<(PluginName, PluginKind)>, name: Seq<char>, i: int) -> Option<PluginKind>
    decreases p.len() - i,
{
    if i < 0 || i >= p.len() {
        None
    } else if p[i].0.0@ == name {
        Some(p[i].1)
    } else {
        plugin_from(p, name, i + 1)
    }
}

/// The plugin registry: plugin names with the plugin each one makes.
#[derive(Debug, PartialEq, Eq)]
pub struct DaemonPlugins {
    plugins: Vec<(PluginName, PluginKind)>,
}

/// No plugin is registered under this name.
#[derive(Debug, PartialEq, Eq)]
pub struct NoPluginError(pub PluginName);

impl DaemonPlugins {
    /// The plugin registered under `name`.
    pub closed spec fn plugin(&self, name: Seq<char>) -> Option<PluginKind> {
        plugin_from(self.plugins@, name, 0)
    }

    /// The registered names, in order.
    pub closed spec fn spec_names(&self) -> Seq<Seq<char>> {
        self.plugins@.map_values(|e: (PluginName, PluginKind)| e.0.0@)
    }

    /// The registered names, in order.
    pub fn names(&self) -> (r: Vec<PluginName>)
        ensures
            r@.map_values(|n: PluginName| n.0@) == self.spec_names(),
    {
        let mut r: Vec<PluginName> = Vec::new();
        let mut i: usize = 0;
        while i < self.plugins.len()
            invariant
                i <= self.plugins@.len(),
                r@.len() == i,
                forall|k: int| 0 <= k < i ==> r@[k].0@ == self.plugins@[k].0.0@,
            decreases self.plugins@.len() - i,
        {
            r.push(self.plugins[i].0.duplicate());
            i = i + 1;
        }
        assert(r@.map_values(|n: PluginName| n.0@) =~= self.spec_names());
        r
    }
}

/// The registry of the built-in plugins: `stratagem` and `action_runner`.
pub fn plugin_registry() -> (r: DaemonPlugins)
    ensures
        forall|name: Seq<char>| #[trigger] r.plugin(name) == builtin_plugin(name),
        r.spec_names() == seq!["stratagem"@, "action_runner"@],
{
    let mut plugins: Vec<(PluginName, PluginKind)> = Vec::new();
    plugins.push((PluginName(text("stratagem")), PluginKind::Stratagem));
    plugins.push((PluginName(text("action_runner")), PluginKind::ActionRunner));
    let r = DaemonPlugins { plugins };
    assert forall|name: Seq<char>| #[trigger] r.plugin(name) == builtin_plugin(name) by {
        reveal_strlit("stratagem");
        reveal_strlit("action_runner");
        let p = r.plugins@;
        assert(p[0].0.0@ == "stratagem"@);
        assert(p[1].0.0@ == "action_runner"@);
        assert(plugin_from(p, name, 2) is None);
        assert(plugin_from(p, name, 1) == (if name == "action_runner"@ { Some(PluginKind::ActionRunner) } else { None }));
        assert(plugin_from(p, name, 0) == builtin_plugin(name));
    }
    assert(r.spec_names() =~= seq!["stratagem"@, "action_runner"@]);
    r
}

/// The plugin that `registry` holds under `name`, or `NoPluginError` naming it.
pub fn get_plugin(name: &PluginName, registry: &DaemonPlugins) -> (r: Result<PluginKind, NoPluginError>)
    ensures
        match registry.plugin(name.0@) {
            Some(k) => r == Ok::<PluginKind, NoPluginError>(k),
            None => r is Err && r->Err_0.0 == *name,
        },
{
    let mut i: usize = 0;
    while i < registry.plugins.len()
        invariant
            i <= registry.plugins@.len(),
            plugin_from(registry.plugins@, name.0@, 0) == plugin_from(registry.plugins@, name.0@, i as int),
        decreases registry.plugins@.len() - i,
    {
        if registry.plugins[i].0.0 == name.0 {
            return Ok(registry.plugins[i].1);
        }
        i = i + 1;
    }
    Err(NoPluginError(name.duplicate()))
}

} // verus!
