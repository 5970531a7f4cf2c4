//! Plugin discovery and lookup: metadata, source precedence, the manager that
//! answers tool queries, and the host context that guards plugin IO.

use vstd::prelude::*;
use crate::path::{is_absolute, join_spec, join_path, is_absolute_str};
use crate::path_policy::PathValidator;
use crate::text::{chars_of, has_prefix, str_eq, vec_range, vec_starts_with_str, string_of};

verus! {

/// Host-facing configuration of the plugin system.
#[derive(Debug, Clone)]
pub struct PluginSystemConfig {
    pub enabled: bool,
    pub load_global: bool,
    pub load_workspace: bool,
    pub load_bundled: bool,
    pub working_dir: String,
    pub default_timeout_seconds: u64,
    pub max_memory_mb: usize,
    pub bundled_plugins_dir: Option<String>,
    pub ignore_file_name: String,
}

impl PluginSystemConfig {
    /// Everything enabled, working in `.`, 30 s and 128 MB per call, `.squidignore`.
    pub fn default() -> (c: Self)
        ensures
            c.enabled && c.load_global && c.load_workspace && c.load_bundled,
            c.working_dir@ == "."@,
            c.default_timeout_seconds == 30,
            c.max_memory_mb == 128,
            c.bundled_plugins_dir is None,
            c.ignore_file_name@ == ".squidignore"@,
    {
        PluginSystemConfig {
            enabled: true,
            load_global: true,
            load_workspace: true,
            load_bundled: true,
            working_dir: String::from_str("."),
            default_timeout_seconds: 30,
            max_memory_mb: 128,
            bundled_plugins_dir: None,
            ignore_file_name: String::from_str(".squidignore"),
        }
    }
}

/// Permissions a plugin declares.
#[derive(Debug, Clone)]
pub struct SecurityRequirements {
    pub requires: Vec<String>,
    pub network: bool,
    pub file_write: bool,
}

/// Metadata read from a plugin's `plugin.json` (schemas kept as JSON text).
#[derive(Debug, Clone)]
pub struct PluginMetadata {
    pub id: String,
    pub title: String,
    pub description: String,
    pub version: String,
    pub api_version: String,
    pub security: SecurityRequirements,
    pub input_schema: String,
    pub output_schema: String,
    pub plugin_path: String,
    pub is_global: bool,
}

/// The tool name under which a plugin is offered to the model.
pub open spec fn tool_name_of(id: Seq<char>) -> Seq<char> {
    "plugin:"@ + id
}

impl PluginMetadata {
    /// `plugin:<id>`.
    pub fn tool_name(&self) -> (r: String)
        ensures
            r@ == tool_name_of(self.id@),
    {
        let mut r = String::from_str("plugin:");
        r.append(self.id.as_str());
        r
    }

    /// The path of the plugin's entry script.
    pub fn index_js_path(&self) -> (r: String)
        ensures
            r@ == join_spec(self.plugin_path@, "index.js"@),
    {
        join_path(self.plugin_path.as_str(), "index.js")
    }

    /// Checks the entry script's presence (as found by the caller) and the API version.
    pub fn validate_structure(&self, index_exists: bool) -> (r: Result<(), String>)
        ensures
            !index_exists ==> (r matches Err(m) && m@ == "Missing index.js in plugin directory"@),
            index_exists && self.api_version@ != "1.0"@ ==> (r matches Err(m) && m@
                == "Unsupported API version: "@ + self.api_version@ + ". Only '1.0' is supported."@),
            index_exists && self.api_version@ == "1.0"@ ==> r is Ok,
    {
        if !index_exists {
            return Err(String::from_str("Missing index.js in plugin directory"));
        }
        if !str_eq(self.api_version.as_str(), "1.0") {
            let mut m = String::from_str("Unsupported API version: ");
            m.append(self.api_version.as_str());
            m.append(". Only '1.0' is supported.");
            return Err(m);
        }
        Ok(())
    }
}

/// Where a plugin directory comes from.
#[derive(Debug, Clone, Copy, PartialEq, Eq, Structural)]
pub enum PluginSource {
    Workspace,
    Global,
    Bundled,
}

/// Precedence of a source: workspace over global over bundled.
pub open spec fn rank(s: PluginSource) -> int {
    match s {
        PluginSource::Workspace => 2,
        PluginSource::Global => 1,
        PluginSource::Bundled => 0,
    }
}

/// Whether a newly found plugin replaces the one already registered under its id:
/// a higher source replaces a lower one; within one source a later workspace or
/// global plugin replaces the earlier one, an earlier bundled plugin stays.
pub open spec fn replaces(new: PluginSource, existing: PluginSource) -> bool {
    rank(new) > rank(existing) || (rank(new) == rank(existing) && new != PluginSource::Bundled)
}

fn replaces_exec(new: PluginSource, existing: PluginSource) -> (r: bool)
    ensures
        r == replaces(new, existing),
{
    match (new, existing) {
        (PluginSource::Workspace, _) => true,
        (PluginSource::Global, PluginSource::Workspace) => false,
        (PluginSource::Global, _) => true,
        (PluginSource::Bundled, _) => false,
    }
}

/// A plugin found during discovery: its metadata, its source, and whether its
/// directory holds the entry script.
#[derive(Debug, Clone)]
pub struct DiscoveredPlugin {
    pub metadata: PluginMetadata,
    pub source: PluginSource,
    pub index_exists: bool,
}

/// The registered plugins, one entry per id, with their sources.
pub struct PluginRegistry {
    entries: Vec<(PluginMetadata, PluginSource)>,
}

/// Index of the entry registered under `id`.
pub open spec fn entry_index(es: Seq<(PluginMetadata, PluginSource)>, id: Seq<char>) -> Option<int>
    decreases es.len(),
{
    if es.len() == 0 {
        None
    } else if es[0].0.id@ == id {
        Some(0)
    } else {
        match entry_index(es.drop_first(), id) {
            Some(i) => Some(i + 1),
            None => None,
        }
    }
}

pub proof fn lemma_entry_index(es: Seq<(PluginMetadata, PluginSource)>, id: Seq<char>)
    ensures
        entry_index(es, id) matches Some(i) ==> 0 <= i < es.len() && es[i].0.id@ == id
            && forall|j: int| 0 <= j < i ==> es[j].0.id@ != id,
        entry_index(es, id) is None ==> forall|j: int| 0 <= j < es.len() ==> es[j].0.id@ != id,
    decreases es.len(),
{
    if es.len() > 0 && es[0].0.id@ != id {
        let rest = es.drop_first();
        lemma_entry_index(rest, id);
        assert forall|j: int| 1 <= j < es.len() implies es[j] == rest[j - 1] by {}
    }
}

/// No two entries share an id.
pub open spec fn unique_ids(es: Seq<(PluginMetadata, PluginSource)>) -> bool {
    forall|i: int, j: int| 0 <= i < j < es.len() ==> es[i].0.id@ != es[j].0.id@
}

/// The entries after offering one plugin: a new id is appended; an existing entry
/// is replaced when the newcomer's source takes precedence.
pub open spec fn offered(es: Seq<(PluginMetadata, PluginSource)>, m: PluginMetadata, s: PluginSource) -> Seq<(PluginMetadata, PluginSource)> {
    match entry_index(es, m.id@) {
        None => es.push((m, s)),
        Some(i) => if replaces(s, es[i].1) { es.update(i, (m, s)) } else { es },
    }
}

/// Whether offering the plugin registers it.
pub open spec fn is_taken(es: Seq<(PluginMetadata, PluginSource)>, m: PluginMetadata, s: PluginSource) -> bool {
    match entry_index(es, m.id@) {
        None => true,
        Some(i) => replaces(s, es[i].1),
    }
}

/// The metadata as registered: `is_global` follows the source.
pub open spec fn as_registered(m: PluginMetadata, s: PluginSource) -> PluginMetadata {
    PluginMetadata { is_global: s == PluginSource::Global, ..m }
}

/// Registry entries and load count after discovering the candidates in order;
/// candidates that fail the structure check are skipped.
pub open spec fn discovered(cs: Seq<DiscoveredPlugin>) -> (Seq<(PluginMetadata, PluginSource)>, nat)
    decreases cs.len(),
{
    if cs.len() == 0 {
        (Seq::empty(), 0)
    } else {
        let (es, n) = discovered(cs.drop_last());
        let c = cs.last();
        let m = as_registered(c.metadata, c.source);
        if !c.index_exists || c.metadata.api_version@ != "1.0"@ {
            (es, n)
        } else if is_taken(es, m, c.source) {
            (offered(es, m, c.source), n + 1)
        } else {
            (es, n)
        }
    }
}

impl PluginRegistry {
    /// The registered entries.
    pub closed spec fn entries_view(&self) -> Seq<(PluginMetadata, PluginSource)> {
        self.entries@
    }

    /// Registry invariant: one entry per id.
    pub closed spec fn wf(&self) -> bool {
        unique_ids(self.entries@)
    }

    /// An empty registry.
    pub fn new() -> (r: Self)
        ensures
            r.wf(),
            r.entries_view().len() == 0,
    {
        PluginRegistry { entries: Vec::new() }
    }

    fn find(&self, id: &str) -> (r: Option<usize>)
        ensures
            match r {
                Some(i) => entry_index(self.entries@, id@) == Some(i as int),
                None => entry_index(self.entries@, id@) is None,
            },
    {
        proof { lemma_entry_index(self.entries@, id@); }
        let mut i: usize = 0;
        while i < self.entries.len()
            invariant
                i <= self.entries@.len(),
                forall|j: int| 0 <= j < i ==> self.entries@[j].0.id@ != id@,
            decreases self.entries@.len() - i,
        {
            if str_eq(self.entries[i].0.id.as_str(), id) {
                proof { lemma_entry_index(self.entries@, id@); }
                return Some(i);
            }
            i = i + 1;
        }
        None
    }

    /// Offers a plugin; returns whether it was registered.
    pub fn offer(&mut self, metadata: PluginMetadata, source: PluginSource) -> (taken: bool)
        requires
            old(self).wf(),
        ensures
            final(self).wf(),
            taken == is_taken(old(self).entries_view(), metadata, source),
            final(self).entries_view() == offered(old(self).entries_view(), metadata, source),
    {
        proof { lemma_entry_index(self.entries@, metadata.id@); }
        match self.find(metadata.id.as_str()) {
            None => {
                let ghost before = self.entries@;
                self.entries.push((metadata, source));
                assert forall|i: int, j: int| 0 <= i < j < self.entries@.len()
                    implies self.entries@[i].0.id@ != self.entries@[j].0.id@ by {
                    if j == before.len() {
                        assert(before[i as int].0.id@ != metadata.id@);
                    } else {
                        assert(before[i] == self.entries@[i] && before[j] == self.entries@[j]);
                    }
                }
                true
            },
            Some(i) => {
                if replaces_exec(source, self.entries[i].1) {
                    let ghost before = self.entries@;
                    self.entries.set(i, (metadata, source));
                    assert forall|a: int, b: int| 0 <= a < b < self.entries@.len()
                        implies self.entries@[a].0.id@ != self.entries@[b].0.id@ by {
                        if a == i as int {
                            assert(before[b].0.id@ != before[i as int].0.id@);
                        } else if b == i as int {
                            assert(before[a].0.id@ != before[i as int].0.id@);
                        } else {
                            assert(before[a] == self.entries@[a] && before[b] == self.entries@[b]);
                        }
                    }
                    true
                } else {
                    false
                }
            },
        }
    }

    /// Clears the registry and registers the candidates in order, applying the
    /// structure check and source precedence; returns how many were registered.
    pub fn discover(&mut self, candidates: Vec<DiscoveredPlugin>) -> (n: usize)
        ensures
            final(self).wf(),
            final(self).entries_view() == discovered(candidates@).0,
            n == discovered(candidates@).1,
    {
        self.entries = Vec::new();
        let mut n: usize = 0;
        let mut i: usize = 0;
        let mut rest = candidates;
        let ghost all = rest@;
        let total = rest.len();
        assert(all.len() == total);
        while rest.len() > 0
            invariant
                all.len() <= usize::MAX,
                i + rest@.len() == all.len(),
                rest@ == all.skip(i as int),
                self.wf(),
                (self.entries_view(), n as nat) == discovered(all.take(i as int)),
                n <= i,
            decreases rest@.len(),
        {
            assert(all.take(i + 1).drop_last() =~= all.take(i as int));
            assert(all.take(i + 1).last() == rest@[0]);
            let c = rest.remove(0);
            assert(rest@ =~= all.skip(i + 1));
            let ok = c.index_exists && str_eq(c.metadata.api_version.as_str(), "1.0");
            if ok {
                let DiscoveredPlugin { metadata, source, index_exists } = c;
                let mut m = metadata;
                m.is_global = match source {
                    PluginSource::Global => true,
                    _ => false,
                };
                if self.offer(m, source) {
                    n = n + 1;
                }
            }
            i = i + 1;
        }
        assert(all.take(all.len() as int) =~= all);
        n
    }
}

impl PluginRegistry {
    /// The metadata registered under `id`.
    pub fn get_plugin(&self, id: &str) -> (r: Option<&PluginMetadata>)
        ensures
            match entry_index(self.entries_view(), id@) {
                Some(i) => r matches Some(m) && *m == self.entries_view()[i].0,
                None => r is None,
            },
    {
        proof { lemma_entry_index(self.entries@, id@); }
        match self.find(id) {
            Some(i) => Some(&self.entries[i].0),
            None => None,
        }
    }

    /// Whether a plugin is registered under `id`.
    pub fn has_plugin(&self, id: &str) -> (r: bool)
        ensures
            r == (entry_index(self.entries_view(), id@) is Some),
    {
        self.find(id).is_some()
    }

    /// How many plugins are registered.
    pub fn plugin_count(&self) -> (r: usize)
        ensures
            r == self.entries_view().len(),
    {
        self.entries.len()
    }

    /// The registered plugins, in registration order.
    pub fn get_all_plugins(&self) -> (r: &Vec<(PluginMetadata, PluginSource)>)
        ensures
            r@ == self.entries_view(),
    {
        &self.entries
    }
}

/// A plugin offered to the model as a tool.
#[derive(Debug, Clone)]
pub struct PluginToolDefinition {
    pub name: String,
    pub description: String,
    pub parameters: String,
}

/// Stateful manager for plugin discovery, lookup and tool listing.
pub struct PluginManager {
    registry: PluginRegistry,
    config: PluginSystemConfig,
}

/// The plugin id named by a tool name, if it has the `plugin:` prefix.
pub open spec fn plugin_id_of_tool(tool: Seq<char>) -> Option<Seq<char>> {
    if has_prefix(tool, "plugin:"@) {
        Some(tool.skip(7))
    } else {
        None
    }
}

/// The tool name a plugin is offered under leads back to the plugin: reading the
/// id out of `plugin:<id>` gives `<id>`, and names without the `plugin:` prefix
/// name no plugin.
pub proof fn law_tool_name_round_trip(id: Seq<char>, tool: Seq<char>)
    ensures
        plugin_id_of_tool(tool_name_of(id)) == Some(id),
        plugin_id_of_tool(tool) matches Some(x) ==> tool_name_of(x) == tool,
{
    reveal_strlit("plugin:");
    let t = tool_name_of(id);
    assert(t.subrange(0, 7) =~= "plugin:"@);
    assert(t.skip(7) =~= id);
    if has_prefix(tool, "plugin:"@) {
        assert(tool =~= "plugin:"@ + tool.skip(7));
    }
}

fn plugin_id_exec(tool_name: &str) -> (r: Option<String>)
    ensures
        match plugin_id_of_tool(tool_name@) {
            Some(id) => r matches Some(s) && s@ == id,
            None => r is None,
        },
{
    let v = chars_of(tool_name);
    proof { reveal_strlit("plugin:"); }
    if vec_starts_with_str(&v, "plugin:") {
        let rest = vec_range(&v, 7, v.len());
        assert(rest@ =~= tool_name@.skip(7));
        Some(string_of(&rest))
    } else {
        None
    }
}

/// The plugin directories to scan, in order: global, workspace, bundled, each
/// when enabled (and, for global and bundled, when known).
pub open spec fn plugin_dirs_for(
    c: PluginSystemConfig,
    global_dir: Option<Seq<char>>,
    workspace_dir: Seq<char>,
) -> Seq<(Seq<char>, PluginSource)> {
    let g = match global_dir {
        Some(d) if c.load_global => seq![(d, PluginSource::Global)],
        _ => Seq::empty(),
    };
    let w = if c.load_workspace { seq![(workspace_dir, PluginSource::Workspace)] } else { Seq::empty() };
    let b = match c.bundled_plugins_dir {
        Some(d) if c.load_bundled => seq![(d@, PluginSource::Bundled)],
        _ => Seq::empty(),
    };
    g + w + b
}

/// The views of a list of directories with their sources.
pub open spec fn dir_views(v: Seq<(String, PluginSource)>) -> Seq<(Seq<char>, PluginSource)> {
    v.map_values(|e: (String, PluginSource)| (e.0@, e.1))
}

impl PluginManager {
    /// A manager with an empty registry.
    pub fn new(config: PluginSystemConfig) -> (m: Self)
        ensures
            m.wf(),
            m.registry_view().len() == 0,
            m.config_view() == config,
    {
        PluginManager { registry: PluginRegistry::new(), config }
    }

    /// The registered plugins with their sources.
    pub closed spec fn registry_view(&self) -> Seq<(PluginMetadata, PluginSource)> {
        self.registry.entries_view()
    }

    /// The manager's configuration.
    pub closed spec fn config_view(&self) -> PluginSystemConfig {
        self.config
    }

    /// Manager invariant: one registry entry per id.
    pub closed spec fn wf(&self) -> bool {
        self.registry.wf()
    }

    /// The directories to scan for this configuration.
    pub fn plugin_directories(&self, global_dir: Option<String>, workspace_dir: String) -> (r: Vec<(String, PluginSource)>)
        ensures
            dir_views(r@) == plugin_dirs_for(
                self.config_view(),
                match global_dir { Some(d) => Some(d@), None => None },
                workspace_dir@,
            ),
    {
        let mut r: Vec<(String, PluginSource)> = Vec::new();
        if self.config.load_global {
            match global_dir {
                Some(d) => r.push((d, PluginSource::Global)),
                None => {},
            }
        }
        if self.config.load_workspace {
            r.push((workspace_dir, PluginSource::Workspace));
        }
        if self.config.load_bundled {
            match &self.config.bundled_plugins_dir {
                Some(d) => r.push((d.clone(), PluginSource::Bundled)),
                None => {},
            }
        }
        assert(dir_views(r@) =~= plugin_dirs_for(
            self.config_view(),
            match global_dir { Some(d) => Some(d@), None => None },
            workspace_dir@,
        ));
        r
    }

    /// Registers the plugins found in the directories (replacing earlier ones).
    pub fn initialize(&mut self, candidates: Vec<DiscoveredPlugin>) -> (n: usize)
        requires
            old(self).wf(),
        ensures
            final(self).wf(),
            final(self).config_view() == old(self).config_view(),
            final(self).registry_view() == discovered(candidates@).0,
            n == discovered(candidates@).1,
    {
        self.registry.discover(candidates)
    }

    /// Re-runs discovery and returns how many plugins were loaded.
    pub fn reload(&mut self, candidates: Vec<DiscoveredPlugin>) -> (n: usize)
        requires
            old(self).wf(),
        ensures
            final(self).wf(),
            final(self).config_view() == old(self).config_view(),
            final(self).registry_view() == discovered(candidates@).0,
            n == discovered(candidates@).1,
    {
        self.registry.discover(candidates)
    }

    /// Whether a tool name points to a registered plugin.
    pub fn is_plugin_tool(&self, tool_name: &str) -> (r: bool)
        ensures
            r == match plugin_id_of_tool(tool_name@) {
                Some(id) => entry_index(self.registry_view(), id) is Some,
                None => false,
            },
    {
        match plugin_id_exec(tool_name) {
            Some(id) => self.registry.has_plugin(id.as_str()),
            None => false,
        }
    }

    /// The metadata of the plugin a tool name points to.
    pub fn get_plugin_metadata(&self, tool_name: &str) -> (r: Option<&PluginMetadata>)
        ensures
            match plugin_id_of_tool(tool_name@) {
                Some(id) => match entry_index(self.registry_view(), id) {
                    Some(i) => r matches Some(m) && *m == self.registry_view()[i].0,
                    None => r is None,
                },
                None => r is None,
            },
    {
        match plugin_id_exec(tool_name) {
            Some(id) => self.registry.get_plugin(id.as_str()),
            None => None,
        }
    }

    /// How many plugins are registered.
    pub fn plugin_count(&self) -> (r: usize)
        ensures
            r == self.registry_view().len(),
    {
        self.registry.plugin_count()
    }

    /// Every registered plugin as a tool definition, in registration order.
    pub fn get_plugin_tools(&self) -> (r: Vec<PluginToolDefinition>)
        ensures
            r@.len() == self.registry_view().len(),
            forall|i: int| 0 <= i < r@.len() ==> {
                &&& (#[trigger] r@[i]).name@ == tool_name_of(self.registry_view()[i].0.id@)
                &&& r@[i].description == self.registry_view()[i].0.description
                &&& r@[i].parameters == self.registry_view()[i].0.input_schema
            },
    {
        let all = self.registry.get_all_plugins();
        let mut r: Vec<PluginToolDefinition> = Vec::new();
        let mut i: usize = 0;
        while i < all.len()
            invariant
                i <= all@.len(),
                all@ == self.registry_view(),
                r@.len() == i,
                forall|k: int| 0 <= k < i ==> {
                    &&& (#[trigger] r@[k]).name@ == tool_name_of(all@[k].0.id@)
                    &&& r@[k].description == all@[k].0.description
                    &&& r@[k].parameters == all@[k].0.input_schema
                },
            decreases all@.len() - i,
        {
            let m = &all[i].0;
            r.push(PluginToolDefinition {
                name: m.tool_name(),
                description: m.description.clone(),
                parameters: m.input_schema.clone(),
            });
            i = i + 1;
        }
        r
    }
}

/// Whether the tool name points to a plugin of the global manager, when there is one.
pub fn is_plugin_tool(manager: Option<&PluginManager>, tool_name: &str) -> (r: bool)
    ensures
        r == match manager {
            Some(m) => match plugin_id_of_tool(tool_name@) {
                Some(id) => entry_index(m.registry_view(), id) is Some,
                None => false,
            },
            None => false,
        },
{
    match manager {
        Some(m) => m.is_plugin_tool(tool_name),
        None => false,
    }
}

/// The number of plugins of the global manager (zero when there is none).
pub fn plugin_count(manager: Option<&PluginManager>) -> (r: usize)
    ensures
        r == match manager {
            Some(m) => m.registry_view().len(),
            None => 0,
        },
{
    match manager {
        Some(m) => m.plugin_count(),
        None => 0,
    }
}

/// What initializing the global manager does: with plugins disabled, nothing;
/// when a manager is already in place, it stays and the call fails with "Plugin
/// manager already initialized"; otherwise a manager holding the discovered
/// plugins is put in place.
pub open spec fn init_step(
    before: Option<PluginManager>,
    config: PluginSystemConfig,
    candidates: Seq<DiscoveredPlugin>,
    after: Option<PluginManager>,
    r: Result<(), String>,
) -> bool {
    if !config.enabled {
        r is Ok && after == before
    } else if before is Some {
        (r matches Err(m) && m@ == "Plugin manager already initialized"@) && after == before
    } else {
        r is Ok && (after matches Some(m) && m.wf() && m.config_view() == config
            && m.registry_view() == discovered(candidates).0)
    }
}

/// Initializes the global manager held in `slot` (see `init_step`).
pub fn initialize(slot: &mut Option<PluginManager>, config: PluginSystemConfig, candidates: Vec<DiscoveredPlugin>) -> (r: Result<(), String>)
    ensures
        init_step(*old(slot), config, candidates@, *final(slot), r),
{
    if !config.enabled {
        return Ok(());
    }
    let mut manager = PluginManager::new(config);
    manager.initialize(candidates);
    if slot.is_some() {
        return Err(String::from_str("Plugin manager already initialized"));
    }
    *slot = Some(manager);
    Ok(())
}

/// The global manager is set up at most once: with plugins disabled nothing is
/// set up; the first enabled initialization puts a manager in place, and every
/// later one fails and leaves that manager as it is.
pub proof fn law_initialize_once(
    s0: Option<PluginManager>,
    c1: PluginSystemConfig,
    k1: Seq<DiscoveredPlugin>,
    s1: Option<PluginManager>,
    r1: Result<(), String>,
    c2: PluginSystemConfig,
    k2: Seq<DiscoveredPlugin>,
    s2: Option<PluginManager>,
    r2: Result<(), String>,
)
    requires
        s0 is None,
        init_step(s0, c1, k1, s1, r1),
        init_step(s1, c2, k2, s2, r2),
    ensures
        !c1.enabled ==> r1 is Ok && s1 is None,
        c1.enabled ==> r1 is Ok && s1 is Some && s1->0.registry_view() == discovered(k1).0,
        c1.enabled && c2.enabled ==> (r2 matches Err(m) && m@ == "Plugin manager already initialized"@) && s2 == s1,
{
}

/// Re-runs discovery on the global manager.
pub fn reload_plugins(manager: &mut Option<PluginManager>, candidates: Vec<DiscoveredPlugin>) -> (r: Result<usize, String>)
    requires
        match *old(manager) {
            Some(m) => m.wf(),
            None => true,
        },
    ensures
        match *old(manager) {
            None => (*final(manager)) is None && (r matches Err(m) && m@ == "Plugin manager not initialized"@),
            Some(before) => (*final(manager)) matches Some(after) && after.wf() && after.config_view() == before.config_view()
                && after.registry_view() == discovered(candidates@).0 && r == Ok::<usize, String>(discovered(candidates@).1 as usize),
        },
{
    match manager {
        Some(m) => Ok(m.reload(candidates)),
        None => Err(String::from_str("Plugin manager not initialized")),
    }
}

/// The workspace plugin directory.
pub fn get_workspace_plugins_dir() -> (r: String)
    ensures
        r@ == "./plugins"@,
{
    String::from_str("./plugins")
}

/// The global plugin directory under the home directory, when it is known.
pub fn get_global_plugins_dir(home: Option<String>) -> (r: Option<String>)
    ensures
        match home {
            Some(h) => r matches Some(d) && d@ == join_spec(join_spec(h@, ".squid"@), "plugins"@),
            None => r is None,
        },
{
    match home {
        Some(h) => {
            let a = join_path(h.as_str(), ".squid");
            Some(join_path(a.as_str(), "plugins"))
        },
        None => None,
    }
}

/// A workspace plugin always takes the place of any plugin with the same id.
pub proof fn law_workspace_always_wins(es: Seq<(PluginMetadata, PluginSource)>, m: PluginMetadata)
    ensures
        is_taken(es, m, PluginSource::Workspace),
        entry_index(offered(es, m, PluginSource::Workspace), m.id@) matches Some(i)
            && offered(es, m, PluginSource::Workspace)[i] == (m, PluginSource::Workspace),
{
    lemma_entry_index(es, m.id@);
    let es2 = offered(es, m, PluginSource::Workspace);
    match entry_index(es, m.id@) {
        None => {
            assert forall|j: int| 0 <= j < es.len() implies es2[j].0.id@ != m.id@ by {}
            assert(es2[es.len() as int] == (m, PluginSource::Workspace));
            lemma_entry_index(es2, m.id@);
            assert(entry_index(es2, m.id@) == Some(es.len() as int));
        },
        Some(i) => {
            assert forall|j: int| 0 <= j < i implies es2[j].0.id@ != m.id@ by {}
            assert(es2[i] == (m, PluginSource::Workspace));
            lemma_entry_index(es2, m.id@);
            assert(entry_index(es2, m.id@) == Some(i));
        },
    }
}

/// A bundled plugin never displaces a plugin already registered under its id, and
/// a global plugin never displaces a workspace one.
pub proof fn law_lower_sources_never_displace(es: Seq<(PluginMetadata, PluginSource)>, m: PluginMetadata, s: PluginSource)
    requires
        entry_index(es, m.id@) matches Some(i) && rank(s) <= rank(es[i].1) && (s == PluginSource::Bundled || rank(s) < rank(es[i].1)),
    ensures
        offered(es, m, s) == es,
        !is_taken(es, m, s),
{
}

/// Plugin permission and IO context for one plugin execution.
pub struct PluginContext {
    path_validator: PathValidator,
    plugin_id: String,
    allow_network: bool,
    allow_file_write: bool,
    working_dir: String,
}

impl PluginContext {
    /// The working directory that relative plugin paths are resolved against.
    pub closed spec fn working_dir_view(&self) -> Seq<char> {
        self.working_dir@
    }

    /// The plugin's id.
    pub closed spec fn plugin_id_view(&self) -> Seq<char> {
        self.plugin_id@
    }

    /// Whether the plugin may write files.
    pub closed spec fn may_write(&self) -> bool {
        self.allow_file_write
    }

    /// Whether the plugin may make network requests.
    pub closed spec fn may_use_network(&self) -> bool {
        self.allow_network
    }

    /// The path validator that guards the plugin's file access.
    pub closed spec fn validator_view(&self) -> PathValidator {
        self.path_validator
    }

    /// A context for one plugin: the configured working directory, made absolute
    /// against the current directory (or `.` when that is unknown).
    pub fn new(
        config: &PluginSystemConfig,
        plugin_id: String,
        allow_network: bool,
        allow_file_write: bool,
        ignore_patterns: Vec<String>,
        current_dir: Option<String>,
        home: Option<String>,
    ) -> (c: Self)
        ensures
            c.working_dir_view() == (if is_absolute(config.working_dir@) {
                config.working_dir@
            } else {
                join_spec(match current_dir { Some(d) => d@, None => "."@ }, config.working_dir@)
            }),
            c.plugin_id_view() == plugin_id@,
            c.may_write() == allow_file_write,
            c.may_use_network() == allow_network,
            c.validator_view().whitelist_view() == seq![".".view(), match current_dir { Some(d) => d@, None => "."@ }],
            c.validator_view().blacklist_view() == crate::path_policy::blacklist_for(
                match home { Some(h) => Some(h@), None => None },
            ),
            c.validator_view().patterns() == ignore_patterns@,
    {
        let cwd = match &current_dir {
            Some(d) => d.clone(),
            None => String::from_str("."),
        };
        let working_dir = if is_absolute_str(config.working_dir.as_str()) {
            config.working_dir.clone()
        } else {
            join_path(cwd.as_str(), config.working_dir.as_str())
        };
        let path_validator = PathValidator::with_ignore_patterns(ignore_patterns, current_dir, home);
        PluginContext { path_validator, plugin_id, allow_network, allow_file_write, working_dir }
    }

    /// The path validator guarding this plugin's file access.
    pub fn validator(&self) -> (r: &PathValidator)
        ensures
            *r == self.validator_view(),
    {
        &self.path_validator
    }

    /// A plugin path resolved against the working directory (absolute paths stay).
    pub fn resolve_path(&self, path: &str) -> (r: String)
        ensures
            r@ == (if is_absolute(path@) { path@ } else { join_spec(self.working_dir_view(), path@) }),
    {
        if is_absolute_str(path) {
            String::from_str(path)
        } else {
            join_path(self.working_dir.as_str(), path)
        }
    }

    /// The path a write goes to, when the plugin may write files.
    pub fn prepare_write(&self, path: &str) -> (r: Result<String, String>)
        ensures
            !self.may_write() ==> (r matches Err(m) && m@ == "Plugin does not have file_write permission"@),
            self.may_write() ==> (r matches Ok(p) && p@ == (if is_absolute(path@) { path@ } else { join_spec(self.working_dir_view(), path@) })),
    {
        if !self.allow_file_write {
            return Err(String::from_str("Plugin does not have file_write permission"));
        }
        Ok(self.resolve_path(path))
    }

    /// Whether a network request is permitted.
    pub fn check_network(&self) -> (r: Result<(), String>)
        ensures
            !self.may_use_network() ==> (r matches Err(m) && m@ == "Plugin does not have network permission"@),
            self.may_use_network() ==> r is Ok,
    {
        if !self.allow_network {
            return Err(String::from_str("Plugin does not have network permission"));
        }
        Ok(())
    }

    /// The host log line for a plugin message.
    pub fn log(&self, message: &str) -> (r: String)
        ensures
            r@ == "[Plugin:"@ + self.plugin_id_view() + "] "@ + message@,
    {
        let mut r = String::from_str("[Plugin:");
        r.append(self.plugin_id.as_str());
        r.append("] ");
        r.append(message);
        r
    }

    /// The project directory shown to plugins: always `.` (the real one stays hidden).
    pub fn project_dir(&self) -> (r: String)
        ensures
            r@ == "."@,
    {
        String::from_str(".")
    }
}

/// The plugin system's settings from the application configuration and the
/// bundled plugins directory, if one was found.
pub fn to_plugin_system_config(config: &crate::config::Config, bundled_plugins_dir: Option<String>) -> (r: PluginSystemConfig)
    ensures
        r.enabled == config.plugins.enabled,
        r.load_global == config.plugins.load_global,
        r.load_workspace == config.plugins.load_workspace,
        r.load_bundled == config.plugins.load_bundled,
        r.working_dir@ == config.working_dir@,
        r.default_timeout_seconds == config.plugins.default_timeout_seconds,
        r.max_memory_mb == config.plugins.max_memory_mb,
        r.bundled_plugins_dir == bundled_plugins_dir,
        r.ignore_file_name@ == ".squidignore"@,
{
    PluginSystemConfig {
        enabled: config.plugins.enabled,
        load_global: config.plugins.load_global,
        load_workspace: config.plugins.load_workspace,
        load_bundled: config.plugins.load_bundled,
        working_dir: config.working_dir.clone(),
        default_timeout_seconds: config.plugins.default_timeout_seconds,
        max_memory_mb: config.plugins.max_memory_mb,
        bundled_plugins_dir,
        ignore_file_name: String::from_str(".squidignore"),
    }
}

/// Why a plugin tool could not be run before its code was loaded.
pub enum PluginCallError {
    /// The tool name does not start with `plugin:`.
    InvalidToolName,
    /// No plugin is registered under the id.
    NotFound { message: String },
    /// The plugin's input schema does not compile.
    BadSchema { message: String },
    /// The input breaks the plugin's input schema; the violations.
    InvalidInput { details: Vec<String> },
}

/// The text a failed call is answered with. A refused input is not an error of
/// the call: it is answered with this text under `error` and the violations under
/// `details`.
pub open spec fn call_error_text(e: PluginCallError) -> Seq<char> {
    match e {
        PluginCallError::InvalidToolName => "Invalid plugin tool name"@,
        PluginCallError::NotFound { message } => message@,
        PluginCallError::BadSchema { message } => message@,
        PluginCallError::InvalidInput { .. } => "Input validation failed"@,
    }
}

impl PluginCallError {
    /// The text this failure is answered with (see `call_error_text`).
    pub fn message(&self) -> (r: String)
        ensures
            r@ == call_error_text(*self),
    {
        match self {
            PluginCallError::InvalidToolName => String::from_str("Invalid plugin tool name"),
            PluginCallError::NotFound { message } => message.clone(),
            PluginCallError::BadSchema { message } => message.clone(),
            PluginCallError::InvalidInput { .. } => String::from_str("Input validation failed"),
        }
    }
}

impl PluginManager {
    /// What preparing a call of `tool_name` with the JSON `input` answers: the
    /// plugin's metadata when the tool names a registered plugin whose input
    /// schema compiles and accepts the input, else the first of these that fails.
    pub open spec fn prepared(&self, tool_name: Seq<char>, input: Seq<char>, r: Result<&PluginMetadata, PluginCallError>) -> bool {
        match plugin_id_of_tool(tool_name) {
            None => r matches Err(PluginCallError::InvalidToolName),
            Some(id) => match entry_index(self.registry_view(), id) {
                None => r matches Err(PluginCallError::NotFound { message }) && message@ == "Plugin '"@ + id
                    + "' not found"@,
                Some(i) => {
                    let schema = self.registry_view()[i].0.input_schema@;
                    if crate::schema::json_error(schema) is Some {
                        r matches Err(PluginCallError::BadSchema { message }) && message@
                            == "Failed to compile JSON schema: "@ + crate::schema::json_error(schema)->0
                    } else if !crate::schema::schema_compiles(schema) {
                        r matches Err(PluginCallError::BadSchema { message }) && has_prefix(
                            message@,
                            "Failed to compile JSON schema: "@,
                        )
                    } else if crate::schema::schema_accepts(schema, input) {
                        r matches Ok(m) && *m == self.registry_view()[i].0
                    } else {
                        r matches Err(PluginCallError::InvalidInput { details }) && details@.len() > 0
                            && details@.map_values(|s: String| s@) == crate::schema::violation_lines(
                                crate::schema::schema_violations(schema, input),
                            )
                    }
                },
            },
        }
    }

    /// Prepares a call of a plugin tool: finds the plugin the tool name points to
    /// and checks the input (JSON text that parses) against its input schema.
    pub fn prepare_call(&self, tool_name: &str, input: &str) -> (r: Result<&PluginMetadata, PluginCallError>)
        requires
            crate::schema::json_error(input@) is None,
        ensures
            self.prepared(tool_name@, input@, r),
    {
        let id = match plugin_id_exec(tool_name) {
            Some(id) => id,
            None => {
                return Err(PluginCallError::InvalidToolName);
            },
        };
        let metadata = match self.get_plugin_metadata(tool_name) {
            Some(m) => m,
            None => {
                let mut message = String::from_str("Plugin '");
                message.append(id.as_str());
                message.append("' not found");
                return Err(PluginCallError::NotFound { message });
            },
        };
        let validator = match crate::schema::SchemaValidator::new(metadata.input_schema.as_str()) {
            Ok(v) => v,
            Err(message) => {
                return Err(PluginCallError::BadSchema { message });
            },
        };
        match validator.validate(input) {
            Ok(()) => Ok(metadata),
            Err(details) => Err(PluginCallError::InvalidInput { details }),
        }
    }
}

impl PluginManager {
    /// Prepares a call whose input is given as text: `None` when the text is not
    /// JSON, else what `prepare_call` answers.
    pub fn prepare_call_text(&self, tool_name: &str, input: &str) -> (r: Option<Result<&PluginMetadata, PluginCallError>>)
        ensures
            (crate::schema::json_error(input@) is None) <==> r is Some,
            r matches Some(res) ==> self.prepared(tool_name@, input@, res),
    {
        if crate::schema::is_json(input) {
            Some(self.prepare_call(tool_name, input))
        } else {
            None
        }
    }
}

/// The error of a plugin run that took too long.
pub fn plugin_timeout_message(plugin_id: &str, seconds: u64) -> (r: String)
    ensures
        r@ == "Plugin '"@ + plugin_id@ + "' exceeded timeout of "@ + crate::text::decimal(seconds as nat) + "s"@,
{
    let mut m = String::from_str("Plugin '");
    m.append(plugin_id);
    m.append("' exceeded timeout of ");
    crate::text::append_decimal(&mut m, seconds);
    m.append("s");
    m
}

} // verus!
