//! Agent definitions: metadata read from markdown front matter, permissions and
//! the table of loaded agents.

use vstd::prelude::*;
use crate::text::{
    chars_of, find_first, find_vec, string_of_range, trim, trim_bounds, has_prefix,
    vec_starts_with_str, lemma_find_from, vec_eq_str,
};

verus! {

/// Agent permissions: an allow list; every tool not listed is denied.
#[derive(Debug, Clone)]
pub struct AgentPermissions {
    pub allow: Vec<String>,
}

impl AgentPermissions {
    /// An empty allow list.
    pub fn new() -> (p: Self)
        ensures
            p.allow@.len() == 0,
    {
        AgentPermissions { allow: Vec::new() }
    }
}

/// Front matter metadata of an agent file.
#[derive(Debug, Clone)]
pub struct AgentMetadata {
    pub name: String,
    pub enabled: bool,
    pub description: String,
    pub model: String,
    pub context_window: Option<u32>,
    pub pricing_model: Option<String>,
    pub permissions: AgentPermissions,
    pub use_tools: bool,
    pub suggestions: Vec<String>,
}

/// Full agent configuration: metadata and prompt.
#[derive(Debug, Clone)]
pub struct AgentConfig {
    pub name: String,
    pub enabled: bool,
    pub description: String,
    pub model: String,
    pub prompt: Option<String>,
    pub pricing_model: Option<String>,
    pub context_window: Option<u32>,
    pub permissions: AgentPermissions,
    pub use_tools: bool,
    pub suggestions: Vec<String>,
}

/// The agent configuration built from metadata, without a prompt.
pub open spec fn config_of_metadata(m: AgentMetadata) -> AgentConfig {
    AgentConfig {
        name: m.name,
        enabled: m.enabled,
        description: m.description,
        model: m.model,
        prompt: None,
        pricing_model: m.pricing_model,
        context_window: m.context_window,
        permissions: m.permissions,
        use_tools: m.use_tools,
        suggestions: m.suggestions,
    }
}

impl AgentConfig {
    /// Builds an agent configuration from front matter metadata (no prompt yet).
    pub fn from_metadata(metadata: AgentMetadata) -> (c: Self)
        ensures
            c == config_of_metadata(metadata),
    {
        AgentConfig {
            name: metadata.name,
            enabled: metadata.enabled,
            description: metadata.description,
            model: metadata.model,
            prompt: None,
            pricing_model: metadata.pricing_model,
            context_window: metadata.context_window,
            permissions: metadata.permissions,
            use_tools: metadata.use_tools,
            suggestions: metadata.suggestions,
        }
    }

    /// Builds an agent configuration from metadata and the prompt text that
    /// followed the front matter; an empty prompt means none.
    pub fn from_parts(metadata: AgentMetadata, prompt: String) -> (c: Self)
        ensures
            c.prompt == (if prompt@.len() == 0 { None } else { Some(prompt) }),
            c.name == metadata.name && c.model == metadata.model && c.permissions == metadata.permissions,
            c == (AgentConfig { prompt: c.prompt, ..config_of_metadata(metadata) }),
    {
        let mut c = AgentConfig::from_metadata(metadata);
        if !prompt.as_str().is_empty() {
            c.prompt = Some(prompt);
        }
        c
    }
}

/// Default for boolean fields that are on unless stated otherwise.
pub fn default_true() -> (r: bool)
    ensures
        r,
{
    true
}

/// The default agent id.
pub fn default_agent_id() -> (r: String)
    ensures
        r@ == "general-assistant"@,
{
    String::from_str("general-assistant")
}

/// The loaded agents, keyed by id (the file stem), and the default agent id.
/// A lookup finds the first entry with the id; loading replaces an existing entry.
#[derive(Debug, Clone)]
pub struct AgentsConfig {
    pub agents: Vec<(String, AgentConfig)>,
    pub default_agent: String,
}

/// Index of the first entry whose key is `id`.
pub open spec fn agent_index(agents: Seq<(String, AgentConfig)>, id: Seq<char>) -> Option<int>
    decreases agents.len(),
{
    if agents.len() == 0 {
        None
    } else if agents[0].0@ == id {
        Some(0)
    } else {
        match agent_index(agents.drop_first(), id) {
            Some(i) => Some(i + 1),
            None => None,
        }
    }
}

pub proof fn lemma_agent_index(agents: Seq<(String, AgentConfig)>, id: Seq<char>)
    ensures
        agent_index(agents, id) matches Some(i) ==> 0 <= i < agents.len() && agents[i].0@ == id
            && forall|j: int| 0 <= j < i ==> agents[j].0@ != id,
        agent_index(agents, id) is None ==> forall|j: int| 0 <= j < agents.len() ==> agents[j].0@ != id,
    decreases agents.len(),
{
    if agents.len() > 0 && agents[0].0@ != id {
        let rest = agents.drop_first();
        lemma_agent_index(rest, id);
        assert forall|j: int| 1 <= j < agents.len() implies agents[j] == rest[j - 1] by {}
    }
}

/// The agent stored under `id`, if any.
pub open spec fn agent_lookup(agents: Seq<(String, AgentConfig)>, id: Seq<char>) -> Option<AgentConfig> {
    match agent_index(agents, id) {
        Some(i) => Some(agents[i].1),
        None => None,
    }
}

/// No two agents are stored under the same id.
pub open spec fn unique_agent_ids(agents: Seq<(String, AgentConfig)>) -> bool {
    forall|i: int, j: int| 0 <= i < j < agents.len() ==> (#[trigger] agents[i]).0@ != (#[trigger] agents[j]).0@
}

impl AgentsConfig {
    /// No agents, with the default agent id.
    pub fn new() -> (a: Self)
        ensures
            a.agents@.len() == 0,
            unique_agent_ids(a.agents@),
            a.default_agent@ == "general-assistant"@,
    {
        AgentsConfig { agents: Vec::new(), default_agent: default_agent_id() }
    }

    /// The position of the agent with the given id.
    pub fn index_of(&self, id: &str) -> (r: Option<usize>)
        ensures
            match r {
                Some(i) => agent_index(self.agents@, id@) == Some(i as int),
                None => agent_index(self.agents@, id@) is None,
            },
    {
        proof { lemma_agent_index(self.agents@, id@); }
        let mut i: usize = 0;
        while i < self.agents.len()
            invariant
                i <= self.agents@.len(),
                forall|j: int| 0 <= j < i ==> self.agents@[j].0@ != id@,
            decreases self.agents@.len() - i,
        {
            if crate::text::str_eq(self.agents[i].0.as_str(), id) {
                proof { lemma_agent_index(self.agents@, id@); }
                return Some(i);
            }
            i = i + 1;
        }
        None
    }

    /// Stores an agent under `id`, replacing the one already stored there.
    pub fn insert(&mut self, id: String, config: AgentConfig)
        ensures
            final(self).default_agent == old(self).default_agent,
            match agent_index(old(self).agents@, id@) {
                Some(i) => final(self).agents@ == old(self).agents@.update(i, (old(self).agents@[i].0, config)),
                None => final(self).agents@ == old(self).agents@.push((id, config)),
            },
            stored(old(self).agents@, final(self).agents@, id@, config),
            unique_agent_ids(old(self).agents@) ==> unique_agent_ids(final(self).agents@),
    {
        proof { lemma_agent_index(self.agents@, id@); }
        match self.index_of(id.as_str()) {
            Some(i) => {
                let old_entry = self.agents.remove(i);
                self.agents.insert(i, (old_entry.0, config));
                assert(self.agents@ =~= old(self).agents@.update(i as int, (old(self).agents@[i as int].0, config)));
            },
            None => {
                self.agents.push((id, config));
                assert(self.agents@.drop_last() =~= old(self).agents@);
            },
        }
    }
}

/// The YAML block and prompt of an agent file: the trimmed content must start with
/// `---`; the block runs to the next line that starts with `---`, and the prompt is
/// the trimmed rest after that marker.
pub open spec fn frontmatter_parts(content: Seq<char>) -> Option<(Seq<char>, Seq<char>)> {
    let t = trim(content);
    if !has_prefix(t, "---"@) {
        None
    } else {
        let rest = t.skip(3);
        match find_first(rest, "\n---"@) {
            None => None,
            Some(e) => Some((
                rest.take(e),
                if e + 4 < rest.len() { trim(rest.skip(e + 4)) } else { Seq::empty() },
            )),
        }
    }
}

/// Splits an agent file into its YAML front matter and its prompt.
pub fn split_frontmatter(content: &str) -> (r: Option<(String, String)>)
    ensures
        match frontmatter_parts(content@) {
            Some((y, p)) => r matches Some(pair) && pair.0@ == y && pair.1@ == p,
            None => r is None,
        },
{
    let all = chars_of(content);
    let (a, b) = trim_bounds(&all);
    let mut t: Vec<char> = Vec::new();
    let mut i = a;
    while i < b
        invariant
            a <= i <= b <= all@.len(),
            t@ == all@.subrange(a as int, i as int),
        decreases b - i,
    {
        t.push(all[i]);
        assert(all@.subrange(a as int, i + 1) =~= all@.subrange(a as int, i as int).push(all@[i as int]));
        i = i + 1;
    }
    if !vec_starts_with_str(&t, "---") {
        return None;
    }
    proof { reveal_strlit("---"); reveal_strlit("\n---"); }
    let mut rest: Vec<char> = Vec::new();
    let mut k: usize = 3;
    while k < t.len()
        invariant
            3 <= k <= t@.len(),
            rest@ == t@.subrange(3, k as int),
        decreases t@.len() - k,
    {
        rest.push(t[k]);
        assert(t@.subrange(3, k + 1) =~= t@.subrange(3, k as int).push(t@[k as int]));
        k = k + 1;
    }
    assert(rest@ =~= t@.skip(3));
    let marker = chars_of("\n---");
    match find_vec(&rest, &marker, 0) {
        None => None,
        Some(e) => {
            proof { lemma_find_from(rest@, marker@, 0); }
            let yaml = string_of_range(&rest, 0, e);
            assert(rest@.subrange(0, e as int) =~= rest@.take(e as int));
            if e + 4 < rest.len() {
                let mut tail: Vec<char> = Vec::new();
                let mut j = e + 4;
                while j < rest.len()
                    invariant
                        e + 4 <= j <= rest@.len(),
                        tail@ == rest@.subrange(e + 4, j as int),
                    decreases rest@.len() - j,
                {
                    tail.push(rest[j]);
                    assert(rest@.subrange(e + 4, j + 1) =~= rest@.subrange(e + 4, j as int).push(rest@[j as int]));
                    j = j + 1;
                }
                assert(tail@ =~= rest@.skip(e + 4));
                let (c, d) = trim_bounds(&tail);
                let prompt = string_of_range(&tail, c, d);
                Some((yaml, prompt))
            } else {
                Some((yaml, String::new()))
            }
        },
    }
}

proof fn lemma_agent_index_at(agents: Seq<(String, AgentConfig)>, id: Seq<char>, i: int)
    requires
        0 <= i < agents.len(),
        agents[i].0@ == id,
        forall|j: int| 0 <= j < i ==> agents[j].0@ != id,
    ensures
        agent_index(agents, id) == Some(i),
    decreases agents.len(),
{
    if i > 0 {
        let rest = agents.drop_first();
        assert(agents[0].0@ != id);
        assert forall|j: int| 0 <= j < i - 1 implies rest[j].0@ != id by {
            assert(rest[j] == agents[j + 1]);
        }
        lemma_agent_index_at(rest, id, i - 1);
    }
}

proof fn lemma_agent_index_absent(agents: Seq<(String, AgentConfig)>, id: Seq<char>)
    requires
        forall|j: int| 0 <= j < agents.len() ==> agents[j].0@ != id,
    ensures
        agent_index(agents, id) is None,
    decreases agents.len(),
{
    if agents.len() > 0 {
        let rest = agents.drop_first();
        assert forall|j: int| 0 <= j < rest.len() implies rest[j].0@ != id by {
            assert(rest[j] == agents[j + 1]);
        }
        lemma_agent_index_absent(rest, id);
    }
}

/// What `AgentsConfig::insert` does to the list: the entry with the id gets the
/// new configuration, or a new entry is added at the end.
pub open spec fn stored(old: Seq<(String, AgentConfig)>, new: Seq<(String, AgentConfig)>, id: Seq<char>, config: AgentConfig) -> bool {
    match agent_index(old, id) {
        Some(i) => new == old.update(i, (old[i].0, config)),
        None => new.len() == old.len() + 1 && new.drop_last() == old && new.last().0@ == id && new.last().1 == config,
    }
}

/// Storing an agent and then looking it up gives what was stored; every other id
/// still finds what it found before.
pub proof fn law_insert_then_lookup(
    old: Seq<(String, AgentConfig)>,
    new: Seq<(String, AgentConfig)>,
    id: Seq<char>,
    config: AgentConfig,
    other: Seq<char>,
)
    requires
        stored(old, new, id, config),
    ensures
        agent_lookup(new, id) == Some(config),
        other != id ==> agent_lookup(new, other) == agent_lookup(old, other),
{
    lemma_agent_index(old, id);
    lemma_agent_index(old, other);
    match agent_index(old, id) {
        Some(i) => {
            assert(new[i].0@ == id);
            assert forall|j: int| 0 <= j < i implies new[j].0@ != id by {
                assert(new[j] == old[j]);
            }
            lemma_agent_index_at(new, id, i);
            if other != id {
                match agent_index(old, other) {
                    Some(k) => {
                        assert forall|j: int| 0 <= j < k implies new[j].0@ != other by {
                            if j != i {
                                assert(new[j] == old[j]);
                            }
                        }
                        if k != i {
                            assert(new[k] == old[k]);
                        }
                        lemma_agent_index_at(new, other, k);
                    },
                    None => {
                        assert forall|j: int| 0 <= j < new.len() implies new[j].0@ != other by {
                            if j != i {
                                assert(new[j] == old[j]);
                            }
                        }
                        lemma_agent_index_absent(new, other);
                    },
                }
            }
        },
        None => {
            let n = old.len() as int;
            assert forall|j: int| 0 <= j < n implies new[j].0@ != id by {
                assert(new[j] == new.drop_last()[j]);
            }
            lemma_agent_index_at(new, id, n);
            assert(new[n] == new.last());
            if other != id {
                match agent_index(old, other) {
                    Some(k) => {
                        assert forall|j: int| 0 <= j < k implies new[j].0@ != other by {
                            assert(new[j] == new.drop_last()[j]);
                        }
                        assert(new[k] == new.drop_last()[k]);
                        lemma_agent_index_at(new, other, k);
                    },
                    None => {
                        assert forall|j: int| 0 <= j < new.len() implies new[j].0@ != other by {
                            if j < n {
                                assert(new[j] == new.drop_last()[j]);
                            }
                        }
                        lemma_agent_index_absent(new, other);
                    },
                }
            }
        },
    }
}

/// The configuration an agent file defines, from its parsed front matter and prompt.
pub open spec fn agent_of_file(metadata: AgentMetadata, prompt: String) -> AgentConfig {
    AgentConfig { prompt: if prompt@.len() == 0 { None } else { Some(prompt) }, ..config_of_metadata(metadata) }
}

/// `c` carries every field of the front matter `m` unchanged.
pub open spec fn keeps_metadata(c: AgentConfig, m: AgentMetadata) -> bool {
    &&& c.name == m.name
    &&& c.enabled == m.enabled
    &&& c.description == m.description
    &&& c.model == m.model
    &&& c.pricing_model == m.pricing_model
    &&& c.context_window == m.context_window
    &&& c.permissions == m.permissions
    &&& c.use_tools == m.use_tools
    &&& c.suggestions == m.suggestions
}

/// An agent built from front matter keeps every metadata field as written
/// (`use_tools: false` stays false); built from the metadata alone it has no
/// prompt, and from a file the text after the front matter is its prompt, none
/// when that text is empty.
pub proof fn law_agent_keeps_metadata(m: AgentMetadata, prompt: String)
    ensures
        keeps_metadata(config_of_metadata(m), m),
        config_of_metadata(m).prompt is None,
        keeps_metadata(agent_of_file(m, prompt), m),
        prompt@.len() == 0 ==> agent_of_file(m, prompt).prompt is None,
        prompt@.len() > 0 ==> agent_of_file(m, prompt).prompt == Some(prompt),
{
}

/// After an agent file is registered under `id`, looking `id` up finds an agent
/// that keeps every field of the file's front matter and has the file's prompt.
pub proof fn law_registered_agent_keeps_metadata(
    old: Seq<(String, AgentConfig)>,
    new: Seq<(String, AgentConfig)>,
    id: Seq<char>,
    m: AgentMetadata,
    prompt: String,
)
    requires
        stored(old, new, id, agent_of_file(m, prompt)),
    ensures
        agent_lookup(new, id) matches Some(c) && keeps_metadata(c, m) && c.prompt == (if prompt@.len() == 0 {
            None
        } else {
            Some(prompt)
        }),
{
    law_insert_then_lookup(old, new, id, agent_of_file(m, prompt), id);
}

/// Whether a file in the agents directory defines an agent: it has the `.md` extension.
pub open spec fn is_agent_file(path: Seq<char>) -> bool {
    crate::path::extension_of(path) == Some("md"@)
}

/// Adds the agent a file defines: only `.md` files whose front matter parsed
/// count; the agent's id is the file stem, and a later file with the same id
/// replaces an earlier one.
pub fn register_agent_file(agents: &mut AgentsConfig, path: &str, parsed: Option<(AgentMetadata, String)>)
    ensures
        final(agents).default_agent == old(agents).default_agent,
        (is_agent_file(path@) && parsed is Some && crate::path::file_stem_of(path@) is Some) ==> stored(
            old(agents).agents@,
            final(agents).agents@,
            crate::path::file_stem_of(path@)->0,
            agent_of_file((parsed->0).0, (parsed->0).1),
        ),
        !(is_agent_file(path@) && parsed is Some && crate::path::file_stem_of(path@) is Some) ==> final(agents).agents@
            == old(agents).agents@,
        unique_agent_ids(old(agents).agents@) ==> unique_agent_ids(final(agents).agents@),
{
    let p = chars_of(path);
    let is_md = match crate::path::extension_vec(&p) {
        Some(e) => vec_eq_str(&e, "md"),
        None => false,
    };
    if !is_md {
        return;
    }
    match parsed {
        None => {},
        Some((metadata, prompt)) => {
            match crate::path::file_stem(path) {
                None => {},
                Some(id) => {
                    let config = AgentConfig::from_parts(metadata, prompt);
                    agents.insert(id, config);
                },
            }
        },
    }
}

/// Where agents are read from: `SQUID_AGENTS_DIR` when set; else `agents` beside
/// the configuration file when it exists; else `agents` in the working directory
/// when it exists; else the bundled agents; else `agents`.
pub fn choose_agents_dir(
    env_dir: Option<String>,
    config_dir: Option<&str>,
    config_agents_exists: bool,
    cwd_agents_exists: bool,
    bundled: Option<String>,
) -> (r: String)
    ensures
        r@ == (match env_dir {
            Some(d) => d@,
            None => if config_dir is Some && config_agents_exists {
                crate::path::join_spec(config_dir->0@, "agents"@)
            } else if cwd_agents_exists {
                "agents"@
            } else {
                match bundled {
                    Some(b) => b@,
                    None => "agents"@,
                }
            },
        }),
{
    match env_dir {
        Some(d) => d,
        None => {
            match config_dir {
                Some(c) => {
                    if config_agents_exists {
                        return crate::path::join_path(c, "agents");
                    }
                },
                None => {},
            }
            if cwd_agents_exists {
                String::from_str("agents")
            } else {
                match bundled {
                    Some(b) => b,
                    None => String::from_str("agents"),
                }
            }
        },
    }
}

} // verus!
