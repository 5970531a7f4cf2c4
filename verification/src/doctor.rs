//! Health checks: the list of checks, what each one concludes from what it
//! observed, and the summary of a run.

use vstd::prelude::*;
use crate::agent::{AgentConfig, agent_lookup};
use crate::config::Config;
use crate::text::{append_decimal, decimal, has_string, join, join_strings, str_eq};

verus! {

/// The outcome of one check.
#[derive(Debug)]
pub enum CheckResult {
    Pass { message: String },
    Warn { message: String },
    Fail { message: String },
}

/// The line printed for an outcome.
pub open spec fn check_line(r: CheckResult) -> Seq<char> {
    match r {
        CheckResult::Pass { message } => "✓ "@ + message@,
        CheckResult::Warn { message } => "⚠️  "@ + message@,
        CheckResult::Fail { message } => "✗ "@ + message@,
    }
}

impl CheckResult {
    /// A passed check.
    pub fn pass(message: String) -> (r: Self)
        ensures
            r matches CheckResult::Pass { message: m } && m@ == message@,
    {
        CheckResult::Pass { message }
    }

    /// A check that passed with a warning.
    pub fn warn(message: String) -> (r: Self)
        ensures
            r matches CheckResult::Warn { message: m } && m@ == message@,
    {
        CheckResult::Warn { message }
    }

    /// A failed check.
    pub fn fail(message: String) -> (r: Self)
        ensures
            r matches CheckResult::Fail { message: m } && m@ == message@,
    {
        CheckResult::Fail { message }
    }

    /// The line printed for the outcome: a mark, then the message.
    pub fn to_display_string(&self) -> (r: String)
        ensures
            r@ == check_line(*self),
    {
        match self {
            CheckResult::Pass { message } => {
                let mut r = String::from_str("✓ ");
                r.append(message.as_str());
                r
            },
            CheckResult::Warn { message } => {
                let mut r = String::from_str("⚠️  ");
                r.append(message.as_str());
                r
            },
            CheckResult::Fail { message } => {
                let mut r = String::from_str("✗ ");
                r.append(message.as_str());
                r
            },
        }
    }
}

/// A named check.
pub trait Check {
    /// The check's name.
    fn name(&self) -> &'static str;

    /// What the check verifies.
    fn description(&self) -> &'static str;
}

/// The built-in checks.
#[derive(Debug, Clone, Copy, PartialEq, Eq, Structural)]
pub enum CheckKind {
    ConfigFile,
    AgentsDirectory,
    DefaultAgent,
    ApiConnectivity,
    AgentModels,
    DatabasePath,
    WorkingDirectory,
}

/// The name of each check.
pub open spec fn check_name(k: CheckKind) -> Seq<char> {
    match k {
        CheckKind::ConfigFile => "Configuration file"@,
        CheckKind::AgentsDirectory => "Agents directory"@,
        CheckKind::DefaultAgent => "Default agent"@,
        CheckKind::ApiConnectivity => "API connectivity"@,
        CheckKind::AgentModels => "Agent models"@,
        CheckKind::DatabasePath => "Database path"@,
        CheckKind::WorkingDirectory => "Working directory"@,
    }
}

/// The description of each check.
pub open spec fn check_description(k: CheckKind) -> Seq<char> {
    match k {
        CheckKind::ConfigFile => "Verify squid.config.json exists and contains valid JSON"@,
        CheckKind::AgentsDirectory => "Verify agents directory exists and contains agent files"@,
        CheckKind::DefaultAgent => "Verify default_agent points to a valid agent"@,
        CheckKind::ApiConnectivity => "Verify API server is reachable and responding"@,
        CheckKind::AgentModels => "Verify all models declared in agent files are available from the API"@,
        CheckKind::DatabasePath => "Verify database file path is accessible and writable"@,
        CheckKind::WorkingDirectory => "Verify working directory exists and is accessible"@,
    }
}

impl Check for CheckKind {
    fn name(&self) -> (r: &'static str)
        ensures
            r@ == check_name(*self),
    {
        match self {
            CheckKind::ConfigFile => "Configuration file",
            CheckKind::AgentsDirectory => "Agents directory",
            CheckKind::DefaultAgent => "Default agent",
            CheckKind::ApiConnectivity => "API connectivity",
            CheckKind::AgentModels => "Agent models",
            CheckKind::DatabasePath => "Database path",
            CheckKind::WorkingDirectory => "Working directory",
        }
    }

    fn description(&self) -> (r: &'static str)
        ensures
            r@ == check_description(*self),
    {
        match self {
            CheckKind::ConfigFile => "Verify squid.config.json exists and contains valid JSON",
            CheckKind::AgentsDirectory => "Verify agents directory exists and contains agent files",
            CheckKind::DefaultAgent => "Verify default_agent points to a valid agent",
            CheckKind::ApiConnectivity => "Verify API server is reachable and responding",
            CheckKind::AgentModels => "Verify all models declared in agent files are available from the API",
            CheckKind::DatabasePath => "Verify database file path is accessible and writable",
            CheckKind::WorkingDirectory => "Verify working directory exists and is accessible",
        }
    }
}

/// Runs the registered checks.
pub struct Doctor {
    pub checks: Vec<CheckKind>,
}

impl Doctor {
    /// The doctor with the built-in checks, in the order they run.
    pub fn new() -> (d: Self)
        ensures
            d.checks@ == seq![
                CheckKind::ConfigFile,
                CheckKind::AgentsDirectory,
                CheckKind::DefaultAgent,
                CheckKind::ApiConnectivity,
                CheckKind::AgentModels,
                CheckKind::DatabasePath,
                CheckKind::WorkingDirectory,
            ],
    {
        let mut d = Doctor { checks: Vec::new() };
        d.register(CheckKind::ConfigFile);
        d.register(CheckKind::AgentsDirectory);
        d.register(CheckKind::DefaultAgent);
        d.register(CheckKind::ApiConnectivity);
        d.register(CheckKind::AgentModels);
        d.register(CheckKind::DatabasePath);
        d.register(CheckKind::WorkingDirectory);
        d
    }

    /// Adds a check at the end.
    pub fn register(&mut self, check: CheckKind)
        ensures
            final(self).checks@ == old(self).checks@.push(check),
    {
        self.checks.push(check);
    }
}

/// The counts of a run.
#[derive(Debug, Clone, Copy, PartialEq, Eq, Structural)]
pub struct Summary {
    pub passed: usize,
    pub warned: usize,
    pub failed: usize,
}

/// How many outcomes satisfy `f`.
pub open spec fn count_of(rs: Seq<CheckResult>, f: spec_fn(CheckResult) -> bool) -> nat
    decreases rs.len(),
{
    if rs.len() == 0 {
        0
    } else {
        count_of(rs.drop_last(), f) + if f(rs.last()) { 1nat } else { 0nat }
    }
}

/// Counts the outcomes of a run.
pub fn summarize(results: &Vec<CheckResult>) -> (s: Summary)
    ensures
        s.passed == count_of(results@, |r: CheckResult| r is Pass),
        s.warned == count_of(results@, |r: CheckResult| r is Warn),
        s.failed == count_of(results@, |r: CheckResult| r is Fail),
        s.passed + s.warned + s.failed == results@.len(),
{
    let mut s = Summary { passed: 0, warned: 0, failed: 0 };
    let mut i: usize = 0;
    while i < results.len()
        invariant
            i <= results@.len(),
            s.passed == count_of(results@.take(i as int), |r: CheckResult| r is Pass),
            s.warned == count_of(results@.take(i as int), |r: CheckResult| r is Warn),
            s.failed == count_of(results@.take(i as int), |r: CheckResult| r is Fail),
            s.passed + s.warned + s.failed == i,
        decreases results@.len() - i,
    {
        assert(results@.take(i + 1).drop_last() =~= results@.take(i as int));
        match &results[i] {
            CheckResult::Pass { .. } => s.passed = s.passed + 1,
            CheckResult::Warn { .. } => s.warned = s.warned + 1,
            CheckResult::Fail { .. } => s.failed = s.failed + 1,
        }
        i = i + 1;
    }
    assert(results@.take(results@.len() as int) =~= results@);
    s
}

/// The closing line of a run.
pub fn verdict(s: Summary) -> (r: &'static str)
    ensures
        s.failed == 0 && s.warned == 0 ==> r@ == "✓ All checks passed!"@,
        s.failed == 0 && s.warned > 0 ==> r@ == "✓ All critical checks passed (with warnings)"@,
        s.failed > 0 ==> r@ == "✗ Some checks failed. Please review the issues above."@,
{
    if s.failed == 0 && s.warned == 0 {
        "✓ All checks passed!"
    } else if s.failed == 0 {
        "✓ All critical checks passed (with warnings)"
    } else {
        "✗ Some checks failed. Please review the issues above."
    }
}

/// The configuration-file check: a config file passes; without one, an API URL in
/// the environment is a warning, and nothing at all fails.
pub fn config_file_result(config_file_exists: bool, api_url_in_env: bool) -> (r: CheckResult)
    ensures
        config_file_exists ==> check_line(r) == "✓ "@ + "Configuration file exists and is valid"@,
        !config_file_exists && api_url_in_env ==> check_line(r) == "⚠️  "@ + "No config file found, using environment variables"@,
        !config_file_exists && !api_url_in_env ==> check_line(r) == "✗ "@ + "No configuration file found. Run 'squid init' to create one"@,
{
    if config_file_exists {
        CheckResult::pass(String::from_str("Configuration file exists and is valid"))
    } else if api_url_in_env {
        CheckResult::warn(String::from_str("No config file found, using environment variables"))
    } else {
        CheckResult::fail(String::from_str("No configuration file found. Run 'squid init' to create one"))
    }
}

/// The agents-directory check, from whether the directory exists and how many
/// `.md` files it holds.
pub fn agents_directory_result(dir: &str, exists: bool, md_files: usize) -> (r: CheckResult)
    ensures
        !exists ==> check_line(r) == "✗ "@ + "Agents directory not found: "@ + dir@,
        exists && md_files == 0 ==> check_line(r) == "⚠️  "@ + "Agents directory exists but contains no .md files: "@ + dir@,
        exists && md_files > 0 ==> check_line(r) == "✓ "@ + "Found "@ + decimal(md_files as nat) + " agent file(s) in "@ + dir@,
{
    if !exists {
        let mut m = String::from_str("Agents directory not found: ");
        m.append(dir);
        CheckResult::fail(m)
    } else if md_files == 0 {
        let mut m = String::from_str("Agents directory exists but contains no .md files: ");
        m.append(dir);
        CheckResult::warn(m)
    } else {
        let mut m = String::from_str("Found ");
        append_decimal(&mut m, md_files as u64);
        m.append(" agent file(s) in ");
        m.append(dir);
        CheckResult::pass(m)
    }
}

/// The ids of the configured agents, in order.
pub open spec fn agent_ids(agents: Seq<(String, AgentConfig)>) -> Seq<Seq<char>> {
    agents.map_values(|e: (String, AgentConfig)| e.0@)
}

/// The message of the default-agent check.
pub open spec fn default_agent_line(config: Config) -> Seq<char> {
    let id = config.default_agent@;
    if config.agents.agents@.len() == 0 {
        "✗ "@ + "No agents loaded. Cannot validate default agent."@
    } else {
        match agent_lookup(config.agents.agents@, id) {
            Some(a) => if a.model@.len() == 0 {
                "✗ "@ + "Default agent '"@ + id + "' has no model specified in its frontmatter"@
            } else {
                "✓ "@ + "Default agent '"@ + id + "' exists (model: "@ + a.model@ + ")"@
            },
            None => "✗ "@ + "Default agent '"@ + id + "' not found. Available agents: "@ + join(
                agent_ids(config.agents.agents@),
                ", "@,
            ),
        }
    }
}

/// The default-agent check: agents must be loaded, and the default agent must
/// exist and name a model.
pub fn default_agent_result(config: &Config) -> (r: CheckResult)
    ensures
        check_line(r) == default_agent_line(*config),
{
    let id = config.default_agent.as_str();
    if config.agents.agents.len() == 0 {
        return CheckResult::fail(String::from_str("No agents loaded. Cannot validate default agent."));
    }
    match config.get_agent(id) {
        Some(agent) => {
            if agent.model.as_str().is_empty() {
                let mut m = String::from_str("Default agent '");
                m.append(id);
                m.append("' has no model specified in its frontmatter");
                CheckResult::fail(m)
            } else {
                let mut m = String::from_str("Default agent '");
                m.append(id);
                m.append("' exists (model: ");
                m.append(agent.model.as_str());
                m.append(")");
                CheckResult::pass(m)
            }
        },
        None => {
            let ids = agent_id_list(&config.agents.agents);
            let mut m = String::from_str("Default agent '");
            m.append(id);
            m.append("' not found. Available agents: ");
            let joined = join_strings(&ids, ", ");
            m.append(joined.as_str());
            CheckResult::fail(m)
        },
    }
}

/// The ids of the configured agents.
pub fn agent_id_list(agents: &Vec<(String, AgentConfig)>) -> (r: Vec<String>)
    ensures
        r@.map_values(|s: String| s@) == agent_ids(agents@),
{
    let mut r: Vec<String> = Vec::new();
    let mut i: usize = 0;
    while i < agents.len()
        invariant
            i <= agents@.len(),
            r@.map_values(|s: String| s@) == agent_ids(agents@.take(i as int)),
        decreases agents@.len() - i,
    {
        let ghost before = r@;
        r.push(agents[i].0.clone());
        assert(r@.map_values(|s: String| s@) =~= before.map_values(|s: String| s@).push(agents@[i as int].0@));
        assert(agent_ids(agents@.take(i + 1)) =~= agent_ids(agents@.take(i as int)).push(agents@[i as int].0@));
        i = i + 1;
    }
    assert(agents@.take(agents@.len() as int) =~= agents@);
    r
}

/// The models endpoint of an API base URL.
pub fn models_url(api_url: &str) -> (r: String)
    ensures
        r@ == (if api_url@.len() > 0 && api_url@.last() == '/' { api_url@ + "models"@ } else { api_url@ + "/models"@ }),
{
    let mut r = String::from_str(api_url);
    let v = crate::text::chars_of(api_url);
    if v.len() > 0 && v[v.len() - 1] == '/' {
        r.append("models");
    } else {
        r.append("/models");
    }
    r
}

/// What a connection failure is reported as: refused connections and timeouts get
/// a hint; request errors and others show the error text.
pub fn extract_connection_error(is_connect: bool, is_timeout: bool, is_request: bool, error_text: &str) -> (r: String)
    ensures
        is_connect ==> r@ == "Connection refused - is the API server running?"@,
        !is_connect && is_timeout ==> r@ == "Connection timed out - check if the API server is running and accessible"@,
        !is_connect && !is_timeout && is_request ==> r@ == "Request error: "@ + error_text@,
        !is_connect && !is_timeout && !is_request ==> r@ == error_text@,
{
    if is_connect {
        String::from_str("Connection refused - is the API server running?")
    } else if is_timeout {
        String::from_str("Connection timed out - check if the API server is running and accessible")
    } else if is_request {
        let mut r = String::from_str("Request error: ");
        r.append(error_text);
        r
    } else {
        String::from_str(error_text)
    }
}

/// What the models endpoint answered.
pub enum ApiProbe {
    /// A success status and a model list of this length.
    Models { count: usize },
    /// A success status but a body that did not parse; the parse error.
    BadFormat { error: String },
    /// An error status, as text.
    Status { status: String },
    /// No connection; the message from `extract_connection_error`.
    Unreachable { error: String },
}

/// The API-connectivity check from what the models endpoint answered.
pub fn api_connectivity_result(api_url: &str, probe: ApiProbe) -> (r: CheckResult)
    ensures
        match probe {
            ApiProbe::Models { count } => check_line(r) == "✓ "@ + "API is reachable at "@ + api_url@ + " ("@
                + decimal(count as nat) + " models available)"@,
            ApiProbe::BadFormat { error } => check_line(r) == "⚠️  "@ + "API is reachable at "@ + api_url@
                + " but returned unexpected format: "@ + error@,
            ApiProbe::Status { status } => check_line(r) == "✗ "@ + "API returned error status "@ + status@ + ": "@
                + api_url@,
            ApiProbe::Unreachable { error } => check_line(r) == "✗ "@ + "Cannot connect to API at "@ + api_url@ + ": "@
                + error@,
        },
{
    match probe {
        ApiProbe::Models { count } => {
            let mut m = String::from_str("API is reachable at ");
            m.append(api_url);
            m.append(" (");
            append_decimal(&mut m, count as u64);
            m.append(" models available)");
            CheckResult::pass(m)
        },
        ApiProbe::BadFormat { error } => {
            let mut m = String::from_str("API is reachable at ");
            m.append(api_url);
            m.append(" but returned unexpected format: ");
            m.append(error.as_str());
            CheckResult::warn(m)
        },
        ApiProbe::Status { status } => {
            let mut m = String::from_str("API returned error status ");
            m.append(status.as_str());
            m.append(": ");
            m.append(api_url);
            CheckResult::fail(m)
        },
        ApiProbe::Unreachable { error } => {
            let mut m = String::from_str("Cannot connect to API at ");
            m.append(api_url);
            m.append(": ");
            m.append(error.as_str());
            CheckResult::fail(m)
        },
    }
}

/// The working-directory check.
pub fn working_directory_result(dir: &str, exists: bool, is_dir: bool) -> (r: CheckResult)
    ensures
        exists && is_dir ==> check_line(r) == "✓ "@ + "Working directory exists: "@ + dir@,
        exists && !is_dir ==> check_line(r) == "✗ "@ + "Working path exists but is not a directory: "@ + dir@,
        !exists ==> check_line(r) == "⚠️  "@ + "Working directory does not exist: "@ + dir@ + " (will be created when needed)"@,
{
    if exists {
        if is_dir {
            let mut m = String::from_str("Working directory exists: ");
            m.append(dir);
            CheckResult::pass(m)
        } else {
            let mut m = String::from_str("Working path exists but is not a directory: ");
            m.append(dir);
            CheckResult::fail(m)
        }
    } else {
        let mut m = String::from_str("Working directory does not exist: ");
        m.append(dir);
        m.append(" (will be created when needed)");
        CheckResult::warn(m)
    }
}

/// What was found at the database path.
pub enum DatabaseProbe {
    /// The parent directory does not exist.
    NoParent,
    /// The file exists; its size as shown (kilobytes, one decimal).
    Exists { size_kb: String },
    /// The file exists but its metadata could not be read.
    Unreadable { error: String },
    /// The file does not exist; whether its directory is writable.
    Missing { dir_writable: bool },
}

/// The database-path check.
pub fn database_path_result(db_path: &str, db_dir: &str, probe: DatabaseProbe) -> (r: CheckResult)
    ensures
        match probe {
            DatabaseProbe::NoParent => check_line(r) == "✗ "@ + "Database parent directory does not exist: "@ + db_dir@,
            DatabaseProbe::Exists { size_kb } => check_line(r) == "✓ "@ + "Database file exists ("@ + size_kb@ + " KB)"@,
            DatabaseProbe::Unreadable { error } => check_line(r) == "✗ "@ + "Database file exists but cannot read metadata: "@
                + error@,
            DatabaseProbe::Missing { dir_writable } => if dir_writable {
                check_line(r) == "⚠️  "@ + "Database file does not exist yet, but directory is writable: "@ + db_path@
            } else {
                check_line(r) == "✗ "@ + "Database directory is not writable: "@ + db_dir@
            },
        },
{
    match probe {
        DatabaseProbe::NoParent => {
            let mut m = String::from_str("Database parent directory does not exist: ");
            m.append(db_dir);
            CheckResult::fail(m)
        },
        DatabaseProbe::Exists { size_kb } => {
            let mut m = String::from_str("Database file exists (");
            m.append(size_kb.as_str());
            m.append(" KB)");
            CheckResult::pass(m)
        },
        DatabaseProbe::Unreadable { error } => {
            let mut m = String::from_str("Database file exists but cannot read metadata: ");
            m.append(error.as_str());
            CheckResult::fail(m)
        },
        DatabaseProbe::Missing { dir_writable } => {
            if dir_writable {
                let mut m = String::from_str("Database file does not exist yet, but directory is writable: ");
                m.append(db_path);
                CheckResult::warn(m)
            } else {
                let mut m = String::from_str("Database directory is not writable: ");
                m.append(db_dir);
                CheckResult::fail(m)
            }
        },
    }
}

/// A model and the ids of the agents that use it.
pub open spec fn group_view(g: (String, Vec<String>)) -> (Seq<char>, Seq<Seq<char>>) {
    (g.0@, g.1@.map_values(|s: String| s@))
}

/// The views of a list of groups.
pub open spec fn group_views(gs: Seq<(String, Vec<String>)>) -> Seq<(Seq<char>, Seq<Seq<char>>)> {
    gs.map_values(|g: (String, Vec<String>)| group_view(g))
}

/// The first group of model `m`.
pub open spec fn group_index(g: Seq<(Seq<char>, Seq<Seq<char>>)>, m: Seq<char>) -> Option<int>
    decreases g.len(),
{
    if g.len() == 0 {
        None
    } else {
        match group_index(g.drop_last(), m) {
            Some(i) => Some(i),
            None => if g.last().0 == m { Some(g.len() - 1) } else { None },
        }
    }
}

/// The models the agents use, in order of first use, each with the ids of the
/// agents that use it; agents without a model are left out.
pub open spec fn model_groups(agents: Seq<(String, AgentConfig)>) -> Seq<(Seq<char>, Seq<Seq<char>>)>
    decreases agents.len(),
{
    if agents.len() == 0 {
        Seq::empty()
    } else {
        let g = model_groups(agents.drop_last());
        let id = agents.last().0@;
        let m = agents.last().1.model@;
        if m.len() == 0 {
            g
        } else {
            match group_index(g, m) {
                Some(k) => g.update(k, (m, g[k].1.push(id))),
                None => g.push((m, seq![id])),
            }
        }
    }
}

proof fn lemma_group_index(g: Seq<(Seq<char>, Seq<Seq<char>>)>, m: Seq<char>)
    ensures
        match group_index(g, m) {
            Some(j) => 0 <= j < g.len() && g[j].0 == m && forall|k: int| 0 <= k < j ==> g[k].0 != m,
            None => forall|k: int| 0 <= k < g.len() ==> g[k].0 != m,
        },
    decreases g.len(),
{
    if g.len() > 0 {
        lemma_group_index(g.drop_last(), m);
        let gd = g.drop_last();
        assert forall|k: int| 0 <= k < gd.len() implies gd[k] == g[k] by {}
    }
}

/// Each model gets one group, named by a model that is not empty, and every
/// agent that declares a model is listed in that model's group; the groups list
/// only agents, and only under the model they declare.
pub proof fn law_model_groups(agents: Seq<(String, AgentConfig)>)
    ensures
        forall|j: int, k: int| 0 <= j < k < model_groups(agents).len() ==> (#[trigger] model_groups(agents)[j]).0
            != (#[trigger] model_groups(agents)[k]).0,
        forall|k: int| 0 <= k < model_groups(agents).len() ==> (#[trigger] model_groups(agents)[k]).0.len() > 0,
        forall|i: int| 0 <= i < agents.len() && (#[trigger] agents[i]).1.model@.len() > 0 ==> exists|k: int|
            0 <= k < model_groups(agents).len() && (#[trigger] model_groups(agents)[k]).0 == agents[i].1.model@
                && model_groups(agents)[k].1.contains(agents[i].0@),
        forall|k: int, x: int| #![trigger model_groups(agents)[k].1[x]] 0 <= k < model_groups(agents).len() && 0 <= x < model_groups(agents)[k].1.len()
            ==> exists|i: int| 0 <= i < agents.len() && (#[trigger] agents[i]).0@ == model_groups(agents)[k].1[x]
                && agents[i].1.model@ == model_groups(agents)[k].0,
    decreases agents.len(),
{
    if agents.len() > 0 {
        let rest = agents.drop_last();
        law_model_groups(rest);
        let g = model_groups(rest);
        let gs = model_groups(agents);
        let id = agents.last().0@;
        let m = agents.last().1.model@;
        let n = agents.len() - 1;
        assert forall|i: int| 0 <= i < rest.len() implies #[trigger] rest[i] == agents[i] by {}
        lemma_group_index(g, m);
        if m.len() == 0 {
            assert forall|i: int| 0 <= i < agents.len() && (#[trigger] agents[i]).1.model@.len() > 0 implies exists|k: int|
                0 <= k < gs.len() && (#[trigger] gs[k]).0 == agents[i].1.model@ && gs[k].1.contains(agents[i].0@) by {
                assert(i < n);
                assert(rest[i] == agents[i]);
            }
            assert forall|k: int, x: int| #![trigger gs[k].1[x]] 0 <= k < gs.len() && 0 <= x < gs[k].1.len() implies exists|i: int|
                0 <= i < agents.len() && (#[trigger] agents[i]).0@ == gs[k].1[x] && agents[i].1.model@ == gs[k].0 by {
                let i = choose|i: int| 0 <= i < rest.len() && (#[trigger] rest[i]).0@ == g[k].1[x] && rest[i].1.model@ == g[k].0;
                assert(agents[i] == rest[i]);
            }
        } else {
            match group_index(g, m) {
                Some(j) => {
                    assert(gs == g.update(j, (m, g[j].1.push(id))));
                    assert forall|i: int| 0 <= i < agents.len() && (#[trigger] agents[i]).1.model@.len() > 0 implies exists|k: int|
                        0 <= k < gs.len() && (#[trigger] gs[k]).0 == agents[i].1.model@ && gs[k].1.contains(agents[i].0@) by {
                        if i == n {
                            assert(gs[j].1[gs[j].1.len() - 1] == id);
                            assert(gs[j].0 == agents[i].1.model@);
                        } else {
                            assert(rest[i] == agents[i]);
                            let k = choose|k: int| 0 <= k < g.len() && (#[trigger] g[k]).0 == rest[i].1.model@ && g[k].1.contains(rest[i].0@);
                            let y = choose|y: int| 0 <= y < g[k].1.len() && g[k].1[y] == rest[i].0@;
                            if k == j {
                                assert(gs[k].1[y] == g[k].1[y]);
                            } else {
                                assert(gs[k] == g[k]);
                            }
                            assert(gs[k].1.contains(agents[i].0@));
                        }
                    }
                    assert forall|k: int, x: int| #![trigger gs[k].1[x]] 0 <= k < gs.len() && 0 <= x < gs[k].1.len() implies exists|i: int|
                        0 <= i < agents.len() && (#[trigger] agents[i]).0@ == gs[k].1[x] && agents[i].1.model@ == gs[k].0 by {
                        if k == j && x == g[j].1.len() {
                            assert(agents[n].0@ == gs[k].1[x]);
                        } else {
                            if k == j {
                                assert(gs[k].1[x] == g[k].1[x]);
                            } else {
                                assert(gs[k] == g[k]);
                            }
                            let i = choose|i: int| 0 <= i < rest.len() && (#[trigger] rest[i]).0@ == g[k].1[x] && rest[i].1.model@ == g[k].0;
                            assert(agents[i] == rest[i]);
                        }
                    }
                },
                None => {
                    assert(gs == g.push((m, seq![id])));
                    assert forall|i: int| 0 <= i < agents.len() && (#[trigger] agents[i]).1.model@.len() > 0 implies exists|k: int|
                        0 <= k < gs.len() && (#[trigger] gs[k]).0 == agents[i].1.model@ && gs[k].1.contains(agents[i].0@) by {
                        if i == n {
                            assert(gs[g.len() as int].1[0] == id);
                        } else {
                            assert(rest[i] == agents[i]);
                            let k = choose|k: int| 0 <= k < g.len() && (#[trigger] g[k]).0 == rest[i].1.model@ && g[k].1.contains(rest[i].0@);
                            assert(gs[k] == g[k]);
                        }
                    }
                    assert forall|k: int, x: int| #![trigger gs[k].1[x]] 0 <= k < gs.len() && 0 <= x < gs[k].1.len() implies exists|i: int|
                        0 <= i < agents.len() && (#[trigger] agents[i]).0@ == gs[k].1[x] && agents[i].1.model@ == gs[k].0 by {
                        if k == g.len() {
                            assert(agents[n].0@ == gs[k].1[x]);
                        } else {
                            assert(gs[k] == g[k]);
                            let i = choose|i: int| 0 <= i < rest.len() && (#[trigger] rest[i]).0@ == g[k].1[x] && rest[i].1.model@ == g[k].0;
                            assert(agents[i] == rest[i]);
                        }
                    }
                },
            }
        }
    }
}

/// Groups the configured agents by model (see `model_groups`).
pub fn group_agents_by_model(agents: &Vec<(String, AgentConfig)>) -> (r: Vec<(String, Vec<String>)>)
    ensures
        group_views(r@) == model_groups(agents@),
{
    let mut groups: Vec<(String, Vec<String>)> = Vec::new();
    let mut i: usize = 0;
    while i < agents.len()
        invariant
            i <= agents@.len(),
            group_views(groups@) == model_groups(agents@.take(i as int)),
        decreases agents@.len() - i,
    {
        let ghost g = group_views(groups@);
        assert(agents@.take(i + 1).drop_last() =~= agents@.take(i as int));
        let id = &agents[i].0;
        let model = &agents[i].1.model;
        if !model.as_str().is_empty() {
            proof { lemma_group_index(g, model@); }
            let mut j: usize = 0;
            let mut found = false;
            while j < groups.len()
                invariant_except_break
                    !found,
                invariant
                    j <= groups@.len(),
                    g == group_views(groups@),
                    forall|k: int| 0 <= k < j ==> g[k].0 != model@,
                ensures
                    found ==> j < groups@.len() && g[j as int].0 == model@ && forall|k: int| 0 <= k < j ==> g[k].0 != model@,
                    !found ==> forall|k: int| 0 <= k < groups@.len() ==> g[k].0 != model@,
                decreases groups@.len() - j,
            {
                if str_eq(groups[j].0.as_str(), model.as_str()) {
                    found = true;
                    break;
                }
                j = j + 1;
            }
            if found {
                assert(group_index(g, model@) == Some(j as int));
                let (m, mut ids) = groups.remove(j);
                let ghost old_ids = ids@;
                ids.push(id.clone());
                assert(ids@.map_values(|s: String| s@) =~= old_ids.map_values(|s: String| s@).push(id@));
                groups.insert(j, (m, ids));
                assert(group_views(groups@) =~= g.update(j as int, (model@, g[j as int].1.push(id@))));
            } else {
                assert(group_index(g, model@) is None);
                let idv = vec![id.clone()];
                assert(idv@.map_values(|s: String| s@) =~= seq![id@]);
                groups.push((model.clone(), idv));
                assert(group_views(groups@) =~= g.push((model@, seq![id@])));
            }
        }
        i = i + 1;
    }
    assert(agents@.take(agents@.len() as int) =~= agents@);
    groups
}

/// The line listing a missing model and the agents that use it.
pub open spec fn missing_line(g: (Seq<char>, Seq<Seq<char>>)) -> Seq<char> {
    "  - '"@ + g.0 + "' (used by: "@ + join(g.1, ", "@) + ")"@
}

/// The groups whose model the API offers.
pub open spec fn present_groups(gs: Seq<(Seq<char>, Seq<Seq<char>>)>, available: Seq<String>) -> Seq<(Seq<char>, Seq<Seq<char>>)> {
    gs.filter(|g: (Seq<char>, Seq<Seq<char>>)| has_string(available, g.0))
}

/// The groups whose model the API does not offer.
pub open spec fn missing_groups(gs: Seq<(Seq<char>, Seq<Seq<char>>)>, available: Seq<String>) -> Seq<(Seq<char>, Seq<Seq<char>>)> {
    gs.filter(|g: (Seq<char>, Seq<Seq<char>>)| !has_string(available, g.0))
}

/// The line of the agent-models check, from the configured agents and the models
/// the API listed (or why they could not be fetched).
pub open spec fn agent_models_line(agents: Seq<(String, AgentConfig)>, available: Result<Seq<String>, Seq<char>>) -> Seq<char> {
    match available {
        Err(e) => "✗ "@ + "Cannot fetch models from API: "@ + e,
        Ok(av) => if av.len() == 0 {
            "⚠️  "@ + "API returned no models. Cannot validate agent models."@
        } else {
            let gs = model_groups(agents);
            if gs.len() == 0 {
                "⚠️  "@ + "No models declared in any agent files"@
            } else {
                let present = present_groups(gs, av);
                let missing = missing_groups(gs, av);
                if missing.len() == 0 {
                    "✓ "@ + "All "@ + decimal(present.len()) + " model(s) available: "@ + join(
                        present.map_values(|g: (Seq<char>, Seq<Seq<char>>)| g.0),
                        ", "@,
                    )
                } else {
                    "✗ "@ + decimal(missing.len()) + " model(s) not available from API:\n"@ + join(
                        missing.map_values(|g: (Seq<char>, Seq<Seq<char>>)| missing_line(g)),
                        "\n"@,
                    )
                }
            }
        },
    }
}

/// The view of a result of fetching model ids.
pub open spec fn fetched_view(r: Result<Vec<String>, String>) -> Result<Seq<String>, Seq<char>> {
    match r {
        Ok(v) => Ok(v@),
        Err(e) => Err(e@),
    }
}

/// The agent-models check: every model an agent declares must be offered by the API.
pub fn agent_models_result(agents: &Vec<(String, AgentConfig)>, available: &Result<Vec<String>, String>) -> (r: CheckResult)
    ensures
        check_line(r) == agent_models_line(agents@, fetched_view(*available)),
{
    let av = match available {
        Err(e) => {
            let mut m = String::from_str("Cannot fetch models from API: ");
            m.append(e.as_str());
            return CheckResult::fail(m);
        },
        Ok(v) => v,
    };
    if av.len() == 0 {
        return CheckResult::warn(String::from_str("API returned no models. Cannot validate agent models."));
    }
    let groups = group_agents_by_model(agents);
    if groups.len() == 0 {
        return CheckResult::warn(String::from_str("No models declared in any agent files"));
    }
    let ghost gs = group_views(groups@);
    let ghost in_api = |g: (Seq<char>, Seq<Seq<char>>)| has_string(av@, g.0);
    let ghost not_in_api = |g: (Seq<char>, Seq<Seq<char>>)| !has_string(av@, g.0);
    let mut present_names: Vec<String> = Vec::new();
    let mut missing_lines: Vec<String> = Vec::new();
    let mut i: usize = 0;
    while i < groups.len()
        invariant
            i <= groups@.len(),
            gs == group_views(groups@),
            in_api == (|g: (Seq<char>, Seq<Seq<char>>)| has_string(av@, g.0)),
            not_in_api == (|g: (Seq<char>, Seq<Seq<char>>)| !has_string(av@, g.0)),
            present_names@.map_values(|s: String| s@) == gs.take(i as int).filter(in_api).map_values(
                |g: (Seq<char>, Seq<Seq<char>>)| g.0,
            ),
            missing_lines@.map_values(|s: String| s@) == gs.take(i as int).filter(not_in_api).map_values(
                |g: (Seq<char>, Seq<Seq<char>>)| missing_line(g),
            ),
        decreases groups@.len() - i,
    {
        proof {
            reveal(Seq::filter);
        }
        let ghost gi = gs[i as int];
        assert(gs.take(i + 1).drop_last() =~= gs.take(i as int));
        assert(gs.take(i + 1).last() == gi);
        let model = &groups[i].0;
        let ghost pn = present_names@;
        let ghost ml = missing_lines@;
        if crate::text::vec_has_string(av, model.as_str()) {
            present_names.push(model.clone());
            assert(gs.take(i + 1).filter(in_api) =~= gs.take(i as int).filter(in_api).push(gi));
            assert(gs.take(i + 1).filter(not_in_api) =~= gs.take(i as int).filter(not_in_api));
            assert(present_names@.map_values(|s: String| s@) =~= pn.map_values(|s: String| s@).push(gi.0));
        } else {
            let mut line = String::from_str("  - '");
            line.append(model.as_str());
            line.append("' (used by: ");
            let users = join_strings(&groups[i].1, ", ");
            line.append(users.as_str());
            line.append(")");
            missing_lines.push(line);
            assert(gs.take(i + 1).filter(not_in_api) =~= gs.take(i as int).filter(not_in_api).push(gi));
            assert(gs.take(i + 1).filter(in_api) =~= gs.take(i as int).filter(in_api));
            assert(missing_lines@.map_values(|s: String| s@) =~= ml.map_values(|s: String| s@).push(missing_line(gi)));
        }
        i = i + 1;
    }
    assert(gs.take(groups@.len() as int) =~= gs);
    proof {
        assert(gs.filter(in_api) == present_groups(gs, av@));
        assert(gs.filter(not_in_api) == missing_groups(gs, av@));
    }
    if missing_lines.len() == 0 {
        let mut m = String::from_str("All ");
        append_decimal(&mut m, present_names.len() as u64);
        m.append(" model(s) available: ");
        let names = join_strings(&present_names, ", ");
        m.append(names.as_str());
        CheckResult::pass(m)
    } else {
        let mut m = String::new();
        append_decimal(&mut m, missing_lines.len() as u64);
        m.append(" model(s) not available from API:\n");
        let lines = join_strings(&missing_lines, "\n");
        m.append(lines.as_str());
        CheckResult::fail(m)
    }
}

} // verus!
