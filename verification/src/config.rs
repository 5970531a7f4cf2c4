//! Application configuration: defaults, environment overrides, version checks and
//! per-agent tool permissions.

use vstd::prelude::*;
use crate::agent::{
    AgentConfig, AgentPermissions, AgentsConfig, agent_index, agent_lookup, lemma_agent_index,
    default_agent_id as agents_default_id,
};
use crate::path::{is_absolute, is_absolute_str, join_path, join_spec};
use crate::text::{all_digits, digits_value, contains_seq, has_string, lemma_contains_in_concat, opt_chars, parse_bool, parse_i32, parse_u32, parse_unsigned, signed_value, str_eq, unsigned_value, vec_has_string};

verus! {

/// Document retrieval settings.
#[derive(Debug, Clone)]
pub struct RagConfig {
    pub enabled: bool,
    pub embedding_model: String,
    pub embedding_url: String,
    pub chunk_size: usize,
    pub chunk_overlap: usize,
    pub top_k: usize,
    pub documents_path: String,
}

pub fn default_rag_enabled() -> (r: bool)
    ensures r,
{
    true
}

pub fn default_embedding_model() -> (r: String)
    ensures r@ == "text-embedding-nomic-embed-text-v1.5"@,
{
    String::from_str("text-embedding-nomic-embed-text-v1.5")
}

pub fn default_embedding_url() -> (r: String)
    ensures r@ == "http://127.0.0.1:1234/v1"@,
{
    String::from_str("http://127.0.0.1:1234/v1")
}

pub fn default_chunk_size() -> (r: usize)
    ensures r == 512,
{
    512
}

pub fn default_chunk_overlap() -> (r: usize)
    ensures r == 50,
{
    50
}

pub fn default_top_k() -> (r: usize)
    ensures r == 5,
{
    5
}

pub fn default_documents_path() -> (r: String)
    ensures r@ == "documents"@,
{
    String::from_str("documents")
}

impl RagConfig {
    /// Retrieval enabled, the local embedding endpoint and model, 512-token chunks
    /// overlapping by 50, five results, documents from `documents`.
    pub fn default() -> (c: Self)
        ensures
            c.enabled,
            c.embedding_model@ == "text-embedding-nomic-embed-text-v1.5"@,
            c.embedding_url@ == "http://127.0.0.1:1234/v1"@,
            c.chunk_size == 512,
            c.chunk_overlap == 50,
            c.top_k == 5,
            c.documents_path@ == "documents"@,
    {
        RagConfig {
            enabled: default_rag_enabled(),
            embedding_model: default_embedding_model(),
            embedding_url: default_embedding_url(),
            chunk_size: default_chunk_size(),
            chunk_overlap: default_chunk_overlap(),
            top_k: default_top_k(),
            documents_path: default_documents_path(),
        }
    }
}

/// Plugin system settings.
#[derive(Debug, Clone, Copy, PartialEq, Eq, Structural)]
pub struct PluginsConfig {
    pub enabled: bool,
    pub load_global: bool,
    pub load_workspace: bool,
    pub load_bundled: bool,
    pub default_timeout_seconds: u64,
    pub max_memory_mb: usize,
}

pub fn default_plugins_enabled() -> (r: bool)
    ensures r,
{
    true
}

pub fn default_load_global() -> (r: bool)
    ensures r,
{
    true
}

pub fn default_load_workspace() -> (r: bool)
    ensures r,
{
    true
}

pub fn default_load_bundled() -> (r: bool)
    ensures r,
{
    true
}

pub fn default_plugin_timeout() -> (r: u64)
    ensures r == 30,
{
    30
}

pub fn default_max_memory_mb() -> (r: usize)
    ensures r == 128,
{
    128
}

/// The default plugin settings.
pub open spec fn default_plugins_config() -> PluginsConfig {
    PluginsConfig {
        enabled: true,
        load_global: true,
        load_workspace: true,
        load_bundled: true,
        default_timeout_seconds: 30,
        max_memory_mb: 128,
    }
}

impl PluginsConfig {
    /// All sources enabled, a 30 s timeout and 128 MB per plugin.
    pub fn default() -> (c: Self)
        ensures
            c == default_plugins_config(),
    {
        PluginsConfig {
            enabled: default_plugins_enabled(),
            load_global: default_load_global(),
            load_workspace: default_load_workspace(),
            load_bundled: default_load_bundled(),
            default_timeout_seconds: default_plugin_timeout(),
            max_memory_mb: default_max_memory_mb(),
        }
    }
}

/// Web client settings.
#[derive(Debug, Clone, Copy, PartialEq, Eq, Structural)]
pub struct WebConfig {
    pub sounds: bool,
}

pub fn default_web_sounds() -> (r: bool)
    ensures r,
{
    true
}

impl WebConfig {
    /// Notification sounds on.
    pub fn default() -> (c: Self)
        ensures c.sounds,
    {
        WebConfig { sounds: default_web_sounds() }
    }
}

/// Server settings.
#[derive(Debug, Clone, Copy, PartialEq, Eq, Structural)]
pub struct ServerConfig {
    pub allow_network: bool,
}

pub fn default_allow_network() -> (r: bool)
    ensures !r,
{
    false
}

impl ServerConfig {
    /// Localhost only.
    pub fn default() -> (c: Self)
        ensures !c.allow_network,
    {
        ServerConfig { allow_network: default_allow_network() }
    }
}

/// Background job settings.
#[derive(Debug, Clone, Copy, PartialEq, Eq, Structural)]
pub struct JobsConfig {
    pub enabled: bool,
    pub max_concurrent_jobs: usize,
    pub max_cpu_percent: i32,
    pub default_retries: i32,
}

pub fn default_jobs_enabled() -> (r: bool)
    ensures !r,
{
    false
}

pub fn default_max_concurrent_jobs() -> (r: usize)
    ensures r == 2,
{
    2
}

pub fn default_max_cpu_percent() -> (r: i32)
    ensures r == 70,
{
    70
}

pub fn default_job_retries() -> (r: i32)
    ensures r == 3,
{
    3
}

impl JobsConfig {
    /// Scheduler off, two concurrent jobs, a 70 % CPU ceiling and three retries.
    pub fn default() -> (c: Self)
        ensures
            c == (JobsConfig { enabled: false, max_concurrent_jobs: 2, max_cpu_percent: 70, default_retries: 3 }),
    {
        JobsConfig {
            enabled: default_jobs_enabled(),
            max_concurrent_jobs: default_max_concurrent_jobs(),
            max_cpu_percent: default_max_cpu_percent(),
            default_retries: default_job_retries(),
        }
    }
}

/// Configuration of the assistant (normally `squid.config.json`).
#[derive(Debug, Clone)]
pub struct Config {
    pub api_url: String,
    pub api_key: Option<String>,
    pub context_window: u32,
    pub log_level: String,
    pub db_log_level: String,
    pub version: Option<String>,
    pub database_path: String,
    pub working_dir: String,
    pub rag: RagConfig,
    pub plugins: PluginsConfig,
    pub server: ServerConfig,
    pub web: WebConfig,
    pub jobs: JobsConfig,
    pub default_agent: String,
    pub agents: AgentsConfig,
    pub config_dir: Option<String>,
}

pub fn default_agent_id() -> (r: String)
    ensures r@ == "general-assistant"@,
{
    String::from_str("general-assistant")
}

pub fn default_context_window() -> (r: u32)
    ensures r == 8192,
{
    8192
}

pub fn default_log_level() -> (r: String)
    ensures r@ == "error"@,
{
    String::from_str("error")
}

pub fn default_db_log_level() -> (r: String)
    ensures r@ == "debug"@,
{
    String::from_str("debug")
}

pub fn default_database_path() -> (r: String)
    ensures r@ == "squid.db"@,
{
    String::from_str("squid.db")
}

pub fn default_working_dir() -> (r: String)
    ensures r@ == "./workspace"@,
{
    String::from_str("./workspace")
}

/// The application version that configuration files are compared against.
pub open spec fn app_version_spec() -> Seq<char> {
    "0.3.0"@
}

/// The built-in configuration values.
pub open spec fn is_default_config(c: Config) -> bool {
    &&& c.api_url@ == "http://127.0.0.1:1234/v1"@
    &&& c.api_key is None
    &&& c.context_window == 8192
    &&& c.log_level@ == "error"@
    &&& c.db_log_level@ == "debug"@
    &&& c.version is None
    &&& c.database_path@ == "squid.db"@
    &&& c.working_dir@ == "./workspace"@
    &&& c.rag.enabled
    &&& c.rag.embedding_model@ == "text-embedding-nomic-embed-text-v1.5"@
    &&& c.rag.embedding_url@ == "http://127.0.0.1:1234/v1"@
    &&& c.rag.chunk_size == 512
    &&& c.rag.chunk_overlap == 50
    &&& c.rag.top_k == 5
    &&& c.rag.documents_path@ == "documents"@
    &&& c.plugins == default_plugins_config()
    &&& !c.server.allow_network
    &&& c.web.sounds
    &&& c.jobs == (JobsConfig { enabled: false, max_concurrent_jobs: 2, max_cpu_percent: 70, default_retries: 3 })
    &&& c.default_agent@ == "general-assistant"@
    &&& c.agents.agents@.len() == 0
    &&& c.agents.default_agent@ == "general-assistant"@
    &&& c.config_dir is None
}

/// Values taken from the environment, each overriding its configuration field.
#[derive(Debug, Clone)]
pub struct EnvOverrides {
    pub api_url: Option<String>,
    pub api_key: Option<String>,
    pub context_window: Option<u32>,
    pub log_level: Option<String>,
    pub db_log_level: Option<String>,
    pub database_path: Option<String>,
    pub working_dir: Option<String>,
    pub rag_enabled: Option<bool>,
    pub embedding_model: Option<String>,
    pub embedding_url: Option<String>,
    pub chunk_size: Option<usize>,
    pub chunk_overlap: Option<usize>,
    pub top_k: Option<usize>,
    pub documents_path: Option<String>,
    pub server_allow_network: Option<bool>,
    pub web_sounds: Option<bool>,
    pub plugins_load_bundled: Option<bool>,
    pub jobs_enabled: Option<bool>,
    pub max_concurrent_jobs: Option<usize>,
    pub jobs_max_cpu_percent: Option<i32>,
    pub jobs_default_retries: Option<i32>,
}

/// `o`'s value, else `d`.
pub open spec fn or_keep<T>(o: Option<T>, d: T) -> T {
    match o {
        Some(v) => v,
        None => d,
    }
}

/// The configuration after applying environment overrides.
pub open spec fn overridden(c: Config, e: EnvOverrides) -> Config {
    Config {
        api_url: or_keep(e.api_url, c.api_url),
        api_key: match e.api_key { Some(k) => Some(k), None => c.api_key },
        context_window: or_keep(e.context_window, c.context_window),
        log_level: or_keep(e.log_level, c.log_level),
        db_log_level: or_keep(e.db_log_level, c.db_log_level),
        database_path: or_keep(e.database_path, c.database_path),
        working_dir: or_keep(e.working_dir, c.working_dir),
        rag: RagConfig {
            enabled: or_keep(e.rag_enabled, c.rag.enabled),
            embedding_model: or_keep(e.embedding_model, c.rag.embedding_model),
            embedding_url: or_keep(e.embedding_url, c.rag.embedding_url),
            chunk_size: or_keep(e.chunk_size, c.rag.chunk_size),
            chunk_overlap: or_keep(e.chunk_overlap, c.rag.chunk_overlap),
            top_k: or_keep(e.top_k, c.rag.top_k),
            documents_path: or_keep(e.documents_path, c.rag.documents_path),
        },
        plugins: PluginsConfig { load_bundled: or_keep(e.plugins_load_bundled, c.plugins.load_bundled), ..c.plugins },
        server: ServerConfig { allow_network: or_keep(e.server_allow_network, c.server.allow_network) },
        web: WebConfig { sounds: or_keep(e.web_sounds, c.web.sounds) },
        jobs: JobsConfig {
            enabled: or_keep(e.jobs_enabled, c.jobs.enabled),
            max_concurrent_jobs: or_keep(e.max_concurrent_jobs, c.jobs.max_concurrent_jobs),
            max_cpu_percent: or_keep(e.jobs_max_cpu_percent, c.jobs.max_cpu_percent),
            default_retries: or_keep(e.jobs_default_retries, c.jobs.default_retries),
        },
        ..c
    }
}

/// `after` is what an environment override `o` leaves in a field that held `before`:
/// the override's value when there is one, the old value otherwise.
pub open spec fn takes_override<T>(o: Option<T>, before: T, after: T) -> bool {
    match o {
        Some(v) => after == v,
        None => after == before,
    }
}

/// Every environment override that is present replaces its configuration field,
/// every absent one leaves the field as it was, and the fields that no variable
/// overrides (version, default agent, agents, configuration directory, the other
/// plugin settings) are kept.
pub proof fn law_env_overrides_replace(c: Config, e: EnvOverrides)
    ensures
        takes_override(e.api_url, c.api_url, overridden(c, e).api_url),
        e.api_key is Some ==> overridden(c, e).api_key == e.api_key,
        e.api_key is None ==> overridden(c, e).api_key == c.api_key,
        takes_override(e.context_window, c.context_window, overridden(c, e).context_window),
        takes_override(e.log_level, c.log_level, overridden(c, e).log_level),
        takes_override(e.db_log_level, c.db_log_level, overridden(c, e).db_log_level),
        takes_override(e.database_path, c.database_path, overridden(c, e).database_path),
        takes_override(e.working_dir, c.working_dir, overridden(c, e).working_dir),
        takes_override(e.rag_enabled, c.rag.enabled, overridden(c, e).rag.enabled),
        takes_override(e.embedding_model, c.rag.embedding_model, overridden(c, e).rag.embedding_model),
        takes_override(e.embedding_url, c.rag.embedding_url, overridden(c, e).rag.embedding_url),
        takes_override(e.chunk_size, c.rag.chunk_size, overridden(c, e).rag.chunk_size),
        takes_override(e.chunk_overlap, c.rag.chunk_overlap, overridden(c, e).rag.chunk_overlap),
        takes_override(e.top_k, c.rag.top_k, overridden(c, e).rag.top_k),
        takes_override(e.documents_path, c.rag.documents_path, overridden(c, e).rag.documents_path),
        takes_override(e.server_allow_network, c.server.allow_network, overridden(c, e).server.allow_network),
        takes_override(e.web_sounds, c.web.sounds, overridden(c, e).web.sounds),
        takes_override(e.plugins_load_bundled, c.plugins.load_bundled, overridden(c, e).plugins.load_bundled),
        takes_override(e.jobs_enabled, c.jobs.enabled, overridden(c, e).jobs.enabled),
        takes_override(e.max_concurrent_jobs, c.jobs.max_concurrent_jobs, overridden(c, e).jobs.max_concurrent_jobs),
        takes_override(e.jobs_max_cpu_percent, c.jobs.max_cpu_percent, overridden(c, e).jobs.max_cpu_percent),
        takes_override(e.jobs_default_retries, c.jobs.default_retries, overridden(c, e).jobs.default_retries),
        overridden(c, e).version == c.version,
        overridden(c, e).default_agent == c.default_agent,
        overridden(c, e).agents == c.agents,
        overridden(c, e).config_dir == c.config_dir,
        overridden(c, e).plugins.enabled == c.plugins.enabled,
        overridden(c, e).plugins.load_global == c.plugins.load_global,
        overridden(c, e).plugins.load_workspace == c.plugins.load_workspace,
        overridden(c, e).plugins.default_timeout_seconds == c.plugins.default_timeout_seconds,
        overridden(c, e).plugins.max_memory_mb == c.plugins.max_memory_mb,
{
}

/// `o`'s value, else `d`.
pub fn pick<T>(o: Option<T>, d: T) -> (r: T)
    ensures
        r == or_keep(o, d),
{
    match o {
        Some(v) => v,
        None => d,
    }
}

/// The database path of a loaded configuration file: a relative path is taken
/// relative to the directory that holds the file.
pub open spec fn resolved_database_path(config_dir: Seq<char>, db: Seq<char>) -> Seq<char> {
    if is_absolute(db) {
        db
    } else {
        join_spec(config_dir, db)
    }
}

/// `a` and `b` agree on every field but the database path and the configuration directory.
pub open spec fn agrees_except_paths(a: Config, b: Config) -> bool {
    a == (Config { database_path: a.database_path, config_dir: a.config_dir, ..b })
}

/// `a` and `b` agree on every field but the configuration directory.
pub open spec fn agrees_except_dir(a: Config, b: Config) -> bool {
    a == (Config { config_dir: a.config_dir, ..b })
}

/// The database path of a loaded configuration file after overrides.
pub open spec fn loaded_database_path(file: Config, config_dir: Option<String>, env: EnvOverrides) -> Seq<char> {
    match env.database_path {
        Some(d) => d@,
        None => resolved_database_path(
            match config_dir {
                Some(d) => d@,
                None => Seq::empty(),
            },
            file.database_path@,
        ),
    }
}

/// The allow list after allowing `tool`: unchanged when already present.
pub open spec fn allow_list_after_allow(list: Seq<String>, tool: String) -> Seq<String> {
    if has_string(list, tool@) {
        list
    } else {
        list.push(tool)
    }
}

/// The allow list after denying `tool`: every entry spelling `tool` removed.
pub open spec fn allow_list_after_deny(list: Seq<String>, tool: Seq<char>) -> Seq<String> {
    list.filter(keeps(tool))
}

/// The entries that denying `tool` keeps.
pub open spec fn keeps(tool: Seq<char>) -> spec_fn(String) -> bool {
    |t: String| t@ != tool
}

/// The warning about a configuration file's version: none when it is the app
/// version, else a text naming the file's version (when it has one) and the app
/// version.
pub open spec fn version_warning_text(version: Option<String>) -> Option<Seq<char>> {
    match version {
        None => Some("⚠️  Warning: Config file has no version field (created with an older version). Consider running 'squid init' to update to version "@ + app_version_spec() + "."@),
        Some(v) => if v@ == app_version_spec() {
            None
        } else {
            Some("⚠️  Warning: Config file version ("@ + v@ + ") doesn't match app version ("@ + app_version_spec() + "). Consider running 'squid init' to update."@)
        },
    }
}

/// There is a version warning exactly when the version is not known to be
/// current; it names the app version, and the file's version when there is one.
pub proof fn law_version_warning(version: Option<String>)
    ensures
        (version_warning_text(version) is None) == (version matches Some(v) && v@ == app_version_spec()),
        match version {
            Some(v) => v@ != app_version_spec() ==> contains_seq(version_warning_text(version)->0, v@)
                && contains_seq(version_warning_text(version)->0, app_version_spec()),
            None => contains_seq(version_warning_text(version)->0, app_version_spec()),
        },
{
    let app = app_version_spec();
    match version {
        None => {
            let a = "⚠️  Warning: Config file has no version field (created with an older version). Consider running 'squid init' to update to version "@;
            lemma_contains_in_concat(a, app, "."@);
        },
        Some(v) => {
            if v@ != app {
                let l1 = "⚠️  Warning: Config file version ("@;
                let l2 = ") doesn't match app version ("@;
                let l3 = "). Consider running 'squid init' to update."@;
                let w = version_warning_text(version)->0;
                assert(w == l1 + v@ + (l2 + app + l3)) by {
                    assert(w =~= l1 + v@ + (l2 + app + l3));
                }
                lemma_contains_in_concat(l1, v@, l2 + app + l3);
                assert(w =~= (l1 + v@ + l2) + app + l3);
                lemma_contains_in_concat(l1 + v@ + l2, app, l3);
            }
        },
    }
}

/// The error text for an unknown agent.
pub open spec fn agent_not_found_message(id: Seq<char>) -> Seq<char> {
    "Agent '"@ + id + "' not found"@
}

/// The error for an unknown agent.
pub(crate) fn agent_not_found(id: &str) -> (r: String)
    ensures
        r@ == agent_not_found_message(id@),
{
    let mut m = String::from_str("Agent '");
    m.append(id);
    m.append("' not found");
    m
}

impl Config {
    /// The built-in configuration.
    pub fn default() -> (c: Self)
        ensures
            is_default_config(c),
    {
        Config {
            api_url: String::from_str("http://127.0.0.1:1234/v1"),
            api_key: None,
            context_window: default_context_window(),
            log_level: default_log_level(),
            db_log_level: default_db_log_level(),
            version: None,
            database_path: default_database_path(),
            working_dir: default_working_dir(),
            rag: RagConfig::default(),
            plugins: PluginsConfig::default(),
            server: ServerConfig::default(),
            web: WebConfig::default(),
            jobs: JobsConfig::default(),
            default_agent: default_agent_id(),
            agents: AgentsConfig::new(),
            config_dir: None,
        }
    }

    /// The current application version.
    pub fn app_version() -> (r: String)
        ensures r@ == app_version_spec(),
    {
        String::from_str("0.3.0")
    }

    /// `None` when the configuration has no version, else whether it matches the app version.
    pub fn is_version_current(&self) -> (r: Option<bool>)
        ensures
            r == match self.version {
                Some(v) => Some(v@ == app_version_spec()),
                None => None::<bool>,
            },
    {
        match &self.version {
            Some(v) => Some(str_eq(v.as_str(), "0.3.0")),
            None => None,
        }
    }

    /// A warning when the configuration file's version is missing or outdated.
    pub fn version_warning(&self) -> (r: Option<String>)
        ensures
            opt_chars(r) == version_warning_text(self.version),
    {
        match self.is_version_current() {
            Some(false) => {
                let mut w = String::from_str("⚠️  Warning: Config file version (");
                match &self.version {
                    Some(v) => w.append(v.as_str()),
                    None => {},
                }
                w.append(") doesn't match app version (");
                let av = Config::app_version();
                w.append(av.as_str());
                w.append("). Consider running 'squid init' to update.");
                Some(w)
            },
            None => {
                let mut w = String::from_str(
                    "⚠️  Warning: Config file has no version field (created with an older version). Consider running 'squid init' to update to version ",
                );
                let av = Config::app_version();
                w.append(av.as_str());
                w.append(".");
                Some(w)
            },
            Some(true) => None,
        }
    }

    /// The API key: the configured one, else the environment's, else `not-needed`.
    pub fn api_key_or(&self, env_api_key: Option<String>) -> (r: String)
        ensures
            r@ == match self.api_key {
                Some(k) => k@,
                None => match env_api_key {
                    Some(e) => e@,
                    None => "not-needed"@,
                },
            },
    {
        match &self.api_key {
            Some(k) => k.clone(),
            None => match env_api_key {
                Some(e) => e,
                None => String::from_str("not-needed"),
            },
        }
    }

    /// Applies environment overrides.
    pub fn apply_env_overrides(&mut self, e: EnvOverrides)
        ensures
            *final(self) == overridden(*old(self), e),
    {
        let EnvOverrides {
            api_url, api_key, context_window, log_level, db_log_level, database_path, working_dir,
            rag_enabled, embedding_model, embedding_url, chunk_size, chunk_overlap, top_k, documents_path,
            server_allow_network, web_sounds, plugins_load_bundled, jobs_enabled, max_concurrent_jobs,
            jobs_max_cpu_percent, jobs_default_retries,
        } = e;
        self.api_url = pick(api_url, self.api_url.clone());
        self.api_key = match api_key {
            Some(k) => Some(k),
            None => self.api_key.clone(),
        };
        self.context_window = pick(context_window, self.context_window);
        self.log_level = pick(log_level, self.log_level.clone());
        self.db_log_level = pick(db_log_level, self.db_log_level.clone());
        self.database_path = pick(database_path, self.database_path.clone());
        self.working_dir = pick(working_dir, self.working_dir.clone());
        self.rag.enabled = pick(rag_enabled, self.rag.enabled);
        self.rag.embedding_model = pick(embedding_model, self.rag.embedding_model.clone());
        self.rag.embedding_url = pick(embedding_url, self.rag.embedding_url.clone());
        self.rag.chunk_size = pick(chunk_size, self.rag.chunk_size);
        self.rag.chunk_overlap = pick(chunk_overlap, self.rag.chunk_overlap);
        self.rag.top_k = pick(top_k, self.rag.top_k);
        self.rag.documents_path = pick(documents_path, self.rag.documents_path.clone());
        self.server.allow_network = pick(server_allow_network, self.server.allow_network);
        self.web.sounds = pick(web_sounds, self.web.sounds);
        self.plugins.load_bundled = pick(plugins_load_bundled, self.plugins.load_bundled);
        self.jobs.enabled = pick(jobs_enabled, self.jobs.enabled);
        self.jobs.max_concurrent_jobs = pick(max_concurrent_jobs, self.jobs.max_concurrent_jobs);
        self.jobs.max_cpu_percent = pick(jobs_max_cpu_percent, self.jobs.max_cpu_percent);
        self.jobs.default_retries = pick(jobs_default_retries, self.jobs.default_retries);
    }

    /// The configuration the application runs with: the parsed file (its database path
    /// resolved against the file's directory) or the defaults, then the environment
    /// overrides, then the directory of the configuration file.
    pub fn load_from(file: Option<Config>, config_dir: Option<String>, env: EnvOverrides) -> (c: Config)
        ensures
            c.config_dir == config_dir,
            file is Some ==> agrees_except_paths(c, overridden(file->0, env)),
            file is Some ==> c.database_path@ == loaded_database_path(file->0, config_dir, env),
            file is None ==> (exists|d: Config| is_default_config(d) && agrees_except_dir(c, overridden(d, env))),
    {
        let mut c = match file {
            Some(mut f) => {
                if !is_absolute_str(f.database_path.as_str()) {
                    let dir = match &config_dir {
                        Some(d) => d.clone(),
                        None => String::new(),
                    };
                    f.database_path = join_path(dir.as_str(), f.database_path.as_str());
                }
                f
            },
            None => Config::default(),
        };
        c.apply_env_overrides(env);
        c.config_dir = config_dir;
        c
    }
}

impl Config {
    /// The agent with the given id.
    pub fn get_agent(&self, agent_id: &str) -> (r: Option<&AgentConfig>)
        ensures
            match agent_lookup(self.agents.agents@, agent_id@) {
                Some(a) => r matches Some(x) && *x == a,
                None => r is None,
            },
    {
        proof { lemma_agent_index(self.agents.agents@, agent_id@); }
        match self.agents.index_of(agent_id) {
            Some(i) => Some(&self.agents.agents[i].1),
            None => None,
        }
    }

    /// The permissions of the agent with the given id.
    pub fn get_agent_permissions(&self, agent_id: &str) -> (r: Option<&AgentPermissions>)
        ensures
            match agent_lookup(self.agents.agents@, agent_id@) {
                Some(a) => r matches Some(p) && *p == a.permissions,
                None => r is None,
            },
    {
        match self.get_agent(agent_id) {
            Some(a) => Some(&a.permissions),
            None => None,
        }
    }

    /// The default agent (named by the loaded agents table).
    pub fn get_default_agent(&self) -> (r: Option<&AgentConfig>)
        ensures
            match agent_lookup(self.agents.agents@, self.agents.default_agent@) {
                Some(a) => r matches Some(x) && *x == a,
                None => r is None,
            },
    {
        self.get_agent(self.agents.default_agent.as_str())
    }

    /// Adds a tool to an agent's allow list (in memory only); already allowed tools
    /// are not added twice.
    pub fn allow_tool_for_agent(&mut self, agent_id: &str, tool_name: &str) -> (r: Result<(), String>)
        ensures
            match agent_index(old(self).agents.agents@, agent_id@) {
                None => r matches Err(m) && m@ == agent_not_found_message(agent_id@)
                    && *final(self) == *old(self),
                Some(i) => r is Ok && permissions_updated(*old(self), *final(self), i,
                    allow_list_after_allow_view(old(self).agents.agents@[i].1.permissions.allow@, tool_name@)),
            },
    {
        proof { lemma_agent_index(self.agents.agents@, agent_id@); }
        match self.agents.index_of(agent_id) {
            None => Err(agent_not_found(agent_id)),
            Some(i) => {
                let ghost old_agents = self.agents.agents@;
                let mut entry = self.agents.agents.remove(i);
                let ghost old_allow = entry.1.permissions.allow@;
                if !vec_has_string(&entry.1.permissions.allow, tool_name) {
                    entry.1.permissions.allow.push(String::from_str(tool_name));
                    assert(views_of(entry.1.permissions.allow@) =~= views_of(old_allow).push(tool_name@));
                }
                self.agents.agents.insert(i, entry);
                assert(self.agents.agents@ =~= old_agents.update(i as int, entry));
                Ok(())
            },
        }
    }

    /// Removes a tool from an agent's allow list (in memory only).
    pub fn deny_tool_for_agent(&mut self, agent_id: &str, tool_name: &str) -> (r: Result<(), String>)
        ensures
            match agent_index(old(self).agents.agents@, agent_id@) {
                None => r matches Err(m) && m@ == agent_not_found_message(agent_id@)
                    && *final(self) == *old(self),
                Some(i) => r is Ok && permissions_updated(*old(self), *final(self), i,
                    views_of(allow_list_after_deny(old(self).agents.agents@[i].1.permissions.allow@, tool_name@))),
            },
    {
        proof { lemma_agent_index(self.agents.agents@, agent_id@); }
        match self.agents.index_of(agent_id) {
            None => Err(agent_not_found(agent_id)),
            Some(i) => {
                let ghost old_agents = self.agents.agents@;
                let mut entry = self.agents.agents.remove(i);
                let kept = without_string(&entry.1.permissions.allow, tool_name);
                entry.1.permissions.allow = kept;
                self.agents.agents.insert(i, entry);
                assert(self.agents.agents@ =~= old_agents.update(i as int, entry));
                Ok(())
            },
        }
    }
}

/// The spelled tool names of an allow list.
pub open spec fn views_of(list: Seq<String>) -> Seq<Seq<char>> {
    list.map_values(|t: String| t@)
}

/// The spelled allow list after allowing `tool`.
pub open spec fn allow_list_after_allow_view(list: Seq<String>, tool: Seq<char>) -> Seq<Seq<char>> {
    if has_string(list, tool) {
        views_of(list)
    } else {
        views_of(list).push(tool)
    }
}

/// `new` is `old` with only entry `i`'s allow list changed, now spelling `allow`.
pub open spec fn permissions_updated(old: Config, new: Config, i: int, allow: Seq<Seq<char>>) -> bool {
    &&& 0 <= i < old.agents.agents@.len()
    &&& new.agents.agents@.len() == old.agents.agents@.len()
    &&& new.agents.default_agent == old.agents.default_agent
    &&& agrees_except_agents(new, old)
    &&& forall|j: int| 0 <= j < old.agents.agents@.len() && j != i ==> new.agents.agents@[j] == old.agents.agents@[j]
    &&& new.agents.agents@[i].0 == old.agents.agents@[i].0
    &&& views_of(new.agents.agents@[i].1.permissions.allow@) == allow
    &&& new.agents.agents@[i].1 == (AgentConfig {
        permissions: new.agents.agents@[i].1.permissions,
        ..old.agents.agents@[i].1
    })
}

/// `a` and `b` agree on every field but the agents table.
pub open spec fn agrees_except_agents(a: Config, b: Config) -> bool {
    a == (Config { agents: a.agents, ..b })
}

/// `v` without the entries spelling `tool`, in order.
pub fn without_string(v: &Vec<String>, tool: &str) -> (r: Vec<String>)
    ensures
        views_of(r@) == views_of(allow_list_after_deny(v@, tool@)),
{
    let mut r: Vec<String> = Vec::new();
    let mut i: usize = 0;
    while i < v.len()
        invariant
            i <= v@.len(),
            views_of(r@) == views_of(allow_list_after_deny(v@.take(i as int), tool@)),
        decreases v@.len() - i,
    {
        proof {
            reveal_with_fuel(Seq::filter, 1);
            assert(v@.take(i + 1).drop_last() =~= v@.take(i as int));
        }
        assert(v@.take(i + 1).last() == v@[i as int]);
        if !str_eq(v[i].as_str(), tool) {
            let c = v[i].clone();
            let ghost before = r@;
            r.push(c);
            assert(allow_list_after_deny(v@.take(i + 1), tool@) == allow_list_after_deny(v@.take(i as int), tool@).push(v@[i as int]));
            assert(views_of(r@) =~= views_of(before).push(c@));
            assert(views_of(allow_list_after_deny(v@.take(i as int), tool@).push(v@[i as int])) =~= views_of(allow_list_after_deny(v@.take(i as int), tool@)).push(v@[i as int]@));
            assert(views_of(r@) =~= views_of(allow_list_after_deny(v@.take(i + 1), tool@)));
        } else {
            assert(views_of(r@) =~= views_of(allow_list_after_deny(v@.take(i + 1), tool@)));
        }
        i = i + 1;
    }
    assert(v@.take(v@.len() as int) =~= v@);
    r
}

/// Allowing a tool makes it allowed for that agent.
pub proof fn law_allow_grants(list: Seq<String>, tool: Seq<char>)
    ensures
        allow_list_after_allow_view(list, tool).contains(tool),
{
    if has_string(list, tool) {
        let k = choose|k: int| 0 <= k < list.len() && #[trigger] list[k]@ == tool;
        assert(views_of(list)[k] == tool);
    } else {
        assert(allow_list_after_allow_view(list, tool).last() == tool);
    }
}

/// Allowing a tool twice leaves the same list as allowing it once.
pub proof fn law_allow_idempotent(list: Seq<String>, extra: String, tool: Seq<char>)
    requires
        extra@ == tool,
    ensures
        allow_list_after_allow_view(allow_list_after_allow(list, extra), tool)
            == allow_list_after_allow_view(list, tool),
{
    if !has_string(list, tool) {
        let l2 = list.push(extra);
        assert(l2[list.len() as int]@ == tool);
        assert(has_string(l2, tool));
        assert(views_of(l2) =~= views_of(list).push(tool));
    }
}

/// Denying a tool removes every entry spelling it and keeps every other entry.
pub proof fn law_deny_revokes(list: Seq<String>, tool: Seq<char>)
    ensures
        forall|i: int| 0 <= i < allow_list_after_deny(list, tool).len()
            ==> #[trigger] allow_list_after_deny(list, tool)[i]@ != tool,
        forall|i: int| 0 <= i < list.len() && list[i]@ != tool
            ==> allow_list_after_deny(list, tool).contains(#[trigger] list[i]),
{
    let pred = keeps(tool);
    assert forall|i: int| 0 <= i < allow_list_after_deny(list, tool).len()
        implies #[trigger] allow_list_after_deny(list, tool)[i]@ != tool by {
        list.lemma_filter_pred(pred, i);
    }
    assert forall|i: int| 0 <= i < list.len() && list[i]@ != tool
        implies allow_list_after_deny(list, tool).contains(#[trigger] list[i]) by {
        list.lemma_filter_contains(pred, i);
    }
}

/// The environment variables the configuration reads, as they were found.
#[derive(Debug, Clone)]
pub struct RawEnv {
    /// `API_URL`
    pub api_url: Option<String>,
    /// `API_KEY`
    pub api_key: Option<String>,
    /// `SQUID_CONTEXT_WINDOW`
    pub context_window: Option<String>,
    /// `SQUID_LOG_LEVEL`
    pub log_level: Option<String>,
    /// `SQUID_DB_LOG_LEVEL`
    pub db_log_level: Option<String>,
    /// `SQUID_DATABASE_PATH`
    pub database_path: Option<String>,
    /// `SQUID_WORKING_DIR`
    pub working_dir: Option<String>,
    /// `SQUID_RAG_ENABLED`
    pub rag_enabled: Option<String>,
    /// `SQUID_EMBEDDING_MODEL`
    pub embedding_model: Option<String>,
    /// `SQUID_EMBEDDING_URL`
    pub embedding_url: Option<String>,
    /// `SQUID_RAG_CHUNK_SIZE`
    pub chunk_size: Option<String>,
    /// `SQUID_RAG_CHUNK_OVERLAP`
    pub chunk_overlap: Option<String>,
    /// `SQUID_RAG_TOP_K`
    pub top_k: Option<String>,
    /// `SQUID_RAG_DOCUMENTS_PATH`
    pub documents_path: Option<String>,
    /// `SQUID_SERVER_ALLOW_NETWORK`
    pub server_allow_network: Option<String>,
    /// `SQUID_WEB_SOUNDS`
    pub web_sounds: Option<String>,
    /// `SQUID_PLUGINS_LOAD_BUNDLED`
    pub plugins_load_bundled: Option<String>,
    /// `SQUID_JOBS_ENABLED`
    pub jobs_enabled: Option<String>,
    /// `SQUID_MAX_CONCURRENT_JOBS`
    pub max_concurrent_jobs: Option<String>,
    /// `SQUID_JOBS_MAX_CPU_PERCENT`
    pub jobs_max_cpu_percent: Option<String>,
    /// `SQUID_JOBS_DEFAULT_RETRIES`
    pub jobs_default_retries: Option<String>,
}

/// A variable read as a `u32`; unset or unparsable gives nothing.
pub open spec fn env_u32(o: Option<String>) -> Option<u32> {
    match o {
        Some(s) => match unsigned_value(s@) {
            Some(n) => if n <= u32::MAX { Some(n as u32) } else { None },
            None => None,
        },
        None => None,
    }
}

/// A variable read as a `usize`.
pub open spec fn env_usize(o: Option<String>) -> Option<usize> {
    match o {
        Some(s) => match unsigned_value(s@) {
            Some(n) => if n <= usize::MAX { Some(n as usize) } else { None },
            None => None,
        },
        None => None,
    }
}

/// A variable read as an `i32`.
pub open spec fn env_i32(o: Option<String>) -> Option<i32> {
    match o {
        Some(s) => match signed_value(s@) {
            Some(n) => if i32::MIN <= n <= i32::MAX { Some(n as i32) } else { None },
            None => None,
        },
        None => None,
    }
}

/// A variable read as a boolean (`true` or `false`).
pub open spec fn env_bool(o: Option<String>) -> Option<bool> {
    match o {
        Some(s) => if s@ == "true"@ { Some(true) } else if s@ == "false"@ { Some(false) } else { None },
        None => None,
    }
}

/// A variable that holds a plain decimal number overrides with that number when
/// it fits the field (`SQUID_RAG_CHUNK_SIZE=256` gives 256); `true` and `false`
/// override a switch; an unset variable overrides nothing.
pub proof fn law_env_values_parse(s: String)
    ensures
        (s@.len() > 0 && all_digits(s@) && digits_value(s@) <= usize::MAX) ==> env_usize(Some(s)) == Some(
            digits_value(s@) as usize),
        (s@.len() > 0 && all_digits(s@) && digits_value(s@) <= u32::MAX) ==> env_u32(Some(s)) == Some(
            digits_value(s@) as u32),
        (s@.len() > 0 && all_digits(s@) && digits_value(s@) <= i32::MAX) ==> env_i32(Some(s)) == Some(
            digits_value(s@) as i32),
        s@ == "true"@ ==> env_bool(Some(s)) == Some(true),
        s@ == "false"@ ==> env_bool(Some(s)) == Some(false),
        env_usize(None) is None && env_u32(None) is None && env_i32(None) is None && env_bool(None) is None,
{
    if s@.len() > 0 && all_digits(s@) {
        assert(s@[0] != '+' && s@[0] != '-');
    }
    reveal_strlit("true");
    reveal_strlit("false");
    if s@ == "false"@ {
        assert(s@.len() == 5);
    }
}

fn read_u32(o: &Option<String>) -> (r: Option<u32>)
    ensures
        r == env_u32(*o),
{
    match o {
        Some(s) => parse_u32(s.as_str()),
        None => None,
    }
}

fn read_usize(o: &Option<String>) -> (r: Option<usize>)
    ensures
        r == env_usize(*o),
{
    match o {
        Some(s) => match parse_unsigned(s.as_str(), usize::MAX as u64) {
            Some(n) => Some(n as usize),
            None => None,
        },
        None => None,
    }
}

fn read_i32(o: &Option<String>) -> (r: Option<i32>)
    ensures
        r == env_i32(*o),
{
    match o {
        Some(s) => parse_i32(s.as_str()),
        None => None,
    }
}

fn read_bool(o: &Option<String>) -> (r: Option<bool>)
    ensures
        r == env_bool(*o),
{
    match o {
        Some(s) => parse_bool(s.as_str()),
        None => None,
    }
}

/// The overrides the environment asks for: text variables as they are, numbers
/// and booleans when they parse (a value that does not parse is ignored).
pub fn env_overrides(raw: RawEnv) -> (e: EnvOverrides)
    ensures
        e.api_url == raw.api_url,
        e.api_key == raw.api_key,
        e.context_window == env_u32(raw.context_window),
        e.log_level == raw.log_level,
        e.db_log_level == raw.db_log_level,
        e.database_path == raw.database_path,
        e.working_dir == raw.working_dir,
        e.rag_enabled == env_bool(raw.rag_enabled),
        e.embedding_model == raw.embedding_model,
        e.embedding_url == raw.embedding_url,
        e.chunk_size == env_usize(raw.chunk_size),
        e.chunk_overlap == env_usize(raw.chunk_overlap),
        e.top_k == env_usize(raw.top_k),
        e.documents_path == raw.documents_path,
        e.server_allow_network == env_bool(raw.server_allow_network),
        e.web_sounds == env_bool(raw.web_sounds),
        e.plugins_load_bundled == env_bool(raw.plugins_load_bundled),
        e.jobs_enabled == env_bool(raw.jobs_enabled),
        e.max_concurrent_jobs == env_usize(raw.max_concurrent_jobs),
        e.jobs_max_cpu_percent == env_i32(raw.jobs_max_cpu_percent),
        e.jobs_default_retries == env_i32(raw.jobs_default_retries),
{
    let context_window = read_u32(&raw.context_window);
    let rag_enabled = read_bool(&raw.rag_enabled);
    let chunk_size = read_usize(&raw.chunk_size);
    let chunk_overlap = read_usize(&raw.chunk_overlap);
    let top_k = read_usize(&raw.top_k);
    let server_allow_network = read_bool(&raw.server_allow_network);
    let web_sounds = read_bool(&raw.web_sounds);
    let plugins_load_bundled = read_bool(&raw.plugins_load_bundled);
    let jobs_enabled = read_bool(&raw.jobs_enabled);
    let max_concurrent_jobs = read_usize(&raw.max_concurrent_jobs);
    let jobs_max_cpu_percent = read_i32(&raw.jobs_max_cpu_percent);
    let jobs_default_retries = read_i32(&raw.jobs_default_retries);
    EnvOverrides {
        api_url: raw.api_url,
        api_key: raw.api_key,
        context_window,
        log_level: raw.log_level,
        db_log_level: raw.db_log_level,
        database_path: raw.database_path,
        working_dir: raw.working_dir,
        rag_enabled,
        embedding_model: raw.embedding_model,
        embedding_url: raw.embedding_url,
        chunk_size,
        chunk_overlap,
        top_k,
        documents_path: raw.documents_path,
        server_allow_network,
        web_sounds,
        plugins_load_bundled,
        jobs_enabled,
        max_concurrent_jobs,
        jobs_max_cpu_percent,
        jobs_default_retries,
    }
}

} // verus!
