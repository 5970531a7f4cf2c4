//! The environment context given to the model: which facts about the machine
//! are shared, and how they are written.

use vstd::prelude::*;
use crate::text::{append_i64, has_prefix, signed_decimal};

verus! {

/// Which sensitive facts the environment context includes.
#[derive(Debug, Clone, Copy, PartialEq, Eq, Structural)]
pub struct EnvContextConfig {
    /// The host name (may reveal computer or organisation names).
    pub include_hostname: bool,
    /// The working directory (may reveal the user name and project paths).
    pub include_working_dir: bool,
    /// Show the working directory relative to the home directory (`~`).
    pub sanitize_paths: bool,
}

impl EnvContextConfig {
    /// Private by default: no host name, no working directory, paths sanitized.
    pub fn default() -> (c: Self)
        ensures
            c == (EnvContextConfig { include_hostname: false, include_working_dir: false, sanitize_paths: true }),
    {
        EnvContextConfig { include_hostname: false, include_working_dir: false, sanitize_paths: true }
    }
}

/// What was observed about the machine when the context is made.
#[derive(Debug, Clone)]
pub struct EnvSnapshot {
    pub os_name: Option<String>,
    pub os_version: Option<String>,
    pub kernel_version: Option<String>,
    /// The brand of the first CPU, if any.
    pub cpu_brand: Option<String>,
    /// The platform, architecture and family the program was built for.
    pub platform: String,
    pub arch: String,
    pub family: String,
    pub hostname: Option<String>,
    pub working_dir: Option<String>,
    pub home: Option<String>,
    pub local_time: String,
    pub utc_time: String,
    pub timestamp: i64,
    pub timezone: String,
}

/// `path` with a leading home directory written as `~`.
pub open spec fn sanitized(path: Seq<char>, home: Option<Seq<char>>) -> Seq<char> {
    match home {
        Some(h) => if has_prefix(path, h) { seq!['~'] + path.skip(h.len() as int) } else { path },
        None => path,
    }
}

/// A path under the home directory is shown with `~` in place of it
/// (`/home/me` + `/src` shows as `~/src`); any other path is shown unchanged.
pub proof fn law_sanitized(h: Seq<char>, rest: Seq<char>, other: Seq<char>)
    ensures
        sanitized(h + rest, Some(h)) == seq!['~'] + rest,
        !has_prefix(other, h) ==> sanitized(other, Some(h)) == other,
        sanitized(other, None) == other,
{
    assert((h + rest).subrange(0, h.len() as int) =~= h);
    assert((h + rest).skip(h.len() as int) =~= rest);
}

/// Replaces a leading home directory by `~`.
pub fn sanitize_path(path: &str, home: Option<&str>) -> (r: String)
    ensures
        r@ == sanitized(path@, match home { Some(h) => Some(h@), None => None }),
{
    match home {
        Some(h) => {
            let p = crate::text::chars_of(path);
            let hv = crate::text::chars_of(h);
            if hv.len() <= p.len() && crate::text::occurs_at_exec(&p, &hv, 0) {
                let mut r = String::new();
                crate::text::push_char(&mut r, '~');
                let rest = crate::text::string_of_range(&p, hv.len(), p.len());
                r.append(rest.as_str());
                proof {
                    assert(p@.subrange(hv@.len() as int, p@.len() as int) =~= path@.skip(h@.len() as int));
                    assert(p@.subrange(0, hv@.len() as int) =~= hv@);
                }
                r
            } else {
                proof {
                    if has_prefix(path@, h@) {
                        assert(p@.subrange(0, (0 + hv@.len()) as int) =~= p@.subrange(0, hv@.len() as int));
                    }
                }
                String::from_str(path)
            }
        },
        None => String::from_str(path),
    }
}

/// An optional fact, or "unknown".
pub open spec fn or_unknown(o: Option<String>) -> Seq<char> {
    match o {
        Some(s) => s@,
        None => "unknown"@,
    }
}

/// The environment context for a snapshot.
pub open spec fn env_context(snap: EnvSnapshot, config: EnvContextConfig) -> Seq<char> {
    let cpu = match snap.cpu_brand {
        Some(b) => b@,
        None => snap.arch@,
    };
    let head = "Use the following environment context to answer the user's query:\n\n<env>\nOS: "@ + or_unknown(snap.os_name)
        + "\nOS Version: "@ + or_unknown(snap.os_version) + "\nKernel Version: "@ + or_unknown(snap.kernel_version)
        + "\nCPU Architecture: "@ + cpu + "\nPlatform: "@ + snap.platform@ + "\nArchitecture: "@ + snap.arch@
        + "\nFamily: "@ + snap.family@;
    let host = if config.include_hostname {
        match snap.hostname {
            Some(h) => "\nHostname: "@ + h@,
            None => Seq::empty(),
        }
    } else {
        Seq::empty()
    };
    let dir = if config.include_working_dir {
        match snap.working_dir {
            Some(d) => "\nWorking Directory: "@ + (if config.sanitize_paths {
                sanitized(d@, match snap.home { Some(h) => Some(h@), None => None })
            } else {
                d@
            }),
            None => Seq::empty(),
        }
    } else {
        Seq::empty()
    };
    head + host + dir + "\nLocal Time: "@ + snap.local_time@ + "\nUTC Time: "@ + snap.utc_time@ + "\nUnix Timestamp: "@
        + signed_decimal(snap.timestamp as int) + "\nTimezone: "@ + snap.timezone@ + "\n</env>"@
}

fn append_or_unknown(s: &mut String, o: &Option<String>)
    ensures
        final(s)@ == old(s)@ + or_unknown(*o),
{
    match o {
        Some(v) => s.append(v.as_str()),
        None => s.append("unknown"),
    }
}

/// Writes the environment context for a snapshot: system facts, then the host
/// name and working directory when the configuration includes them, then the time.
pub fn format_env_context(snap: &EnvSnapshot, config: &EnvContextConfig) -> (r: String)
    ensures
        r@ == env_context(*snap, *config),
{
    let mut c = String::from_str("Use the following environment context to answer the user's query:\n\n<env>\nOS: ");
    append_or_unknown(&mut c, &snap.os_name);
    c.append("\nOS Version: ");
    append_or_unknown(&mut c, &snap.os_version);
    c.append("\nKernel Version: ");
    append_or_unknown(&mut c, &snap.kernel_version);
    c.append("\nCPU Architecture: ");
    match &snap.cpu_brand {
        Some(b) => c.append(b.as_str()),
        None => c.append(snap.arch.as_str()),
    }
    c.append("\nPlatform: ");
    c.append(snap.platform.as_str());
    c.append("\nArchitecture: ");
    c.append(snap.arch.as_str());
    c.append("\nFamily: ");
    c.append(snap.family.as_str());
    if config.include_hostname {
        match &snap.hostname {
            Some(h) => {
                c.append("\nHostname: ");
                c.append(h.as_str());
            },
            None => {},
        }
    }
    if config.include_working_dir {
        match &snap.working_dir {
            Some(d) => {
                c.append("\nWorking Directory: ");
                if config.sanitize_paths {
                    let home = match &snap.home {
                        Some(h) => Some(h.as_str()),
                        None => None,
                    };
                    let shown = sanitize_path(d.as_str(), home);
                    c.append(shown.as_str());
                } else {
                    c.append(d.as_str());
                }
            },
            None => {},
        }
    }
    c.append("\nLocal Time: ");
    c.append(snap.local_time.as_str());
    c.append("\nUTC Time: ");
    c.append(snap.utc_time.as_str());
    c.append("\nUnix Timestamp: ");
    append_i64(&mut c, snap.timestamp);
    c.append("\nTimezone: ");
    c.append(snap.timezone.as_str());
    c.append("\n</env>");
    c
}

} // verus!
