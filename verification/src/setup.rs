//! The `init` command's decisions: defaults offered in the questions and the
//! configuration written from the answers.

use vstd::prelude::*;
use crate::config::{is_default_config, Config, RagConfig};
use crate::text::{has_suffix, str_eq};

verus! {

/// Where the cursor starts in the log-level list: at the current level, or at
/// `info` when the current level is not offered.
pub fn log_level_cursor(current: &str) -> (r: usize)
    ensures
        r == (if current@ == "error"@ {
            0usize
        } else if current@ == "warn"@ {
            1usize
        } else if current@ == "info"@ {
            2usize
        } else if current@ == "debug"@ {
            3usize
        } else if current@ == "trace"@ {
            4usize
        } else {
            2usize
        }),
{
    if str_eq(current, "error") {
        0
    } else if str_eq(current, "warn") {
        1
    } else if str_eq(current, "info") {
        2
    } else if str_eq(current, "debug") {
        3
    } else if str_eq(current, "trace") {
        4
    } else {
        2
    }
}

/// The embedding URL offered: the configured one when retrieval was already on,
/// else the API URL without a trailing `/v1`.
pub fn default_embedding_url(rag_was_enabled: bool, configured: &str, api_url: &str) -> (r: String)
    ensures
        r@ == (if rag_was_enabled {
            configured@
        } else if has_suffix(api_url@, "/v1"@) {
            api_url@.take(api_url@.len() - 3)
        } else {
            api_url@
        }),
{
    if rag_was_enabled {
        return String::from_str(configured);
    }
    let v = crate::text::chars_of(api_url);
    if crate::text::vec_ends_with_str(&v, "/v1") {
        proof {
            reveal_strlit("/v1");
        }
        let r = crate::text::string_of_range(&v, 0, v.len() - 3);
        assert(v@.subrange(0, v@.len() - 3) =~= api_url@.take(api_url@.len() - 3));
        r
    } else {
        String::from_str(api_url)
    }
}

/// The answers to the retrieval questions.
#[derive(Debug, Clone)]
pub struct RagAnswers {
    pub embedding_url: String,
    pub embedding_model: String,
    pub documents_path: String,
}

/// The retrieval settings written: the answers with the existing chunking
/// settings when retrieval is enabled, else the existing settings switched off.
pub fn rag_settings(previous: RagConfig, answers: Option<RagAnswers>) -> (r: RagConfig)
    ensures
        match answers {
            Some(a) => r == (RagConfig {
                enabled: true,
                embedding_url: a.embedding_url,
                embedding_model: a.embedding_model,
                documents_path: a.documents_path,
                ..previous
            }),
            None => r == (RagConfig { enabled: false, ..previous }),
        },
{
    match answers {
        Some(a) => RagConfig {
            enabled: true,
            embedding_url: a.embedding_url,
            embedding_model: a.embedding_model,
            documents_path: a.documents_path,
            chunk_size: previous.chunk_size,
            chunk_overlap: previous.chunk_overlap,
            top_k: previous.top_k,
        },
        None => RagConfig { enabled: false, ..previous },
    }
}

/// The configuration `init` writes: the answers, a 32768-token context window,
/// retrieval as chosen, the directory it was made in, and every other setting
/// at its default.
pub fn initial_config(api_url: String, api_key: Option<String>, log_level: String, rag: RagConfig, dir: String) -> (c: Config)
    ensures
        exists|d: Config|
            is_default_config(d) && c == (Config {
                api_url,
                api_key,
                context_window: 32768,
                log_level,
                rag,
                config_dir: Some(dir),
                ..d
            }),
{
    let d = Config::default();
    Config { api_url, api_key, context_window: 32768, log_level, rag, config_dir: Some(dir), ..d }
}

/// An API key answer: empty means none.
pub fn api_key_answer(answer: Option<String>) -> (r: Option<String>)
    ensures
        r == (match answer {
            Some(k) => if k@.len() == 0 { None } else { Some(k) },
            None => None,
        }),
{
    match answer {
        Some(k) => {
            if k.as_str().is_empty() {
                None
            } else {
                Some(k)
            }
        },
        None => None,
    }
}

} // verus!
