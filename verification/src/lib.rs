//! Verified core of the squid assistant: configuration defaults, agent
//! permissions, path policy, plugin registry precedence, document chunking,
//! job scheduling decisions and text utilities.

pub mod examples;
pub mod text;
pub mod path;
pub mod llm;
pub mod agent;
pub mod config;
pub mod path_policy;
pub mod plugins;
pub mod rag;
pub mod chat;
pub mod jobs;
pub mod doctor;
pub mod logger;
pub mod api;
pub mod envinfo;
pub mod audio;
pub mod bundled;
pub mod setup;
pub mod schema;
