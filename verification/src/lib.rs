//! Verified core of an agent runtime: capability policy, sandboxed path checks,
//! key-value stores, sessions, prompts and slash commands.

pub mod agent;
pub mod cli_logic;
pub mod clock;
pub mod commands;
pub mod config;
pub mod context;
pub mod fs_host;
pub mod fs_lambda;
pub mod fs_tools;
pub mod http_policy;
pub mod kv;
pub mod lambda_setup;
pub mod lambda_loop;
pub mod laws;
pub mod manifest;
pub mod path;
pub mod plugin_manifest;
pub mod providers;
pub mod sandbox;
pub mod sdk;
pub mod session;
pub mod settings;
pub mod strmap;
pub mod text;
pub mod weixin;
