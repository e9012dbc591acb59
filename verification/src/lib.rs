//! Verified core logic of the myshelltool SSH / MCP desktop client.
use vstd::prelude::*;

pub mod text;
pub mod file_policy;
pub mod execution_log;
pub mod config;
pub mod approval;
pub mod tools;
pub mod server;
pub mod job_store;
pub mod output_cache;
pub mod registry;
pub mod codec;
pub mod headless;
pub mod jump;
pub mod socks5;
pub mod auth;
pub mod transfer;
pub mod editor;
pub mod probe;
pub mod endpoint;
pub mod pipe;
pub mod tool_text;
pub mod readonly_tools;
pub mod prompts;
pub mod session_pool;
pub mod ssh_import;
pub mod remote_entry;
pub mod sync_plan;
pub mod scope;
pub mod resources;
pub mod monitor;
pub mod sftp_rules;
pub mod agent;
pub mod tunnels;
pub mod ssh_session;
pub mod status;
pub mod gist;
pub mod session_key;
pub mod digest;

verus! {

} // verus!
