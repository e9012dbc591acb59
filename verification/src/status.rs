//! What the MCP panel shows in one query, and the approval request the GUI
//! dialog receives.
//!
//! The static capabilities (tools, resources, prompts) come from the same
//! declarations the protocol serves, so the panel can never disagree with
//! them; probing the endpoint is the caller's part.
use vstd::prelude::*;

use crate::approval::ElicitationInfo;
use crate::endpoint::{url_with_token, with_token, McpEndpoint};
use crate::probe::McpProbeResult;
use crate::prompts::list_prompts;
use crate::registry::{gui_tag_text, registry, registry_spec};
use crate::resources::list_resources;

verus! {

/// A tool as the panel lists it: `tag` is `readonly` or `dangerous`.
#[derive(Debug, Clone)]
pub struct McpToolInfo {
    pub name: String,
    pub description: String,
    pub tag: &'static str,
}

/// A resource as the panel lists it.
#[derive(Debug, Clone)]
pub struct McpResourceInfo {
    pub uri: String,
    pub name: String,
    pub is_template: bool,
}

/// A prompt as the panel lists it, with the names of its arguments.
#[derive(Debug, Clone)]
pub struct McpPromptInfo {
    pub name: String,
    pub description: String,
    pub arguments: Vec<String>,
}

/// The panel's aggregated status.
#[derive(Debug)]
pub struct McpStatus {
    pub server_name: &'static str,
    pub server_version: &'static str,
    /// The endpoint URL with its token (empty when no endpoint was written).
    pub endpoint: String,
    pub data_dir: String,
    pub probe: McpProbeResult,
    pub tools: Vec<McpToolInfo>,
    pub resources: Vec<McpResourceInfo>,
    pub prompts: Vec<McpPromptInfo>,
}

/// The endpoint URL the panel shows: the written endpoint's URL with the
/// current token, or empty when no endpoint was written.
pub fn status_endpoint(written: Option<McpEndpoint>, token: &str) -> (r: String)
    ensures
        match written {
            Some(e) => r@ == url_with_token(e.url@, token@),
            None => r@.len() == 0,
        },
{
    match written {
        Some(e) => with_token(e.url.as_str(), token),
        None => String::new(),
    }
}

/// The tools, in registry order, tagged by their risk.
pub fn tool_infos() -> (r: Vec<McpToolInfo>)
    ensures
        r@.len() == registry_spec().len(),
        forall|i: int|
            0 <= i < r@.len() ==> (#[trigger] r@[i]).name@ == registry_spec()[i].name@ && r@[i].description@
                == registry_spec()[i].description@ && r@[i].tag@ == gui_tag_text(registry_spec()[i].risk),
{
    let specs = registry();
    let mut out: Vec<McpToolInfo> = Vec::new();
    let mut k: usize = 0;
    while k < specs.len()
        invariant
            k <= specs@.len(),
            specs@ == registry_spec(),
            out@.len() == k,
            forall|i: int|
                0 <= i < k ==> (#[trigger] out@[i]).name@ == registry_spec()[i].name@ && out@[i].description@
                    == registry_spec()[i].description@ && out@[i].tag@ == gui_tag_text(registry_spec()[i].risk),
        decreases specs.len() - k,
    {
        let s = specs[k];
        out.push(
            McpToolInfo { name: s.name.to_owned(), description: s.description.to_owned(), tag: s.risk.gui_tag() },
        );
        k += 1;
    }
    out
}

/// The static resources (there are no templates).
pub fn resource_infos() -> (r: Vec<McpResourceInfo>)
    ensures
        r@.len() == 4,
        forall|i: int| 0 <= i < 4 ==> !(#[trigger] r@[i]).is_template,
        r@[0].uri@ == "myshelltool://assets"@,
        r@[1].uri@ == "myshelltool://sessions"@,
        r@[2].uri@ == "myshelltool://known-hosts"@,
        r@[3].uri@ == "myshelltool://mcp/scope"@,
{
    let list = list_resources();
    let mut out: Vec<McpResourceInfo> = Vec::new();
    let mut k: usize = 0;
    while k < list.len()
        invariant
            k <= list@.len(),
            list@.len() == 4,
            list@[0].uri@ == "myshelltool://assets"@,
            list@[1].uri@ == "myshelltool://sessions"@,
            list@[2].uri@ == "myshelltool://known-hosts"@,
            list@[3].uri@ == "myshelltool://mcp/scope"@,
            out@.len() == k,
            forall|i: int|
                0 <= i < k ==> (#[trigger] out@[i]).uri@ == list@[i].uri@ && out@[i].name@ == list@[i].name@
                    && !out@[i].is_template,
        decreases list.len() - k,
    {
        let r = list[k];
        out.push(McpResourceInfo { uri: r.uri.to_owned(), name: r.name.to_owned(), is_template: false });
        k += 1;
    }
    out
}

/// The prompts, each with its one argument.
pub fn prompt_infos() -> (r: Vec<McpPromptInfo>)
    ensures
        r@.len() == 3,
        r@[0].name@ == "diagnose_server"@,
        r@[1].name@ == "audit_security"@,
        r@[2].name@ == "cleanup_disk"@,
        forall|i: int|
            0 <= i < 3 ==> (#[trigger] r@[i]).arguments@.len() == 1 && r@[i].arguments@[0]@ == "asset_ids"@,
{
    let list = list_prompts();
    let mut out: Vec<McpPromptInfo> = Vec::new();
    let mut k: usize = 0;
    while k < list.len()
        invariant
            k <= list@.len(),
            list@.len() == 3,
            list@[0].name@ == "diagnose_server"@,
            list@[1].name@ == "audit_security"@,
            list@[2].name@ == "cleanup_disk"@,
            forall|i: int| 0 <= i < 3 ==> (#[trigger] list@[i]).argument@ == "asset_ids"@,
            out@.len() == k,
            forall|i: int|
                0 <= i < k ==> (#[trigger] out@[i]).name@ == list@[i].name@ && out@[i].arguments@.len() == 1
                    && out@[i].arguments@[0]@ == "asset_ids"@,
        decreases list.len() - k,
    {
        let p = &list[k];
        let args = vec![p.argument.to_owned()];
        out.push(McpPromptInfo { name: p.name.to_owned(), description: p.description.to_owned(), arguments: args });
        assert(list@[k as int].argument@ == "asset_ids"@);
        k += 1;
    }
    out
}

/// The panel's status for the endpoint shown, the data directory and the
/// probe result.
pub fn mcp_status_view(server_version: &'static str, endpoint: String, data_dir: String, probe: McpProbeResult) -> (r:
    McpStatus)
    ensures
        r.server_name@ == "myshelltool"@,
        r.server_version == server_version,
        r.endpoint == endpoint,
        r.data_dir == data_dir,
        r.probe == probe,
        r.tools@.len() == registry_spec().len(),
        r.resources@.len() == 4,
        r.prompts@.len() == 3,
{
    McpStatus {
        server_name: "myshelltool",
        server_version,
        endpoint,
        data_dir,
        probe,
        tools: tool_infos(),
        resources: resource_infos(),
        prompts: prompt_infos(),
    }
}

/// The request the GUI approval dialog receives.
#[derive(Debug, Clone)]
pub struct McpApprovalEvent {
    pub request_id: String,
    pub intent: String,
    pub command: String,
    pub consequence: String,
}

/// The dialog request for the confirmation `info` under `request_id` (the
/// dialog shows the real command, unredacted, so the user can judge it).
pub fn approval_event(request_id: String, info: &ElicitationInfo) -> (r: McpApprovalEvent)
    ensures
        r.request_id == request_id,
        r.intent == info.intent,
        r.command == info.command,
        r.consequence == info.consequence,
{
    McpApprovalEvent {
        request_id,
        intent: info.intent.clone(),
        command: info.command.clone(),
        consequence: info.consequence.clone(),
    }
}

} // verus!
