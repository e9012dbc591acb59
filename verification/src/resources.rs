//! MCP resources: the static list, which resource a URI names, which assets
//! the assets view shows under a restricted scope, and the known-hosts body.
//!
//! Loading the asset store and the files, judging each asset against the
//! scope, and writing the JSON are the caller's part.
use vstd::prelude::*;

use crate::text::{chars_of, push_str, string_of};

verus! {

/// A static resource: its URI and name.
#[derive(Debug, Clone, Copy)]
pub struct ResourceInfo {
    pub uri: &'static str,
    pub name: &'static str,
}

/// The four static resources (there are no resource templates).
pub fn list_resources() -> (r: Vec<ResourceInfo>)
    ensures
        r@.len() == 4,
        r@[0].uri@ == "myshelltool://assets"@ && r@[0].name@ == "assets"@,
        r@[1].uri@ == "myshelltool://sessions"@ && r@[1].name@ == "sessions"@,
        r@[2].uri@ == "myshelltool://known-hosts"@ && r@[2].name@ == "known-hosts"@,
        r@[3].uri@ == "myshelltool://mcp/scope"@ && r@[3].name@ == "mcp-scope"@,
{
    vec![
        ResourceInfo { uri: "myshelltool://assets", name: "assets" },
        ResourceInfo { uri: "myshelltool://sessions", name: "sessions" },
        ResourceInfo { uri: "myshelltool://known-hosts", name: "known-hosts" },
        ResourceInfo { uri: "myshelltool://mcp/scope", name: "mcp-scope" },
    ]
}

/// Which resource a URI names.
#[derive(Debug, Clone, Copy, PartialEq, Eq, Structural)]
pub enum ResourceKind {
    Assets,
    Sessions,
    KnownHosts,
    Scope,
}

pub open spec fn resource_of(uri: Seq<char>) -> Option<ResourceKind> {
    if uri == "myshelltool://assets"@ {
        Some(ResourceKind::Assets)
    } else if uri == "myshelltool://sessions"@ {
        Some(ResourceKind::Sessions)
    } else if uri == "myshelltool://known-hosts"@ {
        Some(ResourceKind::KnownHosts)
    } else if uri == "myshelltool://mcp/scope"@ {
        Some(ResourceKind::Scope)
    } else {
        None
    }
}

/// The resource `uri` names; any other URI is an error naming it.
pub fn resource_kind(uri: &str) -> (r: Result<ResourceKind, String>)
    ensures
        match resource_of(uri@) {
            Some(k) => r == Ok::<ResourceKind, String>(k),
            None => r matches Err(e) && e@ == "未知资源 URI: "@ + uri@,
        },
{
    let c = chars_of(uri);
    let s = c.as_slice();
    if crate::text::eq_str(s, "myshelltool://assets") {
        Ok(ResourceKind::Assets)
    } else if crate::text::eq_str(s, "myshelltool://sessions") {
        Ok(ResourceKind::Sessions)
    } else if crate::text::eq_str(s, "myshelltool://known-hosts") {
        Ok(ResourceKind::KnownHosts)
    } else if crate::text::eq_str(s, "myshelltool://mcp/scope") {
        Ok(ResourceKind::Scope)
    } else {
        let mut v = chars_of("未知资源 URI: ");
        push_str(&mut v, uri);
        Err(string_of(v.as_slice()))
    }
}

/// The positions of the assets the assets view shows, in order: all of them,
/// or under a restricted scope those the scope allows.
pub open spec fn shown_positions(allowed: Seq<bool>, restricted: bool) -> Seq<usize>
    decreases allowed.len(),
{
    if allowed.len() == 0 {
        Seq::<usize>::empty()
    } else {
        let p = shown_positions(allowed.drop_last(), restricted);
        if !restricted || allowed.last() {
            p.push((allowed.len() - 1) as usize)
        } else {
            p
        }
    }
}

/// What the assets view shows: the positions of the visible assets and how
/// many the scope hid (reported only under a restricted scope).
#[derive(Debug)]
pub struct ScopeFilter {
    pub visible: Vec<usize>,
    pub hidden: usize,
}

/// Filters the assets (`allowed[i]`: the scope allows asset `i`).
pub fn scope_filter(allowed: &Vec<bool>, restricted: bool) -> (r: ScopeFilter)
    ensures
        r.visible@ == shown_positions(allowed@, restricted),
        r.visible@.len() + r.hidden == allowed@.len(),
        !restricted ==> r.hidden == 0,
{
    let mut visible: Vec<usize> = Vec::new();
    let mut hidden: usize = 0;
    let mut k: usize = 0;
    while k < allowed.len()
        invariant
            k <= allowed@.len(),
            visible@ == shown_positions(allowed@.take(k as int), restricted),
            visible@.len() + hidden == k,
            !restricted ==> hidden == 0,
        decreases allowed.len() - k,
    {
        proof {
            let t = allowed@.take(k as int + 1);
            assert(t.drop_last() =~= allowed@.take(k as int));
            assert(t.last() == allowed@[k as int]);
        }
        if restricted && !allowed[k] {
            hidden += 1;
        } else {
            visible.push(k);
        }
        k += 1;
    }
    assert(allowed@.take(allowed@.len() as int) =~= allowed@);
    ScopeFilter { visible, hidden }
}

pub open spec fn no_known_hosts_body() -> Seq<char> {
    "{\"hosts\": []}"@
}

/// The known-hosts resource body: the file's text, or an empty host list when
/// the file does not exist.
pub fn known_hosts_body(content: Option<String>) -> (r: String)
    ensures
        match content {
            Some(t) => r == t,
            None => r@ == no_known_hosts_body(),
        },
{
    match content {
        Some(t) => t,
        None => string_of(chars_of("{\"hosts\": []}").as_slice()),
    }
}

} // verus!
