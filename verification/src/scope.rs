//! The MCP authorisation scope as the settings panel edits it.
//!
//! The panel sends the groups and tags the assistant may reach, the asset ids
//! it may not, and whether it may touch local files. Each list is cleaned
//! (entries trimmed, blank ones dropped, repeats dropped); `deny_all`, the
//! state a damaged scope file converges to, is never set from the panel.
use vstd::prelude::*;

use crate::sync_plan::{distinct, ids_view};
use crate::text::{chars_of, same_text, string_of, trim, trim_chars};

verus! {

/// What the assistant may reach.
#[derive(Debug, Clone)]
pub struct McpScope {
    pub allowed_groups: Vec<String>,
    pub allowed_tags: Vec<String>,
    pub denied_asset_ids: Vec<String>,
    pub allow_local_fs: bool,
    pub deny_all: bool,
}

/// A list as the panel's input is cleaned: trimmed entries, non-empty, each
/// once, in the order first met.
pub open spec fn cleaned(s: Seq<Seq<char>>) -> Seq<Seq<char>>
    decreases s.len(),
{
    if s.len() == 0 {
        Seq::<Seq<char>>::empty()
    } else {
        let p = cleaned(s.drop_last());
        let t = trim(s.last());
        if t.len() > 0 && !p.contains(t) {
            p.push(t)
        } else {
            p
        }
    }
}

/// Law: a cleaned list holds each trimmed non-blank entry of the input once
/// and nothing else.
pub proof fn lemma_cleaned(s: Seq<Seq<char>>)
    ensures
        distinct(cleaned(s)),
        forall|x: Seq<char>|
            #![trigger cleaned(s).contains(x)]
            cleaned(s).contains(x) <==> (x.len() > 0 && exists|i: int| 0 <= i < s.len() && trim(#[trigger] s[i]) == x),
    decreases s.len(),
{
    if s.len() > 0 {
        let d = s.drop_last();
        lemma_cleaned(d);
        let p = cleaned(d);
        let t = trim(s.last());
        let r = cleaned(s);
        if t.len() > 0 && !p.contains(t) {
            assert(r == p.push(t));
            assert forall|i: int, j: int| 0 <= i < j < r.len() implies r[i] != r[j] by {
                if j == p.len() {
                    assert(r[i] == p[i]);
                    assert(p.contains(r[i]));
                } else {
                    assert(r[i] == p[i] && r[j] == p[j]);
                }
            }
        }
        assert forall|x: Seq<char>| #[trigger] r.contains(x) <==> (x.len() > 0 && exists|i: int|
            0 <= i < s.len() && trim(#[trigger] s[i]) == x) by {
            if r.contains(x) {
                let k = choose|k: int| 0 <= k < r.len() && r[k] == x;
                if k < p.len() {
                    assert(p[k] == x);
                    assert(p.contains(x));
                    let i = choose|i: int| 0 <= i < d.len() && trim(#[trigger] d[i]) == x;
                    assert(s[i] == d[i]);
                } else {
                    assert(trim(s[s.len() - 1]) == x);
                }
            }
            if x.len() > 0 && exists|i: int| 0 <= i < s.len() && trim(#[trigger] s[i]) == x {
                let i = choose|i: int| 0 <= i < s.len() && trim(#[trigger] s[i]) == x;
                if i < d.len() {
                    assert(d[i] == s[i]);
                    assert(p.contains(x));
                    let k = choose|k: int| 0 <= k < p.len() && p[k] == x;
                    assert(r[k] == x);
                } else if !p.contains(x) {
                    assert(r[p.len() as int] == x);
                } else {
                    let k = choose|k: int| 0 <= k < p.len() && p[k] == x;
                    assert(r[k] == x);
                }
            }
        }
    }
}

fn listed(v: &Vec<String>, x: &[char]) -> (r: bool)
    ensures
        r == ids_view(v@).contains(x@),
{
    let xs = string_of(x);
    let mut k: usize = 0;
    while k < v.len()
        invariant
            k <= v@.len(),
            xs@ == x@,
            forall|j: int| 0 <= j < k ==> v@[j]@ != x@,
        decreases v.len() - k,
    {
        if same_text(v[k].as_str(), xs.as_str()) {
            assert(ids_view(v@)[k as int] == x@);
            return true;
        }
        k += 1;
    }
    proof {
        if ids_view(v@).contains(x@) {
            let j = choose|j: int| 0 <= j < ids_view(v@).len() && ids_view(v@)[j] == x@;
            assert(v@[j]@ == x@);
        }
    }
    false
}

/// Cleans one list of the scope (see `cleaned`).
pub fn clean_list(list: Vec<String>) -> (r: Vec<String>)
    ensures
        ids_view(r@) == cleaned(ids_view(list@)),
{
    let ghost src = ids_view(list@);
    let mut out: Vec<String> = Vec::new();
    let mut k: usize = 0;
    assert(ids_view(out@) =~= cleaned(src.take(0)));
    while k < list.len()
        invariant
            k <= list@.len(),
            src == ids_view(list@),
            ids_view(out@) == cleaned(src.take(k as int)),
        decreases list.len() - k,
    {
        let t = trim_chars(chars_of(list[k].as_str()).as_slice());
        proof {
            let w = src.take(k as int + 1);
            assert(w.drop_last() =~= src.take(k as int));
            assert(w.last() == list@[k as int]@);
        }
        if t.len() > 0 && !listed(&out, t.as_slice()) {
            let ghost before = ids_view(out@);
            out.push(string_of(t.as_slice()));
            assert(ids_view(out@) =~= before.push(t@));
        }
        k += 1;
    }
    assert(src.take(list@.len() as int) =~= src);
    out
}

/// The scope the panel asked for, cleaned; `deny_all` is always cleared.
pub fn cleaned_scope(scope: McpScope) -> (r: McpScope)
    ensures
        ids_view(r.allowed_groups@) == cleaned(ids_view(scope.allowed_groups@)),
        ids_view(r.allowed_tags@) == cleaned(ids_view(scope.allowed_tags@)),
        ids_view(r.denied_asset_ids@) == cleaned(ids_view(scope.denied_asset_ids@)),
        r.allow_local_fs == scope.allow_local_fs,
        !r.deny_all,
{
    McpScope {
        allowed_groups: clean_list(scope.allowed_groups),
        allowed_tags: clean_list(scope.allowed_tags),
        denied_asset_ids: clean_list(scope.denied_asset_ids),
        allow_local_fs: scope.allow_local_fs,
        deny_all: false,
    }
}

} // verus!
