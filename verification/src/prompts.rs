//! The diagnostic MCP prompts (`diagnose_server`, `audit_security`,
//! `cleanup_disk`) for one or several assets: the asset list argument (a JSON
//! array, a comma-separated list or one id), the per-asset or comparison
//! header, and the rule that a step that could not be queried is reported as
//! such and never read as "no problem".
use vstd::prelude::*;

use crate::text::{
    char_views, chars_of, decimal, join_with, push_all, push_decimal, push_str, same_text,
    split_chars, split_on, string_of, trim, trim_chars,
};

verus! {

/// A prompt as listed: its name, description and single argument.
pub struct PromptInfo {
    pub name: &'static str,
    pub description: &'static str,
    pub argument: &'static str,
}

/// The three prompts, in listing order.
pub fn list_prompts() -> (r: Vec<PromptInfo>)
    ensures
        r@.len() == 3,
        r@[0].name@ == "diagnose_server"@,
        r@[1].name@ == "audit_security"@,
        r@[2].name@ == "cleanup_disk"@,
        forall|i: int| 0 <= i < 3 ==> (#[trigger] r@[i]).argument@ == "asset_ids"@,
{
    let mut v: Vec<PromptInfo> = Vec::new();
    v.push(
        PromptInfo {
            name: "diagnose_server",
            description: "服务器健康诊断（支持多机对比）：依次检查磁盘/CPU/内存/关键服务状态，多机时输出对比表汇总异常项。",
            argument: "asset_ids",
        },
    );
    v.push(
        PromptInfo {
            name: "audit_security",
            description: "安全审计（支持多机）：检查最近登录记录、异常进程、开放端口。",
            argument: "asset_ids",
        },
    );
    v.push(
        PromptInfo {
            name: "cleanup_disk",
            description: "磁盘清理引导（支持多机）：查找大文件和旧日志，建议清理方案。",
            argument: "asset_ids",
        },
    );
    v
}

// ─── the asset list ───

pub open spec fn strings_view(v: Seq<String>) -> Seq<Seq<char>> {
    v.map_values(|s: String| s@)
}

/// What `serde_json::from_str::<Vec<String>>` gives for `s`: the strings of a
/// JSON array of strings, or nothing when `s` is not one.
pub uninterp spec fn json_string_list(s: Seq<char>) -> Option<Seq<Seq<char>>>;

/// `serde_json::from_str::<Vec<String>>(s).ok()`.
#[verifier::external_body]
fn parse_json_string_list(s: &str) -> (r: Option<Vec<String>>)
    ensures
        match json_string_list(s@) {
            Some(v) => r matches Some(x) && strings_view(x@) == v,
            None => r is None,
        },
{
    serde_json::from_str::<Vec<String>>(s).ok()
}

/// The trimmed, non-empty pieces, in order.
pub open spec fn kept_pieces(parts: Seq<Seq<char>>) -> Seq<Seq<char>>
    decreases parts.len(),
{
    if parts.len() == 0 {
        Seq::<Seq<char>>::empty()
    } else {
        let p = kept_pieces(parts.drop_last());
        let t = trim(parts.last());
        if t.len() > 0 {
            p.push(t)
        } else {
            p
        }
    }
}

/// The ids of a comma-separated list (blanks around ids and empty items
/// ignored).
pub open spec fn comma_ids(raw: Seq<char>) -> Seq<Seq<char>> {
    kept_pieces(split_on(raw, ','))
}

pub open spec fn missing_ids_text() -> Seq<char> {
    "缺少 asset_ids 参数（多资产：逗号分隔或 JSON 数组；单资产直接传 id）"@
}

pub open spec fn empty_ids_text() -> Seq<char> {
    "asset_ids 解析后为空（全空元素）"@
}

/// The text of the asset argument: `asset_ids` when given and not empty,
/// else the older single `asset_id`.
pub open spec fn raw_ids(asset_ids: Option<String>, asset_id: Option<String>) -> Seq<char> {
    match asset_ids {
        Some(s) => if s@.len() > 0 {
            s@
        } else {
            match asset_id {
                Some(t) => t@,
                None => Seq::empty(),
            }
        },
        None => match asset_id {
            Some(t) => t@,
            None => Seq::empty(),
        },
    }
}

/// The asset ids of the argument text `raw`, given what the JSON parse of it
/// gave: a JSON array of strings is taken as it is, anything else as a
/// comma-separated list.
pub open spec fn ids_result(raw: Seq<char>, parsed: Option<Seq<Seq<char>>>) -> Result<Seq<Seq<char>>, Seq<char>> {
    if raw.len() == 0 {
        Err(missing_ids_text())
    } else {
        let ids = match parsed {
            Some(v) => v,
            None => comma_ids(raw),
        };
        if ids.len() == 0 {
            Err(empty_ids_text())
        } else {
            Ok(ids)
        }
    }
}

fn comma_ids_exec(raw: &str) -> (r: Vec<String>)
    ensures
        strings_view(r@) == comma_ids(raw@),
{
    let chars = chars_of(raw);
    let parts = split_chars(chars.as_slice(), ',');
    let ghost ps = char_views(parts@);
    let mut out: Vec<String> = Vec::new();
    let mut k: usize = 0;
    while k < parts.len()
        invariant
            k <= parts@.len(),
            ps == char_views(parts@),
            ps == split_on(raw@, ','),
            strings_view(out@) == kept_pieces(ps.take(k as int)),
        decreases parts.len() - k,
    {
        let ghost before = out@;
        assert(ps.take(k + 1).drop_last() =~= ps.take(k as int));
        assert(ps.take(k + 1).last() == parts@[k as int]@);
        let t = trim_chars(parts[k].as_slice());
        if t.len() > 0 {
            out.push(string_of(t.as_slice()));
            assert(strings_view(out@) =~= strings_view(before).push(t@));
        }
        k += 1;
    }
    assert(ps.take(ps.len() as int) =~= ps);
    out
}

/// The ids given the argument text and what its JSON parse gave.
pub fn ids_from(raw: &str, parsed: Option<Vec<String>>) -> (r: Result<Vec<String>, String>)
    ensures
        match ids_result(
            raw@,
            match parsed {
                Some(v) => Some(strings_view(v@)),
                None => None,
            },
        ) {
            Ok(ids) => r matches Ok(v) && strings_view(v@) == ids,
            Err(e) => r matches Err(m) && m@ == e,
        },
{
    if raw.is_empty() {
        return Err("缺少 asset_ids 参数（多资产：逗号分隔或 JSON 数组；单资产直接传 id）".to_owned());
    }
    let ids = match parsed {
        Some(v) => v,
        None => comma_ids_exec(raw),
    };
    if ids.len() == 0 {
        return Err("asset_ids 解析后为空（全空元素）".to_owned());
    }
    Ok(ids)
}

/// The asset ids of a prompt request: `asset_ids` as a JSON array of strings
/// or a comma-separated list, or the single `asset_id` of the older form.
pub fn parse_asset_ids(asset_ids: Option<String>, asset_id: Option<String>) -> (r: Result<
    Vec<String>,
    String,
>)
    ensures
        match ids_result(
            raw_ids(asset_ids, asset_id),
            if raw_ids(asset_ids, asset_id).len() == 0 {
                None
            } else {
                json_string_list(raw_ids(asset_ids, asset_id))
            },
        ) {
            Ok(ids) => r matches Ok(v) && strings_view(v@) == ids,
            Err(e) => r matches Err(m) && m@ == e,
        },
{
    let raw: String = match asset_ids {
        Some(s) => if s.as_str().is_empty() {
            match asset_id {
                Some(t) => t,
                None => String::new(),
            }
        } else {
            s
        },
        None => match asset_id {
            Some(t) => t,
            None => String::new(),
        },
    };
    if raw.as_str().is_empty() {
        return ids_from(raw.as_str(), None);
    }
    let parsed = parse_json_string_list(raw.as_str());
    ids_from(raw.as_str(), parsed)
}

// ─── texts ───

/// The header: one asset, or the comparison over several.
pub open spec fn header_text(ids: Seq<Seq<char>>) -> Seq<char> {
    if ids.len() == 1 {
        "请对资产 "@ + ids[0] + " "@
    } else {
        "请对 "@ + decimal(ids.len()) + " 台资产（"@ + join_with(ids, "、"@) + "）**逐台**执行以下检查，最后输出**多机对比表**（行=检查项，列=资产，单元格=值/异常标记），突出偏离基线的资产：\n\n"@
    }
}

pub fn multi_asset_header(ids: &Vec<String>) -> (r: String)
    ensures
        r@ == header_text(strings_view(ids@)),
{
    let ghost vs = strings_view(ids@);
    if ids.len() == 1 {
        let mut v = chars_of("请对资产 ");
        push_str(&mut v, ids[0].as_str());
        push_str(&mut v, " ");
        assert(v@ =~= header_text(vs));
        return string_of(v.as_slice());
    }
    let mut v = chars_of("请对 ");
    push_decimal(&mut v, ids.len() as u128);
    push_str(&mut v, " 台资产（");
    let ghost start = v@;
    let mut k: usize = 0;
    assert(vs.take(0) =~= Seq::<Seq<char>>::empty());
    while k < ids.len()
        invariant
            k <= ids@.len(),
            vs == strings_view(ids@),
            v@ == start + join_with(vs.take(k as int), "、"@),
        decreases ids.len() - k,
    {
        let ghost before = v@;
        if k > 0 {
            push_str(&mut v, "、");
        }
        push_str(&mut v, ids[k].as_str());
        proof {
            let t = vs.take(k + 1);
            assert(t.drop_last() =~= vs.take(k as int));
            assert(t.last() == ids@[k as int]@);
            if k == 0 {
                assert(v@ =~= start + join_with(t, "、"@));
            } else {
                assert(v@ =~= start + join_with(t, "、"@));
            }
        }
        k += 1;
    }
    assert(vs.take(ids@.len() as int) =~= vs);
    push_str(&mut v, "）**逐台**执行以下检查，最后输出**多机对比表**（行=检查项，列=资产，单元格=值/异常标记），突出偏离基线的资产：\n\n");
    assert(v@ =~= header_text(vs));
    string_of(v.as_slice())
}

/// The rule that closes every prompt: a failed step is reported as "no data
/// for this step" and never read as "no problem".
pub open spec fn note_text() -> Seq<char> {
    "**任何一台的任何一步命令失败或工具不可用时，必须在该台的结论中如实标注「该步未取得数据」，不得据此判定该台无异常，也不得因一台失败跳过其他台的同一检查**——假阴性的结论比查不到更危险。"@
}

pub fn cannot_query_note() -> (r: &'static str)
    ensures
        r@ == note_text(),
{
    "**任何一台的任何一步命令失败或工具不可用时，必须在该台的结论中如实标注「该步未取得数据」，不得据此判定该台无异常，也不得因一台失败跳过其他台的同一检查**——假阴性的结论比查不到更危险。"
}

/// The steps of a prompt (the comparison clause only with several assets).
pub open spec fn body_text(name: Seq<char>, single: bool) -> Option<Seq<char>> {
    if name == "diagnose_server"@ {
        Some("依次执行以下步骤并汇总：\n\n1. 对每台资产调用 disk_usage 工具查看磁盘使用情况\n2. 对每台资产调用 system_status 工具查看 CPU/内存/负载/top 进程\n3. 对每台资产调用 service_status 工具检查关键服务状态（按各机用途选：nginx/mysql/docker 等）\n"@ + (if single {
            "4. 汇总结论：明确指出异常项（磁盘 >80%、负载过高、服务未运行），给出针对性建议"@
        } else {
            "4. 汇总结论：单机时明确指出异常项（磁盘 >80%、负载过高、服务未运行）；多机时输出对比表并突出偏离基线的资产，给出针对性建议"@
        }) + "\n\n注意：只使用只读工具查询，不要执行任何修改操作。\n"@)
    } else if name == "audit_security"@ {
        Some("依次执行以下检查：\n\n1. 用 ssh_exec 执行 `last -20` 查看最近 20 次登录记录，留意异常 IP/时间\n2. 查看监听端口：优先用 port_listen 工具（ss → netstat → lsof 降级链已固化）；或用 ssh_exec 手动：Linux `ss -tlnp`；BSD/macOS `netstat -an -p tcp | head -30`。留意非预期端口\n3. 用 process_list 工具查看 CPU 占用最高的进程（POSIX 排序已固化）；或 ssh_exec 手动 `ps aux | sort -k3 -rn | head -10`\n"@ + (if single {
            "4. 汇总结论，标注可疑项（陌生登录 IP、异常监听端口、可疑进程）"@
        } else {
            "4. 汇总结论，标注可疑项（陌生登录 IP、异常监听端口、可疑进程）；多机时输出对比表，突出与其他机器模式不一致的资产"@
        }) + "\n\n注意：所有命令均为只读查询，ssh_exec 中只读命令会自动放行。\n"@)
    } else if name == "cleanup_disk"@ {
        Some("依次执行：\n\n1. 对每台资产调用 disk_usage 查看整体磁盘占用\n2. 用 file_search 工具查找 /var/log 下的大文件与旧日志（POSIX 形态已固化）；或 ssh_exec 手动：`du -sk /var/log/* 2>/dev/null | sort -rn | head -10`\n3. 用 file_search 查找 /tmp 下 7 天前的 10M+ 旧文件\n4. 汇总占用情况，给出清理建议（可安全清理的日志/临时文件），但**不要自动执行删除**——删除需用户确认；多机时按磁盘压力排序输出优先级\n\n注意：删除操作（rm）属于高危命令，会被审批拦截。仅提供分析建议。\n"@)
    } else {
        None
    }
}

pub open spec fn description_text(name: Seq<char>) -> Seq<char> {
    if name == "diagnose_server"@ {
        "服务器健康诊断"@
    } else if name == "audit_security"@ {
        "安全审计"@
    } else {
        "磁盘清理引导"@
    }
}

/// A generated prompt: its description and the user message.
#[derive(Debug)]
pub struct PromptText {
    pub description: String,
    pub text: String,
}

/// The prompt `name` for the asset ids `ids` (header, steps, closing rule).
pub open spec fn prompt_result(name: Seq<char>, ids: Seq<Seq<char>>) -> Result<(Seq<char>, Seq<char>), Seq<char>> {
    match body_text(name, ids.len() == 1) {
        Some(b) => Ok((description_text(name), header_text(ids) + b + note_text())),
        None => Err("未知 prompt: "@ + name),
    }
}

/// The prompt `name` for already parsed ids.
pub fn prompt_for(name: &str, ids: &Vec<String>) -> (r: Result<PromptText, String>)
    ensures
        match prompt_result(name@, strings_view(ids@)) {
            Ok((d, t)) => r matches Ok(p) && p.description@ == d && p.text@ == t,
            Err(e) => r matches Err(m) && m@ == e,
        },
{
    proof {
        reveal_strlit("diagnose_server");
        reveal_strlit("audit_security");
        reveal_strlit("cleanup_disk");
    }
    let single = ids.len() == 1;
    let header = multi_asset_header(ids);
    let mut v = chars_of(header.as_str());
    let description: &str;
    if same_text(name, "diagnose_server") {
        description = "服务器健康诊断";
        push_str(&mut v, "依次执行以下步骤并汇总：\n\n1. 对每台资产调用 disk_usage 工具查看磁盘使用情况\n2. 对每台资产调用 system_status 工具查看 CPU/内存/负载/top 进程\n3. 对每台资产调用 service_status 工具检查关键服务状态（按各机用途选：nginx/mysql/docker 等）\n");
        push_str(&mut v, if single {
            "4. 汇总结论：明确指出异常项（磁盘 >80%、负载过高、服务未运行），给出针对性建议"
        } else {
            "4. 汇总结论：单机时明确指出异常项（磁盘 >80%、负载过高、服务未运行）；多机时输出对比表并突出偏离基线的资产，给出针对性建议"
        });
        push_str(&mut v, "\n\n注意：只使用只读工具查询，不要执行任何修改操作。\n");
    } else if same_text(name, "audit_security") {
        description = "安全审计";
        push_str(&mut v, "依次执行以下检查：\n\n1. 用 ssh_exec 执行 `last -20` 查看最近 20 次登录记录，留意异常 IP/时间\n2. 查看监听端口：优先用 port_listen 工具（ss → netstat → lsof 降级链已固化）；或用 ssh_exec 手动：Linux `ss -tlnp`；BSD/macOS `netstat -an -p tcp | head -30`。留意非预期端口\n3. 用 process_list 工具查看 CPU 占用最高的进程（POSIX 排序已固化）；或 ssh_exec 手动 `ps aux | sort -k3 -rn | head -10`\n");
        push_str(&mut v, if single {
            "4. 汇总结论，标注可疑项（陌生登录 IP、异常监听端口、可疑进程）"
        } else {
            "4. 汇总结论，标注可疑项（陌生登录 IP、异常监听端口、可疑进程）；多机时输出对比表，突出与其他机器模式不一致的资产"
        });
        push_str(&mut v, "\n\n注意：所有命令均为只读查询，ssh_exec 中只读命令会自动放行。\n");
    } else if same_text(name, "cleanup_disk") {
        description = "磁盘清理引导";
        push_str(&mut v, "依次执行：\n\n1. 对每台资产调用 disk_usage 查看整体磁盘占用\n2. 用 file_search 工具查找 /var/log 下的大文件与旧日志（POSIX 形态已固化）；或 ssh_exec 手动：`du -sk /var/log/* 2>/dev/null | sort -rn | head -10`\n3. 用 file_search 查找 /tmp 下 7 天前的 10M+ 旧文件\n4. 汇总占用情况，给出清理建议（可安全清理的日志/临时文件），但**不要自动执行删除**——删除需用户确认；多机时按磁盘压力排序输出优先级\n\n注意：删除操作（rm）属于高危命令，会被审批拦截。仅提供分析建议。\n");
    } else {
        let mut m = chars_of("未知 prompt: ");
        push_str(&mut m, name);
        return Err(string_of(m.as_slice()));
    }
    push_str(&mut v, cannot_query_note());
    Ok(PromptText { description: description.to_owned(), text: string_of(v.as_slice()) })
}

/// A prompt request: the ids are read first (a missing list is an error
/// whatever the name), then the prompt is generated.
pub fn get_prompt(name: &str, asset_ids: Option<String>, asset_id: Option<String>) -> (r: Result<
    PromptText,
    String,
>)
    ensures
        match ids_result(
            raw_ids(asset_ids, asset_id),
            if raw_ids(asset_ids, asset_id).len() == 0 {
                None
            } else {
                json_string_list(raw_ids(asset_ids, asset_id))
            },
        ) {
            Ok(ids) => match prompt_result(name@, ids) {
                Ok((d, t)) => r matches Ok(p) && p.description@ == d && p.text@ == t,
                Err(e) => r matches Err(m) && m@ == e,
            },
            Err(e) => r matches Err(m) && m@ == e,
        },
{
    let ids = parse_asset_ids(asset_ids, asset_id)?;
    prompt_for(name, &ids)
}

/// The text of a generated prompt (empty for an unknown name).
pub open spec fn prompt_text_of(name: Seq<char>, ids: Seq<Seq<char>>) -> Seq<char> {
    match prompt_result(name, ids) {
        Ok((_, t)) => t,
        Err(_) => Seq::empty(),
    }
}

/// Law: every prompt ends with the rule that an unqueried step is reported as
/// missing data, whatever the assets.
pub proof fn lemma_prompts_keep_discipline(name: Seq<char>, ids: Seq<Seq<char>>)
    requires
        prompt_result(name, ids) is Ok,
    ensures
        crate::text::has_suffix(prompt_text_of(name, ids), note_text()),
{
    let t = prompt_text_of(name, ids);
    assert(t.skip(t.len() - note_text().len()) =~= note_text());
}

} // verus!
