//! SSH agent authentication: the decisions between the agent and the server.
//!
//! Two agent channels are tried, the OpenSSH named pipe first and Pageant
//! second; on each, every key the agent lists is offered in turn. A channel
//! ends authenticated, with a fatal error (signing failed: no other channel is
//! tried), with all its keys rejected, with no keys, or unavailable. When
//! neither channel authenticates, the error names what each channel really
//! found, so that a rejected key is not reported as a missing agent.
//!
//! Connecting to the agent, listing its keys and the authentication attempts
//! are the caller's part; it hands each outcome to these functions.
use vstd::prelude::*;

use crate::text::{chars_of, decimal, push_decimal, push_str, string_of};

verus! {

/// What one agent channel came to.
#[derive(Debug)]
pub enum ChannelResult {
    Authenticated,
    /// A definite failure (signing failed); no other channel is tried.
    Fatal(String),
    /// The channel listed this many keys and the server rejected all of them.
    AllRejected(usize),
    /// The agent runs but holds no key.
    NoKeys,
    /// The channel could not be used (no connection, keys not listable).
    Unavailable(String),
}

/// The result of agent authentication.
#[derive(Debug)]
pub enum AgentAuthOutcome {
    Authenticated,
    Failed(String),
}

/// The channel's result after listing the agent's keys: `None` when there
/// are keys to try.
pub fn after_listing(listed: Result<usize, String>) -> (r: Option<ChannelResult>)
    ensures
        match listed {
            Err(e) => r matches Some(ChannelResult::Unavailable(m)) && m@ == "无法列出密钥: "@ + e@,
            Ok(n) => if n == 0 {
                r matches Some(ChannelResult::NoKeys)
            } else {
                r is None
            },
        },
{
    match listed {
        Err(e) => {
            let mut v = chars_of("无法列出密钥: ");
            push_str(&mut v, e.as_str());
            Some(ChannelResult::Unavailable(string_of(v.as_slice())))
        },
        Ok(n) => if n == 0 {
            Some(ChannelResult::NoKeys)
        } else {
            None
        },
    }
}

/// The channel's result after offering one key: `None` when the server
/// rejected it and the next key is to be tried.
pub fn after_key(attempt: Result<bool, String>) -> (r: Option<ChannelResult>)
    ensures
        match attempt {
            Ok(true) => r matches Some(ChannelResult::Authenticated),
            Ok(false) => r is None,
            Err(e) => r matches Some(ChannelResult::Fatal(m)) && m@ == "SSH agent 签名失败: "@ + e@,
        },
{
    match attempt {
        Ok(true) => Some(ChannelResult::Authenticated),
        Ok(false) => None,
        Err(e) => {
            let mut v = chars_of("SSH agent 签名失败: ");
            push_str(&mut v, e.as_str());
            Some(ChannelResult::Fatal(string_of(v.as_slice())))
        },
    }
}

/// What the named-pipe channel's result settles: authenticated or a fatal
/// failure end the authentication; anything else goes on to Pageant.
pub fn after_pipe(pipe: &ChannelResult) -> (r: Option<AgentAuthOutcome>)
    ensures
        match pipe {
            ChannelResult::Authenticated => r matches Some(AgentAuthOutcome::Authenticated),
            ChannelResult::Fatal(m) => r matches Some(AgentAuthOutcome::Failed(f)) && f == m,
            _ => r is None,
        },
{
    match pipe {
        ChannelResult::Authenticated => Some(AgentAuthOutcome::Authenticated),
        ChannelResult::Fatal(m) => Some(AgentAuthOutcome::Failed(m.clone())),
        _ => None,
    }
}

/// One channel's part of the failure message.
pub open spec fn channel_part(r: ChannelResult, name: Seq<char>) -> Seq<char> {
    match r {
        ChannelResult::AllRejected(n) => name + "的 "@ + decimal(n as nat) + " 个密钥均被服务器拒绝"@,
        ChannelResult::NoKeys => name + "在运行但未加载任何私钥"@,
        ChannelResult::Unavailable(e) => name + "不可用（"@ + e@ + "）"@,
        ChannelResult::Authenticated => name + "已认证"@,
        ChannelResult::Fatal(m) => name + "故障: "@ + m@,
    }
}

pub open spec fn failure_text(pipe: ChannelResult, pageant: ChannelResult) -> Seq<char> {
    "SSH agent 认证失败："@ + channel_part(pipe, "named pipe 通道"@) + "；"@ + channel_part(
        pageant,
        "Pageant 通道"@,
    ) + "。请确认 agent 已加载对应私钥、服务器 authorized_keys 含其公钥"@ + (if pipe is AllRejected
        || pageant is AllRejected {
        "（有密钥被拒：优先核对 authorized_keys 与 agent 加载的私钥是否匹配）"@
    } else {
        Seq::<char>::empty()
    })
}

fn push_part(v: &mut Vec<char>, r: &ChannelResult, name: &str)
    ensures
        final(v)@ == old(v)@ + channel_part(*r, name@),
{
    push_str(v, name);
    match r {
        ChannelResult::AllRejected(n) => {
            push_str(v, "的 ");
            push_decimal(v, *n as u128);
            push_str(v, " 个密钥均被服务器拒绝");
        },
        ChannelResult::NoKeys => push_str(v, "在运行但未加载任何私钥"),
        ChannelResult::Unavailable(e) => {
            push_str(v, "不可用（");
            push_str(v, e.as_str());
            push_str(v, "）");
        },
        ChannelResult::Authenticated => push_str(v, "已认证"),
        ChannelResult::Fatal(m) => {
            push_str(v, "故障: ");
            push_str(v, m.as_str());
        },
    }
}

/// The failure message naming each channel's real result; a rejected key
/// points the user at `authorized_keys`.
pub fn summarize(pipe: &ChannelResult, pageant: &ChannelResult) -> (r: String)
    ensures
        r@ == failure_text(*pipe, *pageant),
{
    let mut v = chars_of("SSH agent 认证失败：");
    push_part(&mut v, pipe, "named pipe 通道");
    push_str(&mut v, "；");
    push_part(&mut v, pageant, "Pageant 通道");
    push_str(&mut v, "。请确认 agent 已加载对应私钥、服务器 authorized_keys 含其公钥");
    let rejected = match pipe {
        ChannelResult::AllRejected(_) => true,
        _ => false,
    } || match pageant {
        ChannelResult::AllRejected(_) => true,
        _ => false,
    };
    if rejected {
        push_str(&mut v, "（有密钥被拒：优先核对 authorized_keys 与 agent 加载的私钥是否匹配）");
    } else {
        assert(v@ =~= v@ + Seq::<char>::empty());
    }
    string_of(v.as_slice())
}

/// The outcome once Pageant was tried after a pipe result that did not
/// settle it.
pub fn after_pageant(pipe: &ChannelResult, pageant: ChannelResult) -> (r: AgentAuthOutcome)
    ensures
        match pageant {
            ChannelResult::Authenticated => r is Authenticated,
            ChannelResult::Fatal(m) => r matches AgentAuthOutcome::Failed(f) && f == m,
            _ => r matches AgentAuthOutcome::Failed(f) && f@ == failure_text(*pipe, pageant),
        },
{
    match pageant {
        ChannelResult::Authenticated => AgentAuthOutcome::Authenticated,
        ChannelResult::Fatal(m) => AgentAuthOutcome::Failed(m),
        other => AgentAuthOutcome::Failed(summarize(pipe, &other)),
    }
}

/// Where there is no named pipe (not Windows), the pipe channel's result.
pub fn no_pipe_channel() -> (r: ChannelResult)
    ensures
        r matches ChannelResult::Unavailable(e) && e@ == "非 Windows 无 named pipe 通道"@,
{
    ChannelResult::Unavailable(string_of(chars_of("非 Windows 无 named pipe 通道").as_slice()))
}

} // verus!
