use myshelltool::agent::{
    after_key, after_listing, after_pageant, after_pipe, no_pipe_channel, summarize,
    AgentAuthOutcome, ChannelResult,
};

#[test]
fn listing_and_key_steps() {
    assert!(matches!(after_listing(Ok(0)), Some(ChannelResult::NoKeys)));
    assert!(after_listing(Ok(2)).is_none());
    match after_listing(Err("early eof".into())) {
        Some(ChannelResult::Unavailable(m)) => assert_eq!(m, "无法列出密钥: early eof"),
        r => panic!("{r:?}"),
    }
    assert!(matches!(after_key(Ok(true)), Some(ChannelResult::Authenticated)));
    assert!(after_key(Ok(false)).is_none());
    match after_key(Err("io".into())) {
        Some(ChannelResult::Fatal(m)) => assert_eq!(m, "SSH agent 签名失败: io"),
        r => panic!("{r:?}"),
    }
}

#[test]
fn pipe_result_settles_only_success_and_fatal() {
    assert!(matches!(after_pipe(&ChannelResult::Authenticated), Some(AgentAuthOutcome::Authenticated)));
    assert!(matches!(after_pipe(&ChannelResult::Fatal("x".into())), Some(AgentAuthOutcome::Failed(m)) if m == "x"));
    assert!(after_pipe(&ChannelResult::NoKeys).is_none());
    assert!(after_pipe(&ChannelResult::AllRejected(1)).is_none());
}

#[test]
fn failure_names_each_channel() {
    let msg = summarize(&ChannelResult::AllRejected(1), &ChannelResult::Unavailable("无法列出密钥: early eof".into()));
    assert_eq!(
        msg,
        "SSH agent 认证失败：named pipe 通道的 1 个密钥均被服务器拒绝；Pageant 通道不可用（无法列出密钥: early eof）。请确认 agent 已加载对应私钥、服务器 authorized_keys 含其公钥（有密钥被拒：优先核对 authorized_keys 与 agent 加载的私钥是否匹配）"
    );
    let msg = summarize(&no_pipe_channel(), &ChannelResult::NoKeys);
    assert!(msg.contains("named pipe 通道不可用（非 Windows 无 named pipe 通道）"));
    assert!(msg.ends_with("含其公钥"));
    match after_pageant(&ChannelResult::NoKeys, ChannelResult::AllRejected(3)) {
        AgentAuthOutcome::Failed(m) => assert!(m.contains("Pageant 通道的 3 个密钥均被服务器拒绝")),
        _ => panic!("expected failure"),
    }
    assert!(matches!(after_pageant(&ChannelResult::NoKeys, ChannelResult::Authenticated), AgentAuthOutcome::Authenticated));
}
