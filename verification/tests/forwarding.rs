use myshelltool::jump::{jump_host_of, parse_jump_host, parse_u16_exec};
use myshelltool::socks5::{bind_addr_matches, connect_reply, need_bytes, socks5_step, Socks5State, Socks5Step};

fn chars(s: &str) -> Vec<char> {
    s.chars().collect()
}

#[test]
fn jump_host_forms() {
    assert_eq!(parse_jump_host("bastion").unwrap(), ("bastion".to_string(), 22));
    assert_eq!(parse_jump_host("  bastion:2222 \n").unwrap(), ("bastion".to_string(), 2222));
    assert_eq!(parse_jump_host("10.0.0.1:+22").unwrap(), ("10.0.0.1".to_string(), 22));
}

#[test]
fn jump_host_errors() {
    assert_eq!(parse_jump_host("   ").unwrap_err(), "跳板主机标识为空");
    assert_eq!(
        parse_jump_host("root@bastion").unwrap_err(),
        "跳板主机标识 'root@bastion' 不支持 user@host / 路径形态（请填 host 或 host:port；跳板登录用户取资产库中该主机的资产）"
    );
    assert_eq!(parse_jump_host("h:abc").unwrap_err(), "跳板端口非法（'abc'，期望 1-65535）");
    assert_eq!(parse_jump_host("h:65536").unwrap_err(), "跳板端口非法（'65536'，期望 1-65535）");
    assert_eq!(parse_jump_host("h:").unwrap_err(), "跳板端口非法（''，期望 1-65535）");
    assert_eq!(parse_jump_host("h:0").unwrap_err(), "跳板端口不能为 0");
}

#[test]
fn port_parsing_is_u16_from_str() {
    assert_eq!(parse_u16_exec(&chars("65535")), Some(65535));
    assert_eq!(parse_u16_exec(&chars("+8")), Some(8));
    assert_eq!(parse_u16_exec(&chars("007")), Some(7));
    assert_eq!(parse_u16_exec(&chars("-1")), None);
    assert_eq!(parse_u16_exec(&chars("+")), None);
    assert_eq!(parse_u16_exec(&chars("1 2")), None);
}

#[test]
fn jump_setting_is_trimmed_and_blank_is_none() {
    assert_eq!(jump_host_of(&Some(" j:22 ".into())), Some("j:22".to_string()));
    assert_eq!(jump_host_of(&Some("  ".into())), None);
    assert_eq!(jump_host_of(&None), None);
}

fn run(state: Socks5State, input: &[u8]) -> Socks5Step {
    assert_eq!(need_bytes(&state), input.len());
    socks5_step(state, input)
}

fn read(step: Socks5Step) -> (Socks5State, Vec<u8>) {
    match step {
        Socks5Step::Read { next, reply } => (next, reply),
        _ => panic!("expected a read"),
    }
}

#[test]
fn socks5_domain_connect_handshake() {
    let (s, r) = read(run(Socks5State::Greeting, &[5, 2]));
    assert!(r.is_empty());
    let (s, r) = read(run(s, &[2, 0]));
    assert_eq!(r, vec![5, 0]);
    let (s, _) = read(run(s, &[5, 1, 0, 3]));
    let (s, _) = read(run(s, &[11]));
    let (s, _) = read(run(s, b"example.com"));
    match run(s, &[0x01, 0xbb]) {
        Socks5Step::Connect { addr, port } => {
            assert_eq!(addr, "example.com");
            assert_eq!(port, 443);
        }
        _ => panic!("expected connect"),
    }
}

#[test]
fn socks5_ip_addresses() {
    let (s, _) = read(run(Socks5State::Ipv4, &[192, 168, 1, 20]));
    assert!(matches!(s, Socks5State::Port(ref a) if a == "192.168.1.20"));
    let mut v6 = [0u8; 16];
    v6[15] = 1;
    v6[0] = 0xfe;
    v6[1] = 0x80;
    let (s, _) = read(run(Socks5State::Ipv6, &v6));
    assert!(matches!(s, Socks5State::Port(ref a) if a == "fe80:0000:0000:0000:0000:0000:0000:0001"));
}

#[test]
fn socks5_rejections() {
    assert!(matches!(run(Socks5State::Greeting, &[4, 1]),
        Socks5Step::Reject { reply, error } if reply.is_empty() && error == "Not a SOCKS5 request"));
    assert!(matches!(run(Socks5State::Methods(1), &[2]),
        Socks5Step::Reject { reply, .. } if reply == vec![5, 0xff]));
    assert!(matches!(run(Socks5State::Request, &[5, 2, 0, 1]),
        Socks5Step::Reject { reply, error } if reply == vec![5, 7, 0, 1, 0, 0, 0, 0, 0, 0] && error == "SOCKS5 only supports CONNECT"));
    assert!(matches!(run(Socks5State::Request, &[5, 1, 0, 9]),
        Socks5Step::Reject { reply, error } if reply[1] == 8 && error == "Unsupported SOCKS5 address type"));
    // An invalid UTF-8 domain name is decoded lossily.
    let (s, _) = read(run(Socks5State::Domain(2), &[b'a', 0xff]));
    assert!(matches!(s, Socks5State::Port(ref a) if a == "a\u{fffd}"));
}

#[test]
fn socks5_connect_replies() {
    assert_eq!(connect_reply(true), vec![5, 0, 0, 1, 0, 0, 0, 0, 0, 0]);
    assert_eq!(connect_reply(false), vec![5, 5, 0, 1, 0, 0, 0, 0, 0, 0]);
}

#[test]
fn remote_forward_bind_addresses() {
    assert!(bind_addr_matches("localhost", "127.0.0.1"));
    assert!(bind_addr_matches("127.0.0.1", "localhost"));
    assert!(bind_addr_matches("0.0.0.0", "10.1.1.1"));
    assert!(bind_addr_matches("::", "10.1.1.1"));
    assert!(bind_addr_matches("", "10.1.1.1"));
    assert!(!bind_addr_matches("10.1.1.2", "10.1.1.1"));
}
