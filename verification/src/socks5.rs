//! The SOCKS5 side of a dynamic forward (RFC 1928, no authentication,
//! CONNECT only), as a state machine: the caller reads exactly `need` bytes for
//! the current state, hands them to `socks5_step`, writes the reply it gets and
//! goes on, until the step says whom to connect to or why to give up.
//! Also the address check of remote forwards.
use vstd::prelude::*;

use crate::codec::{hex_digit, hex_of};
use crate::text::{
    chars_of, decimal, decode_lossy, join_with, push_decimal, push_str, same_text, string_of,
    utf8_lossy,
};

verus! {

/// What the handshake waits for.
pub enum Socks5State {
    /// Version and number of methods (2 bytes).
    Greeting,
    /// The offered authentication methods.
    Methods(u8),
    /// Version, command, reserved, address type (4 bytes).
    Request,
    /// An IPv4 address (4 bytes).
    Ipv4,
    /// The length of a domain name (1 byte).
    DomainLen,
    /// A domain name of that many bytes.
    Domain(u8),
    /// An IPv6 address (16 bytes).
    Ipv6,
    /// The port (2 bytes, big-endian), for the address already read.
    Port(String),
}

/// What to do after a step.
pub enum Socks5Step {
    /// Write `reply` (when not empty), then read for `next`.
    Read { next: Socks5State, reply: Vec<u8> },
    /// Open a channel to `addr:port`.
    Connect { addr: String, port: u32 },
    /// Write `reply` (when not empty, best effort) and give up with `error`.
    Reject { reply: Vec<u8>, error: String },
}

/// Bytes to read in state `s`.
pub open spec fn need(s: Socks5State) -> nat {
    match s {
        Socks5State::Greeting => 2,
        Socks5State::Methods(n) => n as nat,
        Socks5State::Request => 4,
        Socks5State::Ipv4 => 4,
        Socks5State::DomainLen => 1,
        Socks5State::Domain(n) => n as nat,
        Socks5State::Ipv6 => 16,
        Socks5State::Port(_) => 2,
    }
}

/// Bytes to read in state `s`.
pub fn need_bytes(s: &Socks5State) -> (n: usize)
    ensures
        n == need(*s),
{
    match s {
        Socks5State::Greeting => 2,
        Socks5State::Methods(n) => *n as usize,
        Socks5State::Request => 4,
        Socks5State::Ipv4 => 4,
        Socks5State::DomainLen => 1,
        Socks5State::Domain(n) => *n as usize,
        Socks5State::Ipv6 => 16,
        Socks5State::Port(_) => 2,
    }
}

/// Reply with the given code, an IPv4 bound address 0.0.0.0 and port 0.
pub open spec fn reply_with(code: u8) -> Seq<u8> {
    seq![5u8, code, 0u8, 1u8, 0u8, 0u8, 0u8, 0u8, 0u8, 0u8]
}

/// `a.b.c.d`.
pub open spec fn ipv4_text(b: Seq<u8>) -> Seq<char> {
    decimal(b[0] as nat) + "."@ + decimal(b[1] as nat) + "."@ + decimal(b[2] as nat) + "."@
        + decimal(b[3] as nat)
}

/// Eight groups of four lowercase hex digits joined by `:`.
pub open spec fn ipv6_text(b: Seq<u8>) -> Seq<char> {
    join_with(Seq::new(8, |i: int| hex_of(b.subrange(2 * i, 2 * i + 2))), ":"@)
}

pub open spec fn not_socks5_text() -> Seq<char> {
    "Not a SOCKS5 request"@
}

pub open spec fn no_acceptable_method_text() -> Seq<char> {
    "SOCKS5 客户端未提供免认证方法（0x00），本服务端不支持认证，已按 RFC 1928 回 0xFF 断开"@
}

pub open spec fn connect_only_text() -> Seq<char> {
    "SOCKS5 only supports CONNECT"@
}

pub open spec fn bad_address_type_text() -> Seq<char> {
    "Unsupported SOCKS5 address type"@
}

/// `r` is a request to read for `next` after writing `reply`.
pub open spec fn reads(r: Socks5Step, next: Socks5State, reply: Seq<u8>) -> bool {
    r matches Socks5Step::Read { next: n, reply: rep } && n == next && rep@ == reply
}

/// `r` gives up with `error` after writing `reply`.
pub open spec fn rejects(r: Socks5Step, reply: Seq<u8>, error: Seq<char>) -> bool {
    r matches Socks5Step::Reject { reply: rep, error: e } && rep@ == reply && e@ == error
}

/// The step owed for the bytes `input` read in state `s`.
pub open spec fn step_ok(s: Socks5State, input: Seq<u8>, r: Socks5Step) -> bool {
    match s {
        Socks5State::Greeting => if input[0] != 5 {
            rejects(r, Seq::empty(), not_socks5_text())
        } else {
            reads(r, Socks5State::Methods(input[1]), Seq::empty())
        },
        Socks5State::Methods(_) => if input.contains(0u8) {
            reads(r, Socks5State::Request, seq![5u8, 0u8])
        } else {
            rejects(r, seq![5u8, 0xFFu8], no_acceptable_method_text())
        },
        Socks5State::Request => if input[0] != 5 || input[1] != 1 {
            rejects(r, reply_with(7), connect_only_text())
        } else if input[3] == 1 {
            reads(r, Socks5State::Ipv4, Seq::empty())
        } else if input[3] == 3 {
            reads(r, Socks5State::DomainLen, Seq::empty())
        } else if input[3] == 4 {
            reads(r, Socks5State::Ipv6, Seq::empty())
        } else {
            rejects(r, reply_with(8), bad_address_type_text())
        },
        Socks5State::Ipv4 => r matches Socks5Step::Read { next: Socks5State::Port(a), reply }
            && reply@.len() == 0 && a@ == ipv4_text(input),
        Socks5State::DomainLen => reads(r, Socks5State::Domain(input[0]), Seq::empty()),
        Socks5State::Domain(_) => r matches Socks5Step::Read { next: Socks5State::Port(a), reply }
            && reply@.len() == 0 && a@ == utf8_lossy(input),
        Socks5State::Ipv6 => r matches Socks5Step::Read { next: Socks5State::Port(a), reply }
            && reply@.len() == 0 && a@ == ipv6_text(input),
        Socks5State::Port(addr) => r matches Socks5Step::Connect { addr: a, port } && a@ == addr@
            && port == input[0] as int * 256 + input[1] as int,
    }
}

fn bytes_of(s: Seq<u8>, v: Vec<u8>) -> (r: Vec<u8>)
    requires
        v@ == s,
    ensures
        r@ == s,
{
    v
}

fn contains_zero(v: &[u8]) -> (b: bool)
    ensures
        b == v@.contains(0u8),
{
    let mut i: usize = 0;
    while i < v.len()
        invariant
            i <= v@.len(),
            forall|k: int| 0 <= k < i ==> v@[k] != 0u8,
        decreases v.len() - i,
    {
        if v[i] == 0 {
            assert(v@[i as int] == 0u8);
            return true;
        }
        i += 1;
    }
    false
}

fn reply_exec(code: u8) -> (r: Vec<u8>)
    ensures
        r@ == reply_with(code),
{
    let r = vec![5u8, code, 0u8, 1u8, 0u8, 0u8, 0u8, 0u8, 0u8, 0u8];
    assert(r@ =~= reply_with(code));
    r
}

fn ipv4_exec(b: &[u8]) -> (r: String)
    requires
        b@.len() == 4,
    ensures
        r@ == ipv4_text(b@),
{
    let mut v: Vec<char> = Vec::new();
    push_decimal(&mut v, b[0] as u128);
    push_str(&mut v, ".");
    push_decimal(&mut v, b[1] as u128);
    push_str(&mut v, ".");
    push_decimal(&mut v, b[2] as u128);
    push_str(&mut v, ".");
    push_decimal(&mut v, b[3] as u128);
    assert(v@ =~= ipv4_text(b@));
    string_of(v.as_slice())
}

proof fn lemma_hex_pair(b: Seq<u8>)
    requires
        b.len() == 2,
    ensures
        hex_of(b) == seq![
            hex_digit(b[0] as int / 16),
            hex_digit(b[0] as int % 16),
            hex_digit(b[1] as int / 16),
            hex_digit(b[1] as int % 16),
        ],
{
    let a = b.drop_last();
    assert(a.drop_last() =~= Seq::<u8>::empty());
    assert(hex_of(a.drop_last()) =~= Seq::<char>::empty());
    assert(a.last() == b[0]);
    assert(hex_of(a) =~= seq![hex_digit(b[0] as int / 16), hex_digit(b[0] as int % 16)]);
    assert(hex_of(b) =~= hex_of(a).push(hex_digit(b[1] as int / 16)).push(hex_digit(b[1] as int % 16)));
}

fn ipv6_exec(b: &[u8]) -> (r: String)
    requires
        b@.len() == 16,
    ensures
        r@ == ipv6_text(b@),
{
    let ghost groups = Seq::new(8, |i: int| hex_of(b@.subrange(2 * i, 2 * i + 2)));
    let mut v: Vec<char> = Vec::new();
    let mut g: usize = 0;
    while g < 8
        invariant
            g <= 8,
            b@.len() == 16,
            groups == Seq::new(8, |i: int| hex_of(b@.subrange(2 * i, 2 * i + 2))),
            v@ == join_with(groups.take(g as int), ":"@),
        decreases 8 - g,
    {
        let ghost before = v@;
        if g > 0 {
            push_str(&mut v, ":");
        }
        let hi = b[2 * g];
        let lo = b[2 * g + 1];
        v.push(if hi / 16 < 10 {
            (48 + hi / 16) as char
        } else {
            (87 + hi / 16) as char
        });
        v.push(if hi % 16 < 10 {
            (48 + hi % 16) as char
        } else {
            (87 + hi % 16) as char
        });
        v.push(if lo / 16 < 10 {
            (48 + lo / 16) as char
        } else {
            (87 + lo / 16) as char
        });
        v.push(if lo % 16 < 10 {
            (48 + lo % 16) as char
        } else {
            (87 + lo % 16) as char
        });
        proof {
            let pair = b@.subrange(2 * g as int, 2 * g as int + 2);
            lemma_hex_pair(pair);
            assert(groups[g as int] == hex_of(pair));
            let t = groups.take(g as int + 1);
            assert(t.drop_last() =~= groups.take(g as int));
            assert(t.last() == groups[g as int]);
            if g == 0 {
                assert(v@ =~= join_with(t, ":"@));
            } else {
                assert(v@ =~= before + ":"@ + groups[g as int]);
            }
        }
        g += 1;
    }
    assert(groups.take(8) =~= groups);
    string_of(v.as_slice())
}

/// One step of the handshake: the bytes `input` were read in state `state`.
pub fn socks5_step(state: Socks5State, input: &[u8]) -> (r: Socks5Step)
    requires
        input@.len() == need(state),
    ensures
        step_ok(state, input@, r),
{
    match state {
        Socks5State::Greeting => {
            if input[0] != 5 {
                Socks5Step::Reject {
                    reply: Vec::new(),
                    error: string_of(chars_of("Not a SOCKS5 request").as_slice()),
                }
            } else {
                Socks5Step::Read { next: Socks5State::Methods(input[1]), reply: Vec::new() }
            }
        },
        Socks5State::Methods(_) => {
            if contains_zero(input) {
                let reply = vec![5u8, 0u8];
                assert(reply@ =~= seq![5u8, 0u8]);
                Socks5Step::Read { next: Socks5State::Request, reply }
            } else {
                let reply = vec![5u8, 0xFFu8];
                assert(reply@ =~= seq![5u8, 0xFFu8]);
                Socks5Step::Reject {
                    reply,
                    error: string_of(
                        chars_of(
                            "SOCKS5 客户端未提供免认证方法（0x00），本服务端不支持认证，已按 RFC 1928 回 0xFF 断开",
                        ).as_slice(),
                    ),
                }
            }
        },
        Socks5State::Request => {
            if input[0] != 5 || input[1] != 1 {
                Socks5Step::Reject {
                    reply: reply_exec(7),
                    error: string_of(chars_of("SOCKS5 only supports CONNECT").as_slice()),
                }
            } else if input[3] == 1 {
                Socks5Step::Read { next: Socks5State::Ipv4, reply: Vec::new() }
            } else if input[3] == 3 {
                Socks5Step::Read { next: Socks5State::DomainLen, reply: Vec::new() }
            } else if input[3] == 4 {
                Socks5Step::Read { next: Socks5State::Ipv6, reply: Vec::new() }
            } else {
                Socks5Step::Reject {
                    reply: reply_exec(8),
                    error: string_of(chars_of("Unsupported SOCKS5 address type").as_slice()),
                }
            }
        },
        Socks5State::Ipv4 => Socks5Step::Read {
            next: Socks5State::Port(ipv4_exec(input)),
            reply: Vec::new(),
        },
        Socks5State::DomainLen => Socks5Step::Read {
            next: Socks5State::Domain(input[0]),
            reply: Vec::new(),
        },
        Socks5State::Domain(_) => Socks5Step::Read {
            next: Socks5State::Port(decode_lossy(input)),
            reply: Vec::new(),
        },
        Socks5State::Ipv6 => Socks5Step::Read {
            next: Socks5State::Port(ipv6_exec(input)),
            reply: Vec::new(),
        },
        Socks5State::Port(addr) => Socks5Step::Connect {
            addr,
            port: input[0] as u32 * 256 + input[1] as u32,
        },
    }
}

/// The reply once the channel to the target opened (`succeeded`) or not.
pub fn connect_reply(succeeded: bool) -> (r: Vec<u8>)
    ensures
        r@ == reply_with(if succeeded {
            0u8
        } else {
            5u8
        }),
{
    if succeeded {
        reply_exec(0)
    } else {
        reply_exec(5)
    }
}

// ─── remote forwards ───

pub open spec fn loopback_norm(a: Seq<char>) -> Seq<char> {
    if a == "localhost"@ {
        "127.0.0.1"@
    } else {
        a
    }
}

/// Whether an address the server reports for a forwarded connection belongs
/// to the requested bind address: `localhost` counts as `127.0.0.1`; a
/// wildcard request (`0.0.0.0`, `::` or empty) matches any address.
pub open spec fn bind_matches(requested: Seq<char>, connected: Seq<char>) -> bool {
    let req = loopback_norm(requested);
    req == loopback_norm(connected) || req == "0.0.0.0"@ || req == "::"@ || req.len() == 0
}

fn norm_exec(a: &str) -> (r: String)
    ensures
        r@ == loopback_norm(a@),
{
    if same_text(a, "localhost") {
        "127.0.0.1".to_owned()
    } else {
        a.to_owned()
    }
}

/// See `bind_matches`.
pub fn bind_addr_matches(requested: &str, connected: &str) -> (b: bool)
    ensures
        b == bind_matches(requested@, connected@),
{
    let req = norm_exec(requested);
    let con = norm_exec(connected);
    same_text(req.as_str(), con.as_str()) || same_text(req.as_str(), "0.0.0.0") || same_text(
        req.as_str(),
        "::",
    ) || req.as_str().is_empty()
}

/// Law (RFC 1928): a CONNECT request (version 5, command 1) whose address
/// type is IPv4 (1), a domain name (3) or IPv6 (4) is never rejected; the
/// handshake goes on to read that address, writing nothing yet.
pub proof fn lemma_connect_request_accepted(input: Seq<u8>, r: Socks5Step)
    requires
        input.len() == 4,
        input[0] == 5,
        input[1] == 1,
        step_ok(Socks5State::Request, input, r),
    ensures
        (input[3] == 1 || input[3] == 3 || input[3] == 4) ==> !(r is Reject),
        input[3] == 1 ==> (r matches Socks5Step::Read { next, reply } && next == Socks5State::Ipv4
            && reply@.len() == 0),
        input[3] == 3 ==> (r matches Socks5Step::Read { next, reply } && next == Socks5State::DomainLen
            && reply@.len() == 0),
        input[3] == 4 ==> (r matches Socks5Step::Read { next, reply } && next == Socks5State::Ipv6
            && reply@.len() == 0),
        !(input[3] == 1 || input[3] == 3 || input[3] == 4) ==> (r matches Socks5Step::Reject { reply, .. }
            && reply@ == seq![5u8, 8u8, 0u8, 1u8, 0u8, 0u8, 0u8, 0u8, 0u8, 0u8]),
{
}

} // verus!
