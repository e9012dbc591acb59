//! Headless SSH (used by the MCP server, only for hosts already trusted in the
//! GUI): connection parameters, the host-key decision against the stored
//! known hosts, and the collection of a one-shot command's output from the
//! channel messages.
use vstd::prelude::*;

use crate::text::{chars_of, decimal, decode_lossy, push_all, push_decimal, same_text, string_of, utf8_lossy};

verus! {

/// Headless connection parameters (paths as text).
pub struct HeadlessConnectParams {
    pub host: String,
    pub port: u16,
    pub username: String,
    pub password: String,
    pub credential_id: Option<String>,
    pub auth_method: Option<String>,
    pub private_key_path: Option<String>,
    /// Reference to a private key kept in the credential store (read first).
    pub private_key_credential_id: Option<String>,
    pub passphrase: Option<String>,
    pub passphrase_credential_id: Option<String>,
    pub secret_store_dir: String,
    pub known_hosts_path: String,
    /// Jump host `host[:port]`; when set and not blank the target is reached
    /// through it.
    pub jump_host: Option<String>,
    /// Where to find the jump host's asset (needed with a jump host).
    pub asset_store_path: Option<String>,
    /// TCP connect timeout in seconds (direct connections only).
    pub connect_timeout_secs: Option<u32>,
    /// Keepalive interval in seconds (30 when absent).
    pub keepalive_interval_secs: Option<u32>,
}

/// `host:port`, the key of a host in the known hosts.
pub open spec fn host_port_text(host: Seq<char>, port: u16) -> Seq<char> {
    host + ":"@ + decimal(port as nat)
}

/// `format!("{}:{}", host, port)`.
pub fn host_port(host: &str, port: u16) -> (r: String)
    ensures
        r@ == host_port_text(host@, port),
{
    proof {
        reveal_strlit(":");
    }
    let mut v = chars_of(host);
    v.push(':');
    push_decimal(&mut v, port as u128);
    assert(v@ =~= host_port_text(host@, port));
    string_of(v.as_slice())
}

// ─── known hosts ───

/// A trusted host key: its algorithm and its public key bytes in hex.
pub struct KnownHostEntry {
    pub key_type: String,
    pub key_hex: String,
}

/// A known host: `host:port` and its trusted key.
pub struct KnownHost {
    pub host_port: String,
    pub entry: KnownHostEntry,
}

/// Position of the first record for `host_port`.
pub open spec fn host_pos(s: Seq<KnownHost>, host_port: Seq<char>) -> Option<int>
    decreases s.len(),
{
    if s.len() == 0 {
        None
    } else if s[0].host_port@ == host_port {
        Some(0)
    } else {
        match host_pos(s.drop_first(), host_port) {
            Some(i) => Some(i + 1),
            None => None,
        }
    }
}

proof fn lemma_host_pos(s: Seq<KnownHost>, host_port: Seq<char>, i: int)
    requires
        0 <= i <= s.len(),
        forall|j: int| 0 <= j < i ==> (#[trigger] s[j]).host_port@ != host_port,
        i < s.len() ==> s[i].host_port@ == host_port,
    ensures
        host_pos(s, host_port) == (if i < s.len() {
            Some(i)
        } else {
            None::<int>
        }),
    decreases s.len(),
{
    if s.len() > 0 && i > 0 {
        let t = s.drop_first();
        assert forall|j: int| 0 <= j < i - 1 implies (#[trigger] t[j]).host_port@ != host_port by {
            assert(t[j] == s[j + 1]);
        }
        lemma_host_pos(t, host_port, i - 1);
    }
}

/// What the known hosts say of a presented key.
pub enum HostKeyVerdict {
    /// The stored key is the presented one.
    Trusted,
    /// Another key is stored for this host (it may have changed).
    Changed { expected: String },
    /// The host is not known.
    Unknown,
}

pub open spec fn verdict_ok(known: Seq<KnownHost>, host_port: Seq<char>, key_hex: Seq<char>, v: HostKeyVerdict) -> bool {
    match host_pos(known, host_port) {
        None => v is Unknown,
        Some(i) => if known[i].entry.key_hex@ == key_hex {
            v is Trusted
        } else {
            v matches HostKeyVerdict::Changed { expected } && expected@ == known[i].entry.key_hex@
        },
    }
}

fn find_host(known: &Vec<KnownHost>, host_port: &str) -> (r: Option<usize>)
    ensures
        match r {
            Some(i) => host_pos(known@, host_port@) == Some(i as int) && i < known@.len(),
            None => host_pos(known@, host_port@) is None,
        },
{
    let mut i: usize = 0;
    while i < known.len()
        invariant
            i <= known@.len(),
            forall|j: int| 0 <= j < i ==> (#[trigger] known@[j]).host_port@ != host_port@,
        decreases known.len() - i,
    {
        if same_text(known[i].host_port.as_str(), host_port) {
            proof {
                lemma_host_pos(known@, host_port@, i as int);
            }
            return Some(i);
        }
        i += 1;
    }
    proof {
        lemma_host_pos(known@, host_port@, known@.len() as int);
    }
    None
}

/// Compares the key presented by `host_port` (in hex) with the known hosts.
pub fn host_key_verdict(known: &Vec<KnownHost>, host_port: &str, key_hex: &str) -> (v: HostKeyVerdict)
    ensures
        verdict_ok(known@, host_port@, key_hex@, v),
{
    match find_host(known, host_port) {
        None => HostKeyVerdict::Unknown,
        Some(i) => {
            if same_text(known[i].entry.key_hex.as_str(), key_hex) {
                HostKeyVerdict::Trusted
            } else {
                HostKeyVerdict::Changed { expected: known[i].entry.key_hex.clone() }
            }
        },
    }
}

/// Headless connections accept exactly the trusted keys (no prompt).
pub fn check_known_host_exact(known: &Vec<KnownHost>, host_port: &str, key_hex: &str) -> (b: bool)
    ensures
        b == (match host_pos(known@, host_port@) {
            Some(i) => known@[i].entry.key_hex@ == key_hex@,
            None => false,
        }),
{
    match host_key_verdict(known, host_port, key_hex) {
        HostKeyVerdict::Trusted => true,
        _ => false,
    }
}

/// The host-key handler of a headless connection: which `host:port` it
/// connects to and where the trusted keys are kept.
pub struct HeadlessSshClient {
    pub host_port: String,
    pub known_hosts_path: String,
}

impl HeadlessSshClient {
    /// The handler for a direct connection with these parameters.
    pub fn for_params(params: &HeadlessConnectParams) -> (c: Self)
        ensures
            c.host_port@ == host_port_text(params.host@, params.port),
            c.known_hosts_path@ == params.known_hosts_path@,
    {
        HeadlessSshClient {
            host_port: host_port(params.host.as_str(), params.port),
            known_hosts_path: params.known_hosts_path.clone(),
        }
    }

    /// Whether the key the server presents (in hex) is accepted, given the
    /// known hosts read from `known_hosts_path`: only an exact match is.
    pub fn check_server_key(&self, known: &Vec<KnownHost>, key_hex: &str) -> (b: bool)
        ensures
            b == (match host_pos(known@, self.host_port@) {
                Some(i) => known@[i].entry.key_hex@ == key_hex@,
                None => false,
            }),
    {
        check_known_host_exact(known, self.host_port.as_str(), key_hex)
    }
}

/// Records the key the user accepted for `host_port`: the record for that
/// host is replaced, or one is appended.
pub fn remember_host_key(known: &mut Vec<KnownHost>, host_port: String, entry: KnownHostEntry)
    ensures
        match host_pos(old(known)@, host_port@) {
            Some(i) => final(known)@.len() == old(known)@.len() && final(known)@[i].host_port@
                == host_port@ && final(known)@[i].entry == entry && forall|j: int|
                0 <= j < old(known)@.len() && j != i ==> #[trigger] final(known)@[j] == old(
                    known,
                )@[j],
            None => final(known)@ == old(known)@.push(KnownHost { host_port, entry }),
        },
{
    match find_host(known, host_port.as_str()) {
        Some(i) => {
            known.remove(i);
            known.insert(i, KnownHost { host_port, entry });
        },
        None => {
            known.push(KnownHost { host_port, entry });
        },
    }
}

/// Law: once a key is remembered for a host, that host presenting that key is
/// trusted.
pub proof fn lemma_remembered_key_trusted(
    old_known: Seq<KnownHost>,
    known: Seq<KnownHost>,
    host_port: String,
    entry: KnownHostEntry,
)
    requires
        match host_pos(old_known, host_port@) {
            Some(i) => known.len() == old_known.len() && known[i].host_port@ == host_port@
                && known[i].entry == entry && forall|j: int|
                0 <= j < old_known.len() && j != i ==> #[trigger] known[j] == old_known[j],
            None => known == old_known.push(KnownHost { host_port, entry }),
        },
    ensures
        host_pos(known, host_port@) is Some,
        known[host_pos(known, host_port@)->0].entry.key_hex@ == entry.key_hex@,
{
    lemma_host_pos_shape(old_known, host_port@);
    match host_pos(old_known, host_port@) {
        Some(i) => {
            assert forall|j: int| 0 <= j < i implies (#[trigger] known[j]).host_port@
                != host_port@ by {
                assert(known[j] == old_known[j]);
            }
            lemma_host_pos(known, host_port@, i);
        },
        None => {
            assert forall|j: int| 0 <= j < old_known.len() implies (
            #[trigger] known[j]).host_port@ != host_port@ by {
                assert(known[j] == old_known[j]);
            }
            lemma_host_pos(known, host_port@, old_known.len() as int);
        },
    }
}

proof fn lemma_host_pos_shape(s: Seq<KnownHost>, host_port: Seq<char>)
    ensures
        match host_pos(s, host_port) {
            Some(i) => 0 <= i < s.len() && s[i].host_port@ == host_port && forall|j: int|
                0 <= j < i ==> (#[trigger] s[j]).host_port@ != host_port,
            None => forall|j: int| 0 <= j < s.len() ==> (#[trigger] s[j]).host_port@ != host_port,
        },
    decreases s.len(),
{
    if s.len() > 0 {
        let t = s.drop_first();
        lemma_host_pos_shape(t, host_port);
        if s[0].host_port@ != host_port {
            match host_pos(t, host_port) {
                Some(i) => {
                    assert forall|j: int| 0 <= j < i + 1 implies (#[trigger] s[j]).host_port@
                        != host_port by {
                        if j > 0 {
                            assert(s[j] == t[j - 1]);
                        }
                    }
                },
                None => {
                    assert forall|j: int| 0 <= j < s.len() implies (#[trigger] s[j]).host_port@
                        != host_port by {
                        if j > 0 {
                            assert(s[j] == t[j - 1]);
                        }
                    }
                },
            }
        }
    }
}

// ─── one-shot command output ───

/// Structured output of a one-shot command.
pub struct ExecOnceOutput {
    /// Exit status (none when the channel closed without one).
    pub exit_code: Option<u32>,
    /// stdout, decoded as UTF-8 with invalid sequences replaced.
    pub stdout: String,
    /// stderr, decoded the same way.
    pub stderr: String,
}

/// A message of the session channel, as far as the collection reads it.
pub enum ChannelEvent {
    Data(Vec<u8>),
    ExtendedData(Vec<u8>),
    Eof,
    ExitStatus(u32),
    Close,
    Other,
}

/// `b` is `a` with `out` and `err` appended and the exit status `code`.
pub open spec fn collected(a: ExecCollector, b: ExecCollector, out: Seq<u8>, err: Seq<u8>, code: Option<u32>) -> bool {
    &&& b.stdout@ == a.stdout@ + out
    &&& b.stderr@ == a.stderr@ + err
    &&& b.exit_code == code
}

/// The output gathered so far from the channel.
pub struct ExecCollector {
    pub stdout: Vec<u8>,
    pub stderr: Vec<u8>,
    pub exit_code: Option<u32>,
}

impl ExecCollector {
    pub fn new() -> (c: Self)
        ensures
            c.stdout@.len() == 0,
            c.stderr@.len() == 0,
            c.exit_code is None,
    {
        ExecCollector { stdout: Vec::new(), stderr: Vec::new(), exit_code: None }
    }

    /// Takes one channel message; `false` when the collection is over. Data
    /// goes to stdout, extended data to stderr; `Eof` does not end it (the
    /// exit status usually follows); the exit status or `Close` ends it.
    pub fn on_event(&mut self, ev: ChannelEvent) -> (more: bool)
        ensures
            match ev {
                ChannelEvent::Data(d) => more && collected(
                    *old(self),
                    *final(self),
                    d@,
                    Seq::empty(),
                    old(self).exit_code,
                ),
                ChannelEvent::ExtendedData(d) => more && collected(
                    *old(self),
                    *final(self),
                    Seq::empty(),
                    d@,
                    old(self).exit_code,
                ),
                ChannelEvent::ExitStatus(c) => !more && collected(
                    *old(self),
                    *final(self),
                    Seq::empty(),
                    Seq::empty(),
                    Some(c),
                ),
                ChannelEvent::Close => !more && collected(
                    *old(self),
                    *final(self),
                    Seq::empty(),
                    Seq::empty(),
                    old(self).exit_code,
                ),
                _ => more && collected(
                    *old(self),
                    *final(self),
                    Seq::empty(),
                    Seq::empty(),
                    old(self).exit_code,
                ),
            },
    {
        match ev {
            ChannelEvent::Data(mut d) => {
                self.stdout.append(&mut d);
                assert(self.stderr@ =~= self.stderr@ + Seq::<u8>::empty());
                true
            },
            ChannelEvent::ExtendedData(mut d) => {
                self.stderr.append(&mut d);
                assert(self.stdout@ =~= self.stdout@ + Seq::<u8>::empty());
                true
            },
            ChannelEvent::ExitStatus(c) => {
                self.exit_code = Some(c);
                assert(self.stdout@ =~= self.stdout@ + Seq::<u8>::empty());
                assert(self.stderr@ =~= self.stderr@ + Seq::<u8>::empty());
                false
            },
            ChannelEvent::Close => {
                assert(self.stdout@ =~= self.stdout@ + Seq::<u8>::empty());
                assert(self.stderr@ =~= self.stderr@ + Seq::<u8>::empty());
                false
            },
            _ => {
                assert(self.stdout@ =~= self.stdout@ + Seq::<u8>::empty());
                assert(self.stderr@ =~= self.stderr@ + Seq::<u8>::empty());
                true
            },
        }
    }

    /// The structured output.
    pub fn finish(&self) -> (r: ExecOnceOutput)
        ensures
            r.exit_code == self.exit_code,
            r.stdout@ == utf8_lossy(self.stdout@),
            r.stderr@ == utf8_lossy(self.stderr@),
    {
        ExecOnceOutput {
            exit_code: self.exit_code,
            stdout: decode_lossy(self.stdout.as_slice()),
            stderr: decode_lossy(self.stderr.as_slice()),
        }
    }
}

} // verus!
