//! Where the embedded MCP HTTP server listens: only on 127.0.0.1, from the
//! start port upwards (ten retries), and the URL with its access token.
use vstd::prelude::*;

use crate::codec::{b64url, b64url_nopad};
use crate::text::{chars_of, decimal, push_decimal, push_str, string_of};

verus! {

/// The server only listens on the loopback address.
pub const DEFAULT_BIND_HOST: &'static str = "127.0.0.1";

/// Start port of a release build.
pub const DEFAULT_BIND_PORT: u16 = 41235;

/// Retries on the following ports when a port is taken.
pub const MAX_PORT_RETRIES: u16 = 10;

/// The address the server listens on.
pub struct McpEndpoint {
    /// Base URL, without the token.
    pub url: String,
    pub host: String,
    pub port: u16,
    pub auth_token: String,
}

/// 32 bytes from `rand::thread_rng()` (a CSPRNG seeded by the system);
/// nothing is known of their values.
#[verifier::external_body]
fn random_bytes_32() -> (b: [u8; 32]) {
    let mut b = [0u8; 32];
    rand::RngCore::fill_bytes(&mut rand::thread_rng(), &mut b);
    b
}

/// A fresh 256-bit access token: 32 random bytes in base64url without
/// padding (43 characters).
pub fn generate_token() -> (t: String)
    ensures
        exists|b: Seq<u8>| b.len() == 32 && t@ == b64url_nopad(b),
{
    let b = random_bytes_32();
    let t = b64url(&b);
    assert(b@.len() == 32);
    t
}

/// `s` without its trailing `/` characters.
pub open spec fn trim_slashes_end(s: Seq<char>) -> Seq<char>
    decreases s.len(),
{
    if s.len() > 0 && s.last() == '/' {
        trim_slashes_end(s.drop_last())
    } else {
        s
    }
}

/// The access URL: `base/token` (trailing slashes of `base` dropped); the
/// base alone when there is no token.
pub open spec fn url_with_token(base: Seq<char>, token: Seq<char>) -> Seq<char> {
    if token.len() == 0 {
        base
    } else {
        trim_slashes_end(base) + "/"@ + token
    }
}

pub fn with_token(base_url: &str, token: &str) -> (r: String)
    ensures
        r@ == url_with_token(base_url@, token@),
{
    if token.is_empty() {
        return base_url.to_owned();
    }
    let mut v = chars_of(base_url);
    let ghost full = v@;
    while v.len() > 0 && v[v.len() - 1] == '/'
        invariant
            trim_slashes_end(full) == trim_slashes_end(v@),
        decreases v.len(),
    {
        let ghost before = v@;
        v.pop();
        assert(v@ =~= before.drop_last());
    }
    let ghost trimmed = v@;
    push_str(&mut v, "/");
    push_str(&mut v, token);
    assert(v@ =~= trim_slashes_end(full) + "/"@ + token@);
    string_of(v.as_slice())
}

/// The ports tried in turn from `base` (saturating at 65535).
pub open spec fn port_candidate(base: u16, offset: int) -> u16 {
    if base + offset > 65535 {
        65535
    } else {
        (base + offset) as u16
    }
}

pub fn port_candidates(base: u16) -> (r: Vec<u16>)
    ensures
        r@.len() == MAX_PORT_RETRIES + 1,
        forall|i: int| 0 <= i < r@.len() ==> #[trigger] r@[i] == port_candidate(base, i),
{
    let mut r: Vec<u16> = Vec::new();
    let mut k: u16 = 0;
    while k <= MAX_PORT_RETRIES
        invariant
            k <= MAX_PORT_RETRIES + 1,
            r@.len() == k,
            forall|i: int| 0 <= i < r@.len() ==> #[trigger] r@[i] == port_candidate(base, i),
        decreases MAX_PORT_RETRIES + 1 - k,
    {
        r.push(base.saturating_add(k));
        k += 1;
    }
    r
}

/// `http://127.0.0.1:{port}/mcp`.
pub open spec fn endpoint_url(port: u16) -> Seq<char> {
    "http://127.0.0.1:"@ + decimal(port as nat) + "/mcp"@
}

/// The endpoint recorded for a bound port.
pub fn endpoint_for(port: u16, auth_token: String) -> (e: McpEndpoint)
    ensures
        e.url@ == endpoint_url(port),
        e.host@ == DEFAULT_BIND_HOST@,
        e.port == port,
        e.auth_token == auth_token,
{
    let mut v = chars_of("http://127.0.0.1:");
    push_decimal(&mut v, port as u128);
    push_str(&mut v, "/mcp");
    assert(v@ =~= endpoint_url(port));
    McpEndpoint {
        url: string_of(v.as_slice()),
        host: DEFAULT_BIND_HOST.to_owned(),
        port,
        auth_token,
    }
}

} // verus!
