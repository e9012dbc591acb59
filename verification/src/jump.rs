//! ProxyJump with a single hop: the jump-host designation `host` or
//! `host:port` (port 22 when absent). A bad trailing port is an error, never
//! silently 22; `user@host` and path forms are refused.
use vstd::prelude::*;

use crate::headless::HeadlessConnectParams;
use crate::text::{chars_of, has_char, push_all, push_str, slice_chars, string_of, trim, trim_chars};

verus! {

/// Position of the last `:` in `s`.
pub open spec fn last_colon(s: Seq<char>) -> Option<int>
    decreases s.len(),
{
    if s.len() == 0 {
        None
    } else if s.last() == ':' {
        Some(s.len() - 1)
    } else {
        last_colon(s.drop_last())
    }
}

pub open spec fn is_digit(c: char) -> bool {
    '0' <= c && c <= '9'
}

/// The value of a run of decimal digits.
pub open spec fn digits_value(d: Seq<char>) -> nat
    decreases d.len(),
{
    if d.len() == 0 {
        0
    } else {
        digits_value(d.drop_last()) * 10 + ((d.last() as int - 48) as nat)
    }
}

/// `p` without one leading `+`.
pub open spec fn sign_stripped(p: Seq<char>) -> Seq<char> {
    if p.len() > 0 && p[0] == '+' {
        p.drop_first()
    } else {
        p
    }
}

pub open spec fn all_digits(d: Seq<char>) -> bool {
    forall|i: int| 0 <= i < d.len() ==> is_digit(#[trigger] d[i])
}

/// `u16::from_str`: an optional `+`, then one or more decimal digits whose
/// value is at most 65535.
pub open spec fn parse_u16(p: Seq<char>) -> Option<u16> {
    let d = sign_stripped(p);
    if d.len() > 0 && all_digits(d) && digits_value(d) <= 65535 {
        Some(digits_value(d) as u16)
    } else {
        None
    }
}

/// What `parse_jump_host` gives for `raw`.
pub open spec fn jump_host_parsed(raw: Seq<char>) -> Result<(Seq<char>, u16), Seq<char>> {
    let s = trim(raw);
    if s.len() == 0 {
        Err("跳板主机标识为空"@)
    } else if s.contains('@') || s.contains('/') {
        Err(
            "跳板主机标识 '"@ + s
                + "' 不支持 user@host / 路径形态（请填 host 或 host:port；跳板登录用户取资产库中该主机的资产）"@,
        )
    } else {
        match last_colon(s) {
            Some(i) => {
                let p = s.skip(i + 1);
                match parse_u16(p) {
                    None => Err("跳板端口非法（'"@ + p + "'，期望 1-65535）"@),
                    Some(port) => if port == 0 {
                        Err("跳板端口不能为 0"@)
                    } else {
                        Ok((s.take(i), port))
                    },
                }
            },
            None => Ok((s, 22u16)),
        }
    }
}

fn last_colon_exec(s: &[char]) -> (r: Option<usize>)
    ensures
        match last_colon(s@) {
            Some(i) => r == Some(i as usize) && 0 <= i < s@.len(),
            None => r is None,
        },
{
    let mut j: usize = s.len();
    assert(s@.take(j as int) =~= s@);
    while j > 0
        invariant
            j <= s@.len(),
            last_colon(s@) == last_colon(s@.take(j as int)),
        decreases j,
    {
        let ghost t = s@.take(j as int);
        assert(t.drop_last() =~= s@.take(j - 1));
        if s[j - 1] == ':' {
            return Some(j - 1);
        }
        j -= 1;
    }
    None
}

proof fn lemma_digits_grow(d: Seq<char>, i: int)
    requires
        0 <= i < d.len(),
    ensures
        digits_value(d.take(i + 1)) == digits_value(d.take(i)) * 10 + ((d[i] as int - 48) as nat),
{
    assert(d.take(i + 1).drop_last() =~= d.take(i));
}

/// `u16::from_str`.
pub fn parse_u16_exec(p: &[char]) -> (r: Option<u16>)
    ensures
        r == parse_u16(p@),
{
    let start: usize = if p.len() > 0 && p[0] == '+' {
        1
    } else {
        0
    };
    let ghost d = sign_stripped(p@);
    assert(d =~= p@.skip(start as int));
    if start >= p.len() {
        assert(d.len() == 0);
        return None;
    }
    let mut acc: u32 = 0;
    let mut i: usize = start;
    while i < p.len()
        invariant
            start <= i <= p@.len(),
            d == p@.skip(start as int),
            d == sign_stripped(p@),
            acc <= 655359,
            acc <= 65535 ==> acc == digits_value(d.take(i - start)),
            (acc > 65535) == (digits_value(d.take(i - start)) > 65535),
            forall|k: int| 0 <= k < i - start ==> is_digit(#[trigger] d[k]),
        decreases p.len() - i,
    {
        let c = p[i];
        assert(d[i - start] == c);
        if !('0' <= c && c <= '9') {
            assert(!is_digit(d[i - start]));
            assert(!all_digits(d));
            return None;
        }
        proof {
            lemma_digits_grow(d, i - start);
        }
        if acc <= 65535 {
            acc = acc * 10 + (c as u32 - 48);
        }
        i += 1;
    }
    assert(d.take(d.len() as int) =~= d);
    if acc > 65535 {
        None
    } else {
        Some(acc as u16)
    }
}

/// Parses a jump-host designation `host` / `host:port` (surrounding
/// whitespace ignored) into `(host, port)`; port 22 when absent.
pub fn parse_jump_host(jump_host: &str) -> (r: Result<(String, u16), String>)
    ensures
        match jump_host_parsed(jump_host@) {
            Ok((h, port)) => r matches Ok((rh, rp)) && rh@ == h && rp == port,
            Err(e) => r matches Err(m) && m@ == e,
        },
{
    let raw = chars_of(jump_host);
    let s = trim_chars(raw.as_slice());
    if s.len() == 0 {
        return Err(string_of(chars_of("跳板主机标识为空").as_slice()));
    }
    if has_char(s.as_slice(), '@') || has_char(s.as_slice(), '/') {
        let mut m = chars_of("跳板主机标识 '");
        push_all(&mut m, s.as_slice());
        push_str(&mut m, "' 不支持 user@host / 路径形态（请填 host 或 host:port；跳板登录用户取资产库中该主机的资产）");
        return Err(string_of(m.as_slice()));
    }
    match last_colon_exec(s.as_slice()) {
        Some(i) => {
            let p = slice_chars(s.as_slice(), i + 1, s.len());
            assert(p@ =~= s@.skip(i + 1));
            match parse_u16_exec(p.as_slice()) {
                None => {
                    let mut m = chars_of("跳板端口非法（'");
                    push_all(&mut m, p.as_slice());
                    push_str(&mut m, "'，期望 1-65535）");
                    Err(string_of(m.as_slice()))
                },
                Some(port) => {
                    if port == 0 {
                        return Err(string_of(chars_of("跳板端口不能为 0").as_slice()));
                    }
                    let h = slice_chars(s.as_slice(), 0, i);
                    assert(h@ =~= s@.take(i as int));
                    Ok((string_of(h.as_slice()), port))
                },
            }
        },
        None => Ok((string_of(s.as_slice()), 22)),
    }
}

/// A jump-host setting in effect: trimmed, an empty one counts as none.
pub open spec fn effective_jump(j: Option<String>) -> Option<Seq<char>> {
    match j {
        Some(s) => if trim(s@).len() == 0 {
            None
        } else {
            Some(trim(s@))
        },
        None => None,
    }
}

/// The jump host of an asset's setting (trimmed; empty means none).
pub fn jump_host_of(jump_host: &Option<String>) -> (r: Option<String>)
    ensures
        match effective_jump(*jump_host) {
            Some(t) => r matches Some(s) && s@ == t,
            None => r is None,
        },
{
    match jump_host {
        Some(j) => {
            let t = trim_chars(chars_of(j.as_str()).as_slice());
            if t.len() == 0 {
                None
            } else {
                Some(string_of(t.as_slice()))
            }
        },
        None => None,
    }
}

/// The jump host of headless connection parameters (trimmed; empty means none).
pub fn jump_host_ref(params: &HeadlessConnectParams) -> (r: Option<String>)
    ensures
        match effective_jump(params.jump_host) {
            Some(t) => r matches Some(s) && s@ == t,
            None => r is None,
        },
{
    jump_host_of(&params.jump_host)
}

} // verus!
