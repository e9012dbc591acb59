//! The local session key of automatic synchronisation, as kept in the secret
//! store: `base64(key):base64(salt)`. The salt travels with every payload so
//! that the master password can rebuild the same key on another machine; a
//! key without its salt is refused both when written and when read.
use vstd::prelude::*;

use crate::codec::{b64, b64_decode, b64_decoded, b64_encoded, lemma_b64_roundtrip, lemma_encoded_shape};
use crate::text::{chars_of, push_str, slice_chars, string_of};

verus! {

/// The length of a session key, in bytes.
pub const SESSION_KEY_LEN: usize = 32;

pub open spec fn key_payload_text(key: Seq<u8>, salt: Seq<u8>) -> Seq<char> {
    b64_encoded(key) + ":"@ + b64_encoded(salt)
}

pub open spec fn missing_salt_text() -> Seq<char> {
    "会话密钥缺少派生 salt：拒绝写出无法用主密码恢复的备份"@
}

/// The stored form of a key and its salt; an empty salt is refused.
pub fn session_key_payload(key: &[u8], salt: &[u8]) -> (r: Result<String, String>)
    ensures
        salt@.len() == 0 ==> (r matches Err(e) && e@ == missing_salt_text()),
        salt@.len() > 0 ==> (r matches Ok(s) && s@ == key_payload_text(key@, salt@)),
{
    if salt.len() == 0 {
        return Err(string_of(chars_of("会话密钥缺少派生 salt：拒绝写出无法用主密码恢复的备份").as_slice()));
    }
    let k = b64(key);
    let s = b64(salt);
    let mut v = chars_of(k.as_str());
    push_str(&mut v, ":");
    push_str(&mut v, s.as_str());
    proof {
        reveal_strlit(":");
    }
    Ok(string_of(v.as_slice()))
}

/// Position of the first `:`.
pub open spec fn colon_pos(s: Seq<char>) -> Option<int>
    decreases s.len(),
{
    if s.len() == 0 {
        None
    } else if s[0] == ':' {
        Some(0)
    } else {
        match colon_pos(s.drop_first()) {
            Some(i) => Some(i + 1),
            None => None,
        }
    }
}

proof fn lemma_colon_pos(s: Seq<char>, i: int)
    requires
        0 <= i <= s.len(),
        forall|j: int| 0 <= j < i ==> #[trigger] s[j] != ':',
        i < s.len() ==> s[i] == ':',
    ensures
        colon_pos(s) == (if i < s.len() {
            Some(i)
        } else {
            None::<int>
        }),
    decreases s.len(),
{
    if s.len() > 0 && i > 0 {
        let t = s.drop_first();
        assert forall|j: int| 0 <= j < i - 1 implies #[trigger] t[j] != ':' by {
            assert(t[j] == s[j + 1]);
        }
        lemma_colon_pos(t, i - 1);
    }
}

pub open spec fn corrupt_payload_text() -> Seq<char> {
    "会话密钥载荷格式损坏"@
}

pub open spec fn bad_key_length_text() -> Seq<char> {
    "会话密钥长度异常"@
}

pub open spec fn salt_lost_text() -> Seq<char> {
    "本机会话密钥缺少派生 salt（无法写出可用主密码恢复的备份）：请关闭并重新启用自动同步"@
}

/// What a stored payload reads as: the key (32 bytes) and its non-empty salt.
pub open spec fn parsed_key_material(s: Seq<char>) -> Result<(Seq<u8>, Seq<u8>), Seq<char>> {
    match colon_pos(s) {
        None => Err(corrupt_payload_text()),
        Some(i) => match b64_decoded(s.take(i)) {
            Err(e) => Err(e),
            Ok(k) => if k.len() != SESSION_KEY_LEN {
                Err(bad_key_length_text())
            } else {
                match b64_decoded(s.skip(i + 1)) {
                    Err(e) => Err(e),
                    Ok(salt) => if salt.len() == 0 {
                        Err(salt_lost_text())
                    } else {
                        Ok((k, salt))
                    },
                }
            },
        },
    }
}

fn find_colon(c: &[char]) -> (r: Option<usize>)
    ensures
        match r {
            Some(i) => colon_pos(c@) == Some(i as int) && i < c@.len(),
            None => colon_pos(c@) is None,
        },
{
    let mut i: usize = 0;
    while i < c.len()
        invariant
            i <= c@.len(),
            forall|j: int| 0 <= j < i ==> #[trigger] c@[j] != ':',
        decreases c.len() - i,
    {
        if c[i] == ':' {
            proof {
                lemma_colon_pos(c@, i as int);
            }
            return Some(i);
        }
        i += 1;
    }
    proof {
        lemma_colon_pos(c@, c@.len() as int);
    }
    None
}

/// Reads a stored payload (see `parsed_key_material`).
pub fn parse_session_key_material(payload: &str) -> (r: Result<(Vec<u8>, Vec<u8>), String>)
    ensures
        match parsed_key_material(payload@) {
            Ok((k, s)) => r matches Ok((kv, sv)) && kv@ == k && sv@ == s,
            Err(e) => r matches Err(m) && m@ == e,
        },
{
    let c = chars_of(payload);
    let n = c.len();
    let i = match find_colon(c.as_slice()) {
        Some(i) => i,
        None => return Err(string_of(chars_of("会话密钥载荷格式损坏").as_slice())),
    };
    assert(i < n);
    let key_part = string_of(slice_chars(c.as_slice(), 0, i).as_slice());
    let salt_part = string_of(slice_chars(c.as_slice(), i + 1, n).as_slice());
    proof {
        assert(c@.subrange(0, i as int) =~= payload@.take(i as int));
        assert(c@.subrange(i + 1, c@.len() as int) =~= payload@.skip(i + 1));
    }
    let key = b64_decode(key_part.as_str())?;
    if key.len() != SESSION_KEY_LEN {
        return Err(string_of(chars_of("会话密钥长度异常").as_slice()));
    }
    let salt = b64_decode(salt_part.as_str())?;
    if salt.len() == 0 {
        return Err(string_of(chars_of(
            "本机会话密钥缺少派生 salt（无法写出可用主密码恢复的备份）：请关闭并重新启用自动同步",
        ).as_slice()));
    }
    Ok((key, salt))
}

/// The key and its salt from what the secret store holds under the session key
/// id (`None`: automatic synchronisation is not enabled).
pub fn read_session_key_material(stored: Option<String>) -> (r: Result<Option<(Vec<u8>, Vec<u8>)>, String>)
    ensures
        match stored {
            None => r matches Ok(None),
            Some(p) => match parsed_key_material(p@) {
                Ok((k, s)) => r matches Ok(Some((kv, sv))) && kv@ == k && sv@ == s,
                Err(e) => r matches Err(m) && m@ == e,
            },
        },
{
    match stored {
        None => Ok(None),
        Some(p) => {
            let (key, salt) = parse_session_key_material(p.as_str())?;
            Ok(Some((key, salt)))
        },
    }
}

/// The session key alone (see `read_session_key_material`).
pub fn read_session_key(stored: Option<String>) -> (r: Result<Option<Vec<u8>>, String>)
    ensures
        match stored {
            None => r matches Ok(None),
            Some(p) => match parsed_key_material(p@) {
                Ok((k, _)) => r matches Ok(Some(kv)) && kv@ == k,
                Err(e) => r matches Err(m) && m@ == e,
            },
        },
{
    match read_session_key_material(stored)? {
        None => Ok(None),
        Some((key, _salt)) => Ok(Some(key)),
    }
}

/// Law: a key and salt written as a payload read back as themselves.
pub proof fn lemma_key_payload_roundtrip(key: Seq<u8>, salt: Seq<u8>)
    requires
        key.len() == SESSION_KEY_LEN,
        salt.len() > 0,
    ensures
        parsed_key_material(key_payload_text(key, salt)) == Ok::<(Seq<u8>, Seq<u8>), Seq<char>>((key, salt)),
{
    let ek = b64_encoded(key);
    let es = b64_encoded(salt);
    let p = key_payload_text(key, salt);
    reveal_strlit(":");
    lemma_encoded_shape(key);
    assert forall|j: int| 0 <= j < ek.len() implies #[trigger] p[j] != ':' by {
        assert(p[j] == ek[j]);
        assert(crate::codec::b64_allowed(ek[j]));
    }
    assert(p[ek.len() as int] == ':');
    lemma_colon_pos(p, ek.len() as int);
    assert(p.take(ek.len() as int) =~= ek);
    assert(p.skip(ek.len() as int + 1) =~= es);
    lemma_b64_roundtrip(key);
    lemma_b64_roundtrip(salt);
}

/// Whether the saved recovery password must be dropped because the master
/// password in use is another one (it would no longer open the backup); a
/// failed read drops nothing.
pub fn stale_recovery_password(saved: &Result<Option<String>, String>, used: &str) -> (r: bool)
    ensures
        r == (match *saved {
            Ok(Some(s)) => s@ != used@,
            _ => false,
        }),
{
    match saved {
        Ok(Some(s)) => !crate::text::same_text(s.as_str(), used),
        _ => false,
    }
}

} // verus!
