//! Standard base64 (with `=` padding) for the stored sync session key, and the
//! lowercase hex form of host-key fingerprints.
use vstd::prelude::*;

use crate::text::{chars_of, char_is_ws, decimal, is_ws, push_decimal, push_str, string_of};

verus! {

// ─── alphabet ───

/// The base64 character for the 6-bit value `v`.
pub open spec fn b64_char(v: int) -> char {
    if v < 26 {
        (65 + v) as char
    } else if v < 52 {
        (97 + v - 26) as char
    } else if v < 62 {
        (48 + v - 52) as char
    } else if v == 62 {
        '+'
    } else {
        '/'
    }
}

/// The 6-bit value of a base64 character.
pub open spec fn b64_value(c: char) -> Option<int> {
    let u = c as int;
    if 65 <= u <= 90 {
        Some(u - 65)
    } else if 97 <= u <= 122 {
        Some(u - 97 + 26)
    } else if 48 <= u <= 57 {
        Some(u - 48 + 52)
    } else if c == '+' {
        Some(62)
    } else if c == '/' {
        Some(63)
    } else {
        None
    }
}

fn b64_char_exec(v: u8) -> (c: char)
    requires
        v < 64,
    ensures
        c == b64_char(v as int),
{
    let b: u8 = if v < 26 {
        65 + v
    } else if v < 52 {
        97 + v - 26
    } else if v < 62 {
        48 + v - 52
    } else if v == 62 {
        43
    } else {
        47
    };
    b as char
}

fn b64_value_exec(c: char) -> (r: Option<u8>)
    ensures
        match b64_value(c) {
            Some(v) => r matches Some(x) && x as int == v && x < 64,
            None => r is None,
        },
{
    let u = c as u32;
    if 65 <= u && u <= 90 {
        Some((u - 65) as u8)
    } else if 97 <= u && u <= 122 {
        Some((u - 97 + 26) as u8)
    } else if 48 <= u && u <= 57 {
        Some((u - 48 + 52) as u8)
    } else if c == '+' {
        Some(62)
    } else if c == '/' {
        Some(63)
    } else {
        None
    }
}

proof fn lemma_b64_char_value(v: int)
    requires
        0 <= v < 64,
    ensures
        b64_value(b64_char(v)) == Some(v),
        !is_ws(b64_char(v)),
        b64_char(v) != '=',
{
}

// ─── encoding ───

/// The four characters of a chunk of one to three bytes.
pub open spec fn encode_chunk(c: Seq<u8>) -> Seq<char> {
    let b0 = c[0] as int;
    let b1 = if c.len() > 1 {
        c[1] as int
    } else {
        0
    };
    let b2 = if c.len() > 2 {
        c[2] as int
    } else {
        0
    };
    seq![
        b64_char(b0 / 4),
        b64_char((b0 % 4) * 16 + b1 / 16),
        if c.len() > 1 {
            b64_char((b1 % 16) * 4 + b2 / 64)
        } else {
            '='
        },
        if c.len() > 2 {
            b64_char(b2 % 64)
        } else {
            '='
        },
    ]
}

/// Standard base64 of `d`, padded with `=`.
pub open spec fn b64_encoded(d: Seq<u8>) -> Seq<char>
    decreases d.len(),
{
    if d.len() == 0 {
        Seq::<char>::empty()
    } else if d.len() <= 3 {
        encode_chunk(d)
    } else {
        encode_chunk(d.take(3)) + b64_encoded(d.skip(3))
    }
}

/// Standard base64 of `data`, padded with `=`.
pub fn b64(data: &[u8]) -> (r: String)
    ensures
        r@ == b64_encoded(data@),
{
    let mut out: Vec<char> = Vec::new();
    let mut i: usize = 0;
    assert(data@.skip(0) =~= data@);
    assert(out@ + b64_encoded(data@) =~= b64_encoded(data@));
    while i < data.len()
        invariant
            i <= data@.len(),
            out@ + b64_encoded(data@.skip(i as int)) == b64_encoded(data@),
        decreases data.len() - i,
    {
        let rest = data.len() - i;
        let b0 = data[i];
        let b1: u8 = if rest > 1 {
            data[i + 1]
        } else {
            0
        };
        let b2: u8 = if rest > 2 {
            data[i + 2]
        } else {
            0
        };
        let ghost r = data@.skip(i as int);
        let ghost chunk = if rest <= 3 {
            r
        } else {
            r.take(3)
        };
        let c0 = b64_char_exec(b0 / 4);
        let c1 = b64_char_exec((b0 % 4) * 16 + b1 / 16);
        let c2 = if rest > 1 {
            b64_char_exec((b1 % 16) * 4 + b2 / 64)
        } else {
            '='
        };
        let c3 = if rest > 2 {
            b64_char_exec(b2 % 64)
        } else {
            '='
        };
        let ghost before = out@;
        out.push(c0);
        out.push(c1);
        out.push(c2);
        out.push(c3);
        proof {
            assert(chunk[0] == b0);
            assert(chunk.len() > 1 ==> chunk[1] == b1);
            assert(chunk.len() > 2 ==> chunk[2] == b2);
            assert(out@ =~= before + encode_chunk(chunk));
            if rest <= 3 {
                assert(data@.skip(data@.len() as int) =~= Seq::<u8>::empty());
            } else {
                assert(r.skip(3) =~= data@.skip(i as int + 3));
            }
        }
        i = if rest > 3 {
            i + 3
        } else {
            data.len()
        };
        assert(out@ + b64_encoded(data@.skip(i as int)) =~= b64_encoded(data@));
    }
    assert(data@.skip(data@.len() as int) =~= Seq::<u8>::empty());
    assert(out@ =~= b64_encoded(data@));
    string_of(out.as_slice())
}

// ─── decoding ───

/// The characters of `s` that are not whitespace, in order.
pub open spec fn ws_free(s: Seq<char>) -> Seq<char>
    decreases s.len(),
{
    if s.len() == 0 {
        Seq::<char>::empty()
    } else if is_ws(s.last()) {
        ws_free(s.drop_last())
    } else {
        ws_free(s.drop_last()).push(s.last())
    }
}

/// Bytes of `c` in UTF-8.
pub open spec fn utf8_len(c: char) -> nat {
    if (c as int) < 0x80 {
        1
    } else if (c as int) < 0x800 {
        2
    } else if (c as int) < 0x10000 {
        3
    } else {
        4
    }
}

/// Bytes of `s` in UTF-8.
pub open spec fn utf8_bytes(s: Seq<char>) -> nat
    decreases s.len(),
{
    if s.len() == 0 {
        0
    } else {
        utf8_bytes(s.drop_last()) + utf8_len(s.last())
    }
}

/// The first UTF-8 byte of `c`, as the character of that code (what
/// `byte as char` shows of it).
pub open spec fn lead_byte_char(c: char) -> char {
    let u = c as int;
    if u < 0x80 {
        c
    } else if u < 0x800 {
        (0xC0 + u / 64) as char
    } else if u < 0x10000 {
        (0xE0 + u / 4096) as char
    } else {
        (0xF0 + u / 262144) as char
    }
}

/// A character allowed in base64 text: the alphabet or the padding `=`.
pub open spec fn b64_allowed(c: char) -> bool {
    c == '=' || b64_value(c) is Some
}

/// Position of the first character that is not allowed.
pub open spec fn first_bad(s: Seq<char>) -> Option<int>
    decreases s.len(),
{
    if s.len() == 0 {
        None
    } else if !b64_allowed(s[0]) {
        Some(0)
    } else {
        match first_bad(s.drop_first()) {
            Some(i) => Some(i + 1),
            None => None,
        }
    }
}

proof fn lemma_first_bad(s: Seq<char>, i: int)
    requires
        0 <= i <= s.len(),
        forall|j: int| 0 <= j < i ==> b64_allowed(#[trigger] s[j]),
        i < s.len() ==> !b64_allowed(s[i]),
    ensures
        first_bad(s) == (if i < s.len() {
            Some(i)
        } else {
            None::<int>
        }),
    decreases s.len(),
{
    if s.len() > 0 && i > 0 {
        let t = s.drop_first();
        assert forall|j: int| 0 <= j < i - 1 implies b64_allowed(#[trigger] t[j]) by {
            assert(t[j] == s[j + 1]);
        }
        lemma_first_bad(t, i - 1);
    }
}

/// The 6-bit value of an allowed character (`=` counts as 0).
pub open spec fn quad_value(c: char) -> int {
    match b64_value(c) {
        Some(v) => v,
        None => 0,
    }
}

/// The bytes of a group of four allowed characters: three, less one per `=`
/// in the group (at most two dropped).
pub open spec fn decode_quad(q: Seq<char>) -> Seq<u8> {
    let v0 = quad_value(q[0]);
    let v1 = quad_value(q[1]);
    let v2 = quad_value(q[2]);
    let v3 = quad_value(q[3]);
    let pad = (if q[0] == '=' {
        1int
    } else {
        0
    }) + (if q[1] == '=' {
        1int
    } else {
        0
    }) + (if q[2] == '=' {
        1int
    } else {
        0
    }) + (if q[3] == '=' {
        1int
    } else {
        0
    });
    let b0 = (v0 * 4 + v1 / 16) as u8;
    let b1 = ((v1 % 16) * 16 + v2 / 4) as u8;
    let b2 = ((v2 % 4) * 64 + v3) as u8;
    if pad >= 2 {
        seq![b0]
    } else if pad == 1 {
        seq![b0, b1]
    } else {
        seq![b0, b1, b2]
    }
}

/// The bytes of allowed base64 text, group by group.
pub open spec fn decode_groups(t: Seq<char>) -> Seq<u8>
    decreases t.len(),
{
    if t.len() < 4 {
        Seq::<u8>::empty()
    } else {
        decode_quad(t.take(4)) + decode_groups(t.skip(4))
    }
}

/// What `b64_decode` gives for `s`: whitespace is ignored; the UTF-8 length of
/// the rest must be a multiple of four; every character must be in the
/// alphabet or `=`.
pub open spec fn b64_decoded(s: Seq<char>) -> Result<Seq<u8>, Seq<char>> {
    let t = ws_free(s);
    if utf8_bytes(t) % 4 != 0 {
        Err("invalid base64 length: "@ + decimal(utf8_bytes(t)))
    } else {
        match first_bad(t) {
            Some(i) => Err("invalid base64 char: "@ + seq![lead_byte_char(t[i])]),
            None => Ok(decode_groups(t)),
        }
    }
}

proof fn lemma_ascii_bytes(t: Seq<char>)
    requires
        forall|j: int| 0 <= j < t.len() ==> b64_allowed(#[trigger] t[j]),
    ensures
        utf8_bytes(t) == t.len(),
    decreases t.len(),
{
    if t.len() > 0 {
        assert(b64_allowed(t[t.len() - 1]));
        lemma_ascii_bytes(t.drop_last());
    }
}

// ─── base64url without padding ───

/// The URL-safe character for a standard base64 one (`+` → `-`, `/` → `_`).
pub open spec fn url_safe(c: char) -> char {
    if c == '+' {
        '-'
    } else if c == '/' {
        '_'
    } else {
        c
    }
}

/// Standard base64 text made URL-safe, its `=` padding dropped.
pub open spec fn url_nopad(s: Seq<char>) -> Seq<char>
    decreases s.len(),
{
    if s.len() == 0 {
        Seq::<char>::empty()
    } else if s.last() == '=' {
        url_nopad(s.drop_last())
    } else {
        url_nopad(s.drop_last()).push(url_safe(s.last()))
    }
}

/// base64url of `d` without padding (RFC 4648 section 5).
pub open spec fn b64url_nopad(d: Seq<u8>) -> Seq<char> {
    url_nopad(b64_encoded(d))
}

/// base64url of `data` without padding.
pub fn b64url(data: &[u8]) -> (r: String)
    ensures
        r@ == b64url_nopad(data@),
{
    let e = b64(data);
    let c = chars_of(e.as_str());
    let mut out: Vec<char> = Vec::new();
    let mut i: usize = 0;
    while i < c.len()
        invariant
            i <= c@.len(),
            c@ == b64_encoded(data@),
            out@ == url_nopad(c@.take(i as int)),
        decreases c.len() - i,
    {
        proof {
            assert(c@.take(i + 1).drop_last() =~= c@.take(i as int));
        }
        let ch = c[i];
        if ch != '=' {
            out.push(if ch == '+' {
                '-'
            } else if ch == '/' {
                '_'
            } else {
                ch
            });
        }
        i += 1;
    }
    proof {
        assert(c@.take(c@.len() as int) =~= c@);
    }
    string_of(out.as_slice())
}

pub fn utf8_len_exec(c: char) -> (n: u128)
    ensures
        n == utf8_len(c),
{
    let u = c as u32;
    if u < 0x80 {
        1
    } else if u < 0x800 {
        2
    } else if u < 0x10000 {
        3
    } else {
        4
    }
}

/// Bytes of `s` in UTF-8 (`str::len`).
pub fn utf8_byte_len(s: &str) -> (n: u128)
    ensures
        n == utf8_bytes(s@),
        n <= 4 * (usize::MAX as int),
{
    let c = chars_of(s);
    let mut n: u128 = 0;
    let mut i: usize = 0;
    while i < c.len()
        invariant
            i <= c@.len(),
            n == utf8_bytes(c@.take(i as int)),
            n <= 4 * i,
        decreases c.len() - i,
    {
        assert(c@.take(i + 1).drop_last() =~= c@.take(i as int));
        n = n + utf8_len_exec(c[i]);
        i += 1;
    }
    assert(c@.take(c@.len() as int) =~= c@);
    n
}

fn lead_byte_char_exec(c: char) -> (r: char)
    ensures
        r == lead_byte_char(c),
{
    let u = c as u32;
    if u < 0x80 {
        c
    } else if u < 0x800 {
        ((0xC0 + u / 64) as u8) as char
    } else if u < 0x10000 {
        ((0xE0 + u / 4096) as u8) as char
    } else {
        ((0xF0 + u / 262144) as u8) as char
    }
}

fn decode_one(q0: char, q1: char, q2: char, q3: char) -> (r: Vec<u8>)
    requires
        b64_allowed(q0),
        b64_allowed(q1),
        b64_allowed(q2),
        b64_allowed(q3),
    ensures
        r@ == decode_quad(seq![q0, q1, q2, q3]),
{
    let v0: u8 = match b64_value_exec(q0) {
        Some(v) => v,
        None => 0,
    };
    let v1: u8 = match b64_value_exec(q1) {
        Some(v) => v,
        None => 0,
    };
    let v2: u8 = match b64_value_exec(q2) {
        Some(v) => v,
        None => 0,
    };
    let v3: u8 = match b64_value_exec(q3) {
        Some(v) => v,
        None => 0,
    };
    let pad: u8 = (if q0 == '=' {
        1u8
    } else {
        0
    }) + (if q1 == '=' {
        1u8
    } else {
        0
    }) + (if q2 == '=' {
        1u8
    } else {
        0
    }) + (if q3 == '=' {
        1u8
    } else {
        0
    });
    let ghost q = seq![q0, q1, q2, q3];
    assert(q[0] == q0 && q[1] == q1 && q[2] == q2 && q[3] == q3);
    assert(v0 as int == quad_value(q0) && v0 < 64);
    assert(v1 as int == quad_value(q1) && v1 < 64);
    assert(v2 as int == quad_value(q2) && v2 < 64);
    assert(v3 as int == quad_value(q3) && v3 < 64);
    let b0: u8 = v0 * 4 + v1 / 16;
    let b1: u8 = (v1 % 16) * 16 + v2 / 4;
    let b2: u8 = (v2 % 4) * 64 + v3;
    let mut out: Vec<u8> = Vec::new();
    out.push(b0);
    if pad < 2 {
        out.push(b1);
    }
    if pad < 1 {
        out.push(b2);
    }
    assert(out@ =~= decode_quad(q));
    out
}

/// Decodes standard base64 text (whitespace ignored). Errors: the text without
/// whitespace is not a multiple of four bytes long, or holds a character
/// outside the alphabet and `=`.
pub fn b64_decode(s: &str) -> (r: Result<Vec<u8>, String>)
    ensures
        match b64_decoded(s@) {
            Ok(d) => r matches Ok(v) && v@ == d,
            Err(e) => r matches Err(m) && m@ == e,
        },
{
    let chars = chars_of(s);
    let mut t: Vec<char> = Vec::new();
    let mut nbytes: u128 = 0;
    let mut i: usize = 0;
    while i < chars.len()
        invariant
            i <= chars@.len(),
            chars@ == s@,
            t@ == ws_free(chars@.take(i as int)),
            nbytes == utf8_bytes(t@),
            nbytes <= 4 * t@.len(),
            t@.len() <= i,
        decreases chars.len() - i,
    {
        let c = chars[i];
        proof {
            assert(chars@.take(i + 1).drop_last() =~= chars@.take(i as int));
            assert(chars@.take(i + 1).last() == c);
        }
        if !char_is_ws(c) {
            let ghost before = t@;
            t.push(c);
            proof {
                assert(t@.drop_last() =~= before);
            }
            nbytes = nbytes + utf8_len_exec(c);
        }
        i += 1;
    }
    proof {
        assert(chars@.take(chars@.len() as int) =~= chars@);
    }
    if nbytes % 4 != 0 {
        let mut m = chars_of("invalid base64 length: ");
        push_decimal(&mut m, nbytes);
        return Err(string_of(m.as_slice()));
    }
    let mut k: usize = 0;
    while k < t.len()
        invariant
            k <= t@.len(),
            t@ == ws_free(s@),
            utf8_bytes(t@) % 4 == 0,
            forall|j: int| 0 <= j < k ==> b64_allowed(#[trigger] t@[j]),
        decreases t.len() - k,
    {
        let c = t[k];
        let ok = c == '=' || b64_value_exec(c).is_some();
        if !ok {
            proof {
                lemma_first_bad(t@, k as int);
            }
            let mut m = chars_of("invalid base64 char: ");
            m.push(lead_byte_char_exec(c));
            assert(m@ =~= "invalid base64 char: "@ + seq![lead_byte_char(t@[k as int])]);
            return Err(string_of(m.as_slice()));
        }
        k += 1;
    }
    proof {
        lemma_first_bad(t@, t@.len() as int);
        lemma_ascii_bytes(t@);
    }
    let mut out: Vec<u8> = Vec::new();
    let mut g: usize = 0;
    assert(t@.skip(0) =~= t@);
    assert(out@ + decode_groups(t@) =~= decode_groups(t@));
    while g < t.len()
        invariant
            g <= t@.len(),
            t@.len() % 4 == 0,
            g % 4 == 0,
            forall|j: int| 0 <= j < t@.len() ==> b64_allowed(#[trigger] t@[j]),
            out@ + decode_groups(t@.skip(g as int)) == decode_groups(t@),
        decreases t.len() - g,
    {
        let ghost rest = t@.skip(g as int);
        let q = decode_one(t[g], t[g + 1], t[g + 2], t[g + 3]);
        let ghost before = out@;
        let mut qv = q;
        out.append(&mut qv);
        proof {
            assert(rest.take(4) =~= seq![t@[g as int], t@[g + 1], t@[g + 2], t@[g + 3]]);
            assert(rest.skip(4) =~= t@.skip(g as int + 4));
            assert(out@ + decode_groups(t@.skip(g as int + 4)) =~= decode_groups(t@));
        }
        g = g + 4;
    }
    proof {
        assert(t@.skip(g as int).len() == 0);
        assert(out@ =~= decode_groups(t@));
    }
    Ok(out)
}

// ─── round trip ───

proof fn lemma_ws_free_id(s: Seq<char>)
    requires
        forall|j: int| 0 <= j < s.len() ==> !is_ws(#[trigger] s[j]),
    ensures
        ws_free(s) == s,
    decreases s.len(),
{
    if s.len() > 0 {
        assert(!is_ws(s[s.len() - 1]));
        lemma_ws_free_id(s.drop_last());
        assert(s.drop_last().push(s.last()) =~= s);
    }
}

proof fn lemma_encode_chunk(c: Seq<u8>)
    requires
        1 <= c.len() <= 3,
    ensures
        encode_chunk(c).len() == 4,
        forall|j: int| 0 <= j < 4 ==> b64_allowed(#[trigger] encode_chunk(c)[j]),
        forall|j: int| 0 <= j < 4 ==> !is_ws(#[trigger] encode_chunk(c)[j]),
        decode_quad(encode_chunk(c)) == c,
{
    let b0 = c[0] as int;
    let b1 = if c.len() > 1 {
        c[1] as int
    } else {
        0
    };
    let b2 = if c.len() > 2 {
        c[2] as int
    } else {
        0
    };
    let v0 = b0 / 4;
    let v1 = (b0 % 4) * 16 + b1 / 16;
    let v2 = (b1 % 16) * 4 + b2 / 64;
    let v3 = b2 % 64;
    lemma_b64_char_value(v0);
    lemma_b64_char_value(v1);
    lemma_b64_char_value(v2);
    lemma_b64_char_value(v3);
    let e = encode_chunk(c);
    assert(quad_value(e[0]) == v0);
    assert(quad_value(e[1]) == v1);
    assert(v0 * 4 + v1 / 16 == b0);
    assert((v1 % 16) * 16 + v2 / 4 == b1);
    assert((v2 % 4) * 64 + v3 == b2);
    if c.len() == 1 {
        assert(decode_quad(e) =~= c);
    } else if c.len() == 2 {
        assert(quad_value(e[2]) == v2);
        assert(decode_quad(e) =~= c);
    } else {
        assert(quad_value(e[2]) == v2);
        assert(quad_value(e[3]) == v3);
        assert(decode_quad(e) =~= c);
    }
}

pub(crate) proof fn lemma_encoded_shape(d: Seq<u8>)
    ensures
        b64_encoded(d).len() % 4 == 0,
        forall|j: int| 0 <= j < b64_encoded(d).len() ==> b64_allowed(#[trigger] b64_encoded(d)[j]),
        forall|j: int| 0 <= j < b64_encoded(d).len() ==> !is_ws(#[trigger] b64_encoded(d)[j]),
        decode_groups(b64_encoded(d)) == d,
    decreases d.len(),
{
    if d.len() == 0 {
    } else if d.len() <= 3 {
        lemma_encode_chunk(d);
        let e = encode_chunk(d);
        assert(e.take(4) =~= e);
        assert(decode_groups(e.skip(4)) =~= Seq::<u8>::empty());
        assert(decode_groups(e) =~= decode_quad(e));
    } else {
        let head = d.take(3);
        let tail = d.skip(3);
        lemma_encode_chunk(head);
        lemma_encoded_shape(tail);
        let e = encode_chunk(head);
        let r = b64_encoded(tail);
        let all = e + r;
        assert(all.take(4) =~= e);
        assert(all.skip(4) =~= r);
        assert forall|j: int| 0 <= j < all.len() implies b64_allowed(#[trigger] all[j]) && !is_ws(
            all[j],
        ) by {
            if j < 4 {
                assert(all[j] == e[j]);
            } else {
                assert(all[j] == r[j - 4]);
            }
        }
        assert(head + tail =~= d);
    }
}

/// Law: decoding what `b64` encodes gives the bytes back.
pub proof fn lemma_b64_roundtrip(d: Seq<u8>)
    ensures
        b64_decoded(b64_encoded(d)) == Ok::<Seq<u8>, Seq<char>>(d),
{
    let e = b64_encoded(d);
    lemma_encoded_shape(d);
    lemma_ws_free_id(e);
    lemma_ascii_bytes(e);
    lemma_first_bad(e, e.len() as int);
}

// ─── hex ───

/// The lowercase hex digit of `v` (0 to 15).
pub open spec fn hex_digit(v: int) -> char {
    if v < 10 {
        (48 + v) as char
    } else {
        (87 + v) as char
    }
}

/// Two lowercase hex digits per byte (`{:02x}`).
pub open spec fn hex_of(bytes: Seq<u8>) -> Seq<char>
    decreases bytes.len(),
{
    if bytes.len() == 0 {
        Seq::<char>::empty()
    } else {
        hex_of(bytes.drop_last()).push(hex_digit(bytes.last() as int / 16)).push(
            hex_digit(bytes.last() as int % 16),
        )
    }
}

/// Two hex digits per byte.
pub proof fn lemma_hex_len(bytes: Seq<u8>)
    ensures
        hex_of(bytes).len() == 2 * bytes.len(),
    decreases bytes.len(),
{
    if bytes.len() > 0 {
        lemma_hex_len(bytes.drop_last());
    }
}

fn hex_digit_exec(v: u8) -> (c: char)
    requires
        v < 16,
    ensures
        c == hex_digit(v as int),
{
    if v < 10 {
        (48 + v) as char
    } else {
        (87 + v) as char
    }
}

/// Lowercase hex of `bytes`, two digits per byte.
pub fn bytes_to_hex(bytes: &[u8]) -> (r: String)
    ensures
        r@ == hex_of(bytes@),
{
    let mut v: Vec<char> = Vec::new();
    let mut i: usize = 0;
    while i < bytes.len()
        invariant
            i <= bytes@.len(),
            v@ == hex_of(bytes@.take(i as int)),
        decreases bytes.len() - i,
    {
        let b = bytes[i];
        proof {
            assert(bytes@.take(i + 1).drop_last() =~= bytes@.take(i as int));
        }
        v.push(hex_digit_exec(b / 16));
        v.push(hex_digit_exec(b % 16));
        i += 1;
    }
    assert(bytes@.take(bytes@.len() as int) =~= bytes@);
    string_of(v.as_slice())
}

} // verus!
