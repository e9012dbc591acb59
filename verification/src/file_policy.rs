//! Remote file safety policy: path normalisation, sensitive-credential paths and
//! catastrophic removal targets.
//!
//! Paths are normalised before any judgement (`.` / `..` / repeated slashes are
//! folded), so that `/home/user/../../etc/shadow` is judged as `/etc/shadow`.
use vstd::prelude::*;

use crate::text::{
    chars_of, contains_str, ends_with_str, eq_str, has_infix, has_prefix, has_suffix, join_with,
    lower_ascii, lower_ascii_chars, push_all, split_on, starts_with_str, string_of, trim, trim_chars,
    is_ws, trim_end, trim_start,
};

verus! {

// ─── specification ───

/// `str::replace('\\', "/")`.
pub open spec fn backslash_to_slash(s: Seq<char>) -> Seq<char> {
    s.map_values(|c: char| if c == '\\' { '/' } else { c })
}

pub open spec fn dot() -> Seq<char> {
    seq!['.']
}

pub open spec fn dot_dot() -> Seq<char> {
    seq!['.', '.']
}

pub open spec fn slash() -> Seq<char> {
    seq!['/']
}

/// One step of the segment fold: empty and `.` segments are skipped, `..` pops
/// the last kept segment (staying at the top when there is none), any other
/// segment is kept.
pub open spec fn push_segment(parts: Seq<Seq<char>>, seg: Seq<char>) -> Seq<Seq<char>> {
    if seg.len() == 0 || seg == dot() {
        parts
    } else if seg == dot_dot() {
        if parts.len() == 0 {
            parts
        } else {
            parts.drop_last()
        }
    } else {
        parts.push(seg)
    }
}

/// The segment fold applied left to right.
pub open spec fn fold_segments(segs: Seq<Seq<char>>) -> Seq<Seq<char>>
    decreases segs.len(),
{
    if segs.len() == 0 {
        Seq::<Seq<char>>::empty()
    } else {
        push_segment(fold_segments(segs.drop_last()), segs.last())
    }
}

/// The trimmed path with backslashes turned into slashes.
pub open spec fn path_text(raw: Seq<char>) -> Seq<char> {
    backslash_to_slash(trim(raw))
}

/// The kept segments of a path.
pub open spec fn path_parts(raw: Seq<char>) -> Seq<Seq<char>> {
    fold_segments(split_on(path_text(raw), '/'))
}

pub open spec fn starts_with_slash(s: Seq<char>) -> bool {
    s.len() > 0 && s[0] == '/'
}

/// The normalised form of a remote path: `/` followed by the kept segments
/// for an absolute path, the kept segments joined by `/` for a relative one,
/// and `.` for a relative path that keeps nothing.
pub open spec fn normalized(raw: Seq<char>) -> Seq<char> {
    let parts = path_parts(raw);
    if starts_with_slash(path_text(raw)) {
        slash() + join_with(parts, slash())
    } else if parts.len() == 0 {
        dot()
    } else {
        join_with(parts, slash())
    }
}

/// The normalised path, ASCII-lower-cased, with a leading `/` added to a
/// relative path so that segment matches also apply to it.
pub open spec fn match_view(raw: Seq<char>) -> Seq<char> {
    let n = normalized(raw);
    if starts_with_slash(n) {
        lower_ascii(n)
    } else {
        slash() + lower_ascii(n)
    }
}

/// The last `/`-separated piece of `s`.
pub open spec fn last_piece(s: Seq<char>) -> Seq<char> {
    split_on(s, '/').last()
}

pub open spec fn is_exact_sensitive(lower: Seq<char>) -> bool {
    lower == "/etc/shadow"@ || lower == "/etc/gshadow"@ || lower == "/etc/master.passwd"@
        || lower == "/etc/sudoers"@
}

pub open spec fn is_host_key_file(lower: Seq<char>) -> bool {
    has_prefix(lower, "/etc/ssh/"@) && !has_suffix(lower, ".pub"@) && has_infix(lower, "key"@)
}

pub open spec fn is_user_private_key(lower: Seq<char>) -> bool {
    let f = last_piece(lower);
    has_infix(lower, "/.ssh/"@) && !has_suffix(f, ".pub"@) && !has_suffix(f, "known_hosts"@)
        && !has_suffix(f, "authorized_keys"@) && !has_suffix(f, "config"@) && (has_prefix(
        f,
        "id_"@,
    ) || has_suffix(f, ".pem"@) || has_suffix(f, ".key"@) || has_suffix(f, ".pkcs12"@)
        || has_suffix(f, ".p12"@))
}

pub open spec fn has_key_extension(lower: Seq<char>) -> bool {
    has_suffix(lower, ".pem"@) || has_suffix(lower, ".key"@) || has_suffix(lower, ".pkcs12"@)
        || has_suffix(lower, ".p12"@) || has_suffix(lower, ".pfx"@) || has_suffix(lower, ".kdbx"@)
}

pub open spec fn is_env_file(lower: Seq<char>) -> bool {
    let f = last_piece(lower);
    f == ".env"@ || f == ".env.local"@ || f == ".env.production"@ || f == ".env.staging"@ || f
        == ".env.secret"@ || f == "wp-config.php"@
}

/// A path whose content is a credential, private key or secret configuration.
pub open spec fn sensitive(raw: Seq<char>) -> bool {
    let lower = match_view(raw);
    is_exact_sensitive(lower) || is_host_key_file(lower) || is_user_private_key(lower)
        || has_key_extension(lower) || is_env_file(lower)
}

/// `s` without its trailing `c` characters (`str::trim_end_matches`).
pub open spec fn trim_end_char(s: Seq<char>, c: char) -> Seq<char>
    decreases s.len(),
{
    if s.len() > 0 && s.last() == c {
        trim_end_char(s.drop_last(), c)
    } else {
        s
    }
}

pub open spec fn is_dangerous_root(p: Seq<char>) -> bool {
    p.len() == 0 || p == "/bin"@ || p == "/boot"@ || p == "/dev"@ || p == "/etc"@ || p == "/lib"@
        || p == "/lib64"@ || p == "/proc"@ || p == "/root"@ || p == "/sbin"@ || p == "/sys"@ || p
        == "/usr"@ || p == "/var"@
}

/// A removal target that is the file-system root or a top-level system directory.
pub open spec fn catastrophic_removal(raw: Seq<char>) -> bool {
    is_dangerous_root(trim_end_char(normalized(raw), '/'))
}

// ─── executable ───

fn backslash_to_slash_exec(s: &[char]) -> (r: Vec<char>)
    ensures
        r@ == backslash_to_slash(s@),
{
    let mut r: Vec<char> = Vec::new();
    let mut i: usize = 0;
    while i < s.len()
        invariant
            i <= s@.len(),
            r@ == backslash_to_slash(s@.take(i as int)),
        decreases s.len() - i,
    {
        let c = s[i];
        r.push(if c == '\\' { '/' } else { c });
        i += 1;
        assert(r@ =~= backslash_to_slash(s@.take(i as int)));
    }
    assert(s@.take(s@.len() as int) =~= s@);
    r
}

pub open spec fn views(v: Seq<Vec<char>>) -> Seq<Seq<char>> {
    v.map_values(|x: Vec<char>| x@)
}

fn push_segment_exec(parts: &mut Vec<Vec<char>>, seg: Vec<char>)
    ensures
        views(final(parts)@) == push_segment(views(old(parts)@), seg@),
{
    let ghost old_views = views(parts@);
    if seg.len() == 0 || (seg.len() == 1 && seg[0] == '.') {
        proof {
            if seg@.len() == 1 && seg@[0] == '.' {
                assert(seg@ =~= dot());
            }
        }
    } else if seg.len() == 2 && seg[0] == '.' && seg[1] == '.' {
        assert(seg@ =~= dot_dot());
        assert(seg@ != dot());
        if parts.len() > 0 {
            parts.pop();
            assert(views(parts@) =~= old_views.drop_last());
        }
    } else {
        proof {
            if seg@ == dot() {
                assert(seg@[0] == '.');
            }
            if seg@ == dot_dot() {
                assert(seg@[0] == '.' && seg@[1] == '.');
            }
        }
        parts.push(seg);
        assert(views(parts@) =~= old_views.push(seg@));
    }
}

pub proof fn lemma_split_nonempty(s: Seq<char>, sep: char)
    ensures
        split_on(s, sep).len() >= 1,
    decreases s.len(),
{
    if s.len() > 0 {
        lemma_split_nonempty(s.drop_last(), sep);
    }
}

/// The kept segments of `s` (the split-and-fold of `normalize_remote_path`).
fn fold_path(s: &[char]) -> (parts: Vec<Vec<char>>)
    ensures
        views(parts@) == fold_segments(split_on(s@, '/')),
{
    let mut parts: Vec<Vec<char>> = Vec::new();
    let mut cur: Vec<char> = Vec::new();
    let mut i: usize = 0;
    proof {
        assert(s@.take(0) =~= Seq::<char>::empty());
        assert(split_on(Seq::<char>::empty(), '/').drop_last() =~= Seq::<Seq<char>>::empty());
    }
    while i < s.len()
        invariant
            i <= s@.len(),
            split_on(s@.take(i as int), '/').len() >= 1,
            views(parts@) == fold_segments(split_on(s@.take(i as int), '/').drop_last()),
            cur@ == split_on(s@.take(i as int), '/').last(),
        decreases s.len() - i,
    {
        let ghost sp = split_on(s@.take(i as int), '/');
        let ghost next = s@.take(i + 1);
        assert(next.drop_last() =~= s@.take(i as int));
        assert(next.last() == s@[i as int]);
        if s[i] == '/' {
            let seg = cur;
            cur = Vec::new();
            push_segment_exec(&mut parts, seg);
            proof {
                let nsp = split_on(next, '/');
                assert(nsp == sp.push(Seq::<char>::empty()));
                assert(nsp.drop_last() =~= sp);
                assert(sp =~= sp.drop_last().push(sp.last()));
                assert(cur@ =~= nsp.last());
            }
        } else {
            cur.push(s[i]);
            proof {
                let nsp = split_on(next, '/');
                assert(nsp == sp.update(sp.len() - 1, sp.last().push(s@[i as int])));
                assert(nsp.drop_last() =~= sp.drop_last());
            }
        }
        i += 1;
    }
    proof {
        let sp = split_on(s@, '/');
        assert(s@.take(s@.len() as int) =~= s@);
        assert(sp =~= sp.drop_last().push(sp.last()));
    }
    push_segment_exec(&mut parts, cur);
    proof {
        let sp = split_on(s@, '/');
        assert(sp.drop_last() == sp.drop_last().push(sp.last()).drop_last());
    }
    parts
}

/// `parts.join(sep)` appended to `out`.
fn push_joined(out: &mut Vec<char>, parts: &Vec<Vec<char>>, sep: char)
    ensures
        final(out)@ == old(out)@ + join_with(views(parts@), seq![sep]),
{
    let ghost start = out@;
    let mut k: usize = 0;
    proof {
        assert(views(parts@).take(0) =~= Seq::<Seq<char>>::empty());
        assert(out@ =~= start + join_with(views(parts@).take(0), seq![sep]));
    }
    while k < parts.len()
        invariant
            k <= parts@.len(),
            out@ == start + join_with(views(parts@).take(k as int), seq![sep]),
        decreases parts.len() - k,
    {
        let ghost before = out@;
        let ghost vs = views(parts@);
        if k > 0 {
            out.push(sep);
        }
        push_all(out, parts[k].as_slice());
        proof {
            let t = vs.take(k + 1);
            assert(t.drop_last() =~= vs.take(k as int));
            assert(t.last() == parts@[k as int]@);
            if k == 0 {
                assert(t.len() == 1);
                assert(out@ =~= start + join_with(t, seq![sep]));
            } else {
                assert(join_with(t, seq![sep]) == join_with(t.drop_last(), seq![sep]) + seq![sep]
                    + t.last());
                assert(out@ =~= start + join_with(t, seq![sep]));
            }
        }
        k += 1;
    }
    assert(views(parts@).take(parts@.len() as int) =~= views(parts@));
}

/// Normalises a character sequence as `normalize_remote_path` does.
pub fn normalize_chars(raw: &[char]) -> (r: Vec<char>)
    ensures
        r@ == normalized(raw@),
{
    let t = trim_chars(raw);
    let s = backslash_to_slash_exec(t.as_slice());
    let is_absolute = s.len() > 0 && s[0] == '/';
    let parts = fold_path(s.as_slice());
    let mut out: Vec<char> = Vec::new();
    if is_absolute {
        out.push('/');
        push_joined(&mut out, &parts, '/');
        assert(out@ =~= slash() + join_with(views(parts@), slash()));
    } else if parts.len() == 0 {
        out.push('.');
        assert(out@ =~= dot());
    } else {
        push_joined(&mut out, &parts, '/');
        assert(out@ =~= join_with(views(parts@), slash()));
    }
    out
}

/// Normalises a remote Unix-style path: trims it, turns `\` into `/`, folds
/// `.`, `..` and repeated slashes. `..` at the top stays at the top.
pub fn normalize_remote_path(raw: &str) -> (r: String)
    ensures
        r@ == normalized(raw@),
{
    let rc = chars_of(raw);
    let n = normalize_chars(rc.as_slice());
    string_of(n.as_slice())
}

/// The last `/`-separated piece of `s`.
fn last_piece_exec(s: &[char]) -> (r: Vec<char>)
    ensures
        r@ == last_piece(s@),
{
    let mut cur: Vec<char> = Vec::new();
    let mut i: usize = 0;
    proof {
        assert(s@.take(0) =~= Seq::<char>::empty());
    }
    while i < s.len()
        invariant
            i <= s@.len(),
            cur@ == split_on(s@.take(i as int), '/').last(),
        decreases s.len() - i,
    {
        let ghost next = s@.take(i + 1);
        assert(next.drop_last() =~= s@.take(i as int));
        proof {
            lemma_split_nonempty(s@.take(i as int), '/');
        }
        if s[i] == '/' {
            cur = Vec::new();
        } else {
            cur.push(s[i]);
        }
        i += 1;
    }
    assert(s@.take(s@.len() as int) =~= s@);
    cur
}

/// The lower-cased normalised path with a leading `/` (see `match_view`).
fn match_view_exec(raw: &[char]) -> (r: Vec<char>)
    ensures
        r@ == match_view(raw@),
{
    let n = normalize_chars(raw);
    let lower = lower_ascii_chars(n.as_slice());
    if n.len() > 0 && n[0] == '/' {
        lower
    } else {
        let mut v: Vec<char> = Vec::new();
        v.push('/');
        push_all(&mut v, lower.as_slice());
        assert(v@ =~= slash() + lower_ascii(n@));
        v
    }
}

fn is_user_private_key_exec(lower: &[char]) -> (b: bool)
    ensures
        b == is_user_private_key(lower@),
{
    let f = last_piece_exec(lower);
    let f = f.as_slice();
    contains_str(lower, "/.ssh/") && !ends_with_str(f, ".pub") && !ends_with_str(f, "known_hosts")
        && !ends_with_str(f, "authorized_keys") && !ends_with_str(f, "config") && (starts_with_str(
        f,
        "id_",
    ) || ends_with_str(f, ".pem") || ends_with_str(f, ".key") || ends_with_str(f, ".pkcs12")
        || ends_with_str(f, ".p12"))
}

fn is_env_file_exec(lower: &[char]) -> (b: bool)
    ensures
        b == is_env_file(lower@),
{
    let f = last_piece_exec(lower);
    let f = f.as_slice();
    eq_str(f, ".env") || eq_str(f, ".env.local") || eq_str(f, ".env.production") || eq_str(
        f,
        ".env.staging",
    ) || eq_str(f, ".env.secret") || eq_str(f, "wp-config.php")
}

/// Whether a remote path is a credential, private-key or secret-configuration
/// file (reading it always needs the user's approval; its content never enters
/// the execution log). The judgement is made on the normalised path.
pub fn is_sensitive_remote_path(raw_path: &str) -> (b: bool)
    ensures
        b == sensitive(raw_path@),
{
    let rc = chars_of(raw_path);
    let lower = match_view_exec(rc.as_slice());
    let l = lower.as_slice();
    let exact = eq_str(l, "/etc/shadow") || eq_str(l, "/etc/gshadow") || eq_str(
        l,
        "/etc/master.passwd",
    ) || eq_str(l, "/etc/sudoers");
    if exact {
        return true;
    }
    if starts_with_str(l, "/etc/ssh/") && !ends_with_str(l, ".pub") && contains_str(l, "key") {
        return true;
    }
    if is_user_private_key_exec(l) {
        return true;
    }
    let ext = ends_with_str(l, ".pem") || ends_with_str(l, ".key") || ends_with_str(l, ".pkcs12")
        || ends_with_str(l, ".p12") || ends_with_str(l, ".pfx") || ends_with_str(l, ".kdbx");
    if ext {
        return true;
    }
    is_env_file_exec(l)
}

fn trim_end_char_exec(s: &[char], c: char) -> (r: Vec<char>)
    ensures
        r@ == trim_end_char(s@, c),
{
    let mut j: usize = s.len();
    assert(s@.take(s@.len() as int) =~= s@);
    while j > 0 && s[j - 1] == c
        invariant
            j <= s@.len(),
            trim_end_char(s@, c) == trim_end_char(s@.take(j as int), c),
        decreases j,
    {
        assert(s@.take(j as int).drop_last() =~= s@.take(j - 1));
        j -= 1;
    }
    proof {
        assert(s@.take(s@.len() as int) =~= s@);
    }
    let r = slice_chars_prefix(s, j);
    r
}

fn slice_chars_prefix(s: &[char], j: usize) -> (r: Vec<char>)
    requires
        j <= s@.len(),
    ensures
        r@ == s@.take(j as int),
{
    let r = crate::text::slice_chars(s, 0, j);
    assert(s@.subrange(0, j as int) =~= s@.take(j as int));
    r
}

/// Whether removing this remote path would destroy the file-system root or a
/// top-level system directory (such a removal is refused at every level).
pub fn is_catastrophic_remote_removal(raw_path: &str) -> (b: bool)
    ensures
        b == catastrophic_removal(raw_path@),
{
    let rc = chars_of(raw_path);
    let n = normalize_chars(rc.as_slice());
    let t = trim_end_char_exec(n.as_slice(), '/');
    let p = t.as_slice();
    p.len() == 0 || eq_str(p, "/bin") || eq_str(p, "/boot") || eq_str(p, "/dev") || eq_str(p, "/etc")
        || eq_str(p, "/lib") || eq_str(p, "/lib64") || eq_str(p, "/proc") || eq_str(p, "/root")
        || eq_str(p, "/sbin") || eq_str(p, "/sys") || eq_str(p, "/usr") || eq_str(p, "/var")
}

// ─── laws ───

/// A kept segment: non-empty, neither `.` nor `..`, without separators.
pub open spec fn clean_segment(seg: Seq<char>) -> bool {
    seg.len() > 0 && seg != dot() && seg != dot_dot() && !seg.contains('/') && !seg.contains('\\')
}

proof fn lemma_split_pieces(s: Seq<char>, sep: char)
    ensures
        forall|i: int, k: int|
            0 <= i < split_on(s, sep).len() && 0 <= k < split_on(s, sep)[i].len() ==> split_on(
                s,
                sep,
            )[i][k] != sep && s.contains(#[trigger] split_on(s, sep)[i][k]),
    decreases s.len(),
{
    if s.len() > 0 {
        let t = s.drop_last();
        lemma_split_pieces(t, sep);
        lemma_split_nonempty(t, sep);
        let prev = split_on(t, sep);
        let cur = split_on(s, sep);
        assert forall|i: int, k: int|
            0 <= i < cur.len() && 0 <= k < cur[i].len() implies cur[i][k] != sep && s.contains(
            #[trigger] cur[i][k],
        ) by {
            if s.last() == sep {
                assert(cur == prev.push(Seq::<char>::empty()));
                assert(i < prev.len());
                assert(cur[i] == prev[i]);
                let j = choose|j: int| 0 <= j < t.len() && t[j] == prev[i][k];
                assert(s[j] == t[j]);
            } else {
                assert(cur == prev.update(prev.len() - 1, prev.last().push(s.last())));
                if i == prev.len() - 1 && k == prev.last().len() {
                    assert(cur[i][k] == s.last());
                    assert(s[s.len() - 1] == s.last());
                } else {
                    assert(cur[i][k] == prev[i][k]);
                    let j = choose|j: int| 0 <= j < t.len() && t[j] == prev[i][k];
                    assert(s[j] == t[j]);
                }
            }
        }
    }
}

proof fn lemma_split_single(p: Seq<char>, sep: char)
    requires
        !p.contains(sep),
    ensures
        split_on(p, sep) == seq![p],
    decreases p.len(),
{
    if p.len() == 0 {
        assert(p =~= Seq::<char>::empty());
        assert(seq![Seq::<char>::empty()] =~= seq![p]);
    } else {
        let t = p.drop_last();
        assert(!t.contains(sep)) by {
            if t.contains(sep) {
                let j = choose|j: int| 0 <= j < t.len() && t[j] == sep;
                assert(p[j] == sep);
            }
        }
        lemma_split_single(t, sep);
        assert(p.last() != sep) by {
            assert(p[p.len() - 1] == p.last());
        }
        assert(t.push(p.last()) =~= p);
        assert(split_on(p, sep) =~= seq![p]);
    }
}

proof fn lemma_split_concat(a: Seq<char>, b: Seq<char>, sep: char)
    ensures
        split_on(a + seq![sep] + b, sep) == split_on(a, sep) + split_on(b, sep),
    decreases b.len(),
{
    if b.len() == 0 {
        assert(a + seq![sep] + b =~= a.push(sep));
        assert((a.push(sep)).drop_last() =~= a);
        assert(split_on(a, sep).push(Seq::<char>::empty()) =~= split_on(a, sep) + seq![
            Seq::<char>::empty(),
        ]);
    } else {
        let bt = b.drop_last();
        lemma_split_concat(a, bt, sep);
        lemma_split_nonempty(bt, sep);
        let whole = a + seq![sep] + b;
        assert(whole.drop_last() =~= a + seq![sep] + bt);
        assert(whole.last() == b.last());
        let x = split_on(a, sep);
        let y = split_on(bt, sep);
        if b.last() == sep {
            assert(split_on(b, sep) == y.push(Seq::<char>::empty()));
            assert((x + y).push(Seq::<char>::empty()) =~= x + y.push(Seq::<char>::empty()));
        } else {
            assert(split_on(b, sep) == y.update(y.len() - 1, y.last().push(b.last())));
            assert((x + y).update((x + y).len() - 1, (x + y).last().push(b.last())) =~= x
                + y.update(y.len() - 1, y.last().push(b.last())));
        }
    }
}

proof fn lemma_split_join(parts: Seq<Seq<char>>, sep: char)
    requires
        parts.len() >= 1,
        forall|i: int| 0 <= i < parts.len() ==> !(#[trigger] parts[i]).contains(sep),
    ensures
        split_on(join_with(parts, seq![sep]), sep) == parts,
    decreases parts.len(),
{
    if parts.len() == 1 {
        lemma_split_single(parts[0], sep);
        assert(seq![parts[0]] =~= parts);
    } else {
        let pre = parts.drop_last();
        lemma_split_join(pre, sep);
        assert(!parts.last().contains(sep)) by {
            assert(parts[parts.len() - 1] == parts.last());
        }
        lemma_split_single(parts.last(), sep);
        lemma_split_concat(join_with(pre, seq![sep]), parts.last(), sep);
        assert(pre + seq![parts.last()] =~= parts);
    }
}

proof fn lemma_fold_append_clean(x: Seq<Seq<char>>, y: Seq<Seq<char>>)
    requires
        forall|i: int| 0 <= i < y.len() ==> clean_segment(#[trigger] y[i]),
    ensures
        fold_segments(x + y) == fold_segments(x) + y,
    decreases y.len(),
{
    if y.len() == 0 {
        assert(x + y =~= x);
        assert(fold_segments(x) + y =~= fold_segments(x));
    } else {
        let yt = y.drop_last();
        lemma_fold_append_clean(x, yt);
        assert((x + y).drop_last() =~= x + yt);
        assert((x + y).last() == y.last());
        assert(clean_segment(y.last())) by {
            assert(y[y.len() - 1] == y.last());
        }
        assert((fold_segments(x) + yt).push(y.last()) =~= fold_segments(x) + y);
    }
}

proof fn lemma_fold_clean(segs: Seq<Seq<char>>)
    requires
        forall|i: int|
            0 <= i < segs.len() ==> !(#[trigger] segs[i]).contains('/') && !segs[i].contains(
                '\\',
            ),
    ensures
        forall|i: int|
            0 <= i < fold_segments(segs).len() ==> clean_segment(#[trigger] fold_segments(segs)[i]),
    decreases segs.len(),
{
    if segs.len() > 0 {
        let t = segs.drop_last();
        assert forall|i: int| 0 <= i < t.len() implies !(#[trigger] t[i]).contains('/')
            && !t[i].contains('\\') by {
            assert(t[i] == segs[i]);
        }
        lemma_fold_clean(t);
        let prev = fold_segments(t);
        let seg = segs.last();
        assert(!seg.contains('/') && !seg.contains('\\')) by {
            assert(segs[segs.len() - 1] == seg);
        }
        let cur = fold_segments(segs);
        assert forall|i: int| 0 <= i < cur.len() implies clean_segment(#[trigger] cur[i]) by {
            if seg.len() == 0 || seg == dot() {
            } else if seg == dot_dot() {
                if prev.len() > 0 {
                    assert(cur[i] == prev[i]);
                }
            } else {
                if i < prev.len() {
                    assert(cur[i] == prev[i]);
                }
            }
        }
    }
}

proof fn lemma_parts_clean(raw: Seq<char>)
    ensures
        forall|i: int| 0 <= i < path_parts(raw).len() ==> clean_segment(#[trigger] path_parts(raw)[i]),
{
    let s = path_text(raw);
    lemma_split_pieces(s, '/');
    let sp = split_on(s, '/');
    assert forall|i: int| 0 <= i < sp.len() implies !(#[trigger] sp[i]).contains('/')
        && !sp[i].contains('\\') by {
        if sp[i].contains('/') {
            let k = choose|k: int| 0 <= k < sp[i].len() && sp[i][k] == '/';
            assert(sp[i][k] != '/');
        }
        if sp[i].contains('\\') {
            let k = choose|k: int| 0 <= k < sp[i].len() && sp[i][k] == '\\';
            assert(s.contains(sp[i][k]));
            let j = choose|j: int| 0 <= j < s.len() && s[j] == sp[i][k];
            assert(s[j] == (if trim(raw)[j] == '\\' { '/' } else { trim(raw)[j] }));
        }
    }
    lemma_fold_clean(sp);
}

proof fn lemma_join_avoids(parts: Seq<Seq<char>>, sep: char, c: char)
    requires
        sep != c,
        forall|i: int| 0 <= i < parts.len() ==> !(#[trigger] parts[i]).contains(c),
    ensures
        !join_with(parts, seq![sep]).contains(c),
    decreases parts.len(),
{
    if parts.len() == 1 {
        assert(!parts[0].contains(c));
    } else if parts.len() > 1 {
        let pre = parts.drop_last();
        assert forall|i: int| 0 <= i < pre.len() implies !(#[trigger] pre[i]).contains(c) by {
            assert(pre[i] == parts[i]);
        }
        lemma_join_avoids(pre, sep, c);
        let j = join_with(parts, seq![sep]);
        let a = join_with(pre, seq![sep]);
        let l = parts.last();
        assert(!l.contains(c)) by {
            assert(parts[parts.len() - 1] == l);
        }
        if j.contains(c) {
            let k = choose|k: int| 0 <= k < j.len() && j[k] == c;
            assert(j == a + seq![sep] + l);
            if k < a.len() {
                assert(j[k] == a[k]);
            } else if k == a.len() {
                assert(j[k] == sep);
            } else {
                assert(j[k] == l[k - a.len() - 1]);
            }
        }
    }
}

proof fn lemma_join_first(parts: Seq<Seq<char>>, sep: Seq<char>)
    requires
        parts.len() >= 1,
        parts[0].len() > 0,
    ensures
        join_with(parts, sep).len() > 0,
        join_with(parts, sep)[0] == parts[0][0],
    decreases parts.len(),
{
    if parts.len() > 1 {
        let pre = parts.drop_last();
        assert(pre[0] == parts[0]);
        lemma_join_first(pre, sep);
        let a = join_with(pre, sep);
        assert((a + sep + parts.last())[0] == a[0]);
    }
}

proof fn lemma_no_backslash_fixed(n: Seq<char>)
    requires
        !n.contains('\\'),
    ensures
        backslash_to_slash(n) == n,
{
    assert forall|i: int| 0 <= i < n.len() implies backslash_to_slash(n)[i] == n[i] by {
        if n[i] == '\\' {
            assert(n.contains('\\'));
        }
    }
    assert(backslash_to_slash(n) =~= n);
}

/// The `/`-separated pieces of a normalised path, in terms of its kept segments.
proof fn lemma_normalized_pieces(raw: Seq<char>)
    ensures
        ({
            let p = path_parts(raw);
            let n = normalized(raw);
            if starts_with_slash(path_text(raw)) {
                split_on(n, '/') == seq![Seq::<char>::empty()] + (if p.len() == 0 {
                    seq![Seq::<char>::empty()]
                } else {
                    p
                })
            } else if p.len() == 0 {
                split_on(n, '/') == seq![dot()]
            } else {
                split_on(n, '/') == p
            }
        }),
        !normalized(raw).contains('\\'),
{
    let p = path_parts(raw);
    lemma_parts_clean(raw);
    assert forall|i: int| 0 <= i < p.len() implies !(#[trigger] p[i]).contains('/') && !p[i].contains(
        '\\',
    ) by {
        assert(clean_segment(p[i]));
    }
    lemma_join_avoids(p, '/', '\\');
    if starts_with_slash(path_text(raw)) {
        assert(slash() + join_with(p, slash()) =~= Seq::<char>::empty() + seq!['/'] + join_with(
            p,
            slash(),
        ));
        lemma_split_concat(Seq::<char>::empty(), join_with(p, slash()), '/');
        if p.len() == 0 {
        } else {
            lemma_split_join(p, '/');
        }
        let n = normalized(raw);
        if n.contains('\\') {
            let k = choose|k: int| 0 <= k < n.len() && n[k] == '\\';
            if k > 0 {
                assert(n[k] == join_with(p, slash())[k - 1]);
            }
        }
    } else if p.len() == 0 {
        lemma_split_single(dot(), '/');
        assert(!dot().contains('\\')) by {
            if dot().contains('\\') {
                let k = choose|k: int| 0 <= k < dot().len() && dot()[k] == '\\';
            }
        }
    } else {
        lemma_split_join(p, '/');
    }
}

/// Law: a normalised path contains no `..` segment (path traversal is folded
/// away whatever the input).
pub proof fn lemma_normalized_has_no_dot_dot(raw: Seq<char>)
    ensures
        forall|i: int|
            0 <= i < split_on(normalized(raw), '/').len() ==> #[trigger] split_on(
                normalized(raw),
                '/',
            )[i] != dot_dot(),
{
    lemma_normalized_pieces(raw);
    lemma_parts_clean(raw);
    let p = path_parts(raw);
    let sp = split_on(normalized(raw), '/');
    assert forall|i: int| 0 <= i < sp.len() implies #[trigger] sp[i] != dot_dot() by {
        if starts_with_slash(path_text(raw)) {
            if i > 0 && p.len() > 0 {
                assert(sp[i] == p[i - 1]);
                assert(clean_segment(p[i - 1]));
            } else {
                assert(sp[i].len() == 0);
            }
        } else if p.len() == 0 {
            assert(sp[i] == dot());
            assert(dot().len() == 1 && dot_dot().len() == 2);
        } else {
            assert(sp[i] == p[i]);
            assert(clean_segment(p[i]));
        }
    }
}

proof fn lemma_fold_single_skipped(seg: Seq<char>)
    requires
        seg.len() == 0 || seg == dot(),
    ensures
        fold_segments(seq![seg]) == Seq::<Seq<char>>::empty(),
{
    let one = seq![seg];
    assert(one.drop_last() =~= Seq::<Seq<char>>::empty());
    assert(one.last() == seg);
    assert(fold_segments(Seq::<Seq<char>>::empty()) == Seq::<Seq<char>>::empty());
    assert(fold_segments(one) == push_segment(fold_segments(one.drop_last()), one.last()));
}

/// Law: normalising is idempotent, for every path whose normal form does not
/// begin or end with whitespace (normalisation trims its input first, so a
/// normal form such as ` .env` from `../ .env` is trimmed again on a second pass).
pub proof fn lemma_normalize_idempotent(raw: Seq<char>)
    requires
        trim(normalized(raw)) == normalized(raw),
    ensures
        normalized(normalized(raw)) == normalized(raw),
{
    let n = normalized(raw);
    let p = path_parts(raw);
    lemma_normalized_pieces(raw);
    lemma_parts_clean(raw);
    lemma_no_backslash_fixed(n);
    assert(path_text(n) == n);
    if starts_with_slash(path_text(raw)) {
        assert(starts_with_slash(n));
        if p.len() == 0 {
            lemma_fold_single_skipped(Seq::<char>::empty());
            let two = seq![Seq::<char>::empty()] + seq![Seq::<char>::empty()];
            assert(two.drop_last() =~= seq![Seq::<char>::empty()]);
            assert(fold_segments(two) =~= Seq::<Seq<char>>::empty());
        } else {
            lemma_fold_append_clean(seq![Seq::<char>::empty()], p);
            lemma_fold_single_skipped(Seq::<char>::empty());
            assert(Seq::<Seq<char>>::empty() + p =~= p);
        }
    } else if p.len() == 0 {
        lemma_fold_single_skipped(dot());
        assert(!starts_with_slash(dot()));
    } else {
        lemma_fold_append_clean(Seq::<Seq<char>>::empty(), p);
        assert(Seq::<Seq<char>>::empty() + p =~= p);
        assert(clean_segment(p[0]));
        lemma_join_first(p, slash());
        assert(p[0][0] != '/') by {
            assert(!p[0].contains('/'));
        }
    }
}

/// Law: the sensitivity of a path is decided by its normal form (`a/../.env`
/// and `.env` are judged alike), on the inputs where normalising is idempotent.
pub proof fn lemma_sensitive_by_normal_form(raw: Seq<char>)
    requires
        trim(normalized(raw)) == normalized(raw),
    ensures
        sensitive(normalized(raw)) == sensitive(raw),
        catastrophic_removal(normalized(raw)) == catastrophic_removal(raw),
{
    lemma_normalize_idempotent(raw);
}

// ─── the normal form in full ───

/// No whitespace character in `s`.
pub open spec fn no_ws(s: Seq<char>) -> bool {
    forall|i: int| 0 <= i < s.len() ==> !is_ws(#[trigger] s[i])
}

/// Slashes at `i` and `i + 1`.
pub open spec fn slash_pair(r: Seq<char>, i: int) -> bool {
    r[i] == '/' && r[i + 1] == '/'
}

/// Every character of every segment is not whitespace.
pub open spec fn segs_no_ws(segs: Seq<Seq<char>>) -> bool {
    forall|i: int, k: int| 0 <= i < segs.len() && 0 <= k < segs[i].len() ==> !is_ws(#[trigger] segs[i][k])
}

proof fn lemma_trim_ends(s: Seq<char>)
    requires
        s.len() > 0,
        !is_ws(s[0]),
        !is_ws(s.last()),
    ensures
        trim(s) == s,
{
    assert(trim_start(s) == s);
    assert(trim_end(s) == s);
}

proof fn lemma_trim_no_ws(s: Seq<char>)
    requires
        no_ws(s),
    ensures
        trim(s) == s,
{
    if s.len() > 0 {
        assert(!is_ws(s[s.len() - 1]));
        lemma_trim_ends(s);
    } else {
        assert(trim_start(s) == s);
        assert(trim_end(s) == s);
    }
}

proof fn lemma_fold_no_ws(segs: Seq<Seq<char>>)
    requires
        segs_no_ws(segs),
    ensures
        segs_no_ws(fold_segments(segs)),
    decreases segs.len(),
{
    if segs.len() > 0 {
        let t = segs.drop_last();
        assert forall|i: int, k: int| 0 <= i < t.len() && 0 <= k < t[i].len() implies !is_ws(
            #[trigger] t[i][k],
        ) by {
            assert(t[i] == segs[i]);
        }
        lemma_fold_no_ws(t);
        let prev = fold_segments(t);
        let seg = segs.last();
        let cur = fold_segments(segs);
        assert forall|i: int, k: int| 0 <= i < cur.len() && 0 <= k < cur[i].len() implies !is_ws(
            #[trigger] cur[i][k],
        ) by {
            if seg.len() == 0 || seg == dot() {
            } else if seg == dot_dot() {
                if prev.len() > 0 {
                    assert(cur[i] == prev[i]);
                }
            } else {
                if i < prev.len() {
                    assert(cur[i] == prev[i]);
                } else {
                    assert(cur[i] == seg);
                    assert(seg == segs[segs.len() - 1]);
                }
            }
        }
    }
}

proof fn lemma_parts_no_ws(raw: Seq<char>)
    requires
        no_ws(raw),
    ensures
        segs_no_ws(path_parts(raw)),
        path_text(raw) == backslash_to_slash(raw),
{
    lemma_trim_no_ws(raw);
    let s = path_text(raw);
    lemma_split_pieces(s, '/');
    let sp = split_on(s, '/');
    assert forall|i: int, k: int| 0 <= i < sp.len() && 0 <= k < sp[i].len() implies !is_ws(
        #[trigger] sp[i][k],
    ) by {
        assert(s.contains(sp[i][k]));
        let j = choose|j: int| 0 <= j < s.len() && s[j] == sp[i][k];
        assert(s[j] == (if raw[j] == '\\' { '/' } else { raw[j] }));
        assert(!is_ws(raw[j]));
    }
    lemma_fold_no_ws(sp);
}

proof fn lemma_join_last(parts: Seq<Seq<char>>, sep: Seq<char>)
    requires
        parts.len() >= 1,
        parts.last().len() > 0,
    ensures
        join_with(parts, sep).len() > 0,
        join_with(parts, sep).last() == parts.last().last(),
{
    if parts.len() == 1 {
        assert(parts[0] == parts.last());
    } else {
        let a = join_with(parts.drop_last(), sep);
        let j = a + sep + parts.last();
        assert(j.last() == parts.last().last());
    }
}

proof fn lemma_join_no_double(parts: Seq<Seq<char>>)
    requires
        parts.len() >= 1,
        forall|i: int| 0 <= i < parts.len() ==> clean_segment(#[trigger] parts[i]),
    ensures
        forall|i: int| 0 <= i < join_with(parts, slash()).len() - 1 ==> !#[trigger] slash_pair(
            join_with(parts, slash()),
            i,
        ),
    decreases parts.len(),
{
    let j = join_with(parts, slash());
    if parts.len() == 1 {
        let l = parts[0];
        assert(clean_segment(l));
        assert forall|i: int| 0 <= i < j.len() - 1 implies !#[trigger] slash_pair(j, i) by {
            if slash_pair(j, i) {
                assert(l.contains(l[i]));
            }
        }
    } else {
        let pre = parts.drop_last();
        assert forall|i: int| 0 <= i < pre.len() implies clean_segment(#[trigger] pre[i]) by {
            assert(pre[i] == parts[i]);
        }
        lemma_join_no_double(pre);
        let a = join_with(pre, slash());
        let l = parts.last();
        assert(clean_segment(l)) by {
            assert(parts[parts.len() - 1] == l);
        }
        assert(clean_segment(pre.last())) by {
            assert(pre[pre.len() - 1] == pre.last());
        }
        lemma_join_last(pre, slash());
        assert(j == a + slash() + l);
        assert forall|i: int| 0 <= i < j.len() - 1 implies !#[trigger] slash_pair(j, i) by {
            if i < a.len() - 1 {
                assert(j[i] == a[i] && j[i + 1] == a[i + 1]);
                assert(!slash_pair(a, i));
            } else if i == a.len() - 1 {
                assert(j[i] == a.last());
                assert(pre.last().contains(pre.last().last())) by {
                    assert(pre.last()[pre.last().len() - 1] == pre.last().last());
                }
            } else if i == a.len() {
                assert(j[i + 1] == l[0]);
                assert(l.contains(l[0]));
            } else {
                assert(j[i] == l[i - a.len() - 1]);
                assert(l.contains(l[i - a.len() - 1]));
            }
        }
    }
}

/// Law: for a path without whitespace, the normal form is a fixed point of
/// normalisation; it holds no backslash and no `//`; it is `.` or has no `.`
/// or `..` segment; it is `/` or does not end with `/`; and it is absolute
/// exactly when the path began with `/` or `\`.
pub proof fn lemma_normal_form(raw: Seq<char>)
    requires
        no_ws(raw),
    ensures
        normalized(raw).len() > 0,
        normalized(normalized(raw)) == normalized(raw),
        !normalized(raw).contains('\\'),
        forall|i: int| 0 <= i < normalized(raw).len() - 1 ==> !#[trigger] slash_pair(normalized(raw), i),
        normalized(raw) == dot() || forall|i: int|
            0 <= i < split_on(normalized(raw), '/').len() ==> #[trigger] split_on(normalized(raw), '/')[i]
                != dot() && split_on(normalized(raw), '/')[i] != dot_dot(),
        normalized(raw) == slash() || normalized(raw).last() != '/',
        starts_with_slash(normalized(raw)) <==> (raw.len() > 0 && (raw[0] == '/' || raw[0] == '\\')),
{
    let n = normalized(raw);
    let p = path_parts(raw);
    lemma_normalized_pieces(raw);
    lemma_parts_clean(raw);
    lemma_parts_no_ws(raw);
    let abs = starts_with_slash(path_text(raw));
    assert(abs <==> (raw.len() > 0 && (raw[0] == '/' || raw[0] == '\\'))) by {
        if raw.len() > 0 {
            assert(path_text(raw)[0] == (if raw[0] == '\\' { '/' } else { raw[0] }));
        }
    }
    if p.len() > 0 {
        assert(clean_segment(p[0]));
        assert(clean_segment(p.last())) by {
            assert(p[p.len() - 1] == p.last());
        }
        lemma_join_first(p, slash());
        lemma_join_last(p, slash());
        lemma_join_no_double(p);
        assert(!is_ws(p[0][0]));
        assert(!is_ws(p[p.len() - 1][p[p.len() - 1].len() - 1]));
        assert(p[0].contains(p[0][0]));
    }
    let j = join_with(p, slash());
    // the ends of the normal form
    if abs {
        assert(n == slash() + j);
        assert(n[0] == '/');
        if p.len() == 0 {
            assert(n =~= slash());
        } else {
            assert(n.last() == j.last());
            assert(p.last().contains(p.last().last())) by {
                assert(p.last()[p.last().len() - 1] == p.last().last());
            }
            assert forall|i: int| 0 <= i < n.len() - 1 implies !#[trigger] slash_pair(n, i) by {
                if i == 0 {
                    assert(n[1] == j[0]);
                } else {
                    assert(n[i] == j[i - 1] && n[i + 1] == j[i]);
                    assert(!slash_pair(j, i - 1));
                }
            }
        }
    } else if p.len() == 0 {
        assert(n == dot());
    } else {
        assert(n == j);
        assert(p.last().contains(p.last().last())) by {
            assert(p.last()[p.last().len() - 1] == p.last().last());
        }
    }
    lemma_trim_ends(n);
    lemma_normalize_idempotent(raw);
    let sp = split_on(n, '/');
    if n != dot() {
        assert forall|i: int| 0 <= i < sp.len() implies #[trigger] sp[i] != dot() && sp[i] != dot_dot() by {
            if abs {
                if i > 0 && p.len() > 0 {
                    assert(sp[i] == p[i - 1]);
                    assert(clean_segment(p[i - 1]));
                } else {
                    assert(sp[i].len() == 0);
                }
            } else {
                assert(sp[i] == p[i]);
                assert(clean_segment(p[i]));
            }
        }
    }
}

proof fn lemma_fold_skip_empty_front(x: Seq<Seq<char>>)
    ensures
        fold_segments(seq![Seq::<char>::empty()] + x) == fold_segments(x),
    decreases x.len(),
{
    let y = seq![Seq::<char>::empty()] + x;
    if x.len() == 0 {
        assert(y =~= seq![Seq::<char>::empty()]);
        lemma_fold_single_skipped(Seq::<char>::empty());
    } else {
        lemma_fold_skip_empty_front(x.drop_last());
        assert(y.drop_last() =~= seq![Seq::<char>::empty()] + x.drop_last());
        assert(y.last() == x.last());
    }
}

/// The five sensitivity tests on a match view.
pub open spec fn sensitive_view(lower: Seq<char>) -> bool {
    is_exact_sensitive(lower) || is_host_key_file(lower) || is_user_private_key(lower)
        || has_key_extension(lower) || is_env_file(lower)
}

proof fn lemma_short_views_not_sensitive()
    ensures
        !sensitive_view(seq!['/']),
        !sensitive_view(seq!['/', '.']),
{
    reveal_strlit("/etc/shadow");
    reveal_strlit("/etc/gshadow");
    reveal_strlit("/etc/master.passwd");
    reveal_strlit("/etc/sudoers");
    reveal_strlit("/etc/ssh/");
    reveal_strlit("/.ssh/");
    reveal_strlit(".pem");
    reveal_strlit(".key");
    reveal_strlit(".pkcs12");
    reveal_strlit(".p12");
    reveal_strlit(".pfx");
    reveal_strlit(".kdbx");
    reveal_strlit(".env");
    reveal_strlit(".env.local");
    reveal_strlit(".env.production");
    reveal_strlit(".env.staging");
    reveal_strlit(".env.secret");
    reveal_strlit("wp-config.php");
    let a = seq!['/'];
    let b = seq!['/', '.'];
    reveal_with_fuel(split_on, 3);
    assert(a.drop_last() =~= Seq::<char>::empty());
    assert(split_on(a, '/') =~= seq![Seq::<char>::empty(), Seq::<char>::empty()]);
    assert(b.drop_last() =~= a);
    assert(split_on(b, '/') =~= seq![Seq::<char>::empty(), seq!['.']]);
    assert(last_piece(a).len() == 0);
    assert(last_piece(b) =~= seq!['.']);
    assert(!has_infix(a, "/.ssh/"@));
    assert(!has_infix(b, "/.ssh/"@));
}

proof fn lemma_lower_slash_prefix(t: Seq<char>)
    ensures
        lower_ascii(slash() + t) == slash() + lower_ascii(t),
{
    assert(lower_ascii(slash() + t) =~= slash() + lower_ascii(t));
}

/// Law: for a path without whitespace that does not begin with `/` or `\`,
/// adding a leading `/` does not change whether it is sensitive (a relative
/// path is judged as if rooted).
pub proof fn lemma_sensitive_leading_slash(p: Seq<char>)
    requires
        no_ws(p),
        !(p.len() > 0 && (p[0] == '/' || p[0] == '\\')),
    ensures
        sensitive(slash() + p) == sensitive(p),
{
    let q = slash() + p;
    assert(no_ws(q)) by {
        assert forall|i: int| 0 <= i < q.len() implies !is_ws(#[trigger] q[i]) by {
            if i > 0 {
                assert(q[i] == p[i - 1]);
            }
        }
    }
    lemma_parts_no_ws(p);
    lemma_parts_no_ws(q);
    assert(path_text(q) =~= slash() + path_text(p));
    assert(slash() + path_text(p) =~= Seq::<char>::empty() + seq!['/'] + path_text(p));
    lemma_split_concat(Seq::<char>::empty(), path_text(p), '/');
    lemma_fold_skip_empty_front(split_on(path_text(p), '/'));
    let parts = path_parts(p);
    assert(path_parts(q) == parts);
    lemma_normal_form(p);
    lemma_normal_form(q);
    assert(starts_with_slash(path_text(q)));
    assert(!starts_with_slash(path_text(p))) by {
        if p.len() > 0 {
            assert(path_text(p)[0] == (if p[0] == '\\' { '/' } else { p[0] }));
        }
    }
    let j = join_with(parts, slash());
    assert(normalized(q) == slash() + j);
    lemma_lower_slash_prefix(j);
    assert(match_view(q) == slash() + lower_ascii(j));
    if parts.len() == 0 {
        assert(normalized(p) == dot());
        assert(match_view(p) == slash() + lower_ascii(dot()));
        assert(match_view(p) =~= seq!['/', '.']);
        assert(j =~= Seq::<char>::empty());
        assert(match_view(q) =~= seq!['/']);
        lemma_short_views_not_sensitive();
    } else {
        assert(normalized(p) == j);
        assert(match_view(p) == slash() + lower_ascii(j));
    }
}

/// Law: for a path without whitespace, its normal form is judged as the path
/// itself.
pub proof fn lemma_sensitive_normal_form_no_ws(p: Seq<char>)
    requires
        no_ws(p),
    ensures
        sensitive(normalized(p)) == sensitive(p),
        catastrophic_removal(normalized(p)) == catastrophic_removal(p),
{
    lemma_normal_form(p);
}

// ─── case ───

pub open spec fn upper_ascii_char(c: char) -> char {
    if 'a' <= c && c <= 'z' {
        ((c as u32) - 32) as char
    } else {
        c
    }
}

/// `str::to_ascii_uppercase`.
pub open spec fn upper_ascii(s: Seq<char>) -> Seq<char> {
    s.map_values(|c: char| upper_ascii_char(c))
}

pub open spec fn upper_segs(segs: Seq<Seq<char>>) -> Seq<Seq<char>> {
    segs.map_values(|x: Seq<char>| upper_ascii(x))
}

proof fn lemma_upper_char(c: char)
    ensures
        upper_ascii_char(c) == '/' <==> c == '/',
        upper_ascii_char(c) == '.' <==> c == '.',
        upper_ascii_char(c) == '/' || upper_ascii_char(c) == '\\' <==> c == '/' || c == '\\',
        is_ws(upper_ascii_char(c)) <==> is_ws(c),
        crate::text::lower_ascii_char(upper_ascii_char(c)) == crate::text::lower_ascii_char(c),
{
}

proof fn lemma_upper_dots(seg: Seq<char>)
    ensures
        upper_ascii(seg).len() == seg.len(),
        upper_ascii(seg) == dot() <==> seg == dot(),
        upper_ascii(seg) == dot_dot() <==> seg == dot_dot(),
{
    let u = upper_ascii(seg);
    if seg.len() >= 1 {
        lemma_upper_char(seg[0]);
    }
    if seg.len() >= 2 {
        lemma_upper_char(seg[1]);
    }
    if seg == dot() {
        assert(u =~= dot());
    }
    if seg == dot_dot() {
        assert(u =~= dot_dot());
    }
    if u == dot() {
        assert(u[0] == upper_ascii_char(seg[0]));
        assert(seg =~= dot());
    }
    if u == dot_dot() {
        assert(u[0] == upper_ascii_char(seg[0]));
        assert(u[1] == upper_ascii_char(seg[1]));
        assert(seg =~= dot_dot());
    }
}

proof fn lemma_split_upper(s: Seq<char>)
    ensures
        split_on(upper_ascii(s), '/') == upper_segs(split_on(s, '/')),
    decreases s.len(),
{
    let u = upper_ascii(s);
    if s.len() == 0 {
        assert(u =~= Seq::<char>::empty());
        assert(upper_ascii(Seq::<char>::empty()) =~= Seq::<char>::empty());
        assert(upper_segs(seq![Seq::<char>::empty()]) =~= seq![Seq::<char>::empty()]);
    } else {
        let t = s.drop_last();
        lemma_split_upper(t);
        lemma_split_nonempty(t, '/');
        assert(u.drop_last() =~= upper_ascii(t));
        assert(u.last() == upper_ascii_char(s.last()));
        lemma_upper_char(s.last());
        let prev = split_on(t, '/');
        let up = upper_segs(prev);
        if s.last() == '/' {
            assert(upper_ascii(Seq::<char>::empty()) =~= Seq::<char>::empty());
            assert(up.push(Seq::<char>::empty()) =~= upper_segs(prev.push(Seq::<char>::empty())));
        } else {
            assert(up.last() == upper_ascii(prev.last()));
            assert(up.last().push(u.last()) =~= upper_ascii(prev.last().push(s.last())));
            assert(up.update(up.len() - 1, up.last().push(u.last())) =~= upper_segs(
                prev.update(prev.len() - 1, prev.last().push(s.last())),
            ));
        }
    }
}

proof fn lemma_fold_upper(segs: Seq<Seq<char>>)
    ensures
        fold_segments(upper_segs(segs)) == upper_segs(fold_segments(segs)),
    decreases segs.len(),
{
    if segs.len() == 0 {
        assert(upper_segs(segs) =~= Seq::<Seq<char>>::empty());
        assert(upper_segs(Seq::<Seq<char>>::empty()) =~= Seq::<Seq<char>>::empty());
    } else {
        let t = segs.drop_last();
        lemma_fold_upper(t);
        let us = upper_segs(segs);
        assert(us.drop_last() =~= upper_segs(t));
        assert(us.last() == upper_ascii(segs.last()));
        lemma_upper_dots(segs.last());
        let prev = fold_segments(t);
        let seg = segs.last();
        if seg.len() == 0 || seg == dot() {
        } else if seg == dot_dot() {
            if prev.len() > 0 {
                assert(upper_segs(prev).drop_last() =~= upper_segs(prev.drop_last()));
            }
        } else {
            assert(upper_segs(prev).push(upper_ascii(seg)) =~= upper_segs(prev.push(seg)));
        }
    }
}

proof fn lemma_join_upper(parts: Seq<Seq<char>>)
    ensures
        join_with(upper_segs(parts), slash()) == upper_ascii(join_with(parts, slash())),
    decreases parts.len(),
{
    let up = upper_segs(parts);
    if parts.len() == 0 {
        assert(upper_ascii(Seq::<char>::empty()) =~= Seq::<char>::empty());
    } else if parts.len() == 1 {
        assert(up[0] == upper_ascii(parts[0]));
    } else {
        let pre = parts.drop_last();
        lemma_join_upper(pre);
        assert(up.drop_last() =~= upper_segs(pre));
        assert(up.last() == upper_ascii(parts.last()));
        let a = join_with(pre, slash());
        assert(upper_ascii(a + slash() + parts.last()) =~= upper_ascii(a) + slash() + upper_ascii(
            parts.last(),
        )) by {
            lemma_upper_char('/');
        }
    }
}

/// Normalising commutes with ASCII upper-casing.
proof fn lemma_normalized_upper(p: Seq<char>)
    requires
        no_ws(p),
    ensures
        no_ws(upper_ascii(p)),
        normalized(upper_ascii(p)) == upper_ascii(normalized(p)),
{
    let u = upper_ascii(p);
    assert forall|i: int| 0 <= i < u.len() implies !is_ws(#[trigger] u[i]) by {
        lemma_upper_char(p[i]);
    }
    lemma_parts_no_ws(p);
    lemma_parts_no_ws(u);
    assert forall|i: int| 0 <= i < p.len() implies #[trigger] backslash_to_slash(u)[i]
        == upper_ascii(backslash_to_slash(p))[i] by {
        lemma_upper_char(p[i]);
    }
    assert(path_text(u) =~= upper_ascii(path_text(p)));
    lemma_split_upper(path_text(p));
    lemma_fold_upper(split_on(path_text(p), '/'));
    let parts = path_parts(p);
    assert(path_parts(u) == upper_segs(parts));
    lemma_join_upper(parts);
    let abs = starts_with_slash(path_text(p));
    assert(starts_with_slash(path_text(u)) == abs) by {
        if path_text(p).len() > 0 {
            lemma_upper_char(path_text(p)[0]);
        }
    }
    if abs {
        assert(upper_ascii(slash() + join_with(parts, slash())) =~= slash() + upper_ascii(
            join_with(parts, slash()),
        )) by {
            lemma_upper_char('/');
        }
    } else if parts.len() == 0 {
        assert(upper_segs(parts).len() == 0);
        assert(upper_ascii(dot()) =~= dot()) by {
            lemma_upper_char('.');
        }
    } else {
        assert(upper_segs(parts).len() == parts.len());
    }
}

/// Law: for a path without whitespace, ASCII upper-casing does not change
/// whether it is sensitive (the tests run on the lower-cased form).
pub proof fn lemma_sensitive_ignores_case(p: Seq<char>)
    requires
        no_ws(p),
    ensures
        sensitive(upper_ascii(p)) == sensitive(p),
{
    lemma_normalized_upper(p);
    let n = normalized(p);
    let un = upper_ascii(n);
    assert(lower_ascii(un) =~= lower_ascii(n)) by {
        assert forall|i: int| 0 <= i < n.len() implies #[trigger] lower_ascii(un)[i] == lower_ascii(n)[i] by {
            lemma_upper_char(n[i]);
        }
    }
    assert(starts_with_slash(un) == starts_with_slash(n)) by {
        if n.len() > 0 {
            lemma_upper_char(n[0]);
        }
    }
    assert(match_view(upper_ascii(p)) == match_view(p));
}

// ─── laws stated on literal paths ───

proof fn lemma_suffix_behind_slash(x: Seq<char>, p: Seq<char>)
    requires
        has_suffix(x, p),
    ensures
        has_suffix(slash() + x, p),
{
    assert((slash() + x).skip((slash() + x).len() - p.len()) =~= x.skip(x.len() - p.len()));
}

/// Law: a path whose lower-cased normal form ends in a private-key or
/// certificate-store extension (`.pem`, `.key`, `.pkcs12`, `.p12`, `.pfx`,
/// `.kdbx`) is sensitive, wherever it lies.
pub proof fn lemma_key_files_sensitive(raw: Seq<char>)
    ensures
        has_suffix(lower_ascii(normalized(raw)), ".pem"@) ==> sensitive(raw),
        has_suffix(lower_ascii(normalized(raw)), ".key"@) ==> sensitive(raw),
        has_suffix(lower_ascii(normalized(raw)), ".pkcs12"@) ==> sensitive(raw),
        has_suffix(lower_ascii(normalized(raw)), ".p12"@) ==> sensitive(raw),
        has_suffix(lower_ascii(normalized(raw)), ".pfx"@) ==> sensitive(raw),
        has_suffix(lower_ascii(normalized(raw)), ".kdbx"@) ==> sensitive(raw),
{
    let n = normalized(raw);
    let l = lower_ascii(n);
    if !starts_with_slash(n) {
        assert(match_view(raw) == slash() + l);
        if has_suffix(l, ".pem"@) {
            lemma_suffix_behind_slash(l, ".pem"@);
        }
        if has_suffix(l, ".key"@) {
            lemma_suffix_behind_slash(l, ".key"@);
        }
        if has_suffix(l, ".pkcs12"@) {
            lemma_suffix_behind_slash(l, ".pkcs12"@);
        }
        if has_suffix(l, ".p12"@) {
            lemma_suffix_behind_slash(l, ".p12"@);
        }
        if has_suffix(l, ".pfx"@) {
            lemma_suffix_behind_slash(l, ".pfx"@);
        }
        if has_suffix(l, ".kdbx"@) {
            lemma_suffix_behind_slash(l, ".kdbx"@);
        }
    } else {
        assert(match_view(raw) == l);
    }
}

/// Law: removing the root, or one of the top-level system directories
/// `/bin`, `/boot`, `/dev`, `/etc`, `/lib`, `/lib64`, `/proc`, `/root`,
/// `/sbin`, `/sys`, `/usr`, `/var` (written in any form that normalises to
/// it, such as `/boot/`, `/tmp/../boot` or `\boot`), is catastrophic.
pub proof fn lemma_system_roots_catastrophic(raw: Seq<char>)
    ensures
        normalized(raw) == "/"@ ==> catastrophic_removal(raw),
        normalized(raw) == "/bin"@ ==> catastrophic_removal(raw),
        normalized(raw) == "/boot"@ ==> catastrophic_removal(raw),
        normalized(raw) == "/dev"@ ==> catastrophic_removal(raw),
        normalized(raw) == "/etc"@ ==> catastrophic_removal(raw),
        normalized(raw) == "/lib"@ ==> catastrophic_removal(raw),
        normalized(raw) == "/lib64"@ ==> catastrophic_removal(raw),
        normalized(raw) == "/proc"@ ==> catastrophic_removal(raw),
        normalized(raw) == "/root"@ ==> catastrophic_removal(raw),
        normalized(raw) == "/sbin"@ ==> catastrophic_removal(raw),
        normalized(raw) == "/sys"@ ==> catastrophic_removal(raw),
        normalized(raw) == "/usr"@ ==> catastrophic_removal(raw),
        normalized(raw) == "/var"@ ==> catastrophic_removal(raw),
{
    reveal_strlit("/");
    reveal_strlit("/bin");
    reveal_strlit("/boot");
    reveal_strlit("/dev");
    reveal_strlit("/etc");
    reveal_strlit("/lib");
    reveal_strlit("/lib64");
    reveal_strlit("/proc");
    reveal_strlit("/root");
    reveal_strlit("/sbin");
    reveal_strlit("/sys");
    reveal_strlit("/usr");
    reveal_strlit("/var");
    let n = normalized(raw);
    if n == "/"@ {
        assert(n.drop_last() =~= Seq::<char>::empty());
        assert(trim_end_char(n.drop_last(), '/') == Seq::<char>::empty());
        assert(trim_end_char(n, '/') == trim_end_char(n.drop_last(), '/'));
    }
}

} // verus!
