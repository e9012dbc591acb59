//! The decisions of SSH authentication, for the GUI and the headless path:
//! where the password and the private key come from, which method goes first,
//! which second factor follows a rejection, and how keyboard-interactive
//! prompts are answered. Reading the credential store and the key files and
//! talking to the server are the caller's part; it hands the outcomes back.
use vstd::prelude::*;

use crate::text::{
    chars_of, contains_str, has_infix, push_all, push_str, string_of, to_lowercase, trim, trim_chars,
    unicode_lowercase,
};

verus! {

/// The authentication method an asset asks for.
#[derive(Debug, Clone, Copy, PartialEq, Eq, Structural)]
pub enum AuthKind {
    Agent,
    PrivateKey,
    /// `Password`, or anything else (password is the default).
    Password,
}

pub open spec fn auth_kind_of(m: Option<Seq<char>>) -> AuthKind {
    match m {
        Some(s) => if s == "Agent"@ {
            AuthKind::Agent
        } else if s == "PrivateKey"@ {
            AuthKind::PrivateKey
        } else {
            AuthKind::Password
        },
        None => AuthKind::Password,
    }
}

pub open spec fn opt_view(o: Option<String>) -> Option<Seq<char>> {
    match o {
        Some(s) => Some(s@),
        None => None,
    }
}

/// The method of an `auth_method` setting.
pub fn auth_kind(auth_method: &Option<String>) -> (k: AuthKind)
    ensures
        k == auth_kind_of(opt_view(*auth_method)),
{
    match auth_method {
        Some(m) => {
            let c = chars_of(m.as_str());
            if crate::text::eq_str(c.as_slice(), "Agent") {
                AuthKind::Agent
            } else if crate::text::eq_str(c.as_slice(), "PrivateKey") {
                AuthKind::PrivateKey
            } else {
                AuthKind::Password
            }
        },
        None => AuthKind::Password,
    }
}

/// Where the password comes from.
pub enum PasswordSource {
    /// Private-key authentication uses no password.
    NotNeeded,
    /// The password given with the request.
    Given(String),
    /// The stored credential with this id.
    Stored(String),
    /// Neither a password nor a stored credential: this error.
    Missing(String),
}

pub open spec fn missing_password_text() -> Seq<char> {
    "No password provided and no stored credential"@
}

/// A given password wins; an empty one falls back to the stored credential.
pub fn password_source(kind: AuthKind, password: &str, credential_id: &Option<String>) -> (r:
    PasswordSource)
    ensures
        kind == AuthKind::PrivateKey ==> r is NotNeeded,
        kind != AuthKind::PrivateKey && password@.len() > 0 ==> (r matches PasswordSource::Given(p)
            && p@ == password@),
        kind != AuthKind::PrivateKey && password@.len() == 0 ==> match *credential_id {
            Some(id) => r matches PasswordSource::Stored(s) && s@ == id@,
            None => r matches PasswordSource::Missing(m) && m@ == missing_password_text(),
        },
{
    if kind == AuthKind::PrivateKey {
        PasswordSource::NotNeeded
    } else if password.is_empty() {
        match credential_id {
            Some(id) => PasswordSource::Stored(id.clone()),
            None => PasswordSource::Missing("No password provided and no stored credential".to_owned()),
        }
    } else {
        PasswordSource::Given(password.to_owned())
    }
}

/// A passphrase given inline counts only when not empty.
pub fn inline_passphrase(passphrase: &Option<String>) -> (r: Option<String>)
    ensures
        match *passphrase {
            Some(p) => if p@.len() > 0 {
                r matches Some(q) && q@ == p@
            } else {
                r is None
            },
            None => r is None,
        },
{
    match passphrase {
        Some(p) => if p.as_str().is_empty() {
            None
        } else {
            Some(p.clone())
        },
        None => None,
    }
}

// ─── private key ───

/// The key file read when none is configured.
pub open spec fn default_key_path() -> Seq<char> {
    "~/.ssh/id_ed25519"@
}

/// Where to look for the private key first.
pub enum KeyLookup {
    /// Read the stored credential with this id.
    Credential(String),
    /// Read this key file.
    File(String),
}

pub open spec fn key_path_or_default(p: Option<String>) -> Seq<char> {
    match p {
        Some(s) => s@,
        None => default_key_path(),
    }
}

fn key_path_or_default_exec(p: &Option<String>) -> (r: String)
    ensures
        r@ == key_path_or_default(*p),
{
    match p {
        Some(s) => s.clone(),
        None => "~/.ssh/id_ed25519".to_owned(),
    }
}

/// Headless: a non-empty credential reference is read first; without one,
/// the configured key file (or the default one) is read.
pub fn headless_key_lookup(params: &crate::headless::HeadlessConnectParams) -> (r: KeyLookup)
    ensures
        match params.private_key_credential_id {
            Some(id) => if id@.len() > 0 {
                r matches KeyLookup::Credential(c) && c@ == id@
            } else {
                r matches KeyLookup::File(f) && f@ == key_path_or_default(params.private_key_path)
            },
            None => r matches KeyLookup::File(f) && f@ == key_path_or_default(
                params.private_key_path,
            ),
        },
{
    match &params.private_key_credential_id {
        Some(id) => if id.as_str().is_empty() {
            KeyLookup::File(key_path_or_default_exec(&params.private_key_path))
        } else {
            KeyLookup::Credential(id.clone())
        },
        None => KeyLookup::File(key_path_or_default_exec(&params.private_key_path)),
    }
}

/// The GUI reads any credential reference first (even an empty one).
pub fn gui_key_lookup(private_key_credential_id: &Option<String>, private_key_path: &Option<String>) -> (r:
    KeyLookup)
    ensures
        match *private_key_credential_id {
            Some(id) => r matches KeyLookup::Credential(c) && c@ == id@,
            None => r matches KeyLookup::File(f) && f@ == key_path_or_default(*private_key_path),
        },
{
    match private_key_credential_id {
        Some(id) => KeyLookup::Credential(id.clone()),
        None => KeyLookup::File(key_path_or_default_exec(private_key_path)),
    }
}

/// What reading a stored credential gave.
pub enum StoreRead {
    Found(String),
    Absent,
    Failed(String),
}

/// What to do once the credential was read.
pub enum KeyNext {
    /// Use this key text.
    Content(String),
    /// Read this key file instead.
    File(String),
    /// Give up with this error.
    Error(String),
}

pub open spec fn key_not_found_text(id: Seq<char>) -> Seq<char> {
    "Private key credential '"@ + id + "' not found in store (凭据不存在)，且未配置私钥文件路径"@
}

pub open spec fn key_unreadable_text(id: Seq<char>, e: Seq<char>) -> Seq<char> {
    "Failed to read private key credential '"@ + id + "' (凭据解密失败): "@ + e
}

/// Headless: a stored key that is not blank is used; otherwise the explicitly
/// configured key file is read, and without one the error names the cause
/// (credential missing, or unreadable) instead of guessing a default file.
pub fn headless_key_after_store(cred_id: &str, read: StoreRead, private_key_path: &Option<String>) -> (r:
    KeyNext)
    ensures
        match read {
            StoreRead::Found(c) => if trim(c@).len() > 0 {
                r matches KeyNext::Content(k) && k@ == c@
            } else {
                match *private_key_path {
                    Some(p) => if p@.len() > 0 {
                        r matches KeyNext::File(f) && f@ == p@
                    } else {
                        r matches KeyNext::Error(e) && e@ == key_not_found_text(cred_id@)
                    },
                    None => r matches KeyNext::Error(e) && e@ == key_not_found_text(cred_id@),
                }
            },
            StoreRead::Absent => match *private_key_path {
                Some(p) => if p@.len() > 0 {
                    r matches KeyNext::File(f) && f@ == p@
                } else {
                    r matches KeyNext::Error(e) && e@ == key_not_found_text(cred_id@)
                },
                None => r matches KeyNext::Error(e) && e@ == key_not_found_text(cred_id@),
            },
            StoreRead::Failed(msg) => match *private_key_path {
                Some(p) => if p@.len() > 0 {
                    r matches KeyNext::File(f) && f@ == p@
                } else {
                    r matches KeyNext::Error(e) && e@ == key_unreadable_text(cred_id@, msg@)
                },
                None => r matches KeyNext::Error(e) && e@ == key_unreadable_text(cred_id@, msg@),
            },
        },
{
    let explicit: Option<String> = match private_key_path {
        Some(p) => if p.as_str().is_empty() {
            None
        } else {
            Some(p.clone())
        },
        None => None,
    };
    let failure: Option<String> = match &read {
        StoreRead::Found(c) => {
            let t = trim_chars(chars_of(c.as_str()).as_slice());
            if t.len() > 0 {
                return KeyNext::Content(c.clone());
            }
            None
        },
        StoreRead::Absent => None,
        StoreRead::Failed(m) => Some(m.clone()),
    };
    match explicit {
        Some(p) => KeyNext::File(p),
        None => {
            let mut v = chars_of("Private key credential '");
            match failure {
                None => {
                    push_str(&mut v, cred_id);
                    push_str(&mut v, "' not found in store (凭据不存在)，且未配置私钥文件路径");
                    assert(v@ =~= key_not_found_text(cred_id@));
                    KeyNext::Error(string_of(v.as_slice()))
                },
                Some(m) => {
                    let mut w = chars_of("Failed to read private key credential '");
                    push_str(&mut w, cred_id);
                    push_str(&mut w, "' (凭据解密失败): ");
                    push_str(&mut w, m.as_str());
                    assert(w@ =~= key_unreadable_text(cred_id@, m@));
                    KeyNext::Error(string_of(w.as_slice()))
                },
            }
        },
    }
}

/// GUI: a stored key that is not blank is used; anything else falls back to
/// the configured key file (or the default one).
pub fn gui_key_after_store(read: StoreRead, private_key_path: &Option<String>) -> (r: KeyNext)
    ensures
        match read {
            StoreRead::Found(c) => if trim(c@).len() > 0 {
                r matches KeyNext::Content(k) && k@ == c@
            } else {
                r matches KeyNext::File(f) && f@ == key_path_or_default(*private_key_path)
            },
            _ => r matches KeyNext::File(f) && f@ == key_path_or_default(*private_key_path),
        },
{
    match read {
        StoreRead::Found(c) => {
            let t = trim_chars(chars_of(c.as_str()).as_slice());
            if t.len() > 0 {
                KeyNext::Content(c)
            } else {
                KeyNext::File(key_path_or_default_exec(private_key_path))
            }
        },
        _ => KeyNext::File(key_path_or_default_exec(private_key_path)),
    }
}

// ─── second factor ───

/// What to try after the first method was rejected.
pub enum SecondFactor {
    /// The password (after a rejected private key).
    Password(String),
    /// The private key (after a rejected password).
    PublicKey,
    /// Nothing: go on to keyboard-interactive.
    Nothing,
}

/// After a rejected private key the (non-empty) password is tried; after a
/// rejected password the private key, when both the key text and its
/// passphrase are at hand (`second_key`, `second_passphrase`).
pub fn second_factor(
    kind_setting: &Option<String>,
    resolved_password: &Option<String>,
    second_key: &Option<String>,
    second_passphrase: &Option<String>,
) -> (r: SecondFactor)
    ensures
        opt_view(*kind_setting) == Some("PrivateKey"@) ==> match *resolved_password {
            Some(p) => if p@.len() > 0 {
                r matches SecondFactor::Password(q) && q@ == p@
            } else {
                r is Nothing
            },
            None => r is Nothing,
        },
        opt_view(*kind_setting) == Some("Password"@) ==> (if second_key is Some && second_passphrase is Some {
            r is PublicKey
        } else {
            r is Nothing
        }),
        opt_view(*kind_setting) != Some("PrivateKey"@) && opt_view(*kind_setting) != Some(
            "Password"@,
        ) ==> r is Nothing,
{
    proof {
        reveal_strlit("Password");
        reveal_strlit("PrivateKey");
        assert("Password"@.len() != "PrivateKey"@.len());
    }
    let is_key = match kind_setting {
        Some(m) => crate::text::eq_str(chars_of(m.as_str()).as_slice(), "PrivateKey"),
        None => false,
    };
    let is_password = match kind_setting {
        Some(m) => crate::text::eq_str(chars_of(m.as_str()).as_slice(), "Password"),
        None => false,
    };
    if is_key {
        match resolved_password {
            Some(p) => if p.as_str().is_empty() {
                SecondFactor::Nothing
            } else {
                SecondFactor::Password(p.clone())
            },
            None => SecondFactor::Nothing,
        }
    } else if is_password {
        if second_key.is_some() && second_passphrase.is_some() {
            SecondFactor::PublicKey
        } else {
            SecondFactor::Nothing
        }
    } else {
        SecondFactor::Nothing
    }
}

// ─── keyboard-interactive ───

/// A prompt asking for a password: its lowercase text mentions `password`,
/// `passphrase` or `密码`.
pub open spec fn password_like(prompt: Seq<char>) -> bool {
    let l = unicode_lowercase(prompt);
    has_infix(l, "password"@) || has_infix(l, "passphrase"@) || has_infix(l, "密码"@)
}

pub fn is_password_prompt(prompt: &str) -> (b: bool)
    ensures
        b == password_like(prompt@),
{
    let l = to_lowercase(prompt);
    let lc = chars_of(l.as_str());
    contains_str(lc.as_slice(), "password") || contains_str(lc.as_slice(), "passphrase")
        || contains_str(lc.as_slice(), "密码")
}

/// Every prompt asks for a password, and there is at least one.
pub open spec fn all_password_like(prompts: Seq<String>) -> bool {
    prompts.len() > 0 && forall|i: int| 0 <= i < prompts.len() ==> password_like(#[trigger] prompts[i]@)
}

/// How to answer a keyboard-interactive request.
pub enum PromptAnswer {
    /// Answer every prompt with the saved password.
    Respond(Vec<String>),
    /// Ask the user (GUI), or give up (headless).
    Ask,
}

/// Password-like prompts are answered with the saved password (one answer
/// per prompt); anything else needs a person.
pub fn answer_prompts(prompts: &Vec<String>, auto_password: &Option<String>) -> (r: PromptAnswer)
    ensures
        match *auto_password {
            Some(p) => if all_password_like(prompts@) {
                r matches PromptAnswer::Respond(v) && v@.len() == prompts@.len() && forall|i: int|
                    0 <= i < v@.len() ==> (#[trigger] v@[i])@ == p@
            } else {
                r is Ask
            },
            None => r is Ask,
        },
{
    let pwd = match auto_password {
        Some(p) => p,
        None => return PromptAnswer::Ask,
    };
    if prompts.len() == 0 {
        return PromptAnswer::Ask;
    }
    let mut i: usize = 0;
    while i < prompts.len()
        invariant
            i <= prompts@.len(),
            forall|k: int| 0 <= k < i ==> password_like(#[trigger] prompts@[k]@),
        decreases prompts.len() - i,
    {
        if !is_password_prompt(prompts[i].as_str()) {
            return PromptAnswer::Ask;
        }
        i += 1;
    }
    let mut v: Vec<String> = Vec::new();
    let mut j: usize = 0;
    while j < prompts.len()
        invariant
            j <= prompts@.len(),
            v@.len() == j,
            forall|k: int| 0 <= k < j ==> (#[trigger] v@[k])@ == pwd@,
        decreases prompts.len() - j,
    {
        v.push(pwd.clone());
        j += 1;
    }
    PromptAnswer::Respond(v)
}

pub open spec fn headless_prompt_refusal() -> Seq<char> {
    "Headless mode cannot handle non-password interactive prompts (MFA etc.); please connect via GUI first"@
}

/// Headless keyboard-interactive: password-like prompts are answered with the
/// password; anything else fails (no one to ask).
pub fn headless_answer_prompts(prompts: &Vec<String>, password: &Option<String>) -> (r: Result<
    Vec<String>,
    String,
>)
    ensures
        match *password {
            Some(p) => if all_password_like(prompts@) {
                r matches Ok(v) && v@.len() == prompts@.len() && forall|i: int|
                    0 <= i < v@.len() ==> (#[trigger] v@[i])@ == p@
            } else {
                r matches Err(e) && e@ == headless_prompt_refusal()
            },
            None => r matches Err(e) && e@ == headless_prompt_refusal(),
        },
{
    match answer_prompts(prompts, password) {
        PromptAnswer::Respond(v) => Ok(v),
        PromptAnswer::Ask => Err(
            "Headless mode cannot handle non-password interactive prompts (MFA etc.); please connect via GUI first".to_owned(),
        ),
    }
}

} // verus!
