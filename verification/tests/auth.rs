use myshelltool::auth::{
    answer_prompts, auth_kind, gui_key_after_store, gui_key_lookup, headless_answer_prompts,
    headless_key_after_store, headless_key_lookup, inline_passphrase, is_password_prompt,
    password_source, second_factor, AuthKind, KeyLookup, KeyNext, PasswordSource, PromptAnswer,
    SecondFactor, StoreRead,
};
use myshelltool::headless::HeadlessConnectParams;

fn some(s: &str) -> Option<String> {
    Some(s.to_string())
}

fn params(cred: Option<String>, path: Option<String>) -> HeadlessConnectParams {
    HeadlessConnectParams {
        host: "h".into(),
        port: 22,
        username: "u".into(),
        password: String::new(),
        credential_id: None,
        auth_method: some("PrivateKey"),
        private_key_path: path,
        private_key_credential_id: cred,
        passphrase: None,
        passphrase_credential_id: None,
        secret_store_dir: "/s".into(),
        known_hosts_path: "/k".into(),
        jump_host: None,
        asset_store_path: None,
        connect_timeout_secs: None,
        keepalive_interval_secs: None,
    }
}

#[test]
fn auth_kind_defaults_to_password() {
    assert_eq!(auth_kind(&some("Agent")), AuthKind::Agent);
    assert_eq!(auth_kind(&some("PrivateKey")), AuthKind::PrivateKey);
    assert_eq!(auth_kind(&some("Password")), AuthKind::Password);
    assert_eq!(auth_kind(&some("agent")), AuthKind::Password);
    assert_eq!(auth_kind(&None), AuthKind::Password);
}

#[test]
fn password_source_prefers_given_password() {
    assert!(matches!(password_source(AuthKind::PrivateKey, "pw", &some("c")), PasswordSource::NotNeeded));
    assert!(matches!(password_source(AuthKind::Password, "pw", &some("c")), PasswordSource::Given(p) if p == "pw"));
    assert!(matches!(password_source(AuthKind::Agent, "", &some("c")), PasswordSource::Stored(c) if c == "c"));
    assert!(matches!(password_source(AuthKind::Password, "", &None), PasswordSource::Missing(m) if m == "No password provided and no stored credential"));
}

#[test]
fn empty_inline_passphrase_does_not_count() {
    assert_eq!(inline_passphrase(&some("")), None);
    assert_eq!(inline_passphrase(&some("x")), some("x"));
    assert_eq!(inline_passphrase(&None), None);
}

#[test]
fn headless_key_lookup_order() {
    assert!(matches!(headless_key_lookup(&params(some("kid"), some("/k1"))), KeyLookup::Credential(c) if c == "kid"));
    assert!(matches!(headless_key_lookup(&params(some(""), some("/k1"))), KeyLookup::File(f) if f == "/k1"));
    assert!(matches!(headless_key_lookup(&params(None, None)), KeyLookup::File(f) if f == "~/.ssh/id_ed25519"));
}

#[test]
fn gui_key_lookup_reads_any_reference_first() {
    assert!(matches!(gui_key_lookup(&some(""), &some("/k")), KeyLookup::Credential(c) if c.is_empty()));
    assert!(matches!(gui_key_lookup(&None, &None), KeyLookup::File(f) if f == "~/.ssh/id_ed25519"));
}

#[test]
fn headless_key_after_store_outcomes() {
    assert!(matches!(
        headless_key_after_store("kid", StoreRead::Found("KEY".into()), &None),
        KeyNext::Content(k) if k == "KEY"
    ));
    assert!(matches!(
        headless_key_after_store("kid", StoreRead::Found("  \n".into()), &some("/f")),
        KeyNext::File(f) if f == "/f"
    ));
    assert!(matches!(
        headless_key_after_store("kid", StoreRead::Absent, &some("")),
        KeyNext::Error(e) if e == "Private key credential 'kid' not found in store (凭据不存在)，且未配置私钥文件路径"
    ));
    assert!(matches!(
        headless_key_after_store("kid", StoreRead::Failed("bad".into()), &None),
        KeyNext::Error(e) if e == "Failed to read private key credential 'kid' (凭据解密失败): bad"
    ));
}

#[test]
fn gui_key_after_store_falls_back_to_file() {
    assert!(matches!(gui_key_after_store(StoreRead::Found("K".into()), &None), KeyNext::Content(k) if k == "K"));
    assert!(matches!(gui_key_after_store(StoreRead::Found(" ".into()), &None), KeyNext::File(f) if f == "~/.ssh/id_ed25519"));
    assert!(matches!(gui_key_after_store(StoreRead::Failed("e".into()), &some("/x")), KeyNext::File(f) if f == "/x"));
}

#[test]
fn second_factor_choices() {
    let (k, pp) = (some("KEY"), some(""));
    assert!(matches!(second_factor(&some("PrivateKey"), &some("pw"), &k, &pp), SecondFactor::Password(p) if p == "pw"));
    assert!(matches!(second_factor(&some("PrivateKey"), &some(""), &k, &pp), SecondFactor::Nothing));
    assert!(matches!(second_factor(&some("Password"), &some("pw"), &k, &pp), SecondFactor::PublicKey));
    assert!(matches!(second_factor(&some("Password"), &some("pw"), &k, &None), SecondFactor::Nothing));
    assert!(matches!(second_factor(&some("Password"), &some("pw"), &None, &pp), SecondFactor::Nothing));
    assert!(matches!(second_factor(&some("Agent"), &some("pw"), &k, &pp), SecondFactor::Nothing));
}

#[test]
fn password_prompts_are_recognised() {
    assert!(is_password_prompt("Password: "));
    assert!(is_password_prompt("Enter PASSPHRASE for key"));
    assert!(is_password_prompt("请输入密码"));
    assert!(!is_password_prompt("Verification code:"));
}

#[test]
fn keyboard_interactive_answers() {
    let p = vec!["Password:".to_string(), "password again:".to_string()];
    assert!(matches!(answer_prompts(&p, &some("pw")), PromptAnswer::Respond(v) if v == vec!["pw", "pw"]));
    assert!(matches!(answer_prompts(&p, &None), PromptAnswer::Ask));
    assert!(matches!(answer_prompts(&vec![], &some("pw")), PromptAnswer::Ask));
    let mfa = vec!["Password:".to_string(), "OTP:".to_string()];
    assert!(matches!(answer_prompts(&mfa, &some("pw")), PromptAnswer::Ask));
    assert_eq!(headless_answer_prompts(&p, &some("pw")).unwrap(), vec!["pw", "pw"]);
    assert_eq!(
        headless_answer_prompts(&mfa, &some("pw")).unwrap_err(),
        "Headless mode cannot handle non-password interactive prompts (MFA etc.); please connect via GUI first"
    );
}
