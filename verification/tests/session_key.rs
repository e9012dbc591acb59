use myshelltool::session_key::{
    parse_session_key_material, read_session_key, read_session_key_material, session_key_payload,
    stale_recovery_password,
};

fn key32() -> Vec<u8> {
    (0u8..32).collect()
}

#[test]
fn payload_is_key_colon_salt_in_base64() {
    let p = session_key_payload(&[1, 2, 3], &[255]).unwrap();
    assert_eq!(p, "AQID:/w==");
}

#[test]
fn payload_refuses_an_empty_salt() {
    let e = session_key_payload(&key32(), &[]).unwrap_err();
    assert_eq!(e, "会话密钥缺少派生 salt：拒绝写出无法用主密码恢复的备份");
}

#[test]
fn payload_reads_back_as_written() {
    let key = key32();
    let salt = vec![9u8, 8, 7, 6, 5];
    let p = session_key_payload(&key, &salt).unwrap();
    let (k, s) = parse_session_key_material(&p).unwrap();
    assert_eq!(k, key);
    assert_eq!(s, salt);
    let m = read_session_key_material(Some(p.clone())).unwrap().unwrap();
    assert_eq!(m, (key.clone(), salt));
    assert_eq!(read_session_key(Some(p)).unwrap(), Some(key));
}

#[test]
fn nothing_stored_means_not_enabled() {
    assert_eq!(read_session_key_material(None).unwrap(), None);
    assert_eq!(read_session_key(None).unwrap(), None);
}

#[test]
fn corrupt_payloads_are_refused() {
    assert_eq!(
        parse_session_key_material("AAAA").unwrap_err(),
        "会话密钥载荷格式损坏"
    );
    assert_eq!(
        parse_session_key_material("AQID:/w==").unwrap_err(),
        "会话密钥长度异常"
    );
    let key = session_key_payload(&key32(), &[1]).unwrap();
    let head = key.split(':').next().unwrap().to_string();
    assert_eq!(
        read_session_key(Some(format!("{head}:"))).unwrap_err(),
        "本机会话密钥缺少派生 salt（无法写出可用主密码恢复的备份）：请关闭并重新启用自动同步"
    );
    assert_eq!(
        parse_session_key_material("abc:").unwrap_err(),
        "invalid base64 length: 3"
    );
    assert_eq!(
        parse_session_key_material(&format!("{head}:a*==")).unwrap_err(),
        "invalid base64 char: *"
    );
}

#[test]
fn recovery_password_dropped_only_when_it_differs() {
    assert!(stale_recovery_password(&Ok(Some("old".to_string())), "new"));
    assert!(!stale_recovery_password(&Ok(Some("same".to_string())), "same"));
    assert!(!stale_recovery_password(&Ok(None), "new"));
    assert!(!stale_recovery_password(&Err("io".to_string()), "new"));
}
