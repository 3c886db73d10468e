use codex_accounts::config::Paths;
use codex_accounts::error::AppError;
use codex_accounts::secure_store::{key_error, key_plan, master_key, new_master_key, open_vault, seal, seal_vault, KeyEntry};

#[test]
fn vault_read_returns_write() {
    let (key, text) = new_master_key().ok().unwrap();
    assert_eq!(master_key(&text).ok().unwrap(), key);
    let file = seal(&key, b"[{\"accounts\":1}]").ok().unwrap();
    assert_eq!(open_vault(&key, Some(file.clone())).ok().unwrap().unwrap(), b"[{\"accounts\":1}]");
    let mut tampered = file.clone();
    let last = tampered.len() - 1;
    tampered[last] ^= 1;
    assert_eq!(open_vault(&key, Some(tampered)).err().unwrap().message, "凭据库无法解密；请勿删除系统密钥");
    assert_eq!(open_vault(&key, Some(vec![0; 23])).err().unwrap().message, "凭据库损坏");
    assert!(open_vault(&key, None).ok().unwrap().is_none());
    assert_eq!(open_vault(&[0u8; 16], Some(file)).err().unwrap().code, "SECURE_STORE");
}

#[test]
fn sealing_is_framed_by_its_nonce() {
    let key = [7u8; 32];
    let nonce = [9u8; 24];
    let a = seal_vault(&key, &nonce, b"x").ok().unwrap();
    assert_eq!(&a[..24], &nonce);
    assert_eq!(a.len(), 24 + 1 + 16);
    assert_eq!(seal_vault(&key, &nonce, b"x").ok().unwrap(), a);
    assert_eq!(seal_vault(&[1u8; 31], &nonce, b"x").err().unwrap().code, key_error().code);
}

#[test]
fn master_key_must_be_32_bytes() {
    assert_eq!(master_key("AAAA").err().unwrap().code, "SECURE_STORE");
    assert_eq!(master_key("not base64!").err().unwrap().code, "SECURE_STORE");
}

#[test]
fn io_errors_keep_only_path_and_kind() {
    let e = AppError::io("/a/b", "PermissionDenied");
    assert_eq!(e.code, "FILE_PERMISSION");
    assert_eq!(e.message, "无法访问 /a/b");
    assert_eq!(e.detail.as_deref(), Some("PermissionDenied"));
    assert_eq!(AppError::io("/x", "NotFound").code, "FILE_IO");
    assert_eq!(AppError::new("C", "m").to_text(), "C: m");
}

#[test]
fn standard_paths_under_home() {
    let p = Paths::from_home("/home/u");
    assert_eq!(p.codex, "/home/u/.codex/auth.json");
    assert_eq!(p.pi, "/home/u/.pi/agent/auth.json");
    assert_eq!(Paths::from_home("/root/").codex, "/root/.codex/auth.json");
}

#[test]
fn a_new_master_key_only_without_a_vault() {
    let (key, text) = new_master_key().ok().unwrap();
    assert_eq!(key_plan(KeyEntry::Found, &text, true).ok().unwrap(), Some(key));
    assert_eq!(key_plan(KeyEntry::Missing, "", false).ok().unwrap(), None);
    assert_eq!(key_plan(KeyEntry::Missing, "", true).err().unwrap().code, "SECURE_STORE");
    assert_eq!(key_plan(KeyEntry::Unavailable, "", false).err().unwrap().code, "SECURE_STORE");
    assert_eq!(key_plan(KeyEntry::Found, "AAAA", true).err().unwrap().code, "SECURE_STORE");
}
