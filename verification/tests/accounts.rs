use base64::Engine;
use codex_accounts::json::{Json, JsonNumber};
use codex_accounts::model::{Account, Credentials};
use codex_accounts::protocol::{account_with, claims, exchange_response_at, expiry, refresh_form, TokenResponse};
use codex_accounts::repository::Repository;
use codex_accounts::runtime::{apply_account, detect_current_account, json, CodexAdapter, PiAdapter, RuntimeAdapter};
use codex_accounts::service::{
    adopt_refresh, apply_quota, importable, issued, mark_used, needs_refresh, prepare_with,
    reauthorize, reconcile_step, runtime_status, snapshot_with,
};

fn jwt(payload: &str) -> String {
    format!("e30.{}.signature", base64::engine::general_purpose::URL_SAFE_NO_PAD.encode(payload.as_bytes()))
}

fn credentials(account_id: &str, iat: i64, refresh: &str) -> Credentials {
    let payload = format!(
        r#"{{"exp":{},"iat":{},"https://api.openai.com/auth":{{"chatgpt_account_id":"{}","chatgpt_plan_type":"plus"}},"email":"{}@example.test"}}"#,
        iat + 3600,
        iat,
        account_id,
        account_id
    );
    Credentials { access_token: jwt(&payload), refresh_token: refresh.into(), id_token: Some("id".into()), expires_at: (iat + 3600) * 1000 }
}

fn account(local_id: &str, account_id: &str) -> Account {
    account_with(credentials(account_id, 1_000, "refresh"), None, local_id, 7).ok().unwrap()
}

fn doc(text: &str) -> Json {
    json(text.as_bytes()).ok().unwrap()
}

#[test]
fn claims_and_expiry() {
    let t = jwt(r#"{"exp":1700000000}"#);
    assert!(claims(&t).is_ok());
    assert_eq!(expiry(&t), 1_700_000_000_000);
    assert_eq!(expiry("no-dots"), 0);
    assert_eq!(expiry(&jwt(r#"{"exp":"soon"}"#)), 0);
    assert_eq!(expiry(&jwt(r#"{"exp":9223372036854775807}"#)), 0);
    let padded = format!("{}==", jwt(r#"{"exp":2}"#).trim_end_matches(".signature"));
    assert_eq!(expiry(&padded), 2000);
    assert_eq!(claims("a.%%%.c").err().unwrap().code, "TOKEN_FORMAT");
}

#[test]
fn account_identity_from_claims() {
    let a = account("local", "acct-1");
    assert_eq!(a.view.id, "local");
    assert_eq!(a.view.account_id, "acct-1");
    assert_eq!(a.view.email.as_deref(), Some("acct-1@example.test"));
    assert_eq!(a.view.plan_type.as_deref(), Some("plus"));
    assert_eq!(a.view.created_at, 7);
    let mismatch = account_with(credentials("acct-1", 1, "r"), Some("other"), "x", 0);
    assert_eq!(mismatch.err().unwrap().code, "RUNTIME_DESYNC");
    let bare = Credentials { access_token: jwt("{}"), refresh_token: "r".into(), id_token: None, expires_at: 0 };
    assert_eq!(account_with(bare, None, "x", 0).err().unwrap().code, "ACCOUNT_ID_MISSING");
    let explicit = Credentials { access_token: jwt("{}"), refresh_token: "r".into(), id_token: None, expires_at: 0 };
    assert_eq!(account_with(explicit, Some("given"), "x", 0).ok().unwrap().view.account_id, "given");
}

fn token(access: &str, refresh: Option<&str>, id: Option<&str>, expires_in: i64) -> Option<TokenResponse> {
    Some(TokenResponse {
        access_token: access.to_string(),
        refresh_token: refresh.map(|s| s.to_string()),
        id_token: id.map(|s| s.to_string()),
        expires_in,
    })
}

#[test]
fn token_responses() {
    let old = credentials("a", 1, "old-refresh");
    let c = exchange_response_at(200, token("new", None, None, 60), Some(&old), 1000).ok().unwrap();
    assert_eq!(c.access_token, "new");
    assert_eq!(c.refresh_token, "old-refresh");
    assert_eq!(c.id_token.as_deref(), Some("id"));
    assert_eq!(c.expires_at, 61_000);
    let rotated = exchange_response_at(200, token("n", Some("r2"), None, 5), Some(&old), 0).ok().unwrap();
    assert_eq!(rotated.refresh_token, "r2");
    let empty_refresh = exchange_response_at(200, token("n", Some(""), Some("id2"), 5), Some(&old), 0).ok().unwrap();
    assert_eq!(empty_refresh.refresh_token, "old-refresh");
    assert_eq!(empty_refresh.id_token.as_deref(), Some("id2"));
    assert_eq!(exchange_response_at(400, None, Some(&old), 0).err().unwrap().code, "REFRESH_TOKEN_INVALID");
    let failed = exchange_response_at(400, None, None, 0).err().unwrap();
    assert_eq!(failed.code, "OAUTH_FAILED");
    assert_eq!(failed.message, "OAuth 请求失败（HTTP 400）");
    assert_eq!(exchange_response_at(200, token("n", None, None, 5), None, 0).err().unwrap().message, "OAuth 未返回 Refresh Token");
    assert_eq!(exchange_response_at(200, token("", Some("r"), None, 5), None, 0).err().unwrap().message, "OAuth 返回无效 Token 或过期时间");
    assert_eq!(exchange_response_at(200, token("n", Some("r"), None, 0), None, 0).err().unwrap().message, "OAuth 返回无效 Token 或过期时间");
    assert_eq!(exchange_response_at(200, token("n", Some("r"), None, 31536001), None, 0).err().unwrap().code, "OAUTH_SCHEMA");
    assert_eq!(exchange_response_at(200, None, None, 0).err().unwrap().message, "OAuth 返回结构发生变化");
    let fresh = exchange_response_at(200, token("n", Some("r"), None, 31536000), None, 5).ok().unwrap();
    assert_eq!(fresh.expires_at, 31_536_000_005);
    let form = refresh_form(&old);
    assert_eq!(form[2], ("refresh_token".to_string(), "old-refresh".to_string()));
}

#[test]
fn broken_json_rejected() {
    assert!(json(b"{broken").is_err());
    assert!(json(b"[]").is_err());
}

/// A document as a `serde_json::Value`, for comparing whole members.
fn value(j: &Json) -> serde_json::Value {
    match j {
        Json::Null => serde_json::Value::Null,
        Json::Bool(b) => serde_json::Value::Bool(*b),
        Json::Number(JsonNumber::PosInt(u)) => serde_json::Value::from(*u),
        Json::Number(JsonNumber::NegInt(i)) => serde_json::Value::from(*i),
        Json::Number(JsonNumber::Float(t)) => serde_json::Value::Number(t.parse().unwrap()),
        Json::Str(s) => serde_json::Value::String(s.clone()),
        Json::Array(a) => serde_json::Value::Array(a.iter().map(value).collect()),
        Json::Object(o) => serde_json::Value::Object(o.iter().map(|(k, v)| (k.clone(), value(v))).collect()),
    }
}

#[test]
fn preserves_other_providers() {
    let mut a = account("a", "a");
    a.credentials = Credentials { access_token: "access".into(), refresh_token: "refresh".into(), id_token: None, expires_at: 123 };
    let p = PiAdapter { path: String::new() };
    let old = doc(r#"{"anthropic":{"type":"api_key","key":"test"},"other":[1,2]}"#);
    let next = apply_account(&p, &old, &a).ok().unwrap();
    assert_eq!(value(next.get("anthropic").unwrap()), value(old.get("anthropic").unwrap()));
    assert_eq!(value(next.get("other").unwrap()), value(old.get("other").unwrap()));
    let anthropic: serde_json::Value = serde_json::from_str(r#"{"type":"api_key","key":"test"}"#).unwrap();
    assert_eq!(value(next.get("anthropic").unwrap()), anthropic);
    let other: serde_json::Value = serde_json::from_str("[1,2]").unwrap();
    assert_eq!(value(next.get("other").unwrap()), other);
    assert_eq!(next.get("openai-codex").and_then(|e| e.get("expires")).and_then(|e| e.as_i64()), Some(123));
}

#[test]
fn codex_file_round_trip() {
    let a = account("a", "acct-9");
    let codex = CodexAdapter { path: "/tmp/auth.json".into() };
    let value = codex.apply_account_at(&Json::empty_object(), &a, "2024-01-01T00:00:00+00:00").ok().unwrap();
    let found = codex.detect_current_account_with(&value, "new", 5).ok().unwrap().unwrap();
    assert_eq!(found.view.account_id, "acct-9");
    assert_eq!(found.credentials.refresh_token, "refresh");
    let mut no_id = account("b", "acct-9");
    no_id.credentials.id_token = None;
    assert_eq!(codex.apply_account_at(&Json::empty_object(), &no_id, "").err().unwrap().code, "CODEX_ID_TOKEN_MISSING");
    let api_key = doc(r#"{"OPENAI_API_KEY":"sk-1","tokens":{"access_token":"x","refresh_token":"y"}}"#);
    assert!(codex.detect_current_account_with(&api_key, "n", 0).ok().unwrap().is_none());
    let missing = doc(r#"{"tokens":{"access_token":"x"}}"#);
    assert_eq!(codex.detect_current_account_with(&missing, "n", 0).err().unwrap().code, "RUNTIME_SCHEMA");
}

#[test]
fn pi_entry_detection() {
    let pi = PiAdapter { path: "/tmp/pi.json".into() };
    let c = credentials("acct-3", 50, "r3");
    let text = format!(r#"{{"openai-codex":{{"type":"oauth","access":"{}","refresh":"r3","expires":99}}}}"#, c.access_token);
    let a = pi.detect_current_account_with(&doc(&text), "n", 0).ok().unwrap().unwrap();
    assert_eq!(a.view.account_id, "acct-3");
    assert_eq!(a.credentials.expires_at, 99);
    assert!(a.credentials.id_token.is_none());
    assert!(pi.detect_current_account_with(&doc(r#"{"openai-codex":{}}"#), "n", 0).ok().unwrap().is_none());
    assert!(detect_current_account(&pi, &doc(r#"{"other":1}"#)).ok().unwrap().is_none());
    assert!(pi.detect_current_account_with(&doc(r#"{"openai-codex":{"type":"api_key"}}"#), "n", 0).ok().unwrap().is_none());
    let bad = format!(r#"{{"openai-codex":{{"type":"oauth","access":"{}","refresh":"r","expires":"x"}}}}"#, c.access_token);
    assert_eq!(pi.detect_current_account_with(&doc(&bad), "n", 0).err().unwrap().message, "Pi OAuth expires 必须为毫秒时间戳");
    assert_eq!(pi.apply_account_at(&Json::Null, &account("a", "a"), "").err().unwrap().code, "JSON_CORRUPT");
}

#[test]
fn snapshots_and_prepared_switch() {
    let pi = PiAdapter { path: "/tmp/pi.json".into() };
    let empty = snapshot_with(&pi, None, "n", 0).ok().unwrap();
    assert!(empty.account.is_none());
    assert!(empty.value.is_empty_object());
    assert_eq!(snapshot_with(&pi, Some(b"{corrupt".to_vec()), "n", 0).err().unwrap().code, "JSON_CORRUPT");
    let target = account("t", "acct-t");
    let bytes = prepare_with(&pi, &doc(r#"{"anthropic":{"key":"fixture"}}"#), &target, "").ok().unwrap();
    let back = snapshot_with(&pi, Some(bytes), "n", 0).ok().unwrap();
    assert_eq!(back.account.unwrap().view.account_id, "acct-t");
    assert!(back.value.get("anthropic").is_some());
    let codex = CodexAdapter { path: "/tmp/c.json".into() };
    let mut no_id = account("t", "acct-t");
    no_id.credentials.id_token = None;
    assert_eq!(prepare_with(&codex, &Json::empty_object(), &no_id, "").err().unwrap().code, "CODEX_ID_TOKEN_MISSING");
}

#[test]
fn reconcile_adopts_only_newer_tokens() {
    let mut vault = account("a", "acct");
    vault.credentials = credentials("acct", 100, "old");
    let mut newer = account("x", "acct");
    newer.credentials = credentials("acct", 200, "rotated");
    newer.credentials.id_token = None;
    let adopted = reconcile_step(Some(&newer), &vault).ok().unwrap().unwrap();
    assert_eq!(adopted.refresh_token, "rotated");
    assert_eq!(adopted.id_token.as_deref(), Some("id"));
    assert!(reconcile_step(Some(&vault), &newer).ok().unwrap().is_none());
    let mut same_time = account("y", "acct");
    same_time.credentials = credentials("acct", 100, "different");
    assert_eq!(reconcile_step(Some(&same_time), &vault).err().unwrap().code, "RUNTIME_DESYNC");
    let other = account("z", "other");
    assert!(reconcile_step(Some(&other), &vault).ok().unwrap().is_none());
    assert!(reconcile_step(None, &vault).ok().unwrap().is_none());
    let opaque = Credentials { access_token: "opaque".into(), refresh_token: "r".into(), id_token: None, expires_at: -1500 };
    assert_eq!(issued(&opaque), -1);
}

#[test]
fn refresh_and_quota_updates() {
    let a = account("a", "acct");
    assert!(needs_refresh(&a.credentials, 1_000_000 * 1000, false));
    assert!(!needs_refresh(&a.credentials, 0, false));
    assert!(needs_refresh(&a.credentials, 0, true));
    let refreshed = adopt_refresh(a, credentials("acct", 5_000, "rotated")).ok().unwrap();
    assert_eq!(refreshed.credentials.refresh_token, "rotated");
    assert_eq!(refreshed.view.id, "a");
    let wrong = adopt_refresh(account("a", "acct"), credentials("other", 1, "r"));
    assert_eq!(wrong.err().unwrap().code, "RUNTIME_DESYNC");
    let used = mark_used(account("a", "acct"), 42);
    assert_eq!(used.view.last_used_at, Some(42));
    let q = codex_accounts::quota::parse(&doc(r#"{"rate_limit":null}"#)).ok().unwrap().0;
    let with_quota = apply_quota(account("a", "acct"), q, None);
    assert_eq!(with_quota.view.plan_type.as_deref(), Some("plus"));
    assert!(with_quota.view.quota.is_some());
}

#[test]
fn reauthorize_keeps_identity() {
    let mut old = account("local", "acct");
    old.view.created_at = 1;
    old.view.last_used_at = Some(2);
    let fresh = account("fresh", "acct");
    let r = reauthorize(&old, fresh).ok().unwrap();
    assert_eq!((r.view.id.as_str(), r.view.created_at, r.view.last_used_at), ("local", 1, Some(2)));
    assert_eq!(reauthorize(&old, account("f", "other")).err().unwrap().code, "REAUTHORIZE_MISMATCH");
    assert_eq!(importable(None).err().unwrap().code, "NO_OAUTH_ACCOUNT");
}

#[test]
fn repository_operations() {
    let mut repo = Repository::new(vec![account("a", "acct-a"), account("b", "acct-b")]);
    assert_eq!(repo.get("b").ok().unwrap().view.account_id, "acct-b");
    assert_eq!(repo.get("c").err().unwrap().code, "ACCOUNT_NOT_FOUND");
    assert_eq!(repo.insert_new(account("c", "acct-a")).err().unwrap().code, "ACCOUNT_EXISTS");
    assert_eq!(repo.list().len(), 2);
    let mut changed = account("a", "acct-a");
    changed.view.email = Some("new@example.test".into());
    repo.put(changed).ok().unwrap();
    assert_eq!(repo.get("a").ok().unwrap().view.email.as_deref(), Some("new@example.test"));
    assert_eq!(repo.put(account("zz", "acct-z")).err().unwrap().code, "ACCOUNT_NOT_FOUND");
    repo.remove("a").ok().unwrap();
    assert_eq!(repo.get("a").err().unwrap().code, "ACCOUNT_NOT_FOUND");
    assert_eq!(repo.remove("a").err().unwrap().code, "ACCOUNT_NOT_FOUND");
    let status = runtime_status("Codex", "/p", Ok(Some(account("x", "acct-b"))), &repo);
    assert_eq!(status.managed_id.as_deref(), Some("b"));
    let unmanaged = runtime_status("Codex", "/p", Ok(Some(account("x", "acct-a"))), &repo);
    assert_eq!(unmanaged.managed_id, None);
    assert_eq!(unmanaged.account_id.as_deref(), Some("acct-a"));
}

#[test]
fn fresh_ids_and_times() {
    let id = codex_accounts::protocol::new_local_id().ok().unwrap();
    assert_eq!(id.len(), 36);
    assert_eq!(id.chars().nth(14), Some('4'));
    assert_eq!(id.chars().filter(|c| *c == '-').count(), 4);
    assert_ne!(id, codex_accounts::protocol::new_local_id().ok().unwrap());
    let t = codex_accounts::model::now().ok().unwrap();
    assert!(t > 1_600_000_000_000);
    let text = codex_accounts::runtime::now_rfc3339().ok().unwrap();
    assert!(text.ends_with("+00:00"));
    assert!(text.starts_with("20"));
    let a = codex_accounts::protocol::account(credentials("acct-7", 1, "r"), None).ok().unwrap();
    assert_eq!(a.view.account_id, "acct-7");
    assert_eq!(a.view.id.len(), 36);
    assert!(a.view.created_at >= t);
}

#[test]
fn a_failed_quota_query_keeps_the_login() {
    let added = account("a", "acct-a").view;
    let mut with_quota = account("a", "acct-a").view;
    with_quota.plan_type = Some("pro".into());
    let kept = codex_accounts::service::login_result(added, Ok(with_quota));
    assert_eq!(kept.account.plan_type.as_deref(), Some("pro"));
    assert!(kept.quota_error.is_none());
    let added = account("a", "acct-a").view;
    let failed = codex_accounts::service::login_result(added, Err(codex_accounts::error::AppError::new("QUOTA_FAILED", "x")));
    assert_eq!(failed.account.account_id, "acct-a");
    assert_eq!(failed.quota_error.unwrap().code, "QUOTA_FAILED");
}
