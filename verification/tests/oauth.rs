use codex_accounts::oauth::{
    authorize_url, callback_result, finishes, handle_request, parse, pkce_challenge, random, request_complete, request_target,
    response_status,
};

#[test]
fn state_and_duplicates() {
    assert!(parse("/auth/callback?code=x&state=good", "good").is_ok());
    assert!(parse("/auth/callback?code=x&state=bad", "good").is_err());
    assert!(parse("/auth/callback?code=x&state=good&state=good", "good").is_err());
}

#[test]
fn callback_errors_are_distinguished() {
    assert_eq!(parse("/auth/callback?code=abc&state=s", "s").ok().unwrap(), "abc");
    assert_eq!(parse("/other?code=abc&state=s", "s").err().unwrap().message, "回调路径不匹配");
    assert_eq!(parse("/auth/callback?code=abc", "s").err().unwrap().code, "OAUTH_STATE");
    assert_eq!(parse("/auth/callback?error=access_denied&state=s", "s").err().unwrap().code, "OAUTH_DENIED");
    assert_eq!(parse("/auth/callback?state=s", "s").err().unwrap().code, "OAUTH_CALLBACK");
    assert_eq!(parse("/auth/callback?code=&state=s", "s").err().unwrap().code, "OAUTH_CALLBACK");
    assert_eq!(parse("/auth/callback?code=a&code=b&state=s", "s").err().unwrap().code, "OAUTH_CALLBACK");
    assert_eq!(parse("/auth/callback?code=a%2Bb&state=s", "s").ok().unwrap(), "a+b");
}

#[test]
fn request_line_is_read() {
    let ok = handle_request(b"GET /auth/callback?code=c1&state=st HTTP/1.1\r\nHost: x\r\n\r\n", "st");
    assert_eq!(ok.ok().unwrap(), "c1");
    let post = handle_request(b"POST /auth/callback?code=c1&state=st HTTP/1.1\r\n\r\n", "st");
    assert_eq!(post.err().unwrap().message, "无效 HTTP 请求");
    let big = vec![b'a'; 8193];
    assert_eq!(handle_request(&big, "st").err().unwrap().message, "回调请求超时或过大");
    assert_eq!(handle_request(b"", "st").err().unwrap().message, "无效 HTTP 请求");
    assert_eq!(handle_request(b"GET", "st").err().unwrap().message, "回调路径不匹配");
}

#[test]
fn waiting_ends_on_code_or_denial() {
    assert!(finishes(&handle_request(b"GET /auth/callback?code=c&state=s HTTP/1.1\r\n\r\n", "s")));
    assert!(finishes(&handle_request(b"GET /auth/callback?error=x&state=s HTTP/1.1\r\n\r\n", "s")));
    assert!(!finishes(&handle_request(b"GET /favicon.ico HTTP/1.1\r\n\r\n", "s")));
    assert!(request_complete(b"GET / HTTP/1.1\r\n\r\n"));
    assert!(!request_complete(b"GET / HTTP/1.1\r\n"));
    assert!(request_complete(&vec![0u8; 8193]));
    assert_eq!(response_status(true), "200 OK");
    assert_eq!(response_status(false), "400 Bad Request");
}

#[test]
fn pkce_challenge_is_rfc7636() {
    // RFC 7636 appendix B.
    assert_eq!(pkce_challenge("dBjftJeZ4CVP-mB92K27uhbUJU1p1r_wW1gFWFOEjXk"), "E9Melhoa2OwvFrEMTJguCHaoeK1t8URWbuGJSstw-cM");
}

#[test]
fn authorize_url_carries_challenge_and_state() {
    let u = authorize_url("chal", "st").ok().unwrap();
    assert!(u.starts_with("https://auth.openai.com/oauth/authorize?response_type=code&client_id=app_EMoamEEZ73f0CkXaXp7hrann"));
    assert!(u.contains("&redirect_uri=http%3A%2F%2Flocalhost%3A1455%2Fauth%2Fcallback"));
    assert!(u.contains("&scope=openid+profile+email+offline_access"));
    assert!(u.contains("&code_challenge=chal&code_challenge_method=S256&state=st"));
    assert!(u.ends_with("&originator=codex_cli_rs&prompt=login"));
}

fn parts(path: &str, pairs: &[(&str, &str)]) -> Option<(String, Vec<(String, String)>)> {
    Some((path.to_string(), pairs.iter().map(|(k, v)| (k.to_string(), v.to_string())).collect()))
}

#[test]
fn callback_result_on_parsed_parts() {
    assert_eq!(callback_result(None, "s").err().unwrap().message, "无效回调");
    assert_eq!(callback_result(parts("/auth/callback", &[("state", "s"), ("code", "c")]), "s").ok().unwrap(), "c");
    assert_eq!(callback_result(parts("/auth/other", &[("state", "s"), ("code", "c")]), "s").err().unwrap().message, "回调路径不匹配");
    assert_eq!(callback_result(parts("/auth/callback", &[("state", "s"), ("state", "s"), ("code", "c")]), "s").err().unwrap().code, "OAUTH_STATE");
    assert_eq!(callback_result(parts("/auth/callback", &[("state", "t"), ("code", "c")]), "s").err().unwrap().code, "OAUTH_STATE");
    assert_eq!(callback_result(parts("/auth/callback", &[("error", "denied"), ("state", "s")]), "s").err().unwrap().code, "OAUTH_DENIED");
    assert_eq!(callback_result(parts("/auth/callback", &[("state", "s"), ("code", "")]), "s").err().unwrap().message, "回调缺少唯一 authorization code");
    assert_eq!(callback_result(parts("/auth/callback", &[("code", "x y"), ("state", "s")]), "s").ok().unwrap(), "x y");
}

#[test]
fn request_target_of_request_text() {
    assert_eq!(request_target("GET /auth/callback?code=c HTTP/1.1\r\nHost: x\r\n\r\n").as_deref(), Some("/auth/callback?code=c"));
    assert_eq!(request_target("GET   /x   HTTP/1.1"), Some("/x".to_string()));
    assert_eq!(request_target("GET"), Some(String::new()));
    assert_eq!(request_target("POST /x HTTP/1.1\r\n"), None);
    assert_eq!(request_target("get /x HTTP/1.1"), None);
    assert_eq!(request_target(""), None);
    assert_eq!(request_target("\r\nGET /x HTTP/1.1"), None);
}

#[test]
fn random_values_are_fresh_url_safe_text() {
    let a = random().ok().unwrap();
    let b = random().ok().unwrap();
    assert_eq!(a.len(), 43);
    assert!(a.chars().all(|c| c.is_ascii_alphanumeric() || c == '-' || c == '_'));
    assert_ne!(a, b);
}
