//! The authentication files of the runtimes (Codex and Pi Agent): which
//! account they hold, and what they hold after switching to an account.
use vstd::prelude::*;
use crate::commit::{conflict, conflict_error};
use crate::error::{AppError, AppErrorV, app_error, clock_error, clock_unavailable, random_error};
use crate::json::{
    Json, JsonV, JsonNumberV, decode, encode_pretty, int_number, json_decode, json_encode_pretty, jv,
    jv_obj, lemma_jv_obj, number_of_i64, obj_set, present, replace_entry,
};
use crate::model::{Account, AccountV, Credentials, CredentialsV, clock_bound, now, since_epoch, system_time};
use crate::protocol::{
    account_with, claimed_account_id, expiry, id_claims, new_local_id, second_segment, spec_account, spec_claims,
    spec_expiry, str_at, uuid_v4_text,
};
use crate::text::{copy_string, opt_str, opt_view, owned, str_eq};
use vstd::string::StrSliceExecFns;

verus! {

pub open spec fn json_corrupt_error() -> AppErrorV {
    app_error("JSON_CORRUPT"@, "JSON 内容损坏；未修改原文件"@)
}

pub open spec fn not_object_error() -> AppErrorV {
    app_error("JSON_CORRUPT"@, "认证文件必须是 JSON 对象"@)
}

/// An authentication file's contents as a JSON object.
pub open spec fn spec_json_object(bytes: Seq<u8>) -> Result<JsonV, AppErrorV> {
    match json_decode(bytes) {
        None => Err(json_corrupt_error()),
        Some(v) => if v is Object {
            Ok(v)
        } else {
            Err(not_object_error())
        },
    }
}

pub open spec fn json_result(r: Result<Json, AppError>) -> Result<JsonV, AppErrorV> {
    match r {
        Ok(v) => Ok(v@),
        Err(e) => Err(e@),
    }
}

/// Reads an authentication file's contents, which must be a JSON object.
pub fn json(bytes: &[u8]) -> (r: Result<Json, AppError>)
    ensures
        json_result(r) == spec_json_object(bytes@),
{
    match decode(bytes) {
        None => Err(AppError::new("JSON_CORRUPT", "JSON 内容损坏；未修改原文件")),
        Some(v) => if v.is_object() {
            Ok(v)
        } else {
            Err(AppError::new("JSON_CORRUPT", "认证文件必须是 JSON 对象"))
        },
    }
}

pub open spec fn runtime_schema_error() -> AppErrorV {
    app_error("RUNTIME_SCHEMA"@, "认证文件缺少必要 OAuth 字段"@)
}

/// A member that must be a non-empty string.
pub open spec fn spec_required(v: JsonV, key: Seq<char>) -> Result<Seq<char>, AppErrorV> {
    match v.at(key).as_str() {
        Some(s) => if s.len() > 0 {
            Ok(s)
        } else {
            Err(runtime_schema_error())
        },
        None => Err(runtime_schema_error()),
    }
}

pub open spec fn string_result(r: Result<String, AppError>) -> Result<Seq<char>, AppErrorV> {
    match r {
        Ok(s) => Ok(s@),
        Err(e) => Err(e@),
    }
}

pub fn required(v: &Json, key: &str) -> (r: Result<String, AppError>)
    ensures
        string_result(r) == spec_required(v@, key@),
{
    match str_at(v, key) {
        Some(s) => if s.as_str().unicode_len() > 0 {
            Ok(s)
        } else {
            Err(AppError::new("RUNTIME_SCHEMA", "认证文件缺少必要 OAuth 字段"))
        },
        None => Err(AppError::new("RUNTIME_SCHEMA", "认证文件缺少必要 OAuth 字段")),
    }
}

pub open spec fn detect_result(r: Result<Option<Account>, AppError>) -> Result<Option<AccountV>, AppErrorV> {
    match r {
        Ok(Some(a)) => Ok(Some(a@)),
        Ok(None) => Ok(None),
        Err(e) => Err(e@),
    }
}

/// The account found in a runtime's file, as `Some`, or nothing.
pub open spec fn some_account(r: Result<AccountV, AppErrorV>) -> Result<Option<AccountV>, AppErrorV> {
    match r {
        Ok(a) => Ok(Some(a)),
        Err(e) => Err(e),
    }
}

/// A runtime whose authentication file the library reads and writes.
pub trait RuntimeAdapter {
    spec fn spec_name(&self) -> Seq<char>;

    spec fn spec_path(&self) -> Seq<char>;

    /// The account that a file's document holds, with the given local id and
    /// creation time for a newly seen account.
    spec fn spec_detect(&self, v: JsonV, id: Seq<char>, created_at: int) -> Result<Option<AccountV>, AppErrorV>;

    /// The document after switching the file to an account; `refreshed_at`
    /// is the time of the switch in RFC 3339.
    spec fn spec_apply(&self, original: JsonV, a: AccountV, refreshed_at: Seq<char>) -> Result<JsonV, AppErrorV>;

    fn name(&self) -> (r: &'static str)
        ensures
            r@ == self.spec_name(),
    ;

    fn path(&self) -> (r: &str)
        ensures
            r@ == self.spec_path(),
    ;

    fn detect_current_account_with(&self, v: &Json, id: &str, created_at: i64) -> (r: Result<Option<Account>, AppError>)
        ensures
            detect_result(r) == self.spec_detect(v@, id@, created_at as int),
    ;

    fn apply_account_at(&self, original: &Json, a: &Account, refreshed_at: &str) -> (r: Result<Json, AppError>)
        ensures
            json_result(r) == self.spec_apply(original@, a@, refreshed_at@),
    ;
}

/// The RFC 3339 text of a UTC time given in seconds since 1970 and
/// nanoseconds beyond them.
pub uninterp spec fn utc_rfc3339(secs: int, nanos: int) -> Option<Seq<char>>;

/// Formats a time with `chrono::DateTime::from_timestamp` and `to_rfc3339`.
/// Claims that the text is the formatter's text for the time, nothing where
/// the time lies outside chrono's range, and that, being UTC, it ends in the
/// offset `+00:00`.
#[verifier::external_body]
fn rfc3339_of(secs: i64, nanos: u32) -> (r: Option<String>)
    ensures
        match r {
            Some(s) => utc_rfc3339(secs as int, nanos as int) == Some(s@) && s@.len() >= 6 && s@.subrange(
                s@.len() - 6,
                s@.len() as int,
            ) == "+00:00"@,
            None => utc_rfc3339(secs as int, nanos as int) is None,
        },
{
    chrono::DateTime::from_timestamp(secs, nanos).map(|d| d.to_rfc3339())
}

/// The current time as RFC 3339 text in UTC, to the nanosecond; the clock's
/// error when the system clock reads a time before 1970 or beyond the dates
/// that can be written.
pub fn now_rfc3339() -> (r: Result<String, AppError>)
    ensures
        match r {
            Ok(s) => exists|secs: int, nanos: int|
                0 <= secs <= clock_bound() / 1000 && 0 <= nanos < 1_000_000_000 && #[trigger] utc_rfc3339(secs, nanos)
                    == Some(s@),
            Err(e) => e@ == clock_error(),
        },
        r is Ok ==> r->Ok_0@.len() >= 6 && r->Ok_0@.subrange(r->Ok_0@.len() - 6, r->Ok_0@.len() as int)
            == "+00:00"@,
{
    let t = system_time();
    match since_epoch(&t) {
        Some((secs, nanos)) => if secs <= 9_000_000_000_000 {
            match rfc3339_of(secs as i64, nanos) {
                Some(s) => Ok(s),
                None => Err(clock_unavailable()),
            }
        } else {
            Err(clock_unavailable())
        },
        None => Err(clock_unavailable()),
    }
}

/// The account in a runtime's file; a newly seen account gets a fresh local
/// id and the current time. The random source's or the clock's error when
/// either cannot be read.
pub fn detect_current_account<A: RuntimeAdapter>(adapter: &A, v: &Json) -> (r: Result<Option<Account>, AppError>)
    ensures
        (r is Err && (r->Err_0@ == random_error() || r->Err_0@ == clock_error())) || exists|id: Seq<char>, t: int|
            uuid_v4_text(id) && 0 <= t <= clock_bound() && detect_result(r) == #[trigger] adapter.spec_detect(
                v@,
                id,
                t,
            ),
{
    let id = match new_local_id() {
        Ok(id) => id,
        Err(e) => {
            return Err(e);
        },
    };
    let t = match now() {
        Ok(t) => t,
        Err(e) => {
            return Err(e);
        },
    };
    adapter.detect_current_account_with(v, id.as_str(), t)
}

/// The document after switching the file to an account now; the clock's
/// error when the current time cannot be read.
pub fn apply_account<A: RuntimeAdapter>(adapter: &A, original: &Json, a: &Account) -> (r: Result<Json, AppError>)
    ensures
        (r is Err && r->Err_0@ == clock_error()) || exists|t: Seq<char>| json_result(r) == #[trigger] adapter.spec_apply(
            original@,
            a@,
            t,
        ),
{
    match now_rfc3339() {
        Ok(t) => adapter.apply_account_at(original, a, t.as_str()),
        Err(e) => Err(e),
    }
}

/// The Codex CLI file `~/.codex/auth.json`.
pub struct CodexAdapter {
    pub path: String,
}

pub open spec fn codex_id_token_error() -> AppErrorV {
    app_error("CODEX_ID_TOKEN_MISSING"@, "Codex 需要 ID Token；请在管理器中重新授权此账号"@)
}

/// The account of a Codex file: none in API-key mode or without tokens.
pub open spec fn codex_detect(v: JsonV, id: Seq<char>, created_at: int) -> Result<Option<AccountV>, AppErrorV> {
    let other_mode = match v.at("auth_mode"@).as_str() {
        Some(m) => m != "chatgpt"@,
        None => false,
    };
    let api_key = match v.at("OPENAI_API_KEY"@).as_str() {
        Some(k) => k.len() > 0,
        None => false,
    };
    if other_mode || api_key {
        Ok(None)
    } else {
        match present(v, "tokens"@) {
            None => Ok(None),
            Some(t) => match spec_required(t, "access_token"@) {
                Err(e) => Err(e),
                Ok(access) => match spec_required(t, "refresh_token"@) {
                    Err(e) => Err(e),
                    Ok(refresh) => some_account(
                        spec_account(
                            CredentialsV {
                                access_token: access,
                                refresh_token: refresh,
                                id_token: t.at("id_token"@).as_str(),
                                expires_at: spec_expiry(access),
                            },
                            t.at("account_id"@).as_str(),
                            id,
                            created_at,
                        ),
                    ),
                },
            },
        }
    }
}

pub open spec fn str_json(s: Seq<char>) -> JsonV {
    JsonV::Str(s)
}

/// The complete Codex file for an account: OAuth mode, no API key.
pub open spec fn codex_apply(a: AccountV, refreshed_at: Seq<char>) -> Result<JsonV, AppErrorV> {
    match a.credentials.id_token {
        None => Err(codex_id_token_error()),
        Some(i) => if i.len() == 0 {
            Err(codex_id_token_error())
        } else {
            Ok(
                JsonV::Object(
                    seq![
                        ("auth_mode"@, str_json("chatgpt"@)),
                        ("OPENAI_API_KEY"@, JsonV::Null),
                        (
                            "tokens"@,
                            JsonV::Object(
                                seq![
                                    ("id_token"@, str_json(i)),
                                    ("access_token"@, str_json(a.credentials.access_token)),
                                    ("refresh_token"@, str_json(a.credentials.refresh_token)),
                                    ("account_id"@, str_json(a.view.account_id)),
                                ],
                            ),
                        ),
                        ("last_refresh"@, str_json(refreshed_at)),
                    ],
                ),
            )
        },
    }
}

fn pair(k: &str, v: Json) -> (r: (String, Json))
    ensures
        r.0@ == k@,
        r.1 == v,
{
    (owned(k), v)
}

proof fn lemma_object4(es: Seq<(String, Json)>)
    requires
        es.len() == 4,
    ensures
        jv_obj(es) == seq![
            (es[0].0@, jv(es[0].1)),
            (es[1].0@, jv(es[1].1)),
            (es[2].0@, jv(es[2].1)),
            (es[3].0@, jv(es[3].1)),
        ],
{
    lemma_jv_obj(es);
    assert(jv_obj(es) =~= seq![
        (es[0].0@, jv(es[0].1)),
        (es[1].0@, jv(es[1].1)),
        (es[2].0@, jv(es[2].1)),
        (es[3].0@, jv(es[3].1)),
    ]);
}

proof fn lemma_object5(es: Seq<(String, Json)>)
    requires
        es.len() == 5,
    ensures
        jv_obj(es) == seq![
            (es[0].0@, jv(es[0].1)),
            (es[1].0@, jv(es[1].1)),
            (es[2].0@, jv(es[2].1)),
            (es[3].0@, jv(es[3].1)),
            (es[4].0@, jv(es[4].1)),
        ],
{
    lemma_jv_obj(es);
    assert(jv_obj(es) =~= seq![
        (es[0].0@, jv(es[0].1)),
        (es[1].0@, jv(es[1].1)),
        (es[2].0@, jv(es[2].1)),
        (es[3].0@, jv(es[3].1)),
        (es[4].0@, jv(es[4].1)),
    ]);
}

impl RuntimeAdapter for CodexAdapter {
    open spec fn spec_name(&self) -> Seq<char> {
        "Codex"@
    }

    open spec fn spec_path(&self) -> Seq<char> {
        self.path@
    }

    open spec fn spec_detect(&self, v: JsonV, id: Seq<char>, created_at: int) -> Result<Option<AccountV>, AppErrorV> {
        codex_detect(v, id, created_at)
    }

    open spec fn spec_apply(&self, original: JsonV, a: AccountV, refreshed_at: Seq<char>) -> Result<JsonV, AppErrorV> {
        codex_apply(a, refreshed_at)
    }

    fn name(&self) -> (r: &'static str) {
        "Codex"
    }

    fn path(&self) -> (r: &str) {
        self.path.as_str()
    }

    fn detect_current_account_with(&self, v: &Json, id: &str, created_at: i64) -> (r: Result<Option<Account>, AppError>) {
        let other_mode = match str_at(v, "auth_mode") {
            Some(m) => !str_eq(m.as_str(), "chatgpt"),
            None => false,
        };
        let api_key = match str_at(v, "OPENAI_API_KEY") {
            Some(k) => k.as_str().unicode_len() > 0,
            None => false,
        };
        if other_mode || api_key {
            return Ok(None);
        }
        let t = match v.get_present("tokens") {
            Some(t) => t,
            None => {
                return Ok(None);
            },
        };
        let access = match required(t, "access_token") {
            Ok(s) => s,
            Err(e) => {
                return Err(e);
            },
        };
        let refresh = match required(t, "refresh_token") {
            Ok(s) => s,
            Err(e) => {
                return Err(e);
            },
        };
        let expires_at = expiry(access.as_str());
        let c = Credentials { access_token: access, refresh_token: refresh, id_token: str_at(t, "id_token"), expires_at };
        let explicit = str_at(t, "account_id");
        let r = match &explicit {
            Some(s) => account_with(c, Some(s.as_str()), id, created_at),
            None => account_with(c, None, id, created_at),
        };
        match r {
            Ok(a) => Ok(Some(a)),
            Err(e) => Err(e),
        }
    }

    fn apply_account_at(&self, original: &Json, a: &Account, refreshed_at: &str) -> (r: Result<Json, AppError>) {
        let id_token = match &a.credentials.id_token {
            Some(i) => if i.as_str().unicode_len() == 0 {
                return Err(AppError::new("CODEX_ID_TOKEN_MISSING", "Codex 需要 ID Token；请在管理器中重新授权此账号"));
            } else {
                copy_string(i)
            },
            None => {
                return Err(AppError::new("CODEX_ID_TOKEN_MISSING", "Codex 需要 ID Token；请在管理器中重新授权此账号"));
            },
        };
        let mut tokens: Vec<(String, Json)> = Vec::new();
        tokens.push(pair("id_token", Json::Str(id_token)));
        tokens.push(pair("access_token", Json::Str(copy_string(&a.credentials.access_token))));
        tokens.push(pair("refresh_token", Json::Str(copy_string(&a.credentials.refresh_token))));
        tokens.push(pair("account_id", Json::Str(copy_string(&a.view.account_id))));
        proof {
            lemma_object4(tokens@);
        }
        let mut root: Vec<(String, Json)> = Vec::new();
        root.push(pair("auth_mode", Json::string("chatgpt")));
        root.push(pair("OPENAI_API_KEY", Json::Null));
        root.push(pair("tokens", Json::Object(tokens)));
        root.push(pair("last_refresh", Json::string(refreshed_at)));
        proof {
            lemma_object4(root@);
        }
        Ok(Json::Object(root))
    }
}

/// The Pi Agent file `~/.pi/agent/auth.json`; only its `openai-codex`
/// member belongs to this library.
pub struct PiAdapter {
    pub path: String,
}

pub open spec fn pi_expires_error() -> AppErrorV {
    app_error("RUNTIME_SCHEMA"@, "Pi OAuth expires 必须为毫秒时间戳"@)
}

pub open spec fn pi_not_object_error() -> AppErrorV {
    app_error("JSON_CORRUPT"@, "Pi 认证文件必须为 JSON 对象"@)
}

/// The account of a Pi file: its `openai-codex` member when that is an
/// OAuth entry.
pub open spec fn pi_detect(v: JsonV, id: Seq<char>, created_at: int) -> Result<Option<AccountV>, AppErrorV> {
    match present(v, "openai-codex"@) {
        None => Ok(None),
        Some(t) => if t.is_empty_object() {
            Ok(None)
        } else if t.at("type"@) != str_json("oauth"@) {
            Ok(None)
        } else {
            match spec_required(t, "access"@) {
                Err(e) => Err(e),
                Ok(access) => match t.at("expires"@).as_i64() {
                    None => Err(pi_expires_error()),
                    Some(expires_at) => match spec_required(t, "refresh"@) {
                        Err(e) => Err(e),
                        Ok(refresh) => some_account(
                            spec_account(
                                CredentialsV { access_token: access, refresh_token: refresh, id_token: None, expires_at },
                                t.at("accountId"@).as_str(),
                                id,
                                created_at,
                            ),
                        ),
                    },
                },
            }
        },
    }
}

/// The `openai-codex` entry for an account.
pub open spec fn pi_entry(a: AccountV) -> JsonV {
    JsonV::Object(
        seq![
            ("type"@, str_json("oauth"@)),
            ("access"@, str_json(a.credentials.access_token)),
            ("refresh"@, str_json(a.credentials.refresh_token)),
            ("expires"@, JsonV::Number(int_number(a.credentials.expires_at))),
            ("accountId"@, str_json(a.view.account_id)),
        ],
    )
}

/// The Pi file with its `openai-codex` member set to the account; every
/// other member is kept as it was.
pub open spec fn pi_apply(original: JsonV, a: AccountV) -> Result<JsonV, AppErrorV> {
    match original {
        JsonV::Object(entries) => Ok(JsonV::Object(obj_set(entries, "openai-codex"@, pi_entry(a)))),
        _ => Err(pi_not_object_error()),
    }
}

/// The object entries with `key` set to `value`.
fn object_set(entries: &Vec<(String, Json)>, key: &str, value: Json) -> (r: Vec<(String, Json)>)
    ensures
        jv_obj(r@) == obj_set(jv_obj(entries@), key@, value@),
{
    let ghost es = jv_obj(entries@);
    proof {
        lemma_jv_obj(entries@);
    }
    let mut out: Vec<(String, Json)> = Vec::new();
    let mut found = false;
    let mut i: usize = 0;
    let ghost f = |e: (Seq<char>, JsonV)| if e.0 == key@ { (key@, value@) } else { e };
    while i < entries.len()
        invariant
            i <= entries@.len(),
            es == jv_obj(entries@),
            es.len() == entries@.len(),
            forall|k: int| 0 <= k < es.len() ==> #[trigger] es[k] == (entries@[k].0@, jv(entries@[k].1)),
            out@.len() == i,
            forall|k: int| 0 <= k < i ==> ((#[trigger] out@[k]).0@, jv(out@[k].1)) == replace_entry(key@, value@, es[k]),
            found == exists|k: int| 0 <= k < i && #[trigger] es[k].0 == key@,
        decreases entries.len() - i,
    {
        let ghost old_out = out@;
        let ghost old_found = found;
        let matched = str_eq(entries[i].0.as_str(), key);
        if matched {
            out.push((owned(key), value.duplicate()));
            found = true;
        } else {
            out.push((copy_string(&entries[i].0), entries[i].1.duplicate()));
        }
        proof {
            assert(es[i as int] == (entries@[i as int].0@, jv(entries@[i as int].1)));
            assert(matched == (es[i as int].0 == key@));
            assert forall|k: int| 0 <= k < i + 1 implies ((#[trigger] out@[k]).0@, jv(out@[k].1)) == replace_entry(key@, value@, es[k]) by {
                if k < i {
                    assert(out@[k] == old_out[k]);
                } else if matched {
                    assert(replace_entry(key@, value@, es[k]) == (key@, value@));
                    assert(out@[k].0@ == key@);
                } else {
                    assert(replace_entry(key@, value@, es[k]) == es[k]);
                    assert(out@[k].0@ == entries@[k].0@);
                }
            }
            if matched {
                assert(es[i as int].0 == key@);
            } else if !old_found {
                assert forall|k: int| 0 <= k < i + 1 implies #[trigger] es[k].0 != key@ by {
                    if k < i {
                        assert(!(0 <= k < i && es[k].0 == key@));
                    }
                }
            }
        }
        i += 1;
    }
    proof {
        lemma_jv_obj(out@);
    }
    if !found {
        let ghost before = out@;
        out.push((owned(key), value));
        proof {
            lemma_jv_obj(out@);
            assert(jv_obj(out@) =~= es.push((key@, value@)));
        }
    } else {
        proof {
            assert(jv_obj(out@) =~= es.map_values(|e: (Seq<char>, JsonV)| replace_entry(key@, value@, e)));
        }
    }
    out
}

impl RuntimeAdapter for PiAdapter {
    open spec fn spec_name(&self) -> Seq<char> {
        "Pi Agent"@
    }

    open spec fn spec_path(&self) -> Seq<char> {
        self.path@
    }

    open spec fn spec_detect(&self, v: JsonV, id: Seq<char>, created_at: int) -> Result<Option<AccountV>, AppErrorV> {
        pi_detect(v, id, created_at)
    }

    open spec fn spec_apply(&self, original: JsonV, a: AccountV, refreshed_at: Seq<char>) -> Result<JsonV, AppErrorV> {
        pi_apply(original, a)
    }

    fn name(&self) -> (r: &'static str) {
        "Pi Agent"
    }

    fn path(&self) -> (r: &str) {
        self.path.as_str()
    }

    fn detect_current_account_with(&self, v: &Json, id: &str, created_at: i64) -> (r: Result<Option<Account>, AppError>) {
        let t = match v.get_present("openai-codex") {
            Some(t) => t,
            None => {
                return Ok(None);
            },
        };
        if t.is_empty_object() {
            return Ok(None);
        }
        let is_oauth = match t.get("type") {
            Some(Json::Str(s)) => str_eq(s.as_str(), "oauth"),
            _ => false,
        };
        if !is_oauth {
            return Ok(None);
        }
        let access = match required(t, "access") {
            Ok(s) => s,
            Err(e) => {
                return Err(e);
            },
        };
        let expires_at = match t.get("expires") {
            Some(x) => match x.as_i64() {
                Some(n) => n,
                None => {
                    return Err(AppError::new("RUNTIME_SCHEMA", "Pi OAuth expires 必须为毫秒时间戳"));
                },
            },
            None => {
                return Err(AppError::new("RUNTIME_SCHEMA", "Pi OAuth expires 必须为毫秒时间戳"));
            },
        };
        let refresh = match required(t, "refresh") {
            Ok(s) => s,
            Err(e) => {
                return Err(e);
            },
        };
        let c = Credentials { access_token: access, refresh_token: refresh, id_token: None, expires_at };
        let explicit = str_at(t, "accountId");
        let r = match &explicit {
            Some(s) => account_with(c, Some(s.as_str()), id, created_at),
            None => account_with(c, None, id, created_at),
        };
        match r {
            Ok(a) => Ok(Some(a)),
            Err(e) => Err(e),
        }
    }

    fn apply_account_at(&self, original: &Json, a: &Account, refreshed_at: &str) -> (r: Result<Json, AppError>) {
        match original {
            Json::Object(entries) => {
                let mut entry: Vec<(String, Json)> = Vec::new();
                entry.push(pair("type", Json::string("oauth")));
                entry.push(pair("access", Json::Str(copy_string(&a.credentials.access_token))));
                entry.push(pair("refresh", Json::Str(copy_string(&a.credentials.refresh_token))));
                entry.push(pair("expires", number_of_i64(a.credentials.expires_at)));
                entry.push(pair("accountId", Json::Str(copy_string(&a.view.account_id))));
                proof {
                    lemma_object5(entry@);
                }
                Ok(Json::Object(object_set(entries, "openai-codex", Json::Object(entry))))
            },
            _ => Err(AppError::new("JSON_CORRUPT", "Pi 认证文件必须为 JSON 对象")),
        }
    }
}

proof fn lemma_obj_set_get(es: Seq<(Seq<char>, JsonV)>, key: Seq<char>, value: JsonV, k: Seq<char>)
    ensures
        crate::json::obj_get(obj_set(es, key, value), k) == if k == key {
            Some(value)
        } else {
            crate::json::obj_get(es, k)
        },
    decreases es.len(),
{
    if exists|i: int| 0 <= i < es.len() && #[trigger] es[i].0 == key {
        lemma_map_get(es, key, value, k);
    } else {
        lemma_get_push(es, key, value, k);
    }
}

proof fn lemma_map_get(es: Seq<(Seq<char>, JsonV)>, key: Seq<char>, value: JsonV, k: Seq<char>)
    requires
        k != key || exists|i: int| 0 <= i < es.len() && #[trigger] es[i].0 == key,
    ensures
        crate::json::obj_get(es.map_values(|e: (Seq<char>, JsonV)| replace_entry(key, value, e)), k) == if k == key {
            Some(value)
        } else {
            crate::json::obj_get(es, k)
        },
    decreases es.len(),
{
    let m = es.map_values(|e: (Seq<char>, JsonV)| replace_entry(key, value, e));
    if es.len() > 0 {
        assert(m[0] == replace_entry(key, value, es[0]));
        let rest = es.drop_first();
        assert(m.drop_first() =~= rest.map_values(|e: (Seq<char>, JsonV)| replace_entry(key, value, e)));
        if es[0].0 == key {
            if k != key {
                lemma_map_get(rest, key, value, k);
            }
        } else {
            if k == key {
                let i = choose|i: int| 0 <= i < es.len() && #[trigger] es[i].0 == key;
                assert(rest[i - 1].0 == key);
            }
            lemma_map_get(rest, key, value, k);
        }
    }
}

proof fn lemma_get_push(es: Seq<(Seq<char>, JsonV)>, key: Seq<char>, value: JsonV, k: Seq<char>)
    requires
        forall|i: int| 0 <= i < es.len() ==> #[trigger] es[i].0 != key,
    ensures
        crate::json::obj_get(es.push((key, value)), k) == if k == key {
            Some(value)
        } else {
            crate::json::obj_get(es, k)
        },
    decreases es.len(),
{
    if es.len() == 0 {
        assert(es.push((key, value)).drop_first() =~= Seq::<(Seq<char>, JsonV)>::empty());
    } else {
        let rest = es.drop_first();
        assert(es.push((key, value)).drop_first() =~= rest.push((key, value)));
        assert forall|i: int| 0 <= i < rest.len() implies #[trigger] rest[i].0 != key by {
            assert(rest[i] == es[i + 1]);
        }
        lemma_get_push(rest, key, value, k);
    }
}

/// Switching Pi Agent to an account sets its `openai-codex` entry and keeps
/// every other provider's member exactly as it was.
pub proof fn law_pi_preserves_other_providers(original: JsonV, a: AccountV, key: Seq<char>)
    requires
        original is Object,
    ensures
        pi_apply(original, a) is Ok,
        key != "openai-codex"@ ==> pi_apply(original, a)->Ok_0.get(key) == original.get(key),
        pi_apply(original, a)->Ok_0.get("openai-codex"@) == Some(pi_entry(a)),
{
    let es = original->Object_0;
    lemma_obj_set_get(es, "openai-codex"@, pi_entry(a), key);
    lemma_obj_set_get(es, "openai-codex"@, pi_entry(a), "openai-codex"@);
}

/// The credentials name the account `account_id`: it is not empty, and
/// their claims carry either that account id or none.
pub open spec fn names_account(c: CredentialsV, account_id: Seq<char>) -> bool {
    &&& account_id.len() > 0
    &&& match spec_claims(c.access_token) {
        Err(_) => false,
        Ok(access) => match claimed_account_id(access, id_claims(c.id_token)) {
            Some(x) => x == account_id,
            None => true,
        },
    }
}

proof fn lemma_claims_nonempty(t: Seq<char>)
    requires
        spec_claims(t) is Ok,
    ensures
        t.len() > 0,
{
    assert(second_segment(t) is Some);
}

proof fn lemma_obj_get_at(es: Seq<(Seq<char>, JsonV)>, j: int)
    requires
        0 <= j < es.len(),
        forall|i: int| 0 <= i < j ==> (#[trigger] es[i]).0 != es[j].0,
    ensures
        crate::json::obj_get(es, es[j].0) == Some(es[j].1),
    decreases j,
{
    if j > 0 {
        let rest = es.drop_first();
        assert forall|i: int| 0 <= i < j - 1 implies (#[trigger] rest[i]).0 != rest[j - 1].0 by {
            assert(rest[i] == es[i + 1]);
        }
        lemma_obj_get_at(rest, j - 1);
        assert(rest[j - 1] == es[j]);
    }
}

/// What a switch writes to the Codex file reads back as the account it was
/// switched to: same account id and the same tokens.
pub proof fn law_codex_reads_back(a: AccountV, refreshed_at: Seq<char>, id: Seq<char>, created_at: int)
    requires
        a.credentials.id_token matches Some(i) && i.len() > 0,
        a.credentials.refresh_token.len() > 0,
        names_account(a.credentials, a.view.account_id),
    ensures
        codex_apply(a, refreshed_at) is Ok,
        codex_detect(codex_apply(a, refreshed_at)->Ok_0, id, created_at) matches Ok(Some(b)) && b.view.account_id
            == a.view.account_id && b.credentials.access_token == a.credentials.access_token
            && b.credentials.refresh_token == a.credentials.refresh_token && b.credentials.id_token
            == a.credentials.id_token,
{
    lemma_claims_nonempty(a.credentials.access_token);
    reveal_strlit("auth_mode");
    reveal_strlit("OPENAI_API_KEY");
    reveal_strlit("tokens");
    reveal_strlit("id_token");
    reveal_strlit("access_token");
    reveal_strlit("refresh_token");
    reveal_strlit("account_id");
    assert("auth_mode"@.len() == 9 && "OPENAI_API_KEY"@.len() == 14 && "tokens"@.len() == 6);
    assert("id_token"@.len() == 8 && "access_token"@.len() == 12 && "refresh_token"@.len() == 13);
    assert("account_id"@.len() == 10);
    let v = codex_apply(a, refreshed_at)->Ok_0;
    let es = v->Object_0;
    lemma_obj_get_at(es, 0);
    lemma_obj_get_at(es, 1);
    lemma_obj_get_at(es, 2);
    let t = es[2].1;
    let ts = t->Object_0;
    lemma_obj_get_at(ts, 0);
    lemma_obj_get_at(ts, 1);
    lemma_obj_get_at(ts, 2);
    lemma_obj_get_at(ts, 3);
}

/// What a switch writes to the Pi Agent file reads back as the account it
/// was switched to: same account id and the same access and refresh tokens.
pub proof fn law_pi_reads_back(original: JsonV, a: AccountV, id: Seq<char>, created_at: int)
    requires
        original is Object,
        a.credentials.refresh_token.len() > 0,
        i64::MIN <= a.credentials.expires_at <= i64::MAX,
        names_account(a.credentials, a.view.account_id),
    ensures
        pi_apply(original, a) is Ok,
        pi_detect(pi_apply(original, a)->Ok_0, id, created_at) matches Ok(Some(b)) && b.view.account_id
            == a.view.account_id && b.credentials.access_token == a.credentials.access_token
            && b.credentials.refresh_token == a.credentials.refresh_token && b.credentials.expires_at
            == a.credentials.expires_at,
{
    lemma_claims_nonempty(a.credentials.access_token);
    law_pi_preserves_other_providers(original, a, "openai-codex"@);
    reveal_strlit("type");
    reveal_strlit("access");
    reveal_strlit("refresh");
    reveal_strlit("expires");
    reveal_strlit("accountId");
    assert("type"@.len() == 4 && "access"@.len() == 6 && "refresh"@.len() == 7);
    assert("expires"@.len() == 7 && "accountId"@.len() == 9);
    assert("refresh"@[0] != "expires"@[0]);
    let ts = pi_entry(a)->Object_0;
    lemma_obj_get_at(ts, 0);
    lemma_obj_get_at(ts, 1);
    lemma_obj_get_at(ts, 2);
    lemma_obj_get_at(ts, 3);
    lemma_obj_get_at(ts, 4);
    let access = spec_claims(a.credentials.access_token)->Ok_0;
    assert(claimed_account_id(access, id_claims(None)) == claimed_account_id(access, JsonV::Null));
    assert(JsonV::Null.at(crate::protocol::auth_claim()) == JsonV::Null);
}

/// One of the runtimes the manager switches.
pub enum Runtime {
    Codex(CodexAdapter),
    Pi(PiAdapter),
}

impl RuntimeAdapter for Runtime {
    open spec fn spec_name(&self) -> Seq<char> {
        match self {
            Runtime::Codex(a) => a.spec_name(),
            Runtime::Pi(a) => a.spec_name(),
        }
    }

    open spec fn spec_path(&self) -> Seq<char> {
        match self {
            Runtime::Codex(a) => a.spec_path(),
            Runtime::Pi(a) => a.spec_path(),
        }
    }

    open spec fn spec_detect(&self, v: JsonV, id: Seq<char>, created_at: int) -> Result<Option<AccountV>, AppErrorV> {
        match self {
            Runtime::Codex(a) => a.spec_detect(v, id, created_at),
            Runtime::Pi(a) => a.spec_detect(v, id, created_at),
        }
    }

    open spec fn spec_apply(&self, original: JsonV, a: AccountV, refreshed_at: Seq<char>) -> Result<JsonV, AppErrorV> {
        match self {
            Runtime::Codex(c) => c.spec_apply(original, a, refreshed_at),
            Runtime::Pi(p) => p.spec_apply(original, a, refreshed_at),
        }
    }

    fn name(&self) -> (r: &'static str) {
        match self {
            Runtime::Codex(a) => a.name(),
            Runtime::Pi(a) => a.name(),
        }
    }

    fn path(&self) -> (r: &str) {
        match self {
            Runtime::Codex(a) => a.path(),
            Runtime::Pi(a) => a.path(),
        }
    }

    fn detect_current_account_with(&self, v: &Json, id: &str, created_at: i64) -> (r: Result<Option<Account>, AppError>) {
        match self {
            Runtime::Codex(a) => a.detect_current_account_with(v, id, created_at),
            Runtime::Pi(a) => a.detect_current_account_with(v, id, created_at),
        }
    }

    fn apply_account_at(&self, original: &Json, a: &Account, refreshed_at: &str) -> (r: Result<Json, AppError>) {
        match self {
            Runtime::Codex(c) => c.apply_account_at(original, a, refreshed_at),
            Runtime::Pi(p) => p.apply_account_at(original, a, refreshed_at),
        }
    }
}

/// The Codex file is never written without an ID token: switching Codex to
/// an account succeeds only when the account has a non-empty one, which the
/// file then carries.
pub proof fn law_codex_needs_id_token(a: AccountV, refreshed_at: Seq<char>)
    ensures
        codex_apply(a, refreshed_at) is Ok <==> (a.credentials.id_token matches Some(i) && i.len() > 0),
{
}

} // verus!
