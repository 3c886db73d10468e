//! The OpenAI OAuth protocol: token claims, account identity and token
//! responses. Claims are metadata read from unverified JWTs, never proof of
//! authentication.
use vstd::prelude::*;
use crate::error::{AppError, AppErrorV, app_error, clock_error, err_view, random_error, random_unavailable};
use crate::oauth::random_bytes;
use crate::json::{Json, JsonV, decode, json_decode};
use crate::model::{
    Account, AccountV, AccountView, AccountViewV, Credentials, CredentialsV, clock_bound, now,
};
use crate::number::find_in;
use vstd::string::StrSliceExecFns;
use crate::text::{chars_of, concat2, copy_opt, copy_string, decimal, opt_str, opt_view, owned, string_of};

verus! {

pub const CLIENT_ID: &'static str = "app_EMoamEEZ73f0CkXaXp7hrann";
pub const AUTHORIZE_URL: &'static str = "https://auth.openai.com/oauth/authorize";
pub const TOKEN_URL: &'static str = "https://auth.openai.com/oauth/token";
pub const REDIRECT_URI: &'static str = "http://localhost:1455/auth/callback";
pub const CALLBACK_ADDRESS: &'static str = "127.0.0.1:1455";

pub open spec fn auth_claim() -> Seq<char> {
    "https://api.openai.com/auth"@
}

pub open spec fn profile_claim() -> Seq<char> {
    "https://api.openai.com/profile"@
}

/// The unpadded URL-safe base64 decoder: the bytes that a text encodes.
pub uninterp spec fn base64url_decode(text: Seq<char>) -> Option<Seq<u8>>;

/// Decodes unpadded URL-safe base64 with
/// `base64::engine::general_purpose::URL_SAFE_NO_PAD.decode`. Claims that the
/// result is the decoder's result for the text.
#[verifier::external_body]
pub(crate) fn base64url_decode_text(text: &str) -> (r: Option<Vec<u8>>)
    ensures
        match r {
            Some(b) => base64url_decode(text@) == Some(b@),
            None => base64url_decode(text@) is None,
        },
{
    base64::Engine::decode(&base64::engine::general_purpose::URL_SAFE_NO_PAD, text).ok()
}

pub open spec fn token_format_error() -> AppErrorV {
    app_error("TOKEN_FORMAT"@, "无法解析 Token 元数据"@)
}

fn token_format() -> (r: AppError)
    ensures
        r@ == token_format_error(),
{
    AppError::new("TOKEN_FORMAT", "无法解析 Token 元数据")
}

/// The position of the first `.` in a text, or its length.
pub open spec fn dot_at(s: Seq<char>) -> nat {
    crate::number::find2(s, '.', '.')
}

/// The second `.`-separated segment of a token, if it has one.
pub open spec fn second_segment(t: Seq<char>) -> Option<Seq<char>> {
    let i = dot_at(t) as int;
    if i >= t.len() {
        None
    } else {
        let rest = t.subrange(i + 1, t.len() as int);
        Some(rest.subrange(0, dot_at(rest) as int))
    }
}

/// A text without its trailing `=` characters.
pub open spec fn trim_padding(s: Seq<char>) -> Seq<char>
    decreases s.len(),
{
    if s.len() > 0 && s.last() == '=' {
        trim_padding(s.drop_last())
    } else {
        s
    }
}

/// The claims of a JWT: its payload segment, decoded as base64 and read as JSON.
pub open spec fn spec_claims(t: Seq<char>) -> Result<JsonV, AppErrorV> {
    match second_segment(t) {
        None => Err(token_format_error()),
        Some(p) => match base64url_decode(trim_padding(p)) {
            None => Err(token_format_error()),
            Some(b) => match json_decode(b) {
                None => Err(token_format_error()),
                Some(v) => Ok(v),
            },
        },
    }
}

pub open spec fn claims_view(r: Result<Json, AppError>) -> Result<JsonV, AppErrorV> {
    match r {
        Ok(v) => Ok(v@),
        Err(e) => Err(e@),
    }
}

/// The claims of a JWT.
pub fn claims(token: &str) -> (r: Result<Json, AppError>)
    ensures
        claims_view(r) == spec_claims(token@),
{
    let cs = chars_of(token);
    let len = cs.len();
    let i = find_in(&cs, 0, len, '.', '.');
    proof {
        assert(cs@.subrange(0, len as int) =~= token@);
    }
    if i >= len {
        return Err(token_format());
    }
    let j = find_in(&cs, i + 1, len, '.', '.');
    let ghost rest = token@.subrange(i + 1, len as int);
    proof {
        assert(cs@.subrange(i + 1, len as int) =~= rest);
        assert(rest.subrange(0, j - i - 1) =~= cs@.subrange(i + 1, j as int));
    }
    let mut end = j;
    while end > i + 1 && cs[end - 1] == '='
        invariant
            i + 1 <= end <= j <= len == cs@.len(),
            trim_padding(rest.subrange(0, j - i - 1)) == trim_padding(cs@.subrange(i + 1, end as int)),
        decreases end,
    {
        proof {
            let cur = cs@.subrange(i + 1, end as int);
            assert(cur.drop_last() =~= cs@.subrange(i + 1, end - 1));
        }
        end = end - 1;
    }
    let mut seg: Vec<char> = Vec::new();
    let mut k = i + 1;
    while k < end
        invariant
            i + 1 <= k <= end <= len == cs@.len(),
            seg@ == cs@.subrange(i + 1, k as int),
        decreases end - k,
    {
        seg.push(cs[k]);
        k += 1;
        assert(seg@ =~= cs@.subrange(i + 1, k as int));
    }
    proof {
        let cur = cs@.subrange(i + 1, end as int);
        assert(!(cur.len() > 0 && cur.last() == '='));
        assert(trim_padding(cur) == cur);
        assert(second_segment(token@) == Some(rest.subrange(0, j - i - 1)));
    }
    let text = string_of(seg.as_slice());
    match base64url_decode_text(text.as_str()) {
        None => Err(token_format()),
        Some(bytes) => match decode(bytes.as_slice()) {
            None => Err(token_format()),
            Some(v) => Ok(v),
        },
    }
}

/// The expiry of an access token in milliseconds: its `exp` claim (in
/// seconds) times 1000, or 0 when the token has no usable `exp`.
pub open spec fn spec_expiry(t: Seq<char>) -> int {
    match spec_claims(t) {
        Ok(v) => match v.at("exp"@).as_i64() {
            Some(n) => if i64::MIN <= n * 1000 <= i64::MAX {
                n * 1000
            } else {
                0
            },
            None => 0,
        },
        Err(_) => 0,
    }
}

pub fn expiry(token: &str) -> (r: i64)
    ensures
        r as int == spec_expiry(token@),
{
    match claims(token) {
        Ok(v) => match v.get("exp") {
            Some(x) => match x.as_i64() {
                Some(n) => if n >= -9223372036854775 && n <= 9223372036854775 {
                    n * 1000
                } else {
                    0
                },
                None => 0,
            },
            None => 0,
        },
        Err(_) => 0,
    }
}

/// The claims of an optional ID token, `null` when absent or unreadable.
pub open spec fn id_claims(id_token: Option<Seq<char>>) -> JsonV {
    match id_token {
        Some(t) => match spec_claims(t) {
            Ok(v) => v,
            Err(_) => JsonV::Null,
        },
        None => JsonV::Null,
    }
}

/// The ChatGPT account id claimed by the access token, else by the ID token.
pub open spec fn claimed_account_id(access: JsonV, id: JsonV) -> Option<Seq<char>> {
    match access.at(auth_claim()).at("chatgpt_account_id"@).as_str() {
        Some(s) => Some(s),
        None => id.at(auth_claim()).at("chatgpt_account_id"@).as_str(),
    }
}

pub open spec fn desync_error() -> AppErrorV {
    app_error("RUNTIME_DESYNC"@, "账号 ID 与 Token 不一致"@)
}

pub open spec fn account_id_missing_error() -> AppErrorV {
    app_error("ACCOUNT_ID_MISSING"@, "Token 缺少 ChatGPT accountId"@)
}

/// The account that credentials identify, with the given local id and
/// creation time. `explicit_id` is an account id recorded beside the tokens.
pub open spec fn spec_account(c: CredentialsV, explicit_id: Option<Seq<char>>, id: Seq<char>, created_at: int) -> Result<
    AccountV,
    AppErrorV,
> {
    match spec_claims(c.access_token) {
        Err(e) => Err(e),
        Ok(access) => {
            let idc = id_claims(c.id_token);
            let claimed = claimed_account_id(access, idc);
            let account_id = if claimed is Some { claimed } else { explicit_id };
            if explicit_id is Some && claimed is Some && explicit_id != claimed {
                Err(desync_error())
            } else if account_id is None || account_id.unwrap().len() == 0 {
                Err(account_id_missing_error())
            } else {
                let email = match idc.at("email"@).as_str() {
                    Some(e) => Some(e),
                    None => match access.at(profile_claim()).at("email"@).as_str() {
                        Some(e) => Some(e),
                        None => access.at("email"@).as_str(),
                    },
                };
                Ok(
                    AccountV {
                        view: AccountViewV {
                            id,
                            email,
                            account_id: account_id.unwrap(),
                            plan_type: access.at(auth_claim()).at("chatgpt_plan_type"@).as_str(),
                            quota: None,
                            created_at,
                            last_used_at: None,
                        },
                        credentials: c,
                    },
                )
            }
        },
    }
}

pub open spec fn account_view_of(r: Result<Account, AppError>) -> Result<AccountV, AppErrorV> {
    match r {
        Ok(a) => Ok(a@),
        Err(e) => Err(e@),
    }
}

/// `value[k1][k2]`.
pub fn at2<'a>(v: &'a Json, k1: &str, k2: &str) -> (r: Option<&'a Json>)
    ensures
        match r {
            Some(x) => v@.at(k1@).at(k2@) == x@,
            None => v@.at(k1@).at(k2@) is Null,
        },
{
    match v.get(k1) {
        Some(x) => x.get(k2),
        None => None,
    }
}

/// `value[k].as_str()`, copied.
pub fn str_at(v: &Json, k: &str) -> (r: Option<String>)
    ensures
        opt_view(r) == v@.at(k@).as_str(),
{
    match v.get(k) {
        Some(x) => match x.as_str() {
            Some(s) => Some(copy_string(s)),
            None => None,
        },
        None => None,
    }
}

/// `value[k1][k2].as_str()`, copied.
pub fn str_at2(v: &Json, k1: &str, k2: &str) -> (r: Option<String>)
    ensures
        opt_view(r) == v@.at(k1@).at(k2@).as_str(),
{
    match at2(v, k1, k2) {
        Some(x) => match x.as_str() {
            Some(s) => Some(copy_string(s)),
            None => None,
        },
        None => None,
    }
}

/// The account that credentials identify, given its local id and creation time.
pub fn account_with(credentials: Credentials, explicit_id: Option<&str>, id: &str, created_at: i64) -> (r: Result<
    Account,
    AppError,
>)
    ensures
        account_view_of(r) == spec_account(
            credentials@,
            opt_str(explicit_id),
            id@,
            created_at as int,
        ),
{
    let access = match claims(credentials.access_token.as_str()) {
        Ok(v) => v,
        Err(e) => {
            return Err(e);
        },
    };
    let idc = match &credentials.id_token {
        Some(t) => match claims(t.as_str()) {
            Ok(v) => v,
            Err(_) => Json::Null,
        },
        None => Json::Null,
    };
    let claimed = match str_at2(&access, "https://api.openai.com/auth", "chatgpt_account_id") {
        Some(s) => Some(s),
        None => str_at2(&idc, "https://api.openai.com/auth", "chatgpt_account_id"),
    };
    if let (Some(a), Some(b)) = (explicit_id, &claimed) {
        if !crate::text::str_eq(a, b.as_str()) {
            return Err(AppError::new("RUNTIME_DESYNC", "账号 ID 与 Token 不一致"));
        }
    }
    let account_id = match claimed {
        Some(s) => s,
        None => match explicit_id {
            Some(s) => owned(s),
            None => {
                return Err(AppError::new("ACCOUNT_ID_MISSING", "Token 缺少 ChatGPT accountId"));
            },
        },
    };
    if account_id.as_str().unicode_len() == 0 {
        return Err(AppError::new("ACCOUNT_ID_MISSING", "Token 缺少 ChatGPT accountId"));
    }
    let email = match str_at(&idc, "email") {
        Some(e) => Some(e),
        None => match str_at2(&access, "https://api.openai.com/profile", "email") {
            Some(e) => Some(e),
            None => str_at(&access, "email"),
        },
    };
    let plan_type = str_at2(&access, "https://api.openai.com/auth", "chatgpt_plan_type");
    Ok(
        Account {
            view: AccountView {
                id: owned(id),
                email,
                account_id,
                plan_type,
                quota: None,
                created_at,
                last_used_at: None,
            },
            credentials,
        },
    )
}

/// A lowercase hexadecimal digit.
pub open spec fn is_lower_hex(c: char) -> bool {
    ('0' <= c && c <= '9') || ('a' <= c && c <= 'f')
}

/// The text form of a version 4 UUID: 36 characters, lowercase hexadecimal
/// digits in groups of 8-4-4-4-12 separated by `-`, the version digit `4`.
pub open spec fn uuid_v4_text(t: Seq<char>) -> bool {
    &&& t.len() == 36
    &&& forall|i: int|
        0 <= i < 36 ==> if i == 8 || i == 13 || i == 18 || i == 23 {
            t[i] == '-'
        } else {
            is_lower_hex(#[trigger] t[i])
        }
    &&& t[14] == '4'
}

/// The text of the version-4 UUID that 16 random bytes make.
pub uninterp spec fn uuid_v4_from(bytes: Seq<u8>) -> Seq<char>;

/// The version-4 UUID of 16 random bytes, by
/// `uuid::Builder::from_random_bytes(..).into_uuid()`, as text. Claims that
/// the text is the one those bytes make, in the uuid crate's text form: 36
/// characters, lowercase hexadecimal digits in groups of 8-4-4-4-12 separated
/// by `-`, the version digit `4`.
#[verifier::external_body]
fn uuid_text(bytes: &[u8]) -> (r: String)
    requires
        bytes@.len() == 16,
    ensures
        r@ == uuid_v4_from(bytes@),
        uuid_v4_text(r@),
{
    let b: [u8; 16] = bytes.try_into().unwrap_or([0u8; 16]);
    uuid::Builder::from_random_bytes(b).into_uuid().to_string()
}

/// A fresh random local account id: a version-4 UUID made of 16 bytes from
/// the operating system's random source; the random source's error when it
/// cannot supply them.
pub fn new_local_id() -> (r: Result<String, AppError>)
    ensures
        match r {
            Ok(id) => exists|b: Seq<u8>| b.len() == 16 && id@ == #[trigger] uuid_v4_from(b),
            Err(e) => e@ == random_error(),
        },
        r is Ok ==> uuid_v4_text(r->Ok_0@),
{
    match random_bytes(16) {
        Some(b) => Ok(uuid_text(b.as_slice())),
        None => Err(random_unavailable()),
    }
}

/// The account that credentials identify, with a fresh random local id and
/// the current time as its creation time; the random source's or the
/// clock's error when either cannot be read.
pub fn account(credentials: Credentials, explicit_id: Option<&str>) -> (r: Result<Account, AppError>)
    ensures
        (r is Err && (r->Err_0@ == random_error() || r->Err_0@ == clock_error())) || exists|id: Seq<char>, t: int|
            uuid_v4_text(id) && 0 <= t <= clock_bound() && account_view_of(r) == #[trigger] spec_account(
                credentials@,
                opt_str(explicit_id),
                id,
                t,
            ),
{
    let id = match new_local_id() {
        Ok(id) => id,
        Err(e) => {
            return Err(e);
        },
    };
    let t = match now() {
        Ok(t) => t,
        Err(e) => {
            return Err(e);
        },
    };
    account_with(credentials, explicit_id, id.as_str(), t)
}

/// A token endpoint response.
pub struct TokenResponse {
    pub access_token: String,
    pub refresh_token: Option<String>,
    pub id_token: Option<String>,
    pub expires_in: i64,
}

pub struct TokenResponseV {
    pub access_token: Seq<char>,
    pub refresh_token: Option<Seq<char>>,
    pub id_token: Option<Seq<char>>,
    pub expires_in: int,
}

impl View for TokenResponse {
    type V = TokenResponseV;

    open spec fn view(&self) -> TokenResponseV {
        TokenResponseV {
            access_token: self.access_token@,
            refresh_token: opt_view(self.refresh_token),
            id_token: opt_view(self.id_token),
            expires_in: self.expires_in as int,
        }
    }
}

pub open spec fn oauth_schema_error() -> AppErrorV {
    app_error("OAUTH_SCHEMA"@, "OAuth 返回结构发生变化"@)
}

/// The error for a token endpoint response whose body is not the expected
/// token response.
pub fn oauth_schema() -> (r: AppError)
    ensures
        r@ == oauth_schema_error(),
{
    AppError::new("OAUTH_SCHEMA", "OAuth 返回结构发生变化")
}

pub open spec fn invalid_token_error() -> AppErrorV {
    app_error("OAUTH_SCHEMA"@, "OAuth 返回无效 Token 或过期时间"@)
}

pub open spec fn missing_refresh_error() -> AppErrorV {
    app_error("OAUTH_SCHEMA"@, "OAuth 未返回 Refresh Token"@)
}

/// The longest token lifetime accepted: one year, in seconds.
pub open spec fn max_expires_in() -> int {
    31_536_000
}

/// The credentials that a token response gives at time `now`. A missing or
/// empty refresh token keeps the old one; a missing ID token keeps the old one.
pub open spec fn spec_token_credentials(t: TokenResponseV, old: Option<CredentialsV>, now: int) -> Result<
    CredentialsV,
    AppErrorV,
> {
    let refresh = match t.refresh_token {
        Some(s) => if s.len() > 0 {
            Some(s)
        } else {
            match old {
                Some(c) => Some(c.refresh_token),
                None => None,
            }
        },
        None => match old {
            Some(c) => Some(c.refresh_token),
            None => None,
        },
    };
    if t.access_token.len() == 0 || t.expires_in <= 0 || t.expires_in > max_expires_in() {
        Err(invalid_token_error())
    } else if refresh is None {
        Err(missing_refresh_error())
    } else {
        Ok(
            CredentialsV {
                access_token: t.access_token,
                refresh_token: refresh.unwrap(),
                id_token: match t.id_token {
                    Some(i) => Some(i),
                    None => match old {
                        Some(c) => c.id_token,
                        None => None,
                    },
                },
                expires_at: now + t.expires_in * 1000,
            },
        )
    }
}

/// Refresh token rotation: a refresh whose response carries a usable access
/// token succeeds; it adopts the response's refresh token when that is
/// non-empty and keeps the old one otherwise.
pub proof fn law_refresh_token_rotation(t: TokenResponseV, old: CredentialsV, now: int)
    requires
        t.access_token.len() > 0,
        0 < t.expires_in <= max_expires_in(),
    ensures
        spec_token_credentials(t, Some(old), now) is Ok,
        spec_token_credentials(t, Some(old), now)->Ok_0.refresh_token == match t.refresh_token {
            Some(s) => if s.len() > 0 {
                s
            } else {
                old.refresh_token
            },
            None => old.refresh_token,
        },
{
}

pub open spec fn opt_credentials(c: Option<&Credentials>) -> Option<CredentialsV> {
    match c {
        Some(v) => Some(v@),
        None => None,
    }
}

pub open spec fn credentials_result(r: Result<Credentials, AppError>) -> Result<CredentialsV, AppErrorV> {
    match r {
        Ok(c) => Ok(c@),
        Err(e) => Err(e@),
    }
}

pub fn token_credentials(t: TokenResponse, old: Option<&Credentials>, now: i64) -> (r: Result<Credentials, AppError>)
    requires
        -clock_bound() <= now <= clock_bound(),
    ensures
        credentials_result(r) == spec_token_credentials(t@, opt_credentials(old), now as int),
{
    let ghost tv = t@;
    if t.access_token.as_str().unicode_len() == 0 || t.expires_in <= 0 || t.expires_in > 31536000 {
        return Err(AppError::new("OAUTH_SCHEMA", "OAuth 返回无效 Token 或过期时间"));
    }
    let refresh = match t.refresh_token {
        Some(s) => if s.as_str().unicode_len() > 0 {
            Some(s)
        } else {
            match old {
                Some(c) => Some(copy_string(&c.refresh_token)),
                None => None,
            }
        },
        None => match old {
            Some(c) => Some(copy_string(&c.refresh_token)),
            None => None,
        },
    };
    let refresh = match refresh {
        Some(s) => s,
        None => {
            return Err(AppError::new("OAUTH_SCHEMA", "OAuth 未返回 Refresh Token"));
        },
    };
    let id_token = match t.id_token {
        Some(i) => Some(i),
        None => match old {
            Some(c) => copy_opt(&c.id_token),
            None => None,
        },
    };
    Ok(Credentials { access_token: t.access_token, refresh_token: refresh, id_token, expires_at: now + t.expires_in * 1000 })
}

pub open spec fn refresh_invalid_error() -> AppErrorV {
    app_error("REFRESH_TOKEN_INVALID"@, "Refresh Token 无效、已撤销或被其他客户端轮换；请重新授权"@)
}

pub open spec fn oauth_failed_error(status: int) -> AppErrorV {
    app_error("OAUTH_FAILED"@, "OAuth 请求失败（HTTP "@ + decimal(status as nat) + "）"@)
}

/// What the HTTP status of a token request means. A refresh rejected with
/// 400 or 401 means the refresh token is no longer valid.
pub open spec fn spec_exchange_status(status: int, refreshing: bool) -> Option<AppErrorV> {
    if 200 <= status <= 299 {
        None
    } else if refreshing && (status == 400 || status == 401) {
        Some(refresh_invalid_error())
    } else {
        Some(oauth_failed_error(status))
    }
}

pub fn exchange_status(status: u16, refreshing: bool) -> (r: Option<AppError>)
    ensures
        match r {
            Some(e) => spec_exchange_status(status as int, refreshing) == Some(e@),
            None => spec_exchange_status(status as int, refreshing) is None,
        },
{
    if 200 <= status && status <= 299 {
        None
    } else if refreshing && (status == 400 || status == 401) {
        Some(AppError::new("REFRESH_TOKEN_INVALID", "Refresh Token 无效、已撤销或被其他客户端轮换；请重新授权"))
    } else {
        let mut m = owned("OAuth 请求失败（HTTP ");
        let digits = crate::text::u64_text(status as u64);
        m.append(digits.as_str());
        m.append("）");
        Some(AppError { code: owned("OAUTH_FAILED"), message: m, detail: None })
    }
}

/// The credentials that a complete token endpoint response gives at time
/// `now`: its HTTP status is checked first, then its body, which `parsed`
/// holds where it is a token response and is nothing where it is not; `old`
/// is the credentials being refreshed, if any.
pub open spec fn spec_exchange_response(
    status: int,
    parsed: Option<TokenResponseV>,
    old: Option<CredentialsV>,
    now: int,
) -> Result<CredentialsV, AppErrorV> {
    match spec_exchange_status(status, old is Some) {
        Some(e) => Err(e),
        None => match parsed {
            None => Err(oauth_schema_error()),
            Some(t) => spec_token_credentials(t, old, now),
        },
    }
}

/// The view of an optional token response.
pub open spec fn opt_token_view(t: Option<TokenResponse>) -> Option<TokenResponseV> {
    match t {
        Some(x) => Some(x@),
        None => None,
    }
}

pub fn exchange_response_at(status: u16, parsed: Option<TokenResponse>, old: Option<&Credentials>, now: i64) -> (r: Result<
    Credentials,
    AppError,
>)
    requires
        -clock_bound() <= now <= clock_bound(),
    ensures
        credentials_result(r) == spec_exchange_response(status as int, opt_token_view(parsed), opt_credentials(old), now as int),
{
    match exchange_status(status, old.is_some()) {
        Some(e) => Err(e),
        None => match parsed {
            None => Err(oauth_schema()),
            Some(t) => token_credentials(t, old, now),
        },
    }
}

/// The credentials that a token endpoint response gives, stamped with the
/// current time; the clock's error when the system clock cannot be read.
pub fn exchange_response(status: u16, parsed: Option<TokenResponse>, old: Option<&Credentials>) -> (r: Result<
    Credentials,
    AppError,
>)
    ensures
        (r is Err && r->Err_0@ == clock_error()) || exists|t: int|
            0 <= t <= clock_bound() && credentials_result(r) == #[trigger] spec_exchange_response(
                status as int,
                opt_token_view(parsed),
                opt_credentials(old),
                t,
            ),
{
    match now() {
        Ok(t) => exchange_response_at(status, parsed, old, t),
        Err(e) => Err(e),
    }
}

pub open spec fn oauth_network_error() -> AppErrorV {
    app_error("OAUTH_NETWORK"@, "OAuth 网络请求失败，请检查网络"@)
}

/// The error for a token request that never got a response.
pub fn exchange_network_error() -> (r: AppError)
    ensures
        r@ == oauth_network_error(),
{
    AppError::new("OAUTH_NETWORK", "OAuth 网络请求失败，请检查网络")
}

pub open spec fn form_view(f: Seq<(String, String)>) -> Seq<(Seq<char>, Seq<char>)> {
    f.map_values(|p: (String, String)| (p.0@, p.1@))
}

/// The form of a refresh request.
pub fn refresh_form(old: &Credentials) -> (r: Vec<(String, String)>)
    ensures
        form_view(r@) == seq![
            ("grant_type"@, "refresh_token"@),
            ("client_id"@, CLIENT_ID@),
            ("refresh_token"@, old.refresh_token@),
        ],
{
    let mut f: Vec<(String, String)> = Vec::new();
    f.push((owned("grant_type"), owned("refresh_token")));
    f.push((owned("client_id"), owned(CLIENT_ID)));
    f.push((owned("refresh_token"), copy_string(&old.refresh_token)));
    assert(form_view(f@) =~= seq![
        ("grant_type"@, "refresh_token"@),
        ("client_id"@, CLIENT_ID@),
        ("refresh_token"@, old.refresh_token@),
    ]);
    f
}

/// The form that exchanges an authorization code for tokens.
pub fn authorization_form(code: &str, verifier: &str) -> (r: Vec<(String, String)>)
    ensures
        form_view(r@) == seq![
            ("grant_type"@, "authorization_code"@),
            ("client_id"@, CLIENT_ID@),
            ("code"@, code@),
            ("code_verifier"@, verifier@),
            ("redirect_uri"@, REDIRECT_URI@),
        ],
{
    let mut f: Vec<(String, String)> = Vec::new();
    f.push((owned("grant_type"), owned("authorization_code")));
    f.push((owned("client_id"), owned(CLIENT_ID)));
    f.push((owned("code"), owned(code)));
    f.push((owned("code_verifier"), owned(verifier)));
    f.push((owned("redirect_uri"), owned(REDIRECT_URI)));
    assert(form_view(f@) =~= seq![
        ("grant_type"@, "authorization_code"@),
        ("client_id"@, CLIENT_ID@),
        ("code"@, code@),
        ("code_verifier"@, verifier@),
        ("redirect_uri"@, REDIRECT_URI@),
    ]);
    f
}

} // verus!
