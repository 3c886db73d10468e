//! The decisions of the account service: what a runtime file holds, which
//! credentials are newer, when tokens are refreshed, what a switch writes.
use vstd::prelude::*;
use crate::commit::{conflict, conflict_error};
use crate::error::{AppError, AppErrorV, app_error, clock_error, random_error};
use crate::json::{Json, JsonV, encode_pretty, json_encode_pretty};
use crate::model::{
    Account, AccountQuota, AccountQuotaV, AccountV, AccountView, AccountViewV, Credentials, CredentialsV, clock_bound,
    now, opt_account, opt_int, opt_ref_account,
};
use crate::protocol::{account_with, claims, spec_account, spec_claims, uuid_v4_text};
use crate::repository::{Repository, index_of_account};
use crate::runtime::{RuntimeAdapter, detect_result, json, spec_json_object};
use crate::text::{copy_opt, opt_view, owned, str_eq};

verus! {

/// What a runtime's authentication file holds: its raw bytes (none when the
/// file does not exist), its document, and the OAuth account in it.
pub struct Snapshot {
    pub bytes: Option<Vec<u8>>,
    pub value: Json,
    pub account: Option<Account>,
}

pub struct SnapshotV {
    pub bytes: Option<Seq<u8>>,
    pub value: JsonV,
    pub account: Option<AccountV>,
}

impl View for Snapshot {
    type V = SnapshotV;

    open spec fn view(&self) -> SnapshotV {
        SnapshotV {
            bytes: match self.bytes {
                Some(b) => Some(b@),
                None => None,
            },
            value: self.value@,
            account: opt_account(self.account),
        }
    }
}

/// The snapshot of a file holding `bytes` (none: the file does not exist,
/// which reads as an empty object).
pub open spec fn spec_snapshot<A: RuntimeAdapter>(adapter: A, bytes: Option<Seq<u8>>, id: Seq<char>, created_at: int) -> Result<
    SnapshotV,
    AppErrorV,
> {
    let value = match bytes {
        Some(b) => spec_json_object(b),
        None => Ok(JsonV::Object(Seq::empty())),
    };
    match value {
        Err(e) => Err(e),
        Ok(v) => match adapter.spec_detect(v, id, created_at) {
            Err(e) => Err(e),
            Ok(a) => Ok(SnapshotV { bytes, value: v, account: a }),
        },
    }
}

pub open spec fn snapshot_result(r: Result<Snapshot, AppError>) -> Result<SnapshotV, AppErrorV> {
    match r {
        Ok(s) => Ok(s@),
        Err(e) => Err(e@),
    }
}

pub open spec fn opt_bytes(b: Option<Vec<u8>>) -> Option<Seq<u8>> {
    match b {
        Some(v) => Some(v@),
        None => None,
    }
}

/// The snapshot of a runtime file whose contents were read as `bytes`.
pub fn snapshot_with<A: RuntimeAdapter>(adapter: &A, bytes: Option<Vec<u8>>, id: &str, created_at: i64) -> (r: Result<
    Snapshot,
    AppError,
>)
    ensures
        snapshot_result(r) == spec_snapshot(*adapter, opt_bytes(bytes), id@, created_at as int),
{
    let value = match &bytes {
        Some(b) => match json(b.as_slice()) {
            Ok(v) => v,
            Err(e) => {
                return Err(e);
            },
        },
        None => Json::empty_object(),
    };
    match adapter.detect_current_account_with(&value, id, created_at) {
        Err(e) => Err(e),
        Ok(a) => Ok(Snapshot { bytes, value, account: a }),
    }
}

/// The snapshot of a runtime file; a newly seen account gets a fresh local
/// id and the current time. The random source's or the clock's error when
/// either cannot be read.
pub fn snapshot<A: RuntimeAdapter>(adapter: &A, bytes: Option<Vec<u8>>) -> (r: Result<Snapshot, AppError>)
    ensures
        (r is Err && (r->Err_0@ == random_error() || r->Err_0@ == clock_error())) || exists|id: Seq<char>, t: int|
            uuid_v4_text(id) && 0 <= t <= clock_bound() && snapshot_result(r) == #[trigger] spec_snapshot(
                *adapter,
                opt_bytes(bytes),
                id,
                t,
            ),
{
    let id = match crate::protocol::new_local_id() {
        Ok(id) => id,
        Err(e) => {
            return Err(e);
        },
    };
    let t = match now() {
        Ok(t) => t,
        Err(e) => {
            return Err(e);
        },
    };
    snapshot_with(adapter, bytes, id.as_str(), t)
}

pub open spec fn write_check_error() -> AppErrorV {
    app_error("RUNTIME_SCHEMA"@, "写入验证失败"@)
}

/// The bytes a switch writes to a runtime file: the switched document,
/// written as pretty JSON, which must read back as an object naming the
/// target account.
pub open spec fn spec_prepare<A: RuntimeAdapter>(adapter: A, original: JsonV, target: AccountV, refreshed_at: Seq<char>) -> Result<
    Seq<u8>,
    AppErrorV,
> {
    match adapter.spec_apply(original, target, refreshed_at) {
        Err(e) => Err(e),
        Ok(value) => {
            let bytes = json_encode_pretty(value);
            match spec_json_object(bytes) {
                Err(e) => Err(e),
                Ok(check) => match adapter.spec_detect(check, Seq::empty(), 0) {
                    Err(e) => Err(e),
                    Ok(None) => Err(write_check_error()),
                    Ok(Some(d)) => if d.view.account_id != target.view.account_id {
                        Err(conflict_error())
                    } else {
                        Ok(bytes)
                    },
                },
            }
        },
    }
}

pub open spec fn bytes_result(r: Result<Vec<u8>, AppError>) -> Result<Seq<u8>, AppErrorV> {
    match r {
        Ok(b) => Ok(b@),
        Err(e) => Err(e@),
    }
}

pub fn prepare_with<A: RuntimeAdapter>(adapter: &A, original: &Json, target: &Account, refreshed_at: &str) -> (r: Result<
    Vec<u8>,
    AppError,
>)
    ensures
        bytes_result(r) == spec_prepare(*adapter, original@, target@, refreshed_at@),
{
    let value = match adapter.apply_account_at(original, target, refreshed_at) {
        Ok(v) => v,
        Err(e) => {
            return Err(e);
        },
    };
    let bytes = encode_pretty(&value);
    let check = match json(bytes.as_slice()) {
        Ok(v) => v,
        Err(e) => {
            return Err(e);
        },
    };
    proof {
        reveal_strlit("");
        assert(""@ =~= Seq::<char>::empty());
    }
    match adapter.detect_current_account_with(&check, "", 0) {
        Err(e) => Err(e),
        Ok(None) => Err(AppError::new("RUNTIME_SCHEMA", "写入验证失败")),
        Ok(Some(d)) => {
            proof {
                reveal_strlit("");
            }
            if !str_eq(d.view.account_id.as_str(), target.view.account_id.as_str()) {
                Err(conflict())
            } else {
                Ok(bytes)
            }
        },
    }
}

/// Rust's `/` on integers: division truncated toward zero.
pub open spec fn trunc_div(a: int, b: int) -> int {
    if a >= 0 {
        a / b
    } else {
        -((-a) / b)
    }
}

/// When credentials were issued, in seconds: the `iat` claim of the access
/// token, else its expiry.
pub open spec fn spec_issued(c: CredentialsV) -> int {
    match spec_claims(c.access_token) {
        Ok(v) => match v.at("iat"@).as_i64() {
            Some(n) => n,
            None => trunc_div(c.expires_at, 1000),
        },
        Err(_) => trunc_div(c.expires_at, 1000),
    }
}

pub fn issued(c: &Credentials) -> (r: i64)
    ensures
        r as int == spec_issued(c@),
{
    let fallback = if c.expires_at >= 0 {
        c.expires_at / 1000
    } else {
        -((-(c.expires_at as i128)) / 1000) as i64
    };
    match claims(c.access_token.as_str()) {
        Ok(v) => match v.get("iat") {
            Some(x) => match x.as_i64() {
                Some(n) => n,
                None => fallback,
            },
            None => fallback,
        },
        Err(_) => fallback,
    }
}

pub open spec fn reconcile_desync_error() -> AppErrorV {
    app_error("RUNTIME_DESYNC"@, "同账号存在无法判定新旧的凭据；请停止客户端后重新授权"@)
}

/// What a runtime's copy of an account means for the vault's copy: nothing
/// (`Ok(None)`), strictly newer credentials to adopt (keeping the vault's ID
/// token when the runtime has none), or a conflict that cannot be decided.
pub open spec fn spec_reconcile(local: Option<AccountV>, a: AccountV) -> Result<Option<CredentialsV>, AppErrorV> {
    match local {
        None => Ok(None),
        Some(l) => if l.view.account_id != a.view.account_id || (l.credentials.access_token
            == a.credentials.access_token && l.credentials.refresh_token == a.credentials.refresh_token) {
            Ok(None)
        } else if spec_issued(l.credentials) > spec_issued(a.credentials) {
            Ok(
                Some(
                    CredentialsV {
                        id_token: if l.credentials.id_token is None {
                            a.credentials.id_token
                        } else {
                            l.credentials.id_token
                        },
                        ..l.credentials
                    },
                ),
            )
        } else if spec_issued(l.credentials) == spec_issued(a.credentials) && l.credentials.refresh_token
            != a.credentials.refresh_token {
            Err(reconcile_desync_error())
        } else {
            Ok(None)
        },
    }
}

pub open spec fn reconcile_result(r: Result<Option<Credentials>, AppError>) -> Result<Option<CredentialsV>, AppErrorV> {
    match r {
        Ok(Some(c)) => Ok(Some(c@)),
        Ok(None) => Ok(None),
        Err(e) => Err(e@),
    }
}

pub fn reconcile_step(local: Option<&Account>, a: &Account) -> (r: Result<Option<Credentials>, AppError>)
    ensures
        reconcile_result(r) == spec_reconcile(opt_ref_account(local), a@),
{
    let l = match local {
        None => {
            return Ok(None);
        },
        Some(l) => l,
    };
    if !str_eq(l.view.account_id.as_str(), a.view.account_id.as_str()) || (str_eq(
        l.credentials.access_token.as_str(),
        a.credentials.access_token.as_str(),
    ) && str_eq(l.credentials.refresh_token.as_str(), a.credentials.refresh_token.as_str())) {
        return Ok(None);
    }
    let li = issued(&l.credentials);
    let ai = issued(&a.credentials);
    if li > ai {
        let mut c = l.credentials.duplicate();
        if c.id_token.is_none() {
            c.id_token = copy_opt(&a.credentials.id_token);
        }
        Ok(Some(c))
    } else if li == ai && !str_eq(l.credentials.refresh_token.as_str(), a.credentials.refresh_token.as_str()) {
        Err(AppError::new("RUNTIME_DESYNC", "同账号存在无法判定新旧的凭据；请停止客户端后重新授权"))
    } else {
        Ok(None)
    }
}

/// Only strictly newer runtime credentials replace the vault's: adoption
/// requires a later issue time, and identical tokens are never adopted.
pub proof fn law_reconcile_adopts_only_newer(local: AccountV, a: AccountV)
    requires
        spec_reconcile(Some(local), a) matches Ok(Some(_)),
    ensures
        spec_issued(local.credentials) > spec_issued(a.credentials),
        local.view.account_id == a.view.account_id,
        spec_reconcile(Some(local), a)->Ok_0.unwrap().refresh_token == local.credentials.refresh_token,
        spec_reconcile(Some(local), a)->Ok_0.unwrap().access_token == local.credentials.access_token,
{
}

/// Tokens are refreshed when forced, or when they expire within two minutes.
pub open spec fn spec_needs_refresh(expires_at: int, now: int, force: bool) -> bool {
    force || expires_at <= now + 120_000
}

pub fn needs_refresh(c: &Credentials, now: i64, force: bool) -> (r: bool)
    ensures
        r == spec_needs_refresh(c.expires_at as int, now as int, force),
{
    force || (c.expires_at as i128) <= (now as i128) + 120_000
}

/// The account after a refresh: the new credentials, and the email and plan
/// type that they claim where they claim one.
pub open spec fn spec_adopt_refresh(a: AccountV, c: CredentialsV) -> Result<AccountV, AppErrorV> {
    match spec_account(c, Some(a.view.account_id), Seq::empty(), 0) {
        Err(e) => Err(e),
        Ok(identity) => Ok(
            AccountV {
                view: AccountViewV {
                    email: if identity.view.email is Some {
                        identity.view.email
                    } else {
                        a.view.email
                    },
                    plan_type: if identity.view.plan_type is Some {
                        identity.view.plan_type
                    } else {
                        a.view.plan_type
                    },
                    ..a.view
                },
                credentials: c,
            },
        ),
    }
}

pub open spec fn account_result(r: Result<Account, AppError>) -> Result<AccountV, AppErrorV> {
    match r {
        Ok(a) => Ok(a@),
        Err(e) => Err(e@),
    }
}

pub fn adopt_refresh(a: Account, c: Credentials) -> (r: Result<Account, AppError>)
    ensures
        account_result(r) == spec_adopt_refresh(a@, c@),
{
    let mut a = a;
    proof {
        reveal_strlit("");
        assert(""@ =~= Seq::<char>::empty());
    }
    let identity = match account_with(c.duplicate(), Some(a.view.account_id.as_str()), "", 0) {
        Ok(i) => i,
        Err(e) => {
            return Err(e);
        },
    };
    proof {
        reveal_strlit("");
    }
    a.credentials = c;
    if identity.view.email.is_some() {
        a.view.email = identity.view.email;
    }
    if identity.view.plan_type.is_some() {
        a.view.plan_type = identity.view.plan_type;
    }
    Ok(a)
}

pub open spec fn rotation_save_error() -> AppErrorV {
    app_error("ROTATION_SAVE_FAILED"@, "Token 已轮换但凭据库保存失败；请勿退出应用，修复磁盘权限/空间后重试"@)
}

/// The error for rotated tokens that could not be saved to the vault.
pub fn rotation_save_failed() -> (r: AppError)
    ensures
        r@ == rotation_save_error(),
{
    AppError::new("ROTATION_SAVE_FAILED", "Token 已轮换但凭据库保存失败；请勿退出应用，修复磁盘权限/空间后重试")
}

/// The account with a fresh quota; a reported plan type replaces the old one.
pub open spec fn spec_apply_quota(a: AccountV, q: AccountQuotaV, plan: Option<Seq<char>>) -> AccountV {
    AccountV {
        view: AccountViewV {
            quota: Some(q),
            plan_type: if plan is Some {
                plan
            } else {
                a.view.plan_type
            },
            ..a.view
        },
        ..a
    }
}

pub fn apply_quota(a: Account, q: AccountQuota, plan: Option<String>) -> (r: Account)
    ensures
        r@ == spec_apply_quota(a@, q@, opt_view(plan)),
{
    let mut a = a;
    a.view.quota = Some(q);
    if plan.is_some() {
        a.view.plan_type = plan;
    }
    a
}

/// A quota query's result replaces whatever quota the account held: the
/// account carries exactly the quota just reported, the reported plan type
/// where one was reported, and is otherwise unchanged.
pub proof fn law_quota_replaced(a: AccountV, q: AccountQuotaV, plan: Option<Seq<char>>)
    ensures
        spec_apply_quota(a, q, plan).view.quota == Some(q),
        plan matches Some(p) ==> spec_apply_quota(a, q, plan).view.plan_type == Some(p),
        plan is None ==> spec_apply_quota(a, q, plan).view.plan_type == a.view.plan_type,
        spec_apply_quota(a, q, plan).credentials == a.credentials,
        spec_apply_quota(a, q, plan).view.id == a.view.id,
        spec_apply_quota(a, q, plan).view.account_id == a.view.account_id,
        spec_apply_quota(a, q, plan).view.email == a.view.email,
        spec_apply_quota(a, q, plan).view.created_at == a.view.created_at,
        spec_apply_quota(a, q, plan).view.last_used_at == a.view.last_used_at,
{
}

pub open spec fn mismatch_error() -> AppErrorV {
    app_error("REAUTHORIZE_MISMATCH"@, "重新授权登录了不同账号；请使用添加账号"@)
}

/// A re-authorized account replaces the stored one under its local id,
/// keeping its creation and last-use times; it must be the same account.
pub open spec fn spec_reauthorize(old: AccountV, a: AccountV) -> Result<AccountV, AppErrorV> {
    if old.view.account_id != a.view.account_id {
        Err(mismatch_error())
    } else {
        Ok(
            AccountV {
                view: AccountViewV {
                    id: old.view.id,
                    created_at: old.view.created_at,
                    last_used_at: old.view.last_used_at,
                    ..a.view
                },
                ..a
            },
        )
    }
}

pub fn reauthorize(old: &Account, a: Account) -> (r: Result<Account, AppError>)
    ensures
        account_result(r) == spec_reauthorize(old@, a@),
{
    if !str_eq(old.view.account_id.as_str(), a.view.account_id.as_str()) {
        return Err(AppError::new("REAUTHORIZE_MISMATCH", "重新授权登录了不同账号；请使用添加账号"));
    }
    let mut a = a;
    a.view.id = old.view.id.clone();
    a.view.created_at = old.view.created_at;
    a.view.last_used_at = old.view.last_used_at;
    Ok(a)
}

/// Re-authorization succeeds exactly for a login of the same account, and
/// then stores the new login's credentials, email, plan and quota under the
/// stored account's local id, creation time and last-use time.
pub proof fn law_reauthorize_takes_new_login(old: AccountV, a: AccountV)
    ensures
        spec_reauthorize(old, a) is Ok <==> old.view.account_id == a.view.account_id,
        spec_reauthorize(old, a) is Err ==> spec_reauthorize(old, a)->Err_0 == mismatch_error(),
        spec_reauthorize(old, a) matches Ok(r) ==> {
            &&& r.credentials == a.credentials
            &&& r.view.id == old.view.id
            &&& r.view.created_at == old.view.created_at
            &&& r.view.last_used_at == old.view.last_used_at
            &&& r.view.account_id == a.view.account_id
            &&& r.view.email == a.view.email
            &&& r.view.plan_type == a.view.plan_type
            &&& r.view.quota == a.view.quota
        },
{
}

pub open spec fn no_oauth_error() -> AppErrorV {
    app_error("NO_OAUTH_ACCOUNT"@, "运行环境没有可导入的 OAuth 账号"@)
}

/// The account a runtime holds, for importing.
pub fn importable(account: Option<Account>) -> (r: Result<Account, AppError>)
    ensures
        account_result(r) == match opt_account(account) {
            Some(a) => Ok(a),
            None => Err(no_oauth_error()),
        },
{
    match account {
        Some(a) => Ok(a),
        None => Err(AppError::new("NO_OAUTH_ACCOUNT", "运行环境没有可导入的 OAuth 账号")),
    }
}

/// The account after it was switched to at time `now`.
pub fn mark_used(a: Account, now: i64) -> (r: Account)
    ensures
        r@ == (AccountV { view: AccountViewV { last_used_at: Some(now as int), ..a@.view }, ..a@ }),
{
    let mut a = a;
    a.view.last_used_at = Some(now);
    a
}

pub open spec fn switch_metadata_error() -> AppErrorV {
    app_error("SWITCH_METADATA"@, "认证文件已切换，但最后使用时间保存失败；请刷新状态"@)
}

pub fn switch_metadata_failed() -> (r: AppError)
    ensures
        r@ == switch_metadata_error(),
{
    AppError::new("SWITCH_METADATA", "认证文件已切换，但最后使用时间保存失败；请刷新状态")
}

/// What a runtime currently holds, for display.
pub struct RuntimeStatus {
    pub runtime: String,
    pub path: String,
    pub account_id: Option<String>,
    pub managed_id: Option<String>,
    pub error: Option<AppError>,
}

/// The status of a runtime whose file was read as `read`: the account id it
/// holds, the local id of the vault account with that account id, or the
/// read error.
pub fn runtime_status(name: &str, path: &str, read: Result<Option<Account>, AppError>, repo: &Repository) -> (r: RuntimeStatus)
    ensures
        r.runtime@ == name@,
        r.path@ == path@,
        match read {
            Ok(a) => {
                &&& opt_view(r.account_id) == match a {
                    Some(x) => Some(x@.view.account_id),
                    None => None,
                }
                &&& opt_view(r.managed_id) == match a {
                    Some(x) => match index_of_account(repo@, x@.view.account_id) {
                        Some(i) => Some(repo@[i].view.id),
                        None => None,
                    },
                    None => None,
                }
                &&& r.error is None
            },
            Err(e) => r.account_id is None && r.managed_id is None && (r.error matches Some(x) && x@ == e@),
        },
{
    match read {
        Ok(Some(a)) => {
            let managed = match repo.find_account(a.view.account_id.as_str()) {
                Some(m) => Some(m.view.id),
                None => None,
            };
            RuntimeStatus {
                runtime: owned(name),
                path: owned(path),
                account_id: Some(a.view.account_id),
                managed_id: managed,
                error: None,
            }
        },
        Ok(None) => RuntimeStatus { runtime: owned(name), path: owned(path), account_id: None, managed_id: None, error: None },
        Err(e) => RuntimeStatus { runtime: owned(name), path: owned(path), account_id: None, managed_id: None, error: Some(e) },
    }
}

/// The outcome of refreshing one account's quota during a bulk refresh.
pub struct QuotaResult {
    pub account_id: String,
    pub error: Option<AppError>,
}

impl QuotaResult {
    /// The entry for account `account_id` whose refresh ended with `outcome`:
    /// the error if it failed, none if it succeeded.
    pub fn of<T>(account_id: String, outcome: Result<T, AppError>) -> (r: QuotaResult)
        ensures
            r.account_id@ == account_id@,
            match r.error {
                Some(e) => outcome matches Err(x) && e@ == x@,
                None => outcome is Ok,
            },
    {
        let error = match outcome {
            Ok(_) => None,
            Err(e) => Some(e),
        };
        QuotaResult { account_id, error }
    }
}

/// The answer to a completed login: the account as the user sees it, and
/// the error of the quota query that followed it, if that query failed.
pub struct LoginResult {
    pub account: AccountView,
    pub quota_error: Option<AppError>,
}

pub struct LoginResultV {
    pub account: AccountViewV,
    pub quota_error: Option<AppErrorV>,
}

impl View for LoginResult {
    type V = LoginResultV;

    open spec fn view(&self) -> LoginResultV {
        LoginResultV {
            account: self.account@,
            quota_error: match self.quota_error {
                Some(e) => Some(e@),
                None => None,
            },
        }
    }
}

/// The answer to a login whose account `added` was stored, given the outcome
/// of the quota query that followed: the account with its quota, or, when
/// the query failed, the stored account and the query's error. A failed
/// quota query never turns a completed login into a failure.
pub fn login_result(added: AccountView, quota: Result<AccountView, AppError>) -> (r: LoginResult)
    ensures
        r@ == match quota {
            Ok(a) => LoginResultV { account: a@, quota_error: None },
            Err(e) => LoginResultV { account: added@, quota_error: Some(e@) },
        },
{
    match quota {
        Ok(a) => LoginResult { account: a, quota_error: None },
        Err(e) => LoginResult { account: added, quota_error: Some(e) },
    }
}

} // verus!
