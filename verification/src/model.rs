//! Accounts, their credentials and their quota, as the library keeps them.
//! `AccountView` is the credential-free part that may leave the process.
use vstd::prelude::*;
use crate::error::{AppError, clock_error, clock_unavailable};
use crate::json::{JsonNumber, JsonNumberV};
use crate::text::{copy_opt, copy_string, opt_view};

verus! {

/// The bounds of every time the library works with, in milliseconds either
/// side of 1970: beyond the dates that chrono represents (the years -262143
/// to 262142, about 8.3 * 10^15 milliseconds).
pub open spec fn clock_bound() -> int {
    9_000_000_000_000_000
}

#[verifier::external_type_specification]
#[verifier::external_body]
pub struct ExSystemTime(std::time::SystemTime);

/// The system clock, `std::time::SystemTime::now()`. Nothing is claimed of
/// the time it reads.
#[verifier::external_body]
pub(crate) fn system_time() -> (r: std::time::SystemTime) {
    std::time::SystemTime::now()
}

/// The whole milliseconds from 1970 to `t`, by `t.duration_since(UNIX_EPOCH)`;
/// nothing when `t` lies before 1970. Nothing is claimed of the number.
#[verifier::external_body]
fn millis_since_epoch(t: &std::time::SystemTime) -> (r: Option<u128>) {
    t.duration_since(std::time::UNIX_EPOCH).ok().map(|d| d.as_millis())
}

/// The whole seconds from 1970 to `t` and the nanoseconds beyond them, by
/// `t.duration_since(UNIX_EPOCH)`, `as_secs` and `subsec_nanos`; nothing when
/// `t` lies before 1970. Claims only that the nanoseconds are fewer than a
/// second, as `subsec_nanos` documents.
#[verifier::external_body]
pub(crate) fn since_epoch(t: &std::time::SystemTime) -> (r: Option<(u64, u32)>)
    ensures
        match r {
            Some((_, nanos)) => nanos < 1_000_000_000,
            None => true,
        },
{
    t.duration_since(std::time::UNIX_EPOCH).ok().map(|d| (d.as_secs(), d.subsec_nanos()))
}

/// The current time in milliseconds since 1970. A clock set before 1970 or
/// beyond the bound is reported as an error.
pub fn now() -> (r: Result<i64, AppError>)
    ensures
        match r {
            Ok(t) => 0 <= t <= clock_bound(),
            Err(e) => e@ == clock_error(),
        },
{
    let t = system_time();
    match millis_since_epoch(&t) {
        Some(ms) => if ms <= 9_000_000_000_000_000u128 {
            Ok(ms as i64)
        } else {
            Err(clock_unavailable())
        },
        None => Err(clock_unavailable()),
    }
}

/// OAuth credentials of one account. `expires_at` is in milliseconds.
pub struct Credentials {
    pub access_token: String,
    pub refresh_token: String,
    pub id_token: Option<String>,
    pub expires_at: i64,
}

pub struct CredentialsV {
    pub access_token: Seq<char>,
    pub refresh_token: Seq<char>,
    pub id_token: Option<Seq<char>>,
    pub expires_at: int,
}

impl View for Credentials {
    type V = CredentialsV;

    open spec fn view(&self) -> CredentialsV {
        CredentialsV {
            access_token: self.access_token@,
            refresh_token: self.refresh_token@,
            id_token: opt_view(self.id_token),
            expires_at: self.expires_at as int,
        }
    }
}

impl Credentials {
    pub fn duplicate(&self) -> (r: Credentials)
        ensures
            r@ == self@,
    {
        Credentials {
            access_token: copy_string(&self.access_token),
            refresh_token: copy_string(&self.refresh_token),
            id_token: copy_opt(&self.id_token),
            expires_at: self.expires_at,
        }
    }
}

/// The share of a quota window that is left: 100 minus `used_percent`.
/// The usage is kept exactly as the usage service reported it.
pub struct Remaining {
    pub used_percent: JsonNumber,
}

/// One usage window. `limit_window_seconds` is its length, `reset_at` is in
/// milliseconds.
pub struct QuotaWindow {
    pub id: String,
    pub label: String,
    pub limit_window_seconds: Option<i64>,
    pub remaining: Option<Remaining>,
    pub reset_at: Option<i64>,
}

pub struct QuotaWindowV {
    pub id: Seq<char>,
    pub label: Seq<char>,
    pub limit_window_seconds: Option<int>,
    pub used_percent: Option<JsonNumberV>,
    pub reset_at: Option<int>,
}

pub open spec fn opt_int(v: Option<i64>) -> Option<int> {
    match v {
        Some(n) => Some(n as int),
        None => None,
    }
}

pub open spec fn opt_used(v: Option<Remaining>) -> Option<JsonNumberV> {
    match v {
        Some(r) => Some(r.used_percent@),
        None => None,
    }
}

impl View for QuotaWindow {
    type V = QuotaWindowV;

    open spec fn view(&self) -> QuotaWindowV {
        QuotaWindowV {
            id: self.id@,
            label: self.label@,
            limit_window_seconds: opt_int(self.limit_window_seconds),
            used_percent: opt_used(self.remaining),
            reset_at: opt_int(self.reset_at),
        }
    }
}

/// The quota of an account. The legacy five-hour and weekly fields are
/// derived from the windows of exactly those lengths.
pub struct AccountQuota {
    pub five_hour_remaining: Option<Remaining>,
    pub weekly_remaining: Option<Remaining>,
    pub five_hour_reset_at: Option<i64>,
    pub weekly_reset_at: Option<i64>,
    pub updated_at: i64,
    pub windows: Option<Vec<QuotaWindow>>,
}

pub struct AccountQuotaV {
    pub five_hour_used: Option<JsonNumberV>,
    pub weekly_used: Option<JsonNumberV>,
    pub five_hour_reset_at: Option<int>,
    pub weekly_reset_at: Option<int>,
    pub updated_at: int,
    pub windows: Option<Seq<QuotaWindowV>>,
}

impl View for AccountQuota {
    type V = AccountQuotaV;

    open spec fn view(&self) -> AccountQuotaV {
        AccountQuotaV {
            five_hour_used: opt_used(self.five_hour_remaining),
            weekly_used: opt_used(self.weekly_remaining),
            five_hour_reset_at: opt_int(self.five_hour_reset_at),
            weekly_reset_at: opt_int(self.weekly_reset_at),
            updated_at: self.updated_at as int,
            windows: match self.windows {
                Some(w) => Some(w@.map_values(|x: QuotaWindow| x@)),
                None => None,
            },
        }
    }
}

pub fn copy_number(n: &JsonNumber) -> (r: JsonNumber)
    ensures
        r@ == n@,
{
    match n {
        JsonNumber::PosInt(v) => JsonNumber::PosInt(*v),
        JsonNumber::NegInt(v) => JsonNumber::NegInt(*v),
        JsonNumber::Float(t) => JsonNumber::Float(copy_string(t)),
    }
}

pub fn copy_remaining(r: &Option<Remaining>) -> (o: Option<Remaining>)
    ensures
        opt_used(o) == opt_used(*r),
{
    match r {
        Some(v) => Some(Remaining { used_percent: copy_number(&v.used_percent) }),
        None => None,
    }
}

impl QuotaWindow {
    pub fn duplicate(&self) -> (r: QuotaWindow)
        ensures
            r@ == self@,
    {
        QuotaWindow {
            id: copy_string(&self.id),
            label: copy_string(&self.label),
            limit_window_seconds: self.limit_window_seconds,
            remaining: copy_remaining(&self.remaining),
            reset_at: self.reset_at,
        }
    }
}

impl AccountQuota {
    pub fn duplicate(&self) -> (r: AccountQuota)
        ensures
            r@ == self@,
    {
        let windows = match &self.windows {
            Some(ws) => {
                let mut out: Vec<QuotaWindow> = Vec::new();
                let mut i: usize = 0;
                while i < ws.len()
                    invariant
                        i <= ws@.len(),
                        out@.len() == i,
                        forall|k: int| 0 <= k < i ==> (#[trigger] out@[k])@ == ws@[k]@,
                    decreases ws.len() - i,
                {
                    out.push(ws[i].duplicate());
                    i += 1;
                }
                assert(out@.map_values(|x: QuotaWindow| x@) =~= ws@.map_values(|x: QuotaWindow| x@));
                Some(out)
            },
            None => None,
        };
        AccountQuota {
            five_hour_remaining: copy_remaining(&self.five_hour_remaining),
            weekly_remaining: copy_remaining(&self.weekly_remaining),
            five_hour_reset_at: self.five_hour_reset_at,
            weekly_reset_at: self.weekly_reset_at,
            updated_at: self.updated_at,
            windows,
        }
    }
}

/// The credential-free description of an account; the only account value
/// that is handed to the user interface.
pub struct AccountView {
    pub id: String,
    pub email: Option<String>,
    pub account_id: String,
    pub plan_type: Option<String>,
    pub quota: Option<AccountQuota>,
    pub created_at: i64,
    pub last_used_at: Option<i64>,
}

pub struct AccountViewV {
    pub id: Seq<char>,
    pub email: Option<Seq<char>>,
    pub account_id: Seq<char>,
    pub plan_type: Option<Seq<char>>,
    pub quota: Option<AccountQuotaV>,
    pub created_at: int,
    pub last_used_at: Option<int>,
}

impl View for AccountView {
    type V = AccountViewV;

    open spec fn view(&self) -> AccountViewV {
        AccountViewV {
            id: self.id@,
            email: opt_view(self.email),
            account_id: self.account_id@,
            plan_type: opt_view(self.plan_type),
            quota: match self.quota {
                Some(q) => Some(q@),
                None => None,
            },
            created_at: self.created_at as int,
            last_used_at: opt_int(self.last_used_at),
        }
    }
}

impl AccountView {
    pub fn duplicate(&self) -> (r: AccountView)
        ensures
            r@ == self@,
    {
        AccountView {
            id: copy_string(&self.id),
            email: copy_opt(&self.email),
            account_id: copy_string(&self.account_id),
            plan_type: copy_opt(&self.plan_type),
            quota: match &self.quota {
                Some(q) => Some(q.duplicate()),
                None => None,
            },
            created_at: self.created_at,
            last_used_at: self.last_used_at,
        }
    }
}

/// An account: its description and its credentials.
pub struct Account {
    pub view: AccountView,
    pub credentials: Credentials,
}

pub struct AccountV {
    pub view: AccountViewV,
    pub credentials: CredentialsV,
}

impl View for Account {
    type V = AccountV;

    open spec fn view(&self) -> AccountV {
        AccountV { view: self.view@, credentials: self.credentials@ }
    }
}

impl Account {
    pub fn duplicate(&self) -> (r: Account)
        ensures
            r@ == self@,
    {
        Account { view: self.view.duplicate(), credentials: self.credentials.duplicate() }
    }
}

/// The views of a list of accounts.
pub open spec fn accounts_view(s: Seq<Account>) -> Seq<AccountV> {
    s.map_values(|a: Account| a@)
}

/// The view of an optional reference to an account.
pub open spec fn opt_ref_account(a: Option<&Account>) -> Option<AccountV> {
    match a {
        Some(v) => Some(v@),
        None => None,
    }
}

/// The view of an optional account.
pub open spec fn opt_account(a: Option<Account>) -> Option<AccountV> {
    match a {
        Some(v) => Some(v@),
        None => None,
    }
}

} // verus!
