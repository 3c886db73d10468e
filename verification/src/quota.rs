//! Reading the Codex usage response: quota windows, classified only by their
//! length, never by their position in the response.
use vstd::prelude::*;
use crate::error::{AppError, AppErrorV, app_error, clock_error};
use crate::json::{Json, JsonV, JsonNumber, JsonNumberV, decode, json_decode, present};
use crate::model::{
    AccountQuota, AccountQuotaV, QuotaWindow, QuotaWindowV, Remaining, clock_bound, copy_remaining, opt_int,
    now, opt_used,
};
use crate::number::{is_percent, percent_ok};
use crate::text::{concat2, copy_opt, decimal, opt_view, owned, str_eq, u64_text};

verus! {

/// The usage endpoint of the Codex service.
pub const USAGE_URL: &'static str = "https://chatgpt.com/backend-api/wham/usage";

pub open spec fn schema_error() -> AppErrorV {
    app_error("QUOTA_SCHEMA_CHANGED"@, "额度接口发生变化，无法识别窗口数据"@)
}

/// The error for a usage response whose shape is not understood.
pub fn schema() -> (r: AppError)
    ensures
        r@ == schema_error(),
{
    AppError::new("QUOTA_SCHEMA_CHANGED", "额度接口发生变化，无法识别窗口数据")
}

/// The label of a window: its length in the largest whole unit, or its
/// position when its length is unknown.
pub open spec fn window_label(duration: Option<int>, source: Seq<char>) -> Seq<char> {
    match duration {
        Some(n) => if n == 18000 {
            "5H"@
        } else if n == 604800 {
            "Weekly"@
        } else if n % 86400 == 0 {
            decimal((n / 86400) as nat) + " 天"@
        } else if n % 3600 == 0 {
            decimal((n / 3600) as nat) + "H"@
        } else if n % 60 == 0 {
            decimal((n / 60) as nat) + " 分钟"@
        } else {
            decimal(n as nat) + " 秒"@
        },
        None => if source == "primary_window"@ {
            "主窗口"@
        } else {
            "次窗口"@
        },
    }
}

/// The largest `reset_after_seconds` accepted: one year.
pub open spec fn max_reset_after() -> int {
    31_536_000
}

/// The window that a member of `rate_limit` describes, read at time `now`.
pub open spec fn spec_window(v: JsonV, source: Seq<char>, now: int) -> Result<Option<QuotaWindowV>, AppErrorV> {
    if v is Null {
        Ok(None)
    } else if !(v is Object) {
        Err(schema_error())
    } else if v.is_empty_object() {
        Ok(None)
    } else {
        let dur_ok = match present(v, "limit_window_seconds"@) {
            Some(x) => match x.as_i64() {
                Some(n) => n > 0,
                None => false,
            },
            None => true,
        };
        let duration = match present(v, "limit_window_seconds"@) {
            Some(x) => x.as_i64(),
            None => None,
        };
        let used_ok = match present(v, "used_percent"@) {
            Some(JsonV::Number(n)) => percent_ok(n),
            Some(_) => false,
            None => true,
        };
        let used = match present(v, "used_percent"@) {
            Some(JsonV::Number(n)) => Some(n),
            _ => None,
        };
        let reset_ok = match present(v, "reset_at"@) {
            Some(x) => match x.as_i64() {
                Some(n) => n >= 0 && n * 1000 <= i64::MAX,
                None => false,
            },
            None => match present(v, "reset_after_seconds"@) {
                Some(x) => match x.as_i64() {
                    Some(n) => 0 <= n < max_reset_after(),
                    None => false,
                },
                None => true,
            },
        };
        let reset = match present(v, "reset_at"@) {
            Some(x) => Some(x.as_i64().unwrap() * 1000),
            None => match present(v, "reset_after_seconds"@) {
                Some(x) => Some(now + x.as_i64().unwrap() * 1000),
                None => None,
            },
        };
        if !dur_ok || !used_ok || !reset_ok {
            Err(schema_error())
        } else if duration is None && used is None && reset is None {
            Err(schema_error())
        } else {
            Ok(
                Some(
                    QuotaWindowV {
                        id: source,
                        label: window_label(duration, source),
                        limit_window_seconds: duration,
                        used_percent: used,
                        reset_at: reset,
                    },
                ),
            )
        }
    }
}

fn label_of(duration: Option<i64>, source: &str) -> (r: String)
    requires
        duration matches Some(n) ==> n > 0,
    ensures
        r@ == window_label(opt_int(duration), source@),
{
    match duration {
        Some(n) => {
            if n == 18000 {
                owned("5H")
            } else if n == 604800 {
                owned("Weekly")
            } else if n % 86400 == 0 {
                concat2(u64_text((n / 86400) as u64).as_str(), " 天")
            } else if n % 3600 == 0 {
                concat2(u64_text((n / 3600) as u64).as_str(), "H")
            } else if n % 60 == 0 {
                concat2(u64_text((n / 60) as u64).as_str(), " 分钟")
            } else {
                concat2(u64_text(n as u64).as_str(), " 秒")
            }
        },
        None => {
            if str_eq(source, "primary_window") {
                owned("主窗口")
            } else {
                owned("次窗口")
            }
        },
    }
}

pub open spec fn opt_window(w: Option<QuotaWindow>) -> Option<QuotaWindowV> {
    match w {
        Some(x) => Some(x@),
        None => None,
    }
}

pub open spec fn window_result_view(r: Result<Option<QuotaWindow>, AppError>) -> Result<Option<QuotaWindowV>, AppErrorV> {
    match r {
        Ok(w) => Ok(opt_window(w)),
        Err(e) => Err(e@),
    }
}

/// Reads one window of the usage response at time `now`.
pub fn window(v: &Json, source: &str, now: i64) -> (r: Result<Option<QuotaWindow>, AppError>)
    requires
        -clock_bound() <= now <= clock_bound(),
    ensures
        window_result_view(r) == spec_window(v@, source@, now as int),
{
    if v.is_null() {
        return Ok(None);
    }
    if !v.is_object() {
        return Err(schema());
    }
    if v.is_empty_object() {
        return Ok(None);
    }
    let duration: Option<i64> = match v.get_present("limit_window_seconds") {
        Some(x) => match x.as_i64() {
            Some(n) => if n > 0 {
                Some(n)
            } else {
                return Err(schema());
            },
            None => {
                return Err(schema());
            },
        },
        None => None,
    };
    let remaining: Option<Remaining> = match v.get_present("used_percent") {
        Some(Json::Number(n)) => if is_percent(n) {
            Some(Remaining { used_percent: crate::model::copy_number(n) })
        } else {
            return Err(schema());
        },
        Some(_) => {
            return Err(schema());
        },
        None => None,
    };
    let reset_at: Option<i64> = match v.get_present("reset_at") {
        Some(x) => match x.as_i64() {
            Some(n) => if n >= 0 && n <= 9223372036854775 {
                Some(n * 1000)
            } else {
                return Err(schema());
            },
            None => {
                return Err(schema());
            },
        },
        None => match v.get_present("reset_after_seconds") {
            Some(x) => match x.as_i64() {
                Some(n) => if n >= 0 && n < 31536000 {
                    Some(now + n * 1000)
                } else {
                    return Err(schema());
                },
                None => {
                    return Err(schema());
                },
            },
            None => None,
        },
    };
    if duration.is_none() && remaining.is_none() && reset_at.is_none() {
        return Err(schema());
    }
    let label = label_of(duration, source);
    Ok(
        Some(
            QuotaWindow {
                id: owned(source),
                label,
                limit_window_seconds: duration,
                remaining,
                reset_at,
            },
        ),
    )
}

/// The last window in the list whose length is `seconds`.
pub open spec fn last_with(ws: Seq<QuotaWindowV>, seconds: int) -> Option<QuotaWindowV>
    decreases ws.len(),
{
    if ws.len() == 0 {
        None
    } else if ws.last().limit_window_seconds == Some(seconds) {
        Some(ws.last())
    } else {
        last_with(ws.drop_last(), seconds)
    }
}

/// The sort key of a window: its length, unknown lengths last.
pub open spec fn window_key(w: QuotaWindowV) -> int {
    match w.limit_window_seconds {
        Some(n) => n,
        None => i64::MAX as int,
    }
}

/// The windows in stable order of their length (the response has at most two).
pub open spec fn order_windows(ws: Seq<QuotaWindowV>) -> Seq<QuotaWindowV> {
    if ws.len() == 2 && window_key(ws[1]) < window_key(ws[0]) {
        seq![ws[1], ws[0]]
    } else {
        ws
    }
}

/// The quota that a list of windows (in response order) gives at time `now`.
pub open spec fn quota_of(ws: Seq<QuotaWindowV>, now: int) -> AccountQuotaV {
    AccountQuotaV {
        five_hour_used: match last_with(ws, 18000) {
            Some(w) => w.used_percent,
            None => None,
        },
        weekly_used: match last_with(ws, 604800) {
            Some(w) => w.used_percent,
            None => None,
        },
        five_hour_reset_at: match last_with(ws, 18000) {
            Some(w) => w.reset_at,
            None => None,
        },
        weekly_reset_at: match last_with(ws, 604800) {
            Some(w) => w.reset_at,
            None => None,
        },
        updated_at: now,
        windows: Some(order_windows(ws)),
    }
}

pub open spec fn window_list(p: Option<QuotaWindowV>, s: Option<QuotaWindowV>) -> Seq<QuotaWindowV> {
    match (p, s) {
        (Some(a), Some(b)) => seq![a, b],
        (Some(a), None) => seq![a],
        (None, Some(b)) => seq![b],
        (None, None) => Seq::empty(),
    }
}

/// The quota and plan type that a usage response gives at time `now`.
pub open spec fn spec_parse(v: JsonV, now: int) -> Result<(AccountQuotaV, Option<Seq<char>>), AppErrorV> {
    match v.get("rate_limit"@) {
        None => Err(schema_error()),
        Some(rate) => if !(rate is Null) && !(rate is Object) {
            Err(schema_error())
        } else {
            match spec_window(rate.at("primary_window"@), "primary_window"@, now) {
                Err(e) => Err(e),
                Ok(p) => match spec_window(rate.at("secondary_window"@), "secondary_window"@, now) {
                    Err(e) => Err(e),
                    Ok(s) => Ok((quota_of(window_list(p, s), now), v.at("plan_type"@).as_str())),
                },
            }
        },
    }
}

pub open spec fn parse_result_view(r: Result<(AccountQuota, Option<String>), AppError>) -> Result<
    (AccountQuotaV, Option<Seq<char>>),
    AppErrorV,
> {
    match r {
        Ok((q, p)) => Ok((q@, opt_view(p))),
        Err(e) => Err(e@),
    }
}

fn at<'a>(v: &'a Json, key: &str) -> (r: Option<&'a Json>)
    ensures
        match r {
            Some(x) => v@.at(key@) == x@,
            None => v@.at(key@) is Null,
        },
{
    v.get(key)
}

/// Reads a usage response at time `now`.
pub fn parse_at(v: &Json, now: i64) -> (r: Result<(AccountQuota, Option<String>), AppError>)
    requires
        -clock_bound() <= now <= clock_bound(),
    ensures
        parse_result_view(r) == spec_parse(v@, now as int),
{
    let rate = match v.get("rate_limit") {
        Some(r) => r,
        None => {
            return Err(schema());
        },
    };
    if !rate.is_null() && !rate.is_object() {
        return Err(schema());
    }
    let primary = match at(rate, "primary_window") {
        Some(x) => window(x, "primary_window", now),
        None => window(&Json::Null, "primary_window", now),
    };
    let primary = match primary {
        Ok(w) => w,
        Err(e) => {
            return Err(e);
        },
    };
    let secondary = match at(rate, "secondary_window") {
        Some(x) => window(x, "secondary_window", now),
        None => window(&Json::Null, "secondary_window", now),
    };
    let secondary = match secondary {
        Ok(w) => w,
        Err(e) => {
            return Err(e);
        },
    };
    let ghost pv = opt_window(primary);
    let ghost sv = opt_window(secondary);
    let mut windows: Vec<QuotaWindow> = Vec::new();
    match primary {
        Some(w) => windows.push(w),
        None => {},
    }
    match secondary {
        Some(w) => windows.push(w),
        None => {},
    }
    let ghost ws = windows@.map_values(|x: QuotaWindow| x@);
    assert(ws =~= window_list(pv, sv));
    let mut quota = AccountQuota {
        five_hour_remaining: None,
        weekly_remaining: None,
        five_hour_reset_at: None,
        weekly_reset_at: None,
        updated_at: now,
        windows: None,
    };
    let mut i: usize = 0;
    while i < windows.len()
        invariant
            i <= windows@.len() <= 2,
            ws == windows@.map_values(|x: QuotaWindow| x@),
            quota.updated_at == now,
            quota.windows is None,
            opt_used(quota.five_hour_remaining) == match last_with(ws.subrange(0, i as int), 18000) {
                Some(w) => w.used_percent,
                None => None,
            },
            opt_int(quota.five_hour_reset_at) == match last_with(ws.subrange(0, i as int), 18000) {
                Some(w) => w.reset_at,
                None => None,
            },
            opt_used(quota.weekly_remaining) == match last_with(ws.subrange(0, i as int), 604800) {
                Some(w) => w.used_percent,
                None => None,
            },
            opt_int(quota.weekly_reset_at) == match last_with(ws.subrange(0, i as int), 604800) {
                Some(w) => w.reset_at,
                None => None,
            },
        decreases windows.len() - i,
    {
        let ghost pre = ws.subrange(0, i as int);
        let ghost next = ws.subrange(0, i + 1);
        assert(next.drop_last() =~= pre);
        assert(next.last() == windows@[i as int]@);
        let w = &windows[i];
        match w.limit_window_seconds {
            Some(18000) => {
                quota.five_hour_remaining = copy_remaining(&w.remaining);
                quota.five_hour_reset_at = w.reset_at;
            },
            Some(604800) => {
                quota.weekly_remaining = copy_remaining(&w.remaining);
                quota.weekly_reset_at = w.reset_at;
            },
            _ => {},
        }
        i += 1;
    }
    assert(ws.subrange(0, windows@.len() as int) =~= ws);
    if windows.len() == 2 {
        let k0 = match windows[0].limit_window_seconds {
            Some(n) => n,
            None => 9223372036854775807i64,
        };
        let k1 = match windows[1].limit_window_seconds {
            Some(n) => n,
            None => 9223372036854775807i64,
        };
        if k1 < k0 {
            let second = windows.pop().unwrap();
            let first = windows.pop().unwrap();
            windows.push(second);
            windows.push(first);
            assert(windows@.map_values(|x: QuotaWindow| x@) =~= order_windows(ws));
        } else {
            assert(windows@.map_values(|x: QuotaWindow| x@) =~= order_windows(ws));
        }
    } else {
        assert(windows@.map_values(|x: QuotaWindow| x@) =~= order_windows(ws));
    }
    quota.windows = Some(windows);
    let plan = match at(v, "plan_type") {
        Some(p) => match p.as_str() {
            Some(s) => Some(s.clone()),
            None => None,
        },
        None => None,
    };
    Ok((quota, plan))
}

/// Reads a usage response, stamped with the current time; the clock's error
/// when the system clock cannot be read.
pub fn parse(v: &Json) -> (r: Result<(AccountQuota, Option<String>), AppError>)
    ensures
        (r is Err && r->Err_0@ == clock_error()) || exists|t: int|
            0 <= t <= clock_bound() && parse_result_view(r) == #[trigger] spec_parse(v@, t),
{
    match now() {
        Ok(t) => parse_at(v, t),
        Err(e) => Err(e),
    }
}

proof fn lemma_last_with_listed(ws: Seq<QuotaWindowV>, seconds: int)
    ensures
        last_with(ws, seconds) is Some ==> exists|i: int|
            0 <= i < ws.len() && #[trigger] ws[i] == last_with(ws, seconds).unwrap()
                && ws[i].limit_window_seconds == Some(seconds),
    decreases ws.len(),
{
    if ws.len() > 0 && ws.last().limit_window_seconds != Some(seconds) {
        lemma_last_with_listed(ws.drop_last(), seconds);
        if last_with(ws, seconds) is Some {
            let i = choose|i: int|
                0 <= i < ws.drop_last().len() && #[trigger] ws.drop_last()[i] == last_with(ws.drop_last(), seconds).unwrap()
                    && ws.drop_last()[i].limit_window_seconds == Some(seconds);
            assert(ws[i] == ws.drop_last()[i]);
        }
    } else if ws.len() > 0 {
        assert(ws[ws.len() - 1] == ws.last());
    }
}

/// Reordering keeps every window: each listed window is still listed.
proof fn lemma_order_keeps(ws: Seq<QuotaWindowV>, i: int)
    requires
        ws.len() <= 2,
        0 <= i < ws.len(),
    ensures
        exists|j: int| 0 <= j < order_windows(ws).len() && #[trigger] order_windows(ws)[j] == ws[i],
{
    let o = order_windows(ws);
    if ws.len() == 2 && window_key(ws[1]) < window_key(ws[0]) {
        assert(o[1 - i] == ws[i]);
    } else {
        assert(o[i] == ws[i]);
    }
}

/// The legacy five-hour and weekly fields come only from a window of exactly
/// that length, never from a window's position: whenever one is set, the
/// quota lists a window of 18000 (respectively 604800) seconds.
pub proof fn law_legacy_fields_only_from_matching_length(v: JsonV, now: int)
    requires
        spec_parse(v, now) is Ok,
    ensures
        ({
            let q = spec_parse(v, now)->Ok_0.0;
            let ws = q.windows.unwrap();
            &&& (q.five_hour_used is Some || q.five_hour_reset_at is Some) ==> exists|i: int|
                0 <= i < ws.len() && #[trigger] ws[i].limit_window_seconds == Some(18000int)
            &&& (q.weekly_used is Some || q.weekly_reset_at is Some) ==> exists|i: int|
                0 <= i < ws.len() && #[trigger] ws[i].limit_window_seconds == Some(604800int)
        }),
{
    let rate = v.get("rate_limit"@).unwrap();
    let p = spec_window(rate.at("primary_window"@), "primary_window"@, now)->Ok_0;
    let sw = spec_window(rate.at("secondary_window"@), "secondary_window"@, now)->Ok_0;
    let list = window_list(p, sw);
    let ws = order_windows(list);
    let q = spec_parse(v, now)->Ok_0.0;
    assert(q == quota_of(list, now));
    assert(q.windows.unwrap() == ws);
    assert(list.len() <= 2);
    lemma_last_with_listed(list, 18000);
    lemma_last_with_listed(list, 604800);
    if last_with(list, 18000) is Some {
        let i = choose|i: int|
            0 <= i < list.len() && #[trigger] list[i] == last_with(list, 18000).unwrap()
                && list[i].limit_window_seconds == Some(18000int);
        lemma_order_keeps(list, i);
        let j = choose|j: int| 0 <= j < ws.len() && #[trigger] ws[j] == list[i];
        assert(ws[j].limit_window_seconds == Some(18000int));
        assert(exists|j: int| 0 <= j < ws.len() && #[trigger] ws[j].limit_window_seconds == Some(18000int));
    }
    if last_with(list, 604800) is Some {
        let i = choose|i: int|
            0 <= i < list.len() && #[trigger] list[i] == last_with(list, 604800).unwrap()
                && list[i].limit_window_seconds == Some(604800int);
        lemma_order_keeps(list, i);
        let j = choose|j: int| 0 <= j < ws.len() && #[trigger] ws[j] == list[i];
        assert(ws[j].limit_window_seconds == Some(604800int));
        assert(exists|j: int| 0 <= j < ws.len() && #[trigger] ws[j].limit_window_seconds == Some(604800int));
    }
}

/// Window `i` is the last one of length `seconds` in the list.
pub open spec fn last_of_length(ws: Seq<QuotaWindowV>, seconds: int, i: int) -> bool {
    &&& 0 <= i < ws.len()
    &&& ws[i].limit_window_seconds == Some(seconds)
    &&& forall|j: int| i < j < ws.len() ==> (#[trigger] ws[j]).limit_window_seconds != Some(seconds)
}

proof fn lemma_last_with_at(ws: Seq<QuotaWindowV>, seconds: int, i: int)
    requires
        last_of_length(ws, seconds, i),
    ensures
        last_with(ws, seconds) == Some(ws[i]),
    decreases ws.len(),
{
    if i < ws.len() - 1 {
        assert(ws[ws.len() - 1].limit_window_seconds != Some(seconds));
        let rest = ws.drop_last();
        assert forall|j: int| i < j < rest.len() implies (#[trigger] rest[j]).limit_window_seconds != Some(seconds) by {
            assert(rest[j] == ws[j]);
        }
        lemma_last_with_at(rest, seconds, i);
        assert(rest[i] == ws[i]);
    }
}

proof fn lemma_last_with_none(ws: Seq<QuotaWindowV>, seconds: int)
    requires
        forall|j: int| 0 <= j < ws.len() ==> (#[trigger] ws[j]).limit_window_seconds != Some(seconds),
    ensures
        last_with(ws, seconds) is None,
    decreases ws.len(),
{
    if ws.len() > 0 {
        assert(ws[ws.len() - 1].limit_window_seconds != Some(seconds));
        let rest = ws.drop_last();
        assert forall|j: int| 0 <= j < rest.len() implies (#[trigger] rest[j]).limit_window_seconds != Some(seconds) by {
            assert(rest[j] == ws[j]);
        }
        lemma_last_with_none(rest, seconds);
    }
}

/// The five-hour and weekly fields are those of the last window of exactly
/// that length in the response, whatever its position, and are empty when
/// no window has that length.
pub proof fn law_legacy_fields_from_window_of_that_length(ws: Seq<QuotaWindowV>, now: int)
    ensures
        forall|i: int|
            #[trigger] last_of_length(ws, 18000, i) ==> quota_of(ws, now).five_hour_used == ws[i].used_percent
                && quota_of(ws, now).five_hour_reset_at == ws[i].reset_at,
        forall|i: int|
            #[trigger] last_of_length(ws, 604800, i) ==> quota_of(ws, now).weekly_used == ws[i].used_percent
                && quota_of(ws, now).weekly_reset_at == ws[i].reset_at,
        (forall|j: int| 0 <= j < ws.len() ==> (#[trigger] ws[j]).limit_window_seconds != Some(18000int)) ==> quota_of(
            ws,
            now,
        ).five_hour_used is None && quota_of(ws, now).five_hour_reset_at is None,
        (forall|j: int| 0 <= j < ws.len() ==> (#[trigger] ws[j]).limit_window_seconds != Some(604800int)) ==> quota_of(
            ws,
            now,
        ).weekly_used is None && quota_of(ws, now).weekly_reset_at is None,
        quota_of(ws, now).updated_at == now,
{
    assert forall|i: int| #[trigger] last_of_length(ws, 18000, i) implies quota_of(ws, now).five_hour_used
        == ws[i].used_percent && quota_of(ws, now).five_hour_reset_at == ws[i].reset_at by {
        lemma_last_with_at(ws, 18000, i);
    }
    assert forall|i: int| #[trigger] last_of_length(ws, 604800, i) implies quota_of(ws, now).weekly_used
        == ws[i].used_percent && quota_of(ws, now).weekly_reset_at == ws[i].reset_at by {
        lemma_last_with_at(ws, 604800, i);
    }
    if forall|j: int| 0 <= j < ws.len() ==> (#[trigger] ws[j]).limit_window_seconds != Some(18000int) {
        lemma_last_with_none(ws, 18000);
    }
    if forall|j: int| 0 <= j < ws.len() ==> (#[trigger] ws[j]).limit_window_seconds != Some(604800int) {
        lemma_last_with_none(ws, 604800);
    }
}

/// The windows are listed by length, shortest first, unknown lengths last.
pub proof fn law_windows_by_length(v: JsonV, now: int)
    requires
        spec_parse(v, now) is Ok,
    ensures
        ({
            let ws = spec_parse(v, now)->Ok_0.0.windows.unwrap();
            forall|i: int, j: int| 0 <= i < j < ws.len() ==> window_key(ws[i]) <= window_key(ws[j])
        }),
{
}

pub open spec fn token_expired_error() -> AppErrorV {
    app_error("TOKEN_EXPIRED"@, "额度服务拒绝 Token"@)
}

pub open spec fn quota_http_error(status: int) -> AppErrorV {
    app_error("QUOTA_HTTP"@, "额度查询失败（HTTP "@ + decimal(status as nat) + "）"@)
}

/// What the HTTP status of a usage request means: nothing for a success,
/// `TOKEN_EXPIRED` for 401, `QUOTA_HTTP` for any other failure.
pub open spec fn spec_usage_status(status: int) -> Option<AppErrorV> {
    if status == 401 {
        Some(token_expired_error())
    } else if !(200 <= status <= 299) {
        Some(quota_http_error(status))
    } else {
        None
    }
}

pub fn usage_status(status: u16) -> (r: Option<AppError>)
    ensures
        match r {
            Some(e) => spec_usage_status(status as int) == Some(e@),
            None => spec_usage_status(status as int) is None,
        },
{
    if status == 401 {
        Some(AppError::new("TOKEN_EXPIRED", "额度服务拒绝 Token"))
    } else if status < 200 || status > 299 {
        let mut m = owned("额度查询失败（HTTP ");
        let digits = u64_text(status as u64);
        m.append(digits.as_str());
        m.append("）");
        Some(AppError { code: owned("QUOTA_HTTP"), message: m, detail: None })
    } else {
        None
    }
}

/// A usage request whose token the service rejected is retried once, after
/// a forced token refresh.
pub open spec fn spec_token_rejected(e: AppErrorV) -> bool {
    e.code == "TOKEN_EXPIRED"@
}

pub fn token_rejected(e: &AppError) -> (r: bool)
    ensures
        r == spec_token_rejected(e@),
{
    str_eq(e.code.as_str(), "TOKEN_EXPIRED")
}

pub open spec fn quota_network_error() -> AppErrorV {
    app_error("QUOTA_NETWORK"@, "额度查询失败，请检查网络"@)
}

/// The error for a usage request that never got a response.
pub fn network_error() -> (r: AppError)
    ensures
        r@ == quota_network_error(),
{
    AppError::new("QUOTA_NETWORK", "额度查询失败，请检查网络")
}

/// The quota that a complete usage response gives at time `now`: its HTTP
/// status is checked first, then its body is read as JSON.
pub open spec fn spec_usage_response(status: int, body: Seq<u8>, now: int) -> Result<
    (AccountQuotaV, Option<Seq<char>>),
    AppErrorV,
> {
    match spec_usage_status(status) {
        Some(e) => Err(e),
        None => match json_decode(body) {
            None => Err(schema_error()),
            Some(v) => spec_parse(v, now),
        },
    }
}

pub fn usage_response_at(status: u16, body: &[u8], now: i64) -> (r: Result<(AccountQuota, Option<String>), AppError>)
    requires
        -clock_bound() <= now <= clock_bound(),
    ensures
        parse_result_view(r) == spec_usage_response(status as int, body@, now as int),
{
    match usage_status(status) {
        Some(e) => Err(e),
        None => match decode(body) {
            None => Err(schema()),
            Some(v) => parse_at(&v, now),
        },
    }
}

/// The quota that a usage response gives, stamped with the current time; the
/// clock's error when the system clock cannot be read.
pub fn usage_response(status: u16, body: &[u8]) -> (r: Result<(AccountQuota, Option<String>), AppError>)
    ensures
        (r is Err && r->Err_0@ == clock_error()) || exists|t: int|
            0 <= t <= clock_bound() && parse_result_view(r) == #[trigger] spec_usage_response(
                status as int,
                body@,
                t,
            ),
{
    match now() {
        Ok(t) => usage_response_at(status, body, t),
        Err(e) => Err(e),
    }
}

} // verus!
