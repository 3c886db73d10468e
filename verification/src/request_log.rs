//! The log of quota requests of the last 24 hours.
use vstd::prelude::*;
use crate::error::AppError;
use crate::model::{AccountView, clock_bound};
use crate::text::{copy_opt, copy_string, opt_view};

verus! {

/// Why a quota request was made.
#[derive(Clone, Copy, PartialEq, Eq, Structural)]
pub enum QuotaRequestReason {
    Manual,
    ManualAll,
    Automatic,
    LowQuotaAutomatic,
    AppStartup,
    WidgetManual,
    AutoSwitchCheck,
    Import,
    OauthLogin,
}

impl Default for QuotaRequestReason {
    fn default() -> (r: Self)
        ensures
            r == QuotaRequestReason::Manual,
    {
        QuotaRequestReason::Manual
    }
}

/// One quota request: when, for which account, why, and how it ended.
pub struct QuotaRequestLog {
    pub timestamp: i64,
    pub account_id: String,
    pub account_label: String,
    pub reason: QuotaRequestReason,
    pub success: bool,
    pub error_code: Option<String>,
}

pub struct QuotaRequestLogV {
    pub timestamp: int,
    pub account_id: Seq<char>,
    pub account_label: Seq<char>,
    pub reason: QuotaRequestReason,
    pub success: bool,
    pub error_code: Option<Seq<char>>,
}

impl View for QuotaRequestLog {
    type V = QuotaRequestLogV;

    open spec fn view(&self) -> QuotaRequestLogV {
        QuotaRequestLogV {
            timestamp: self.timestamp as int,
            account_id: self.account_id@,
            account_label: self.account_label@,
            reason: self.reason,
            success: self.success,
            error_code: opt_view(self.error_code),
        }
    }
}

pub open spec fn logs_view(s: Seq<QuotaRequestLog>) -> Seq<QuotaRequestLogV> {
    s.map_values(|l: QuotaRequestLog| l@)
}

/// How long entries are kept: 24 hours, in milliseconds.
pub open spec fn retention() -> int {
    86_400_000
}

/// The entries at or after `cutoff`, in their order.
pub open spec fn keep_recent(s: Seq<QuotaRequestLogV>, cutoff: int) -> Seq<QuotaRequestLogV>
    decreases s.len(),
{
    if s.len() == 0 {
        Seq::empty()
    } else {
        let rest = keep_recent(s.drop_last(), cutoff);
        if s.last().timestamp >= cutoff {
            rest.push(s.last())
        } else {
            rest
        }
    }
}

/// The entry for a request made at `now`: labelled by the email, else the
/// account id; successful exactly when there is no error.
pub open spec fn log_entry(now: int, account_id: Seq<char>, email: Option<Seq<char>>, chatgpt_id: Seq<char>, reason: QuotaRequestReason, error_code: Option<Seq<char>>) -> QuotaRequestLogV {
    QuotaRequestLogV {
        timestamp: now,
        account_id,
        account_label: match email {
            Some(e) => e,
            None => chatgpt_id,
        },
        reason,
        success: error_code is None,
        error_code,
    }
}

fn copy_log(l: &QuotaRequestLog) -> (r: QuotaRequestLog)
    ensures
        r@ == l@,
{
    QuotaRequestLog {
        timestamp: l.timestamp,
        account_id: copy_string(&l.account_id),
        account_label: copy_string(&l.account_label),
        reason: l.reason,
        success: l.success,
        error_code: copy_opt(&l.error_code),
    }
}

fn recent(logs: &Vec<QuotaRequestLog>, cutoff: i64) -> (r: Vec<QuotaRequestLog>)
    ensures
        logs_view(r@) == keep_recent(logs_view(logs@), cutoff as int),
{
    let mut out: Vec<QuotaRequestLog> = Vec::new();
    let mut i: usize = 0;
    while i < logs.len()
        invariant
            i <= logs@.len(),
            logs_view(out@) == keep_recent(logs_view(logs@).subrange(0, i as int), cutoff as int),
        decreases logs.len() - i,
    {
        let ghost lv = logs_view(logs@);
        proof {
            assert(lv.subrange(0, i + 1).drop_last() =~= lv.subrange(0, i as int));
            assert(lv.subrange(0, i + 1).last() == logs@[i as int]@);
        }
        if logs[i].timestamp >= cutoff {
            let ghost before = out@;
            out.push(copy_log(&logs[i]));
            assert(logs_view(out@) =~= logs_view(before).push(logs@[i as int]@));
        }
        i += 1;
    }
    assert(logs_view(logs@).subrange(0, logs@.len() as int) =~= logs_view(logs@));
    out
}

/// The log after recording a request made at `now`: entries older than the
/// retention window are dropped and the new entry is appended.
pub fn record(logs: &Vec<QuotaRequestLog>, now: i64, account: &AccountView, reason: QuotaRequestReason, error: Option<&AppError>) -> (r: Vec<QuotaRequestLog>)
    requires
        -clock_bound() <= now <= clock_bound(),
    ensures
        logs_view(r@) == keep_recent(logs_view(logs@), now - retention()).push(
            log_entry(
                now as int,
                account.id@,
                opt_view(account.email),
                account.account_id@,
                reason,
                match error {
                    Some(e) => Some(e.code@),
                    None => None,
                },
            ),
        ),
{
    let mut out = recent(logs, now - 86_400_000);
    let label = match &account.email {
        Some(e) => copy_string(e),
        None => copy_string(&account.account_id),
    };
    let code = match error {
        Some(e) => Some(copy_string(&e.code)),
        None => None,
    };
    let ghost before = out@;
    out.push(
        QuotaRequestLog {
            timestamp: now,
            account_id: copy_string(&account.id),
            account_label: label,
            reason,
            success: error.is_none(),
            error_code: code,
        },
    );
    assert(logs_view(out@) =~= logs_view(before).push(out@[before.len() as int]@));
    out
}

/// The number of leading entries at or after `t`.
pub open spec fn newer_prefix(s: Seq<QuotaRequestLogV>, t: int) -> nat
    decreases s.len(),
{
    if s.len() > 0 && s[0].timestamp >= t {
        1 + newer_prefix(s.drop_first(), t)
    } else {
        0
    }
}

/// Inserting into a newest-first list behind every entry that is not older.
pub open spec fn insert_newest_first(s: Seq<QuotaRequestLogV>, x: QuotaRequestLogV) -> Seq<QuotaRequestLogV> {
    let k = newer_prefix(s, x.timestamp) as int;
    s.subrange(0, k).push(x) + s.subrange(k, s.len() as int)
}

/// The entries newest first; entries with equal times keep their order (a
/// stable sort).
pub open spec fn newest_first(s: Seq<QuotaRequestLogV>) -> Seq<QuotaRequestLogV>
    decreases s.len(),
{
    if s.len() == 0 {
        Seq::empty()
    } else {
        insert_newest_first(newest_first(s.drop_last()), s.last())
    }
}

proof fn lemma_newer_prefix(s: Seq<QuotaRequestLogV>, t: int)
    ensures
        newer_prefix(s, t) <= s.len(),
        forall|i: int| 0 <= i < newer_prefix(s, t) ==> s[i].timestamp >= t,
        newer_prefix(s, t) < s.len() ==> s[newer_prefix(s, t) as int].timestamp < t,
    decreases s.len(),
{
    if s.len() > 0 && s[0].timestamp >= t {
        lemma_newer_prefix(s.drop_first(), t);
        assert forall|i: int| 0 <= i < newer_prefix(s, t) implies s[i].timestamp >= t by {
            if i > 0 {
                assert(s[i] == s.drop_first()[i - 1]);
            }
        }
        if newer_prefix(s, t) < s.len() {
            assert(s[newer_prefix(s, t) as int] == s.drop_first()[newer_prefix(s.drop_first(), t) as int]);
        }
    }
}

/// The entries to show: those of the last 24 hours before `now`, newest first.
pub fn visible_logs(logs: &Vec<QuotaRequestLog>, now: i64) -> (r: Vec<QuotaRequestLog>)
    requires
        -clock_bound() <= now <= clock_bound(),
    ensures
        logs_view(r@) == newest_first(keep_recent(logs_view(logs@), now - retention())),
{
    let kept = recent(logs, now - 86_400_000);
    let ghost kv = logs_view(kept@);
    let mut out: Vec<QuotaRequestLog> = Vec::new();
    let mut i: usize = 0;
    while i < kept.len()
        invariant
            i <= kept@.len(),
            kv == logs_view(kept@),
            logs_view(out@) == newest_first(kv.subrange(0, i as int)),
            out@.len() == i,
        decreases kept.len() - i,
    {
        let ghost ov = logs_view(out@);
        let t = kept[i].timestamp;
        proof {
            lemma_newer_prefix(ov, t as int);
        }
        let mut k: usize = 0;
        while k < out.len() && out[k].timestamp >= t
            invariant
                k <= out@.len(),
                ov == logs_view(out@),
                k <= newer_prefix(ov, t as int),
                newer_prefix(ov, t as int) <= ov.len(),
                forall|j: int| 0 <= j < newer_prefix(ov, t as int) ==> ov[j].timestamp >= t,
                newer_prefix(ov, t as int) < ov.len() ==> ov[newer_prefix(ov, t as int) as int].timestamp < t,
            decreases out.len() - k,
        {
            assert(ov[k as int] == out@[k as int]@);
            k += 1;
        }
        proof {
            if k < out.len() {
                assert(ov[k as int] == out@[k as int]@);
            }
            assert(k == newer_prefix(ov, t as int));
            assert(kv.subrange(0, i + 1).drop_last() =~= kv.subrange(0, i as int));
            assert(kv.subrange(0, i + 1).last() == kept@[i as int]@);
        }
        let item = copy_log(&kept[i]);
        let ghost iv = item@;
        out.insert(k, item);
        proof {
            assert(logs_view(out@) =~= ov.subrange(0, k as int).push(iv) + ov.subrange(k as int, ov.len() as int));
        }
        i += 1;
    }
    assert(kv.subrange(0, kept@.len() as int) =~= kv);
    out
}

/// The shown entries are newest first.
pub proof fn law_visible_logs_newest_first(s: Seq<QuotaRequestLogV>)
    ensures
        forall|i: int, j: int| 0 <= i < j < newest_first(s).len() ==> newest_first(s)[i].timestamp >= newest_first(s)[j].timestamp,
        newest_first(s).len() == s.len(),
    decreases s.len(),
{
    if s.len() > 0 {
        let p = newest_first(s.drop_last());
        law_visible_logs_newest_first(s.drop_last());
        let x = s.last();
        let k = newer_prefix(p, x.timestamp) as int;
        lemma_newer_prefix(p, x.timestamp);
        let r = newest_first(s);
        assert(r == p.subrange(0, k).push(x) + p.subrange(k, p.len() as int));
        assert forall|i: int, j: int| 0 <= i < j < r.len() implies r[i].timestamp >= r[j].timestamp by {
            let pi = if i < k { i } else if i == k { -1 } else { i - 1 };
            let pj = if j < k { j } else if j == k { -1 } else { j - 1 };
            if i != k && j != k {
                assert(r[i] == p[pi] && r[j] == p[pj]);
            } else if i == k {
                assert(r[j] == p[pj]);
                if k < p.len() {
                    assert(p[k].timestamp < x.timestamp);
                    if pj > k {
                        assert(p[k].timestamp >= p[pj].timestamp);
                    }
                }
            } else {
                assert(r[i] == p[pi]);
            }
        }
    }
}

/// Every shown entry is at most 24 hours old, and a request recorded now is
/// shown.
pub proof fn law_retention(s: Seq<QuotaRequestLogV>, cutoff: int)
    ensures
        forall|i: int| 0 <= i < keep_recent(s, cutoff).len() ==> keep_recent(s, cutoff)[i].timestamp >= cutoff,
        forall|i: int| 0 <= i < s.len() && s[i].timestamp >= cutoff ==> keep_recent(s, cutoff).contains(s[i]),
    decreases s.len(),
{
    if s.len() > 0 {
        law_retention(s.drop_last(), cutoff);
        let rest = keep_recent(s.drop_last(), cutoff);
        assert forall|i: int| 0 <= i < s.len() && s[i].timestamp >= cutoff implies keep_recent(s, cutoff).contains(s[i]) by {
            if i < s.len() - 1 {
                assert(s[i] == s.drop_last()[i]);
                assert(rest.contains(s[i]));
                if s.last().timestamp >= cutoff {
                    let w = choose|w: int| 0 <= w < rest.len() && rest[w] == s[i];
                    assert(rest.push(s.last())[w] == s[i]);
                }
            } else {
                assert(rest.push(s.last())[rest.len() as int] == s[i]);
            }
        }
    }
}

} // verus!
