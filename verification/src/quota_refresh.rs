//! Refreshing an account's quota while its lock is held: with fresh tokens,
//! and when the usage service rejects them, once more after one forced
//! token refresh; the quota is saved to the vault before it is returned.
use vstd::prelude::*;
use crate::error::{AppError, AppErrorV};
use crate::model::{Account, AccountQuota, AccountQuotaV, AccountV, AccountViewV};
use crate::quota::{spec_token_rejected, token_rejected};
use crate::service::{apply_quota, spec_apply_quota};
use crate::text::opt_view;

verus! {

#[derive(Clone, Copy, PartialEq, Eq, Structural)]
pub enum QueryPhase {
    /// The account's tokens are being made fresh.
    Fresh,
    /// The usage service is being asked.
    Query,
    /// The tokens are being refreshed after the service rejected them.
    ForceFresh,
    /// The usage service is being asked again.
    Requery,
    /// The account with its quota is being saved.
    Save,
    /// Finished.
    Done,
}

/// What the caller must do next.
pub enum QueryAction {
    /// Make the account's tokens fresh (refreshing them in any case when
    /// `true`) and report the account.
    Fresh(bool),
    /// Ask the usage service for this account's quota.
    Query(Account),
    /// Save this account to the vault.
    Save(Account),
    /// Stop, with this outcome.
    Finish(Result<crate::model::AccountView, AppError>),
}

/// What happened to the last action.
pub enum QueryEvent {
    Fresh(Result<Account, AppError>),
    Queried(Result<(AccountQuota, Option<String>), AppError>),
    Saved(Result<(), AppError>),
}

pub enum QueryActionV {
    Fresh(bool),
    Query(AccountV),
    Save(AccountV),
    Finish(Result<AccountViewV, AppErrorV>),
}

pub enum QueryEventV {
    Fresh(Result<AccountV, AppErrorV>),
    Queried(Result<(AccountQuotaV, Option<Seq<char>>), AppErrorV>),
    Saved(Result<(), AppErrorV>),
}

impl View for QueryAction {
    type V = QueryActionV;

    open spec fn view(&self) -> QueryActionV {
        match self {
            QueryAction::Fresh(force) => QueryActionV::Fresh(*force),
            QueryAction::Query(a) => QueryActionV::Query(a@),
            QueryAction::Save(a) => QueryActionV::Save(a@),
            QueryAction::Finish(Ok(v)) => QueryActionV::Finish(Ok(v@)),
            QueryAction::Finish(Err(e)) => QueryActionV::Finish(Err(e@)),
        }
    }
}

impl View for QueryEvent {
    type V = QueryEventV;

    open spec fn view(&self) -> QueryEventV {
        match self {
            QueryEvent::Fresh(Ok(a)) => QueryEventV::Fresh(Ok(a@)),
            QueryEvent::Fresh(Err(e)) => QueryEventV::Fresh(Err(e@)),
            QueryEvent::Queried(Ok((q, p))) => QueryEventV::Queried(Ok((q@, opt_view(*p)))),
            QueryEvent::Queried(Err(e)) => QueryEventV::Queried(Err(e@)),
            QueryEvent::Saved(Ok(())) => QueryEventV::Saved(Ok(())),
            QueryEvent::Saved(Err(e)) => QueryEventV::Saved(Err(e@)),
        }
    }
}

/// The quota refresh of one account; `account` is the account being asked
/// about, then the account with its new quota.
pub struct QuotaQuery {
    pub phase: QueryPhase,
    pub account: Option<Account>,
}

pub struct QuotaQueryV {
    pub phase: QueryPhase,
    pub account: Option<AccountV>,
}

impl View for QuotaQuery {
    type V = QuotaQueryV;

    open spec fn view(&self) -> QuotaQueryV {
        QuotaQueryV {
            phase: self.phase,
            account: match self.account {
                Some(a) => Some(a@),
                None => None,
            },
        }
    }
}

impl QuotaQueryV {
    pub open spec fn wf(self) -> bool {
        match self.phase {
            QueryPhase::Query | QueryPhase::Requery | QueryPhase::Save => self.account is Some,
            _ => true,
        }
    }

    pub open spec fn expects(self, ev: QueryEventV) -> bool {
        match self.phase {
            QueryPhase::Fresh | QueryPhase::ForceFresh => ev is Fresh,
            QueryPhase::Query | QueryPhase::Requery => ev is Queried,
            QueryPhase::Save => ev is Saved,
            QueryPhase::Done => false,
        }
    }

    pub open spec fn finish(self, r: Result<AccountViewV, AppErrorV>) -> (QuotaQueryV, QueryActionV) {
        (QuotaQueryV { phase: QueryPhase::Done, account: None }, QueryActionV::Finish(r))
    }

    /// The transition taken on an event.
    pub open spec fn step(self, ev: QueryEventV) -> (QuotaQueryV, QueryActionV) {
        match (self.phase, ev) {
            (QueryPhase::Fresh, QueryEventV::Fresh(Err(e))) | (QueryPhase::ForceFresh, QueryEventV::Fresh(Err(e))) => self.finish(
                Err(e),
            ),
            (QueryPhase::Fresh, QueryEventV::Fresh(Ok(a))) => (
                QuotaQueryV { phase: QueryPhase::Query, account: Some(a) },
                QueryActionV::Query(a),
            ),
            (QueryPhase::ForceFresh, QueryEventV::Fresh(Ok(a))) => (
                QuotaQueryV { phase: QueryPhase::Requery, account: Some(a) },
                QueryActionV::Query(a),
            ),
            (QueryPhase::Query, QueryEventV::Queried(Err(e))) => if spec_token_rejected(e) {
                (QuotaQueryV { phase: QueryPhase::ForceFresh, account: None }, QueryActionV::Fresh(true))
            } else {
                self.finish(Err(e))
            },
            (QueryPhase::Requery, QueryEventV::Queried(Err(e))) => self.finish(Err(e)),
            (QueryPhase::Query, QueryEventV::Queried(Ok((q, plan))))
            | (QueryPhase::Requery, QueryEventV::Queried(Ok((q, plan)))) => {
                let a = spec_apply_quota(self.account.unwrap(), q, plan);
                (QuotaQueryV { phase: QueryPhase::Save, account: Some(a) }, QueryActionV::Save(a))
            },
            (QueryPhase::Save, QueryEventV::Saved(Ok(()))) => self.finish(Ok(self.account.unwrap().view)),
            (QueryPhase::Save, QueryEventV::Saved(Err(e))) => self.finish(Err(e)),
            // Not reached: `QuotaQuery::step` requires the event its phase expects.
            _ => self.finish(Err(crate::quota::schema_error())),
        }
    }
}

impl QuotaQuery {
    /// Starts refreshing the quota: the tokens are made fresh first.
    pub fn start() -> (r: (QuotaQuery, QueryAction))
        ensures
            r.0@.wf(),
            r.0@.phase == QueryPhase::Fresh,
            r.1@ == QueryActionV::Fresh(false),
    {
        (QuotaQuery { phase: QueryPhase::Fresh, account: None }, QueryAction::Fresh(false))
    }

    fn finish(&mut self, r: Result<crate::model::AccountView, AppError>) -> (a: QueryAction)
        ensures
            (final(self)@, a@) == old(self)@.finish(
                match r {
                    Ok(v) => Ok(v@),
                    Err(e) => Err(e@),
                },
            ),
    {
        self.phase = QueryPhase::Done;
        self.account = None;
        QueryAction::Finish(r)
    }

    /// Takes the outcome of the last action and returns the next one.
    pub fn step(&mut self, ev: QueryEvent) -> (r: QueryAction)
        requires
            old(self)@.wf(),
            old(self)@.expects(ev@),
        ensures
            (final(self)@, r@) == old(self)@.step(ev@),
            final(self)@.wf(),
    {
        match ev {
            QueryEvent::Fresh(Err(e)) => self.finish(Err(e)),
            QueryEvent::Fresh(Ok(a)) => {
                let copy = a.duplicate();
                self.phase = if self.phase == QueryPhase::Fresh {
                    QueryPhase::Query
                } else {
                    QueryPhase::Requery
                };
                self.account = Some(a);
                QueryAction::Query(copy)
            },
            QueryEvent::Queried(Err(e)) => {
                if self.phase == QueryPhase::Query && token_rejected(&e) {
                    self.phase = QueryPhase::ForceFresh;
                    self.account = None;
                    QueryAction::Fresh(true)
                } else {
                    self.finish(Err(e))
                }
            },
            QueryEvent::Queried(Ok((q, plan))) => {
                let a = self.account.take().unwrap();
                let b = apply_quota(a, q, plan);
                let copy = b.duplicate();
                self.phase = QueryPhase::Save;
                self.account = Some(b);
                QueryAction::Save(copy)
            },
            QueryEvent::Saved(Err(e)) => self.finish(Err(e)),
            QueryEvent::Saved(Ok(())) => {
                let a = self.account.take().unwrap();
                self.finish(Ok(a.view))
            },
        }
    }
}

/// A rejected token is refreshed by force once, never twice: the forced
/// refresh follows a rejection of the first query, and a rejection of the
/// second query ends the refresh with that error.
pub proof fn law_one_forced_refresh(s: QuotaQueryV, ev: QueryEventV)
    requires
        s.wf(),
        s.expects(ev),
    ensures
        s.step(ev).1 == QueryActionV::Fresh(true) ==> s.phase == QueryPhase::Query && (ev matches QueryEventV::Queried(
            Err(e),
        ) && spec_token_rejected(e)),
        s.phase == QueryPhase::Requery && ev is Queried && ev->Queried_0 is Err ==> s.step(ev).1
            == QueryActionV::Finish(Err(ev->Queried_0->Err_0)),
{
}

/// The quota is saved with the account before it is returned: the saved
/// account is the queried one with the reported quota and plan, and the view
/// returned is that account's after the vault accepted it.
pub proof fn law_quota_saved_before_returned(s: QuotaQueryV, ev: QueryEventV)
    requires
        s.wf(),
        s.expects(ev),
    ensures
        s.step(ev).1 is Save ==> (ev matches QueryEventV::Queried(Ok((q, plan))) && s.step(ev).1 == QueryActionV::Save(
            spec_apply_quota(s.account.unwrap(), q, plan),
        )),
        s.step(ev).1 matches QueryActionV::Finish(Ok(v)) ==> s.phase == QueryPhase::Save && ev == QueryEventV::Saved(
            Ok(()),
        ) && v == s.account.unwrap().view,
{
    if let QueryEventV::Saved(Ok(u)) = ev {
        assert(u == ());
    }
}

} // verus!
