//! Reconciling a vault account with every runtime file while its lock is
//! held: strictly newer credentials that a runtime holds are adopted and
//! saved; a runtime file that cannot be read is skipped.
use vstd::prelude::*;
use crate::error::{AppError, AppErrorV};
use crate::model::{Account, AccountV, CredentialsV, opt_account};
use crate::service::{reconcile_step, spec_reconcile};

verus! {

#[derive(Clone, Copy, PartialEq, Eq, Structural)]
pub enum ReconcilePhase {
    /// Runtime file `k` is being read.
    Read(usize),
    /// The account, with credentials adopted from runtime `k`, is being saved.
    Save(usize),
    /// Finished.
    Done,
}

/// What the caller must do next.
pub enum ReconcileAction {
    /// Read runtime file `k` and report the account it holds.
    Read(usize),
    /// Save this account to the vault.
    Save(Account),
    /// Stop, with this outcome.
    Finish(Result<Account, AppError>),
}

/// What happened to the last action.
pub enum ReconcileEvent {
    Read(Result<Option<Account>, AppError>),
    Saved(Result<(), AppError>),
}

pub enum ReconcileActionV {
    Read(int),
    Save(AccountV),
    Finish(Result<AccountV, AppErrorV>),
}

pub enum ReconcileEventV {
    Read(Result<Option<AccountV>, AppErrorV>),
    Saved(Result<(), AppErrorV>),
}

impl View for ReconcileAction {
    type V = ReconcileActionV;

    open spec fn view(&self) -> ReconcileActionV {
        match self {
            ReconcileAction::Read(k) => ReconcileActionV::Read(*k as int),
            ReconcileAction::Save(a) => ReconcileActionV::Save(a@),
            ReconcileAction::Finish(Ok(a)) => ReconcileActionV::Finish(Ok(a@)),
            ReconcileAction::Finish(Err(e)) => ReconcileActionV::Finish(Err(e@)),
        }
    }
}

impl View for ReconcileEvent {
    type V = ReconcileEventV;

    open spec fn view(&self) -> ReconcileEventV {
        match self {
            ReconcileEvent::Read(Ok(a)) => ReconcileEventV::Read(Ok(opt_account(*a))),
            ReconcileEvent::Read(Err(e)) => ReconcileEventV::Read(Err(e@)),
            ReconcileEvent::Saved(Ok(())) => ReconcileEventV::Saved(Ok(())),
            ReconcileEvent::Saved(Err(e)) => ReconcileEventV::Saved(Err(e@)),
        }
    }
}

/// The reconciliation of `account` with `runtimes` runtime files.
pub struct Reconciler {
    pub runtimes: usize,
    pub phase: ReconcilePhase,
    pub account: Account,
}

pub struct ReconcilerV {
    pub runtimes: int,
    pub phase: ReconcilePhase,
    pub account: AccountV,
}

impl View for Reconciler {
    type V = ReconcilerV;

    open spec fn view(&self) -> ReconcilerV {
        ReconcilerV { runtimes: self.runtimes as int, phase: self.phase, account: self.account@ }
    }
}

impl ReconcilerV {
    pub open spec fn wf(self) -> bool {
        match self.phase {
            ReconcilePhase::Read(k) | ReconcilePhase::Save(k) => k < self.runtimes,
            ReconcilePhase::Done => true,
        }
    }

    pub open spec fn expects(self, ev: ReconcileEventV) -> bool {
        match self.phase {
            ReconcilePhase::Read(_) => ev is Read,
            ReconcilePhase::Save(_) => ev is Saved,
            ReconcilePhase::Done => false,
        }
    }

    pub open spec fn finish(self, r: Result<AccountV, AppErrorV>) -> (ReconcilerV, ReconcileActionV) {
        (ReconcilerV { phase: ReconcilePhase::Done, ..self }, ReconcileActionV::Finish(r))
    }

    /// Reads runtime `k`, or finishes with the account after the last one.
    pub open spec fn read_from(self, k: int) -> (ReconcilerV, ReconcileActionV) {
        if k < self.runtimes {
            (ReconcilerV { phase: ReconcilePhase::Read(k as usize), ..self }, ReconcileActionV::Read(k))
        } else {
            self.finish(Ok(self.account))
        }
    }

    /// The transition taken on an event.
    pub open spec fn step(self, ev: ReconcileEventV) -> (ReconcilerV, ReconcileActionV) {
        match (self.phase, ev) {
            (ReconcilePhase::Read(k), ReconcileEventV::Read(Err(_))) => self.read_from(k + 1),
            (ReconcilePhase::Read(k), ReconcileEventV::Read(Ok(local))) => match spec_reconcile(local, self.account) {
                Err(e) => self.finish(Err(e)),
                Ok(None) => self.read_from(k + 1),
                Ok(Some(c)) => {
                    let a = AccountV { credentials: c, ..self.account };
                    (ReconcilerV { phase: ReconcilePhase::Save(k), account: a, ..self }, ReconcileActionV::Save(a))
                },
            },
            (ReconcilePhase::Save(_), ReconcileEventV::Saved(Err(e))) => self.finish(Err(e)),
            (ReconcilePhase::Save(k), ReconcileEventV::Saved(Ok(()))) => self.read_from(k + 1),
            // Not reached: `Reconciler::step` requires the event its phase expects.
            _ => self.finish(Ok(self.account)),
        }
    }
}

/// The start of the reconciliation: reading runtime 0, or finishing at once
/// without runtimes.
pub open spec fn reconciler_start(runtimes: int, account: AccountV) -> (ReconcilerV, ReconcileActionV) {
    ReconcilerV { runtimes, phase: ReconcilePhase::Done, account }.read_from(0)
}

impl Reconciler {
    pub fn start(runtimes: usize, account: Account) -> (r: (Reconciler, ReconcileAction))
        ensures
            r.0@.wf(),
            (r.0@, r.1@) == reconciler_start(runtimes as int, account@),
    {
        let mut s = Reconciler { runtimes, phase: ReconcilePhase::Done, account };
        let a = s.read_from(0);
        (s, a)
    }

    fn finish(&mut self, r: Result<Account, AppError>) -> (a: ReconcileAction)
        ensures
            (final(self)@, a@) == old(self)@.finish(
                match r {
                    Ok(x) => Ok(x@),
                    Err(e) => Err(e@),
                },
            ),
    {
        self.phase = ReconcilePhase::Done;
        ReconcileAction::Finish(r)
    }

    fn read_from(&mut self, k: usize) -> (r: ReconcileAction)
        ensures
            (final(self)@, r@) == old(self)@.read_from(k as int),
            final(self)@.wf(),
    {
        if k < self.runtimes {
            self.phase = ReconcilePhase::Read(k);
            ReconcileAction::Read(k)
        } else {
            let a = self.account.duplicate();
            self.finish(Ok(a))
        }
    }

    /// Takes the outcome of the last action and returns the next one.
    pub fn step(&mut self, ev: ReconcileEvent) -> (r: ReconcileAction)
        requires
            old(self)@.wf(),
            old(self)@.expects(ev@),
        ensures
            (final(self)@, r@) == old(self)@.step(ev@),
            final(self)@.wf(),
    {
        match ev {
            ReconcileEvent::Read(Err(_)) => {
                let k = match self.phase {
                    ReconcilePhase::Read(k) => k,
                    _ => 0,
                };
                let n = self.runtimes;
                assert(k < n);
                self.read_from(k + 1)
            },
            ReconcileEvent::Read(Ok(local)) => {
                let k = match self.phase {
                    ReconcilePhase::Read(k) => k,
                    _ => 0,
                };
                let n = self.runtimes;
                assert(k < n);
                match reconcile_step(local.as_ref(), &self.account) {
                    Err(e) => self.finish(Err(e)),
                    Ok(None) => self.read_from(k + 1),
                    Ok(Some(c)) => {
                        self.account.credentials = c;
                        self.phase = ReconcilePhase::Save(k);
                        ReconcileAction::Save(self.account.duplicate())
                    },
                }
            },
            ReconcileEvent::Saved(Err(e)) => self.finish(Err(e)),
            ReconcileEvent::Saved(Ok(())) => {
                let k = match self.phase {
                    ReconcilePhase::Save(k) => k,
                    _ => 0,
                };
                let n = self.runtimes;
                assert(k < n);
                self.read_from(k + 1)
            },
        }
    }
}

/// A runtime file that cannot be read does not stop the reconciliation:
/// the next runtime is read, or the account is returned as it is.
pub proof fn law_unreadable_runtime_skipped(s: ReconcilerV, e: AppErrorV)
    requires
        s.wf(),
        s.phase is Read,
    ensures
        s.step(ReconcileEventV::Read(Err(e))) == s.read_from(s.phase->Read_0 + 1),
{
}

/// Credentials are adopted only when a runtime holds strictly newer ones
/// for the same account, and the adopted account is saved before the next
/// runtime is read.
pub proof fn law_adopted_credentials_saved(s: ReconcilerV, ev: ReconcileEventV)
    requires
        s.wf(),
        s.expects(ev),
        s.step(ev).1 is Save,
    ensures
        s.phase is Read,
        ev matches ReconcileEventV::Read(Ok(local)) && (spec_reconcile(local, s.account) matches Ok(Some(c))
            && s.step(ev).1 == ReconcileActionV::Save(AccountV { credentials: c, ..s.account })),
        s.step(ev).0.phase == ReconcilePhase::Save(s.phase->Read_0),
{
}

/// Every runtime is looked at: a runtime that gives nothing to adopt
/// leaves the account as it is and the next runtime is read, and the
/// reconciliation ends successfully only after the last runtime.
pub proof fn law_every_runtime_read(s: ReconcilerV, ev: ReconcileEventV)
    requires
        s.wf(),
        s.expects(ev),
    ensures
        s.phase is Read && (ev matches ReconcileEventV::Read(Ok(local)) && spec_reconcile(local, s.account) == Ok::<
            Option<CredentialsV>,
            AppErrorV,
        >(None)) ==> {
            let k = s.phase->Read_0 as int;
            &&& s.step(ev).0.account == s.account
            &&& k + 1 < s.runtimes ==> s.step(ev).0.phase == ReconcilePhase::Read((k + 1) as usize) && s.step(ev).1
                == ReconcileActionV::Read(k + 1)
            &&& k + 1 >= s.runtimes ==> s.step(ev).1 == ReconcileActionV::Finish(Ok(s.account))
        },
        s.step(ev).1 matches ReconcileActionV::Finish(Ok(_)) ==> match s.phase {
            ReconcilePhase::Read(k) => k + 1 == s.runtimes,
            ReconcilePhase::Save(k) => k + 1 == s.runtimes,
            ReconcilePhase::Done => false,
        },
        s.step(ev).1 matches ReconcileActionV::Finish(Ok(a)) ==> a == s.step(ev).0.account,
{
}

/// Newer credentials that a runtime holds are always taken up and saved,
/// a conflict that cannot be decided ends the reconciliation with its
/// error, and after a save the next runtime is read.
pub proof fn law_newer_credentials_adopted(s: ReconcilerV, ev: ReconcileEventV)
    requires
        s.wf(),
        s.expects(ev),
    ensures
        s.phase is Read ==> match ev {
            ReconcileEventV::Read(Ok(local)) => match spec_reconcile(local, s.account) {
            Ok(Some(c)) => s.step(ev).1 == ReconcileActionV::Save(AccountV { credentials: c, ..s.account })
                && s.step(ev).0.account == (AccountV { credentials: c, ..s.account }),
            Err(e) => s.step(ev).1 == ReconcileActionV::Finish(Err(e)),
            Ok(None) => true,
            },
            _ => true,
        },
        s.phase is Save && ev == ReconcileEventV::Saved(Ok(())) ==> {
            let k = s.phase->Save_0 as int;
            &&& k + 1 < s.runtimes ==> s.step(ev).1 == ReconcileActionV::Read(k + 1)
            &&& k + 1 >= s.runtimes ==> s.step(ev).1 == ReconcileActionV::Finish(Ok(s.account))
        },
        s.phase is Save ==> match ev {
            ReconcileEventV::Saved(Err(e)) => s.step(ev).1 == ReconcileActionV::Finish(Err(e)),
            _ => true,
        },
{
}

} // verus!
