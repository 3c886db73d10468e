//! Refreshing an account's tokens while its lock is held. The rotated tokens
//! are kept as a pending rotation until the vault has them, and a pending
//! rotation is saved before anything else, so a refresh token that the token
//! endpoint has already replaced is never sent again.
use vstd::prelude::*;
use crate::error::{AppError, AppErrorV};
use crate::model::{Account, AccountV, Credentials, CredentialsV};
use crate::service::{
    adopt_refresh, needs_refresh, rotation_save_error, rotation_save_failed, spec_adopt_refresh, spec_needs_refresh,
};

verus! {

/// Where the refresh stands.
#[derive(Clone, Copy, PartialEq, Eq, Structural)]
pub enum FreshPhase {
    /// The pending rotation is being written to the vault.
    SavePending,
    /// The saved pending rotation is being forgotten.
    ClearPending,
    /// The account is being read from the vault.
    Load,
    /// The account's tokens are being refreshed.
    Refresh,
    /// The rotated account is being kept as the pending rotation.
    Stash,
    /// The rotated account is being written to the vault.
    Save,
    /// The saved rotation is being forgotten.
    Unstash,
    /// Finished.
    Done,
}

/// What the caller must do next.
pub enum FreshAction {
    /// Write the account's pending rotation to the vault.
    SavePending(Account),
    /// Forget the account's pending rotation.
    ClearPending,
    /// Read the account from the vault, reconciled with the runtimes, and
    /// report it with the current time.
    Load,
    /// Refresh these credentials at the token endpoint.
    Refresh(Credentials),
    /// Keep this rotated account as the account's pending rotation.
    Stash(Account),
    /// Write the rotated account to the vault.
    Save(Account),
    /// Stop, with this outcome.
    Finish(Result<Account, AppError>),
}

/// What happened to the last action.
pub enum FreshEvent {
    Saved(Result<(), AppError>),
    Cleared,
    Loaded(Result<Account, AppError>, i64),
    Refreshed(Result<Credentials, AppError>),
    Stashed,
}

pub enum FreshActionV {
    SavePending(AccountV),
    ClearPending,
    Load,
    Refresh(CredentialsV),
    Stash(AccountV),
    Save(AccountV),
    Finish(Result<AccountV, AppErrorV>),
}

pub enum FreshEventV {
    Saved(Result<(), AppErrorV>),
    Cleared,
    Loaded(Result<AccountV, AppErrorV>, int),
    Refreshed(Result<CredentialsV, AppErrorV>),
    Stashed,
}

impl View for FreshAction {
    type V = FreshActionV;

    open spec fn view(&self) -> FreshActionV {
        match self {
            FreshAction::SavePending(a) => FreshActionV::SavePending(a@),
            FreshAction::ClearPending => FreshActionV::ClearPending,
            FreshAction::Load => FreshActionV::Load,
            FreshAction::Refresh(c) => FreshActionV::Refresh(c@),
            FreshAction::Stash(a) => FreshActionV::Stash(a@),
            FreshAction::Save(a) => FreshActionV::Save(a@),
            FreshAction::Finish(Ok(a)) => FreshActionV::Finish(Ok(a@)),
            FreshAction::Finish(Err(e)) => FreshActionV::Finish(Err(e@)),
        }
    }
}

impl View for FreshEvent {
    type V = FreshEventV;

    open spec fn view(&self) -> FreshEventV {
        match self {
            FreshEvent::Saved(Ok(())) => FreshEventV::Saved(Ok(())),
            FreshEvent::Saved(Err(e)) => FreshEventV::Saved(Err(e@)),
            FreshEvent::Cleared => FreshEventV::Cleared,
            FreshEvent::Loaded(Ok(a), now) => FreshEventV::Loaded(Ok(a@), *now as int),
            FreshEvent::Loaded(Err(e), now) => FreshEventV::Loaded(Err(e@), *now as int),
            FreshEvent::Refreshed(Ok(c)) => FreshEventV::Refreshed(Ok(c@)),
            FreshEvent::Refreshed(Err(e)) => FreshEventV::Refreshed(Err(e@)),
            FreshEvent::Stashed => FreshEventV::Stashed,
        }
    }
}

/// The refresh of one account: `force` refreshes even tokens that are not
/// about to expire; `account` is the loaded account while it is refreshed,
/// then the rotated one.
pub struct Freshener {
    pub force: bool,
    pub phase: FreshPhase,
    pub account: Option<Account>,
}

pub struct FreshenerV {
    pub force: bool,
    pub phase: FreshPhase,
    pub account: Option<AccountV>,
}

impl View for Freshener {
    type V = FreshenerV;

    open spec fn view(&self) -> FreshenerV {
        FreshenerV {
            force: self.force,
            phase: self.phase,
            account: match self.account {
                Some(a) => Some(a@),
                None => None,
            },
        }
    }
}

impl FreshenerV {
    /// The refresh and later phases hold the account they work on.
    pub open spec fn wf(self) -> bool {
        match self.phase {
            FreshPhase::Refresh | FreshPhase::Stash | FreshPhase::Save | FreshPhase::Unstash => self.account is Some,
            _ => true,
        }
    }

    /// The event answers the action of the phase.
    pub open spec fn expects(self, ev: FreshEventV) -> bool {
        match self.phase {
            FreshPhase::SavePending | FreshPhase::Save => ev is Saved,
            FreshPhase::ClearPending | FreshPhase::Unstash => ev is Cleared,
            FreshPhase::Load => ev is Loaded,
            FreshPhase::Refresh => ev is Refreshed,
            FreshPhase::Stash => ev is Stashed,
            FreshPhase::Done => false,
        }
    }

    pub open spec fn finish(self, r: Result<AccountV, AppErrorV>) -> (FreshenerV, FreshActionV) {
        (FreshenerV { phase: FreshPhase::Done, account: None, ..self }, FreshActionV::Finish(r))
    }

    pub open spec fn next(self, phase: FreshPhase, account: Option<AccountV>, action: FreshActionV) -> (
        FreshenerV,
        FreshActionV,
    ) {
        (FreshenerV { phase, account, ..self }, action)
    }

    /// The transition taken on an event.
    pub open spec fn step(self, ev: FreshEventV) -> (FreshenerV, FreshActionV) {
        match (self.phase, ev) {
            (FreshPhase::SavePending, FreshEventV::Saved(Ok(()))) => self.next(
                FreshPhase::ClearPending,
                None,
                FreshActionV::ClearPending,
            ),
            (FreshPhase::SavePending, FreshEventV::Saved(Err(e))) => self.finish(Err(e)),
            (FreshPhase::ClearPending, FreshEventV::Cleared) => self.next(FreshPhase::Load, None, FreshActionV::Load),
            (FreshPhase::Load, FreshEventV::Loaded(Err(e), _)) => self.finish(Err(e)),
            (FreshPhase::Load, FreshEventV::Loaded(Ok(a), now)) => if spec_needs_refresh(
                a.credentials.expires_at,
                now,
                self.force,
            ) {
                self.next(FreshPhase::Refresh, Some(a), FreshActionV::Refresh(a.credentials))
            } else {
                self.finish(Ok(a))
            },
            (FreshPhase::Refresh, FreshEventV::Refreshed(Err(e))) => self.finish(Err(e)),
            (FreshPhase::Refresh, FreshEventV::Refreshed(Ok(c))) => match spec_adopt_refresh(self.account.unwrap(), c) {
                Err(e) => self.finish(Err(e)),
                Ok(b) => self.next(FreshPhase::Stash, Some(b), FreshActionV::Stash(b)),
            },
            (FreshPhase::Stash, FreshEventV::Stashed) => self.next(
                FreshPhase::Save,
                self.account,
                FreshActionV::Save(self.account.unwrap()),
            ),
            (FreshPhase::Save, FreshEventV::Saved(Ok(()))) => self.next(
                FreshPhase::Unstash,
                self.account,
                FreshActionV::ClearPending,
            ),
            (FreshPhase::Save, FreshEventV::Saved(Err(_))) => self.finish(Err(rotation_save_error())),
            (FreshPhase::Unstash, FreshEventV::Cleared) => self.finish(Ok(self.account.unwrap())),
            // Not reached: `Freshener::step` requires the event its phase expects.
            _ => self.finish(Err(rotation_save_error())),
        }
    }
}

impl Freshener {
    /// Starts refreshing an account whose pending rotation, if any, is
    /// `pending`: a pending rotation is saved first, else the account is read.
    pub fn start(pending: Option<Account>, force: bool) -> (r: (Freshener, FreshAction))
        ensures
            r.0@.wf(),
            r.0@.force == force,
            match pending {
                Some(a) => r.0@.phase == FreshPhase::SavePending && r.1@ == FreshActionV::SavePending(a@),
                None => r.0@.phase == FreshPhase::Load && r.1@ == FreshActionV::Load,
            },
    {
        match pending {
            Some(a) => (Freshener { force, phase: FreshPhase::SavePending, account: None }, FreshAction::SavePending(a)),
            None => (Freshener { force, phase: FreshPhase::Load, account: None }, FreshAction::Load),
        }
    }

    fn finish(&mut self, r: Result<Account, AppError>) -> (a: FreshAction)
        ensures
            (final(self)@, a@) == old(self)@.finish(
                match r {
                    Ok(x) => Ok(x@),
                    Err(e) => Err(e@),
                },
            ),
    {
        self.phase = FreshPhase::Done;
        self.account = None;
        FreshAction::Finish(r)
    }

    /// Takes the outcome of the last action and returns the next one.
    pub fn step(&mut self, ev: FreshEvent) -> (r: FreshAction)
        requires
            old(self)@.wf(),
            old(self)@.expects(ev@),
        ensures
            (final(self)@, r@) == old(self)@.step(ev@),
            final(self)@.wf(),
    {
        match ev {
            FreshEvent::Saved(Ok(())) => {
                if self.phase == FreshPhase::SavePending {
                    self.phase = FreshPhase::ClearPending;
                    self.account = None;
                    FreshAction::ClearPending
                } else {
                    self.phase = FreshPhase::Unstash;
                    FreshAction::ClearPending
                }
            },
            FreshEvent::Saved(Err(e)) => {
                if self.phase == FreshPhase::SavePending {
                    self.finish(Err(e))
                } else {
                    self.finish(Err(rotation_save_failed()))
                }
            },
            FreshEvent::Cleared => {
                if self.phase == FreshPhase::ClearPending {
                    self.phase = FreshPhase::Load;
                    self.account = None;
                    FreshAction::Load
                } else {
                    let a = self.account.take().unwrap();
                    self.finish(Ok(a))
                }
            },
            FreshEvent::Loaded(Err(e), _) => self.finish(Err(e)),
            FreshEvent::Loaded(Ok(a), now) => {
                if needs_refresh(&a.credentials, now, self.force) {
                    let c = a.credentials.duplicate();
                    self.phase = FreshPhase::Refresh;
                    self.account = Some(a);
                    FreshAction::Refresh(c)
                } else {
                    self.finish(Ok(a))
                }
            },
            FreshEvent::Refreshed(Err(e)) => self.finish(Err(e)),
            FreshEvent::Refreshed(Ok(c)) => {
                let a = self.account.take().unwrap();
                match adopt_refresh(a, c) {
                    Err(e) => self.finish(Err(e)),
                    Ok(b) => {
                        let copy = b.duplicate();
                        self.phase = FreshPhase::Stash;
                        self.account = Some(b);
                        FreshAction::Stash(copy)
                    },
                }
            },
            FreshEvent::Stashed => {
                let a = self.account.take().unwrap();
                let copy = a.duplicate();
                self.phase = FreshPhase::Save;
                self.account = Some(a);
                FreshAction::Save(copy)
            },
        }
    }
}

/// Nothing is read from the vault while a pending rotation is unsaved: the
/// vault is read only at the start when there is no pending rotation, or
/// right after a saved pending rotation was forgotten, which happens only
/// once the vault accepted it.
pub proof fn law_pending_rotation_saved_first(s: FreshenerV, ev: FreshEventV)
    requires
        s.wf(),
        s.expects(ev),
    ensures
        s.step(ev).1 is Load ==> s.phase == FreshPhase::ClearPending,
        s.phase == FreshPhase::SavePending ==> (s.step(ev).1 is ClearPending <==> ev == FreshEventV::Saved(Ok(()))),
        s.phase == FreshPhase::SavePending ==> (s.step(ev).1 is ClearPending || s.step(ev).1 is Finish),
{
    if let FreshEventV::Saved(Ok(u)) = ev {
        assert(u == ());
    }
}

/// Tokens are refreshed only right after the account was read, and only
/// when forced or about to expire; the loaded credentials are the ones sent.
pub proof fn law_refresh_only_when_due(s: FreshenerV, ev: FreshEventV)
    requires
        s.wf(),
        s.expects(ev),
        s.step(ev).1 is Refresh,
    ensures
        s.phase == FreshPhase::Load,
        ev matches FreshEventV::Loaded(Ok(a), now) && spec_needs_refresh(a.credentials.expires_at, now, s.force)
            && s.step(ev).1 == FreshActionV::Refresh(a.credentials),
{
}

/// A refresh request that fails is never sent again: the refresh ends with
/// its error.
pub proof fn law_failed_refresh_not_retried(s: FreshenerV, e: AppErrorV)
    requires
        s.wf(),
        s.phase == FreshPhase::Refresh,
    ensures
        s.step(FreshEventV::Refreshed(Err(e))).1 == FreshActionV::Finish(Err(e)),
{
}

/// A rotation is kept as pending before it is written to the vault, and a
/// failed write ends with `ROTATION_SAVE_FAILED` without forgetting it.
pub proof fn law_rotation_kept_until_saved(s: FreshenerV, ev: FreshEventV)
    requires
        s.wf(),
        s.expects(ev),
    ensures
        s.step(ev).1 is Save ==> s.phase == FreshPhase::Stash && s.step(ev).1 == FreshActionV::Save(
            s.account.unwrap(),
        ),
        s.step(ev).1 matches FreshActionV::Stash(b) ==> (s.phase == FreshPhase::Refresh && (ev matches FreshEventV::Refreshed(
            Ok(c),
        ) && spec_adopt_refresh(s.account.unwrap(), c) == Ok::<AccountV, AppErrorV>(b))),
        s.phase == FreshPhase::Save && ev is Saved && ev->Saved_0 is Err ==> s.step(ev).1 == FreshActionV::Finish(
            Err(rotation_save_error()),
        ),
{
}

/// The actions a refresh takes when it is answered with `evs` in turn,
/// stopping at the first event its phase does not expect.
pub open spec fn actions(s: FreshenerV, evs: Seq<FreshEventV>) -> Seq<FreshActionV>
    decreases evs.len(),
{
    if evs.len() == 0 || !s.expects(evs[0]) {
        Seq::empty()
    } else {
        let (t, a) = s.step(evs[0]);
        seq![a] + actions(t, evs.drop_first())
    }
}

/// A refresh that starts with a pending rotation never asks for new tokens,
/// whatever answers it gets, unless the vault first accepted the pending
/// rotation: the rotated refresh token is never traded for another one
/// before it is saved.
pub proof fn law_no_refresh_before_pending_saved(force: bool, evs: Seq<FreshEventV>, i: int)
    requires
        0 <= i < actions(FreshenerV { force, phase: FreshPhase::SavePending, account: None }, evs).len(),
        actions(FreshenerV { force, phase: FreshPhase::SavePending, account: None }, evs)[i] is Refresh,
    ensures
        evs[0] == FreshEventV::Saved(Ok(())),
{
    let s = FreshenerV { force, phase: FreshPhase::SavePending, account: None };
    if evs[0] != FreshEventV::Saved(Ok(())) {
        if let FreshEventV::Saved(Ok(u)) = evs[0] {
            assert(u == ());
        }
        let (t, a) = s.step(evs[0]);
        assert(t.phase == FreshPhase::Done);
        assert(actions(t, evs.drop_first()) =~= Seq::<FreshActionV>::empty());
        assert(actions(s, evs) =~= seq![a]);
    }
}

} // verus!
