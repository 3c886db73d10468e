//! Switching runtimes to an account. Every runtime file is read, the
//! credentials that runtimes rotated are saved, the target's tokens are made
//! fresh, and every new file is prepared and staged before the first one is
//! committed; a preparation failure leaves every runtime file as it was.
use vstd::prelude::*;
use crate::commit::{
    committer_start, conflict, conflict_error, copy_bytes, Action, ActionV, Committer, CommitterV, Event, EventV,
    Phase,
};
use crate::error::{AppError, AppErrorV};
use crate::model::{Account, AccountV, AccountViewV};
use crate::runtime::{Runtime, RuntimeAdapter};
use crate::service::{
    mark_used, prepare_with, snapshot_with, spec_prepare, spec_snapshot, switch_metadata_error,
    switch_metadata_failed, Snapshot, SnapshotV,
};
use crate::text::copy_string;

verus! {

/// Where the switch stands.
#[derive(Clone, Copy, PartialEq, Eq, Structural)]
pub enum SwitchPhase {
    /// Runtime file `k` is being read.
    Read(usize),
    /// The account found in runtime file `k` is being reconciled with the vault.
    Reconcile(usize),
    /// The target account is being made fresh.
    Fresh,
    /// The target account is being refreshed to obtain an ID token.
    ForceFresh,
    /// The new file `k` is being staged.
    Stage(usize),
    /// The staged files are being committed.
    Commit,
    /// The time of the switch is being read.
    Clock,
    /// The target account, marked as used, is being saved.
    Save,
    /// Finished.
    Done,
}

/// What the caller must do next. File `k` is that of the `k`-th runtime
/// switched.
pub enum SwitchAction {
    /// Read file `k` and report its bytes, with a fresh local id and the
    /// current time for an account newly seen in it.
    Read(usize),
    /// Reconcile the vault's account with this ChatGPT account id, if the
    /// vault has one, while holding its lock.
    Reconcile(String),
    /// Make the target account fresh (refreshing it in any case when `true`)
    /// and report it with the current time in RFC 3339.
    Fresh(bool),
    /// Stage these bytes as the new contents of file `k`.
    Stage(usize, Vec<u8>),
    /// Commit step: read file `k` and report its bytes.
    Check(usize),
    /// Commit step: replace file `k` with its staged bytes.
    Commit(usize),
    /// Commit step: replace file `k` with these bytes.
    Restore(usize, Vec<u8>),
    /// Commit step: remove file `k`.
    Remove(usize),
    /// Report the current time.
    Clock,
    /// Save this account to the vault.
    Save(Account),
    /// Stop, with this outcome.
    Finish(Result<(), AppError>),
}

/// What happened to the last action.
pub enum SwitchEvent {
    Read(Result<Option<Vec<u8>>, AppError>, String, i64),
    Reconciled(Result<(), AppError>),
    Fresh(Result<Account, AppError>, String),
    Staged(Result<(), AppError>),
    File(Event),
    Clock(Result<i64, AppError>),
    Saved(Result<(), AppError>),
}

pub enum SwitchActionV {
    Read(int),
    Reconcile(Seq<char>),
    Fresh(bool),
    Stage(int, Seq<u8>),
    Check(int),
    Commit(int),
    Restore(int, Seq<u8>),
    Remove(int),
    Clock,
    Save(AccountV),
    Finish(Result<(), AppErrorV>),
}

pub enum SwitchEventV {
    Read(Result<Option<Seq<u8>>, AppErrorV>, Seq<char>, int),
    Reconciled(Result<(), AppErrorV>),
    Fresh(Result<AccountV, AppErrorV>, Seq<char>),
    Staged(Result<(), AppErrorV>),
    File(EventV),
    Clock(Result<int, AppErrorV>),
    Saved(Result<(), AppErrorV>),
}

pub open spec fn unit_view(r: Result<(), AppError>) -> Result<(), AppErrorV> {
    match r {
        Ok(()) => Ok(()),
        Err(e) => Err(e@),
    }
}

impl View for SwitchAction {
    type V = SwitchActionV;

    open spec fn view(&self) -> SwitchActionV {
        match self {
            SwitchAction::Read(k) => SwitchActionV::Read(*k as int),
            SwitchAction::Reconcile(id) => SwitchActionV::Reconcile(id@),
            SwitchAction::Fresh(force) => SwitchActionV::Fresh(*force),
            SwitchAction::Stage(k, b) => SwitchActionV::Stage(*k as int, b@),
            SwitchAction::Check(k) => SwitchActionV::Check(*k as int),
            SwitchAction::Commit(k) => SwitchActionV::Commit(*k as int),
            SwitchAction::Restore(k, b) => SwitchActionV::Restore(*k as int, b@),
            SwitchAction::Remove(k) => SwitchActionV::Remove(*k as int),
            SwitchAction::Clock => SwitchActionV::Clock,
            SwitchAction::Save(a) => SwitchActionV::Save(a@),
            SwitchAction::Finish(r) => SwitchActionV::Finish(unit_view(*r)),
        }
    }
}

impl View for SwitchEvent {
    type V = SwitchEventV;

    open spec fn view(&self) -> SwitchEventV {
        match self {
            SwitchEvent::Read(r, id, t) => SwitchEventV::Read(
                match r {
                    Ok(Some(b)) => Ok(Some(b@)),
                    Ok(None) => Ok(None),
                    Err(e) => Err(e@),
                },
                id@,
                *t as int,
            ),
            SwitchEvent::Reconciled(r) => SwitchEventV::Reconciled(unit_view(*r)),
            SwitchEvent::Fresh(r, at) => SwitchEventV::Fresh(
                match r {
                    Ok(a) => Ok(a@),
                    Err(e) => Err(e@),
                },
                at@,
            ),
            SwitchEvent::Staged(r) => SwitchEventV::Staged(unit_view(*r)),
            SwitchEvent::File(e) => SwitchEventV::File(e@),
            SwitchEvent::Clock(r) => SwitchEventV::Clock(
                match r {
                    Ok(t) => Ok(*t as int),
                    Err(e) => Err(e@),
                },
            ),
            SwitchEvent::Saved(r) => SwitchEventV::Saved(unit_view(*r)),
        }
    }
}

/// The switch of `runtimes` to a target account.
pub struct Switcher {
    pub runtimes: Vec<Runtime>,
    pub phase: SwitchPhase,
    pub snapshots: Vec<Snapshot>,
    pub target: Option<Account>,
    pub refreshed_at: String,
    pub new: Vec<Vec<u8>>,
    pub committer: Committer,
}

pub struct SwitcherV {
    pub runtimes: Seq<Runtime>,
    pub phase: SwitchPhase,
    pub snapshots: Seq<SnapshotV>,
    pub target: Option<AccountV>,
    pub refreshed_at: Seq<char>,
    pub new: Seq<Seq<u8>>,
    pub committer: CommitterV,
}

impl View for Switcher {
    type V = SwitcherV;

    open spec fn view(&self) -> SwitcherV {
        SwitcherV {
            runtimes: self.runtimes@,
            phase: self.phase,
            snapshots: self.snapshots@.map_values(|s: Snapshot| s@),
            target: match self.target {
                Some(a) => Some(a@),
                None => None,
            },
            refreshed_at: self.refreshed_at@,
            new: self.new@.map_values(|b: Vec<u8>| b@),
            committer: self.committer@,
        }
    }
}

/// Whether a Codex file is among the files switched.
pub open spec fn writes_codex(rs: Seq<Runtime>) -> bool {
    exists|k: int| 0 <= k < rs.len() && #[trigger] rs[k] is Codex
}

/// The first snapshot at or after `from` that holds an account, or the
/// number of snapshots.
pub open spec fn next_account(snaps: Seq<SnapshotV>, from: int) -> int
    decreases snaps.len() - from,
{
    if from >= snaps.len() {
        snaps.len() as int
    } else if snaps[from].account is Some {
        from
    } else {
        next_account(snaps, from + 1)
    }
}

/// The account after it was switched to at time `t`.
pub open spec fn used_at(a: AccountV, t: int) -> AccountV {
    AccountV { view: AccountViewV { last_used_at: Some(t), ..a.view }, ..a }
}

impl SwitcherV {
    pub open spec fn n(self) -> int {
        self.runtimes.len() as int
    }

    pub open spec fn wf(self) -> bool {
        &&& self.snapshots.len() <= self.n()
        &&& match self.phase {
            SwitchPhase::Read(k) => k < self.n() && self.snapshots.len() == k,
            SwitchPhase::Reconcile(k) => self.snapshots.len() == self.n() && k < self.n()
                && self.snapshots[k as int].account is Some,
            SwitchPhase::Fresh | SwitchPhase::ForceFresh => self.snapshots.len() == self.n() && self.new.len() == 0,
            SwitchPhase::Stage(k) => self.snapshots.len() == self.n() && k < self.n() && self.target is Some
                && self.new.len() == k + 1,
            SwitchPhase::Commit => self.target is Some && self.committer.wf(),
            SwitchPhase::Clock | SwitchPhase::Save => self.target is Some,
            SwitchPhase::Done => true,
        }
    }

    /// The event answers the action of the phase.
    pub open spec fn expects(self, ev: SwitchEventV) -> bool {
        match self.phase {
            SwitchPhase::Read(_) => ev is Read,
            SwitchPhase::Reconcile(_) => ev is Reconciled,
            SwitchPhase::Fresh | SwitchPhase::ForceFresh => ev is Fresh,
            SwitchPhase::Stage(_) => ev is Staged,
            SwitchPhase::Commit => ev is File,
            SwitchPhase::Clock => ev is Clock,
            SwitchPhase::Save => ev is Saved,
            SwitchPhase::Done => false,
        }
    }

    pub open spec fn finish(self, r: Result<(), AppErrorV>) -> (SwitcherV, SwitchActionV) {
        (SwitcherV { phase: SwitchPhase::Done, ..self }, SwitchActionV::Finish(r))
    }

    /// Reconciles the next account found in a runtime file, from `from` on;
    /// when there is none, makes the target fresh.
    pub open spec fn reconcile_from(self, from: int) -> (SwitcherV, SwitchActionV) {
        let k = next_account(self.snapshots, from);
        if k < self.snapshots.len() {
            (
                SwitcherV { phase: SwitchPhase::Reconcile(k as usize), ..self },
                SwitchActionV::Reconcile(self.snapshots[k].account.unwrap().view.account_id),
            )
        } else {
            (SwitcherV { phase: SwitchPhase::Fresh, new: Seq::empty(), ..self }, SwitchActionV::Fresh(false))
        }
    }

    /// Follows the commit's action: its outcome ends the commit, otherwise
    /// the caller performs it.
    pub open spec fn forward(self, c: CommitterV, a: ActionV) -> (SwitcherV, SwitchActionV) {
        match a {
            ActionV::Finish(Err(e)) => SwitcherV { committer: c, ..self }.finish(Err(e)),
            ActionV::Finish(Ok(())) => (
                SwitcherV { phase: SwitchPhase::Clock, committer: c, ..self },
                SwitchActionV::Clock,
            ),
            ActionV::Read(k) => (SwitcherV { phase: SwitchPhase::Commit, committer: c, ..self }, SwitchActionV::Check(k)),
            ActionV::Commit(k) => (SwitcherV { phase: SwitchPhase::Commit, committer: c, ..self }, SwitchActionV::Commit(k)),
            ActionV::Write(k, b) => (
                SwitcherV { phase: SwitchPhase::Commit, committer: c, ..self },
                SwitchActionV::Restore(k, b),
            ),
            ActionV::Remove(k) => (SwitcherV { phase: SwitchPhase::Commit, committer: c, ..self }, SwitchActionV::Remove(k)),
        }
    }

    /// Prepares and stages file `k`; after the last one, starts the commit.
    pub open spec fn prepare_at(self, k: int) -> (SwitcherV, SwitchActionV) {
        if k < self.n() {
            match spec_prepare(self.runtimes[k], self.snapshots[k].value, self.target.unwrap(), self.refreshed_at) {
                Err(e) => self.finish(Err(e)),
                Ok(b) => (
                    SwitcherV { phase: SwitchPhase::Stage(k as usize), new: self.new.push(b), ..self },
                    SwitchActionV::Stage(k, b),
                ),
            }
        } else {
            let (c, a) = committer_start(self.snapshots.map_values(|s: SnapshotV| s.bytes), self.new);
            self.forward(c, a)
        }
    }

    /// The transition taken on an event.
    pub open spec fn step(self, ev: SwitchEventV) -> (SwitcherV, SwitchActionV) {
        match (self.phase, ev) {
            (SwitchPhase::Read(k), SwitchEventV::Read(r, id, t)) => match r {
                Err(e) => self.finish(Err(e)),
                Ok(bytes) => match spec_snapshot(self.runtimes[k as int], bytes, id, t) {
                    Err(e) => self.finish(Err(e)),
                    Ok(s) => {
                        let me = SwitcherV { snapshots: self.snapshots.push(s), ..self };
                        if k + 1 < self.n() {
                            (
                                SwitcherV { phase: SwitchPhase::Read((k + 1) as usize), ..me },
                                SwitchActionV::Read(k + 1),
                            )
                        } else {
                            me.reconcile_from(0)
                        }
                    },
                },
            },
            (SwitchPhase::Reconcile(k), SwitchEventV::Reconciled(Err(e))) => self.finish(Err(e)),
            (SwitchPhase::Reconcile(k), SwitchEventV::Reconciled(Ok(()))) => self.reconcile_from(k + 1),
            (SwitchPhase::Fresh, SwitchEventV::Fresh(Err(e), _)) => self.finish(Err(e)),
            (SwitchPhase::Fresh, SwitchEventV::Fresh(Ok(t), at)) => if t.credentials.id_token is None && writes_codex(
                self.runtimes,
            ) {
                (SwitcherV { phase: SwitchPhase::ForceFresh, ..self }, SwitchActionV::Fresh(true))
            } else {
                SwitcherV { target: Some(t), refreshed_at: at, ..self }.prepare_at(0)
            },
            (SwitchPhase::ForceFresh, SwitchEventV::Fresh(Err(e), _)) => self.finish(Err(e)),
            (SwitchPhase::ForceFresh, SwitchEventV::Fresh(Ok(t), at)) => SwitcherV {
                target: Some(t),
                refreshed_at: at,
                ..self
            }.prepare_at(0),
            (SwitchPhase::Stage(k), SwitchEventV::Staged(Err(e))) => self.finish(Err(e)),
            (SwitchPhase::Stage(k), SwitchEventV::Staged(Ok(()))) => self.prepare_at(k + 1),
            (SwitchPhase::Commit, SwitchEventV::File(e)) => {
                let (c, a) = self.committer.step(e);
                self.forward(c, a)
            },
            (SwitchPhase::Clock, SwitchEventV::Clock(Err(e))) => self.finish(Err(e)),
            (SwitchPhase::Clock, SwitchEventV::Clock(Ok(t))) => {
                let m = used_at(self.target.unwrap(), t);
                (SwitcherV { phase: SwitchPhase::Save, target: Some(m), ..self }, SwitchActionV::Save(m))
            },
            (SwitchPhase::Save, SwitchEventV::Saved(Ok(()))) => self.finish(Ok(())),
            (SwitchPhase::Save, SwitchEventV::Saved(Err(_))) => self.finish(Err(switch_metadata_error())),
            // Not reached: `Switcher::step` requires the event its phase expects.
            _ => self.finish(Err(conflict_error())),
        }
    }
}

/// The switch's start: reading file 0, or making the target fresh at once
/// when no file is switched.
pub open spec fn switcher_start(rs: Seq<Runtime>) -> (SwitcherV, SwitchActionV) {
    let s = SwitcherV {
        runtimes: rs,
        phase: SwitchPhase::Read(0),
        snapshots: Seq::empty(),
        target: None,
        refreshed_at: Seq::empty(),
        new: Seq::empty(),
        committer: committer_start(Seq::empty(), Seq::empty()).0,
    };
    if rs.len() > 0 {
        (s, SwitchActionV::Read(0))
    } else {
        s.reconcile_from(0)
    }
}

proof fn lemma_next_account(snaps: Seq<SnapshotV>, from: int)
    requires
        0 <= from <= snaps.len(),
    ensures
        from <= next_account(snaps, from) <= snaps.len(),
        next_account(snaps, from) < snaps.len() ==> snaps[next_account(snaps, from)].account is Some,
    decreases snaps.len() - from,
{
    if from < snaps.len() && snaps[from].account is None {
        lemma_next_account(snaps, from + 1);
    }
}

fn find_account(snaps: &Vec<Snapshot>, from: usize) -> (k: usize)
    requires
        from <= snaps@.len(),
    ensures
        k as int == next_account(snaps@.map_values(|s: Snapshot| s@), from as int),
{
    let ghost v = snaps@.map_values(|s: Snapshot| s@);
    let mut k = from;
    while k < snaps.len()
        invariant
            v == snaps@.map_values(|s: Snapshot| s@),
            from <= k <= snaps@.len(),
            next_account(v, from as int) == next_account(v, k as int),
        decreases snaps.len() - k,
    {
        if snaps[k].account.is_some() {
            assert(v[k as int].account is Some);
            return k;
        }
        assert(v[k as int].account is None);
        k += 1;
    }
    k
}

fn old_contents(snaps: &Vec<Snapshot>) -> (r: Vec<Option<Vec<u8>>>)
    ensures
        r@.len() == snaps@.len(),
        r@.map_values(|b: Option<Vec<u8>>| crate::commit::opt_bytes(b)) == snaps@.map_values(|s: Snapshot| s@).map_values(
            |s: SnapshotV| s.bytes,
        ),
{
    let mut out: Vec<Option<Vec<u8>>> = Vec::new();
    let mut i: usize = 0;
    while i < snaps.len()
        invariant
            i <= snaps@.len(),
            out@.len() == i,
            forall|j: int| 0 <= j < i ==> crate::commit::opt_bytes(#[trigger] out@[j]) == snaps@[j]@.bytes,
        decreases snaps.len() - i,
    {
        let b = match &snaps[i].bytes {
            Some(b) => Some(copy_bytes(b)),
            None => None,
        };
        out.push(b);
        i += 1;
    }
    assert(out@.map_values(|b: Option<Vec<u8>>| crate::commit::opt_bytes(b)) =~= snaps@.map_values(|s: Snapshot| s@).map_values(
        |s: SnapshotV| s.bytes,
    ));
    out
}

fn copy_all(v: &Vec<Vec<u8>>) -> (r: Vec<Vec<u8>>)
    ensures
        r@.len() == v@.len(),
        r@.map_values(|b: Vec<u8>| b@) == v@.map_values(|b: Vec<u8>| b@),
{
    let mut out: Vec<Vec<u8>> = Vec::new();
    let mut i: usize = 0;
    while i < v.len()
        invariant
            i <= v@.len(),
            out@.len() == i,
            forall|j: int| 0 <= j < i ==> (#[trigger] out@[j])@ == v@[j]@,
        decreases v.len() - i,
    {
        out.push(copy_bytes(&v[i]));
        i += 1;
    }
    assert(out@.map_values(|b: Vec<u8>| b@) =~= v@.map_values(|b: Vec<u8>| b@));
    out
}

impl Switcher {
    /// Starts switching `runtimes`, in this order, to the target account.
    pub fn start(runtimes: Vec<Runtime>) -> (r: (Switcher, SwitchAction))
        ensures
            r.0@.wf(),
            (r.0@, r.1@) == switcher_start(runtimes@),
    {
        let committer = Committer { old: Vec::new(), new: Vec::new(), phase: Phase::Done, failure: None };
        let mut s = Switcher {
            runtimes,
            phase: SwitchPhase::Read(0),
            snapshots: Vec::new(),
            target: None,
            refreshed_at: String::new(),
            new: Vec::new(),
            committer,
        };
        proof {
            assert(s@.snapshots =~= Seq::<SnapshotV>::empty());
            assert(s@.new =~= Seq::<Seq<u8>>::empty());
            assert(s@.committer.old =~= Seq::<Option<Seq<u8>>>::empty());
            assert(s@.committer.new =~= Seq::<Seq<u8>>::empty());
        }
        if s.runtimes.len() > 0 {
            (s, SwitchAction::Read(0))
        } else {
            let a = s.reconcile_from(0);
            (s, a)
        }
    }

    fn finish(&mut self, r: Result<(), AppError>) -> (a: SwitchAction)
        ensures
            (final(self)@, a@) == old(self)@.finish(unit_view(r)),
    {
        self.phase = SwitchPhase::Done;
        SwitchAction::Finish(r)
    }

    fn reconcile_from(&mut self, from: usize) -> (a: SwitchAction)
        requires
            from <= old(self)@.snapshots.len(),
            old(self)@.snapshots.len() == old(self)@.n(),
        ensures
            (final(self)@, a@) == old(self)@.reconcile_from(from as int),
            final(self)@.wf(),
    {
        let k = find_account(&self.snapshots, from);
        proof {
            lemma_next_account(self@.snapshots, from as int);
        }
        if k < self.snapshots.len() {
            let id = match &self.snapshots[k].account {
                Some(a) => copy_string(&a.view.account_id),
                None => String::new(),
            };
            self.phase = SwitchPhase::Reconcile(k);
            SwitchAction::Reconcile(id)
        } else {
            self.phase = SwitchPhase::Fresh;
            self.new = Vec::new();
            proof {
                assert(self@.new =~= Seq::<Seq<u8>>::empty());
            }
            SwitchAction::Fresh(false)
        }
    }

    fn forward(&mut self, a: Action) -> (r: SwitchAction)
        requires
            old(self)@.target is Some,
            old(self)@.committer.wf(),
            old(self)@.snapshots.len() <= old(self)@.n(),
        ensures
            (final(self)@, r@) == old(self)@.forward(old(self)@.committer, a@),
            final(self)@.wf(),
    {
        match a {
            Action::Finish(Err(e)) => self.finish(Err(e)),
            Action::Finish(Ok(())) => {
                self.phase = SwitchPhase::Clock;
                SwitchAction::Clock
            },
            Action::Read(k) => {
                self.phase = SwitchPhase::Commit;
                SwitchAction::Check(k)
            },
            Action::Commit(k) => {
                self.phase = SwitchPhase::Commit;
                SwitchAction::Commit(k)
            },
            Action::Write(k, b) => {
                self.phase = SwitchPhase::Commit;
                SwitchAction::Restore(k, b)
            },
            Action::Remove(k) => {
                self.phase = SwitchPhase::Commit;
                SwitchAction::Remove(k)
            },
        }
    }

    fn writes_codex(&self) -> (r: bool)
        ensures
            r == writes_codex(self@.runtimes),
    {
        let mut i: usize = 0;
        while i < self.runtimes.len()
            invariant
                i <= self.runtimes@.len(),
                forall|j: int| 0 <= j < i ==> !(#[trigger] self.runtimes@[j] is Codex),
            decreases self.runtimes.len() - i,
        {
            if let Runtime::Codex(_) = &self.runtimes[i] {
                return true;
            }
            i += 1;
        }
        false
    }

    fn prepare_at(&mut self, k: usize) -> (r: SwitchAction)
        requires
            old(self)@.snapshots.len() == old(self)@.n(),
            k <= old(self)@.n(),
            old(self)@.target is Some,
            old(self)@.new.len() == k,
        ensures
            (final(self)@, r@) == old(self)@.prepare_at(k as int),
            final(self)@.wf(),
    {
        if k < self.runtimes.len() {
            let b = match &self.target {
                Some(t) => prepare_with(&self.runtimes[k], &self.snapshots[k].value, t, self.refreshed_at.as_str()),
                None => {
                    return self.finish(Err(conflict()));
                },
            };
            match b {
                Err(e) => self.finish(Err(e)),
                Ok(b) => {
                    let copy = copy_bytes(&b);
                    let ghost before = self@.new;
                    self.phase = SwitchPhase::Stage(k);
                    self.new.push(b);
                    proof {
                        assert(self@.new =~= before.push(copy@));
                    }
                    SwitchAction::Stage(k, copy)
                },
            }
        } else {
            let old_bytes = old_contents(&self.snapshots);
            let new_bytes = copy_all(&self.new);
            let (c, a) = Committer::start(old_bytes, new_bytes);
            self.committer = c;
            self.forward(a)
        }
    }

    /// Takes the outcome of the last action and returns the next one.
    pub fn step(&mut self, ev: SwitchEvent) -> (r: SwitchAction)
        requires
            old(self)@.wf(),
            old(self)@.expects(ev@),
        ensures
            (final(self)@, r@) == old(self)@.step(ev@),
            final(self)@.wf(),
    {
        match ev {
            SwitchEvent::Read(r, id, t) => {
                let k = match self.phase {
                    SwitchPhase::Read(k) => k,
                    _ => 0,
                };
                let n = self.runtimes.len();
                assert(k < n);
                match r {
                    Err(e) => self.finish(Err(e)),
                    Ok(bytes) => match snapshot_with(&self.runtimes[k], bytes, id.as_str(), t) {
                        Err(e) => self.finish(Err(e)),
                        Ok(s) => {
                            let ghost before = self@.snapshots;
                            self.snapshots.push(s);
                            proof {
                                assert(self@.snapshots =~= before.push(s@));
                            }
                            if k + 1 < self.runtimes.len() {
                                self.phase = SwitchPhase::Read(k + 1);
                                SwitchAction::Read(k + 1)
                            } else {
                                self.reconcile_from(0)
                            }
                        },
                    },
                }
            },
            SwitchEvent::Reconciled(Err(e)) => self.finish(Err(e)),
            SwitchEvent::Reconciled(Ok(())) => {
                let k = match self.phase {
                    SwitchPhase::Reconcile(k) => k,
                    _ => 0,
                };
                let n = self.runtimes.len();
                assert(k < n);
                self.reconcile_from(k + 1)
            },
            SwitchEvent::Fresh(Err(e), _) => self.finish(Err(e)),
            SwitchEvent::Fresh(Ok(t), at) => {
                if self.phase == SwitchPhase::Fresh && t.credentials.id_token.is_none() && self.writes_codex() {
                    self.phase = SwitchPhase::ForceFresh;
                    SwitchAction::Fresh(true)
                } else {
                    self.target = Some(t);
                    self.refreshed_at = at;
                    self.prepare_at(0)
                }
            },
            SwitchEvent::Staged(Err(e)) => self.finish(Err(e)),
            SwitchEvent::Staged(Ok(())) => {
                let k = match self.phase {
                    SwitchPhase::Stage(k) => k,
                    _ => 0,
                };
                let n = self.runtimes.len();
                assert(k < n);
                self.prepare_at(k + 1)
            },
            SwitchEvent::File(e) => {
                let a = self.committer.step(e);
                self.forward(a)
            },
            SwitchEvent::Clock(Err(e)) => self.finish(Err(e)),
            SwitchEvent::Clock(Ok(t)) => {
                let a = self.target.take().unwrap();
                let m = mark_used(a, t);
                let copy = m.duplicate();
                self.target = Some(m);
                self.phase = SwitchPhase::Save;
                SwitchAction::Save(copy)
            },
            SwitchEvent::Saved(Ok(())) => self.finish(Ok(())),
            SwitchEvent::Saved(Err(_)) => self.finish(Err(switch_metadata_failed())),
        }
    }
}

/// A step of the commit of the staged files.
pub open spec fn commit_step(a: SwitchActionV) -> bool {
    a is Check || a is Commit || a is Restore || a is Remove
}

/// No runtime file is touched before every new file was prepared and
/// staged: the commit's first step follows the staging of the last file,
/// and its later steps follow its own events.
pub proof fn law_commit_after_all_staged(s: SwitcherV, ev: SwitchEventV)
    requires
        s.wf(),
        s.expects(ev),
        commit_step(s.step(ev).1),
    ensures
        s.phase == SwitchPhase::Commit || (s.n() > 0 && s.phase == SwitchPhase::Stage((s.n() - 1) as usize)
            && ev == SwitchEventV::Staged(Ok(()))),
{
    if let SwitchEventV::Staged(Ok(u)) = ev {
        assert(u == ());
    }
}

/// Files are prepared and staged in order, each with the bytes that the
/// library prepared for it: the target's switched file, checked to read back
/// as the target.
pub proof fn law_files_staged_in_order(s: SwitcherV, ev: SwitchEventV)
    requires
        s.wf(),
        s.expects(ev),
        s.step(ev).1 is Stage,
    ensures
        ({
            let (t, a) = s.step(ev);
            let k = a->Stage_0;
            &&& (k == 0 && (s.phase == SwitchPhase::Fresh || s.phase == SwitchPhase::ForceFresh)) || (k > 0 && s.phase
                == SwitchPhase::Stage((k - 1) as usize) && ev == SwitchEventV::Staged(Ok(())))
            &&& spec_prepare(t.runtimes[k], t.snapshots[k].value, t.target.unwrap(), t.refreshed_at) == Ok::<
                Seq<u8>,
                AppErrorV,
            >(a->Stage_1)
        }),
{
    if let SwitchEventV::Staged(Ok(u)) = ev {
        assert(u == ());
    }
}

/// The commit replaces exactly the files that were read: its old contents
/// are the bytes read from them and its new contents the staged bytes.
pub proof fn law_commit_of_staged_files(s: SwitcherV, ev: SwitchEventV)
    requires
        s.wf(),
        s.expects(ev),
        s.phase is Stage,
        ev == SwitchEventV::Staged(Ok(())),
        s.phase->Stage_0 == s.n() - 1,
    ensures
        s.step(ev).0.committer.old == s.snapshots.map_values(|x: SnapshotV| x.bytes),
        s.step(ev).0.committer.new == s.new,
{
}

/// After the files were switched, the target is saved marked as used at
/// the time of the switch; a failure to save it is reported as
/// `SWITCH_METADATA`, and a clock that cannot be read as the clock's error,
/// the files staying switched either way.
pub proof fn law_target_marked_used(s: SwitcherV, ev: SwitchEventV)
    requires
        s.wf(),
        s.expects(ev),
    ensures
        s.step(ev).1 is Save ==> s.phase == SwitchPhase::Clock && s.step(ev).1 == SwitchActionV::Save(
            used_at(s.target.unwrap(), ev->Clock_0->Ok_0),
        ),
        s.phase == SwitchPhase::Clock && ev is Clock && ev->Clock_0 is Err ==> s.step(ev).1 == SwitchActionV::Finish(
            Err(ev->Clock_0->Err_0),
        ),
        s.phase == SwitchPhase::Save && ev is Saved && ev->Saved_0 is Err ==> s.step(ev).1 == SwitchActionV::Finish(
            Err(switch_metadata_error()),
        ),
{
}

/// Snapshot `j` is the first at or after `from` that holds an account.
pub open spec fn first_holding(snaps: Seq<SnapshotV>, from: int, j: int) -> bool {
    &&& from <= j < snaps.len()
    &&& snaps[j].account is Some
    &&& forall|i: int| from <= i < j ==> (#[trigger] snaps[i]).account is None
}

/// No snapshot at or after `from` holds an account.
pub open spec fn none_holding(snaps: Seq<SnapshotV>, from: int) -> bool {
    forall|i: int| from <= i < snaps.len() ==> (#[trigger] snaps[i]).account is None
}

proof fn lemma_next_account_first(snaps: Seq<SnapshotV>, from: int, j: int)
    requires
        0 <= from,
        first_holding(snaps, from, j),
    ensures
        next_account(snaps, from) == j,
    decreases j - from,
{
    if from < j {
        assert(snaps[from].account is None);
        lemma_next_account_first(snaps, from + 1, j);
    }
}

proof fn lemma_next_account_none(snaps: Seq<SnapshotV>, from: int)
    requires
        0 <= from <= snaps.len(),
        none_holding(snaps, from),
    ensures
        next_account(snaps, from) == snaps.len(),
    decreases snaps.len() - from,
{
    if from < snaps.len() {
        assert(snaps[from].account is None);
        lemma_next_account_none(snaps, from + 1);
    }
}

/// The accounts that the runtime files hold are reconciled, in file order,
/// before the target is made fresh: once the last file was read, and after
/// each reconciliation that succeeded, the switch asks to reconcile the
/// account of the next file that holds one, and asks for the target only
/// when no further file holds an account; a reconciliation that fails ends
/// the switch with its error before any file is written.
pub proof fn law_outgoing_accounts_reconciled_first(s: SwitcherV, ev: SwitchEventV)
    requires
        s.wf(),
        s.expects(ev),
    ensures
        s.phase is Read && s.phase->Read_0 + 1 == s.n() && (ev matches SwitchEventV::Read(Ok(bytes), id, t)
            && spec_snapshot(s.runtimes[s.phase->Read_0 as int], bytes, id, t) is Ok) ==> {
            let snaps = s.snapshots.push(
                spec_snapshot(s.runtimes[s.phase->Read_0 as int], ev->Read_0->Ok_0, ev->Read_1, ev->Read_2)->Ok_0,
            );
            &&& s.step(ev).0.snapshots == snaps
            &&& forall|j: int|
                #[trigger] first_holding(snaps, 0, j) ==> s.step(ev).1 == SwitchActionV::Reconcile(
                    snaps[j].account.unwrap().view.account_id,
                ) && s.step(ev).0.phase == SwitchPhase::Reconcile(j as usize)
            &&& none_holding(snaps, 0) ==> s.step(ev).1 == SwitchActionV::Fresh(false)
        },
        s.phase is Reconcile && ev == SwitchEventV::Reconciled(Ok(())) ==> {
            let k = s.phase->Reconcile_0 as int;
            &&& s.step(ev).0.snapshots == s.snapshots
            &&& forall|j: int|
                #[trigger] first_holding(s.snapshots, k + 1, j) ==> s.step(ev).1 == SwitchActionV::Reconcile(
                    s.snapshots[j].account.unwrap().view.account_id,
                ) && s.step(ev).0.phase == SwitchPhase::Reconcile(j as usize)
            &&& none_holding(s.snapshots, k + 1) ==> s.step(ev).1 == SwitchActionV::Fresh(false)
        },
        s.phase is Reconcile ==> match ev {
            SwitchEventV::Reconciled(Err(e)) => s.step(ev).1 == SwitchActionV::Finish(Err(e)),
            _ => true,
        },
{
    if let SwitchEventV::Read(Ok(bytes), id, t) = ev {
        if s.phase is Read && s.phase->Read_0 + 1 == s.n() {
            let k = s.phase->Read_0 as int;
            if let Ok(snap) = spec_snapshot(s.runtimes[k], bytes, id, t) {
                let snaps = s.snapshots.push(snap);
                assert forall|j: int| #[trigger] first_holding(snaps, 0, j) implies s.step(ev).1
                    == SwitchActionV::Reconcile(snaps[j].account.unwrap().view.account_id) && s.step(ev).0.phase
                    == SwitchPhase::Reconcile(j as usize) by {
                    lemma_next_account_first(snaps, 0, j);
                }
                if none_holding(snaps, 0) {
                    lemma_next_account_none(snaps, 0);
                }
            }
        }
    }
    if s.phase is Reconcile && ev == SwitchEventV::Reconciled(Ok(())) {
        let k = s.phase->Reconcile_0 as int;
        assert forall|j: int| #[trigger] first_holding(s.snapshots, k + 1, j) implies s.step(ev).1
            == SwitchActionV::Reconcile(s.snapshots[j].account.unwrap().view.account_id) && s.step(ev).0.phase
            == SwitchPhase::Reconcile(j as usize) by {
            lemma_next_account_first(s.snapshots, k + 1, j);
        }
        if none_holding(s.snapshots, k + 1) {
            lemma_next_account_none(s.snapshots, k + 1);
        }
    }
}

} // verus!
