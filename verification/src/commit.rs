//! Committing prepared authentication files one after another, with a
//! rollback that only ever undoes bytes this commit wrote.
//!
//! Files cannot be replaced atomically together, so the commit is a state
//! machine: it asks for a file to be read, committed or restored, and is
//! told what happened. The caller performs the file operations.
use vstd::prelude::*;
use crate::error::{AppError, AppErrorV, app_error};

verus! {

pub open spec fn conflict_error() -> AppErrorV {
    app_error("RUNTIME_DESYNC"@, "认证文件被外部进程修改；请暂停 Codex/Pi 后重试"@)
}

/// The error for an authentication file that changed behind our back.
pub fn conflict() -> (r: AppError)
    ensures
        r@ == conflict_error(),
{
    AppError::new("RUNTIME_DESYNC", "认证文件被外部进程修改；请暂停 Codex/Pi 后重试")
}

pub open spec fn partial_error() -> AppErrorV {
    app_error("SWITCH_PARTIAL"@, "双环境切换部分完成且无法安全回滚，请检查顶部实际账号状态"@)
}

pub fn partial() -> (r: AppError)
    ensures
        r@ == partial_error(),
{
    AppError::new("SWITCH_PARTIAL", "双环境切换部分完成且无法安全回滚，请检查顶部实际账号状态")
}

/// Where the commit stands.
#[derive(Clone, Copy, PartialEq, Eq, Structural)]
pub enum Phase {
    /// Before any commit: file `i` must still hold its old bytes.
    Check(usize),
    /// Right before committing file `i`: it must still hold its old bytes.
    Verify(usize),
    /// File `i` is being committed.
    Commit(usize),
    /// Undoing file `k`: it must hold exactly the bytes this commit wrote.
    RollbackCheck(usize),
    /// File `k` is being restored to its old bytes (or removed).
    Restore(usize),
    /// Finished.
    Done,
}

/// What the caller must do next.
pub enum Action {
    /// Read file `i` and report its bytes, `None` when it does not exist.
    Read(usize),
    /// Replace file `i` with its prepared new bytes.
    Commit(usize),
    /// Replace file `k` with these bytes.
    Write(usize, Vec<u8>),
    /// Remove file `k`.
    Remove(usize),
    /// Stop, with this outcome.
    Finish(Result<(), AppError>),
}

/// What happened to the last action.
pub enum Event {
    Read(Result<Option<Vec<u8>>, AppError>),
    Done(Result<(), AppError>),
}

pub enum ActionV {
    Read(int),
    Commit(int),
    Write(int, Seq<u8>),
    Remove(int),
    Finish(Result<(), AppErrorV>),
}

pub enum EventV {
    Read(Result<Option<Seq<u8>>, AppErrorV>),
    Done(Result<(), AppErrorV>),
}

pub open spec fn opt_bytes(b: Option<Vec<u8>>) -> Option<Seq<u8>> {
    match b {
        Some(v) => Some(v@),
        None => None,
    }
}

impl View for Action {
    type V = ActionV;

    open spec fn view(&self) -> ActionV {
        match self {
            Action::Read(i) => ActionV::Read(*i as int),
            Action::Commit(i) => ActionV::Commit(*i as int),
            Action::Write(k, b) => ActionV::Write(*k as int, b@),
            Action::Remove(k) => ActionV::Remove(*k as int),
            Action::Finish(Ok(())) => ActionV::Finish(Ok(())),
            Action::Finish(Err(e)) => ActionV::Finish(Err(e@)),
        }
    }
}

impl View for Event {
    type V = EventV;

    open spec fn view(&self) -> EventV {
        match self {
            Event::Read(Ok(b)) => EventV::Read(Ok(opt_bytes(*b))),
            Event::Read(Err(e)) => EventV::Read(Err(e@)),
            Event::Done(Ok(())) => EventV::Done(Ok(())),
            Event::Done(Err(e)) => EventV::Done(Err(e@)),
        }
    }
}

/// The commit of `old.len()` files: `old[i]` is what file `i` held when it
/// was prepared, `new[i]` the bytes prepared for it.
pub struct Committer {
    pub old: Vec<Option<Vec<u8>>>,
    pub new: Vec<Vec<u8>>,
    pub phase: Phase,
    pub failure: Option<AppError>,
}

pub struct CommitterV {
    pub old: Seq<Option<Seq<u8>>>,
    pub new: Seq<Seq<u8>>,
    pub phase: Phase,
    pub failure: Option<AppErrorV>,
}

impl View for Committer {
    type V = CommitterV;

    open spec fn view(&self) -> CommitterV {
        CommitterV {
            old: self.old@.map_values(|b: Option<Vec<u8>>| opt_bytes(b)),
            new: self.new@.map_values(|b: Vec<u8>| b@),
            phase: self.phase,
            failure: match self.failure {
                Some(e) => Some(e@),
                None => None,
            },
        }
    }
}

/// The commit of files that held `old` and are to hold `new`: it first reads
/// file 0, or finishes at once when there is no file.
pub open spec fn committer_start(old: Seq<Option<Seq<u8>>>, new: Seq<Seq<u8>>) -> (CommitterV, ActionV) {
    if old.len() == 0 {
        (CommitterV { old, new, phase: Phase::Done, failure: None }, ActionV::Finish(Ok(())))
    } else {
        (CommitterV { old, new, phase: Phase::Check(0), failure: None }, ActionV::Read(0))
    }
}

impl CommitterV {
    /// Same number of old and new contents; the phase refers to an existing
    /// file; a rollback phase carries the failure it will report.
    pub open spec fn wf(self) -> bool {
        &&& self.old.len() == self.new.len()
        &&& match self.phase {
            Phase::Check(i) => i < self.old.len() && self.failure is None,
            Phase::Verify(i) => i < self.old.len() && self.failure is None,
            Phase::Commit(i) => i < self.old.len() && self.failure is None,
            Phase::RollbackCheck(k) => k < self.old.len() && self.failure is Some,
            Phase::Restore(k) => k < self.old.len() && self.failure is Some,
            Phase::Done => true,
        }
    }

    pub open spec fn with(self, phase: Phase, failure: Option<AppErrorV>) -> CommitterV {
        CommitterV { phase, failure, ..self }
    }

    /// Begins undoing the files below `index` after `e`, or finishes with
    /// `e` when nothing was committed yet.
    pub open spec fn fail_at(self, index: int, e: AppErrorV) -> (CommitterV, ActionV) {
        if index == 0 {
            (self.with(Phase::Done, None), ActionV::Finish(Err(e)))
        } else {
            (self.with(Phase::RollbackCheck((index - 1) as usize), Some(e)), ActionV::Read(index - 1))
        }
    }

    /// The transition taken on an event.
    pub open spec fn step(self, ev: EventV) -> (CommitterV, ActionV) {
        let n = self.old.len();
        match (self.phase, ev) {
            (Phase::Check(i), EventV::Read(Err(e))) => (self.with(Phase::Done, None), ActionV::Finish(Err(e))),
            (Phase::Check(i), EventV::Read(Ok(c))) => if c != self.old[i as int] {
                (self.with(Phase::Done, None), ActionV::Finish(Err(conflict_error())))
            } else if i + 1 < n {
                (self.with(Phase::Check((i + 1) as usize), None), ActionV::Read(i + 1))
            } else {
                (self.with(Phase::Verify(0), None), ActionV::Read(0))
            },
            (Phase::Verify(i), EventV::Read(Err(e))) => self.fail_at(i as int, e),
            (Phase::Verify(i), EventV::Read(Ok(c))) => if c != self.old[i as int] {
                self.fail_at(i as int, conflict_error())
            } else {
                (self.with(Phase::Commit(i), None), ActionV::Commit(i as int))
            },
            (Phase::Commit(i), EventV::Done(Err(e))) => self.fail_at(i as int, e),
            (Phase::Commit(i), EventV::Done(Ok(()))) => if i + 1 < n {
                (self.with(Phase::Verify((i + 1) as usize), None), ActionV::Read(i + 1))
            } else {
                (self.with(Phase::Done, None), ActionV::Finish(Ok(())))
            },
            (Phase::RollbackCheck(k), EventV::Read(Err(_))) => (self.with(Phase::Done, None), ActionV::Finish(Err(partial_error()))),
            (Phase::RollbackCheck(k), EventV::Read(Ok(c))) => if c != Some(self.new[k as int]) {
                (self.with(Phase::Done, None), ActionV::Finish(Err(partial_error())))
            } else {
                (
                    self.with(Phase::Restore(k), self.failure),
                    match self.old[k as int] {
                        Some(b) => ActionV::Write(k as int, b),
                        None => ActionV::Remove(k as int),
                    },
                )
            },
            (Phase::Restore(k), EventV::Done(Err(_))) => (self.with(Phase::Done, None), ActionV::Finish(Err(partial_error()))),
            (Phase::Restore(k), EventV::Done(Ok(()))) => if k == 0 {
                (self.with(Phase::Done, None), ActionV::Finish(Err(self.failure.unwrap())))
            } else {
                (self.with(Phase::RollbackCheck((k - 1) as usize), self.failure), ActionV::Read(k - 1))
            },
            // An answer that does not fit the last action ends the commit as a conflict.
            _ => (self.with(Phase::Done, None), ActionV::Finish(Err(conflict_error()))),
        }
    }
}

fn same_bytes(a: &Vec<u8>, b: &Vec<u8>) -> (r: bool)
    ensures
        r == (a@ == b@),
{
    if a.len() != b.len() {
        return false;
    }
    let mut i: usize = 0;
    while i < a.len()
        invariant
            a@.len() == b@.len(),
            i <= a@.len(),
            forall|k: int| 0 <= k < i ==> a@[k] == b@[k],
        decreases a.len() - i,
    {
        if a[i] != b[i] {
            return false;
        }
        i += 1;
    }
    assert(a@ =~= b@);
    true
}

fn same_content(a: &Option<Vec<u8>>, b: &Option<Vec<u8>>) -> (r: bool)
    ensures
        r == (opt_bytes(*a) == opt_bytes(*b)),
{
    match (a, b) {
        (Some(x), Some(y)) => same_bytes(x, y),
        (None, None) => true,
        _ => false,
    }
}

pub(crate) fn copy_bytes(b: &Vec<u8>) -> (r: Vec<u8>)
    ensures
        r@ == b@,
{
    let mut out: Vec<u8> = Vec::new();
    let mut i: usize = 0;
    while i < b.len()
        invariant
            i <= b@.len(),
            out@ == b@.subrange(0, i as int),
        decreases b.len() - i,
    {
        out.push(b[i]);
        i += 1;
        assert(out@ =~= b@.subrange(0, i as int));
    }
    assert(out@ =~= b@);
    out
}

impl Committer {
    /// Starts the commit of the prepared files: `old[i]` and `new[i]` are
    /// the old and prepared contents of file `i`.
    pub fn start(old: Vec<Option<Vec<u8>>>, new: Vec<Vec<u8>>) -> (r: (Committer, Action))
        requires
            old@.len() == new@.len(),
        ensures
            r.0@.wf(),
            (r.0@, r.1@) == committer_start(
                old@.map_values(|b: Option<Vec<u8>>| opt_bytes(b)),
                new@.map_values(|b: Vec<u8>| b@),
            ),
    {
        if old.len() == 0 {
            (Committer { old, new, phase: Phase::Done, failure: None }, Action::Finish(Ok(())))
        } else {
            (Committer { old, new, phase: Phase::Check(0), failure: None }, Action::Read(0))
        }
    }

    fn fail_at(&mut self, index: usize, e: AppError) -> (r: Action)
        requires
            old(self)@.wf(),
            index < old(self)@.old.len(),
        ensures
            (final(self)@, r@) == old(self)@.fail_at(index as int, e@),
    {
        if index == 0 {
            self.phase = Phase::Done;
            self.failure = None;
            Action::Finish(Err(e))
        } else {
            self.phase = Phase::RollbackCheck(index - 1);
            self.failure = Some(e);
            Action::Read(index - 1)
        }
    }

    /// Takes the outcome of the last action and returns the next one.
    pub fn step(&mut self, ev: Event) -> (r: Action)
        requires
            old(self)@.wf(),
        ensures
            (final(self)@, r@) == old(self)@.step(ev@),
            final(self)@.wf(),
    {
        let n = self.old.len();
        proof {
            assert(self@.old.len() == n);
        }
        match (self.phase, ev) {
            (Phase::Check(i), Event::Read(Err(e))) => {
                self.phase = Phase::Done;
                Action::Finish(Err(e))
            },
            (Phase::Check(i), Event::Read(Ok(c))) => {
                if !same_content(&c, &self.old[i]) {
                    self.phase = Phase::Done;
                    Action::Finish(Err(conflict()))
                } else if i + 1 < n {
                    self.phase = Phase::Check(i + 1);
                    Action::Read(i + 1)
                } else {
                    self.phase = Phase::Verify(0);
                    Action::Read(0)
                }
            },
            (Phase::Verify(i), Event::Read(Err(e))) => self.fail_at(i, e),
            (Phase::Verify(i), Event::Read(Ok(c))) => {
                if !same_content(&c, &self.old[i]) {
                    self.fail_at(i, conflict())
                } else {
                    self.phase = Phase::Commit(i);
                    Action::Commit(i)
                }
            },
            (Phase::Commit(i), Event::Done(Err(e))) => self.fail_at(i, e),
            (Phase::Commit(i), Event::Done(Ok(()))) => {
                if i + 1 < n {
                    self.phase = Phase::Verify(i + 1);
                    Action::Read(i + 1)
                } else {
                    self.phase = Phase::Done;
                    Action::Finish(Ok(()))
                }
            },
            (Phase::RollbackCheck(k), Event::Read(Err(_))) => {
                self.phase = Phase::Done;
                self.failure = None;
                Action::Finish(Err(partial()))
            },
            (Phase::RollbackCheck(k), Event::Read(Ok(c))) => {
                let ours = match &c {
                    Some(b) => same_bytes(b, &self.new[k]),
                    None => false,
                };
                if !ours {
                    self.phase = Phase::Done;
                    self.failure = None;
                    Action::Finish(Err(partial()))
                } else {
                    self.phase = Phase::Restore(k);
                    match &self.old[k] {
                        Some(b) => Action::Write(k, copy_bytes(b)),
                        None => Action::Remove(k),
                    }
                }
            },
            (Phase::Restore(k), Event::Done(Err(_))) => {
                self.phase = Phase::Done;
                self.failure = None;
                Action::Finish(Err(partial()))
            },
            (Phase::Restore(k), Event::Done(Ok(()))) => {
                if k == 0 {
                    self.phase = Phase::Done;
                    let e = self.failure.take().unwrap();
                    Action::Finish(Err(e))
                } else {
                    self.phase = Phase::RollbackCheck(k - 1);
                    Action::Read(k - 1)
                }
            },
            _ => {
                self.phase = Phase::Done;
                self.failure = None;
                Action::Finish(Err(conflict()))
            },
        }
    }
}

/// A file is committed only right after it was read back with the very
/// bytes it held when the switch was prepared.
pub proof fn law_commit_only_unchanged_file(s: CommitterV, ev: EventV)
    requires
        s.wf(),
        s.step(ev).1 is Commit,
    ensures
        ({
            let i = s.step(ev).1->Commit_0;
            &&& s.phase == Phase::Verify(i as usize)
            &&& ev == EventV::Read(Ok(s.old[i]))
        }),
{
}

/// Rollback never overwrites an external update: a file is restored or
/// removed only right after it was read back holding exactly the bytes this
/// commit wrote to it, and it is restored to the bytes it held before.
pub proof fn law_rollback_only_our_bytes(s: CommitterV, ev: EventV)
    requires
        s.wf(),
        s.step(ev).1 is Write || s.step(ev).1 is Remove,
    ensures
        ({
            let k: int = match s.step(ev).1 {
                ActionV::Write(k, _) => k,
                ActionV::Remove(k) => k,
                _ => 0,
            };
            &&& s.phase == Phase::RollbackCheck(k as usize)
            &&& ev == EventV::Read(Ok(Some(s.new[k])))
            &&& match s.step(ev).1 {
                ActionV::Write(_, b) => s.old[k] == Some(b),
                _ => s.old[k] is None,
            }
        }),
{
}

/// The failure that an event reports while a file is verified or committed:
/// a read error, bytes other than the old ones, or a failed commit.
pub open spec fn failure_of(s: CommitterV, ev: EventV) -> Option<AppErrorV> {
    match (s.phase, ev) {
        (Phase::Verify(i), EventV::Read(Err(e))) => Some(e),
        (Phase::Verify(i), EventV::Read(Ok(c))) => if c != s.old[i as int] {
            Some(conflict_error())
        } else {
            None
        },
        (Phase::Commit(i), EventV::Done(Err(e))) => Some(e),
        _ => None,
    }
}

/// Commits stop at the first failure: no later file is touched; the files
/// before the failing one are undone, from the last one down, and the
/// failure is kept to be reported.
pub proof fn law_failure_starts_rollback(s: CommitterV, ev: EventV)
    requires
        s.wf(),
        failure_of(s, ev) is Some,
    ensures
        ({
            let e = failure_of(s, ev).unwrap();
            let i: int = match s.phase {
                Phase::Verify(i) => i as int,
                Phase::Commit(i) => i as int,
                _ => 0,
            };
            if i == 0 {
                s.step(ev).1 == ActionV::Finish(Err(e))
            } else {
                &&& s.step(ev).1 == ActionV::Read(i - 1)
                &&& s.step(ev).0.phase == Phase::RollbackCheck((i - 1) as usize)
                &&& s.step(ev).0.failure == Some(e)
            }
        }),
{
}

/// The event answers the kind of action that the phase asked for: reads in
/// checking phases, outcomes in committing and restoring phases.
pub open spec fn fits(phase: Phase, ev: EventV) -> bool {
    match phase {
        Phase::Check(_) | Phase::Verify(_) | Phase::RollbackCheck(_) => ev is Read,
        Phase::Commit(_) | Phase::Restore(_) => ev is Done,
        Phase::Done => false,
    }
}

/// A rollback in which every file is restored reports the failure that
/// caused it; any rollback that cannot be done safely reports
/// `SWITCH_PARTIAL`.
pub proof fn law_rollback_outcome(s: CommitterV, ev: EventV)
    requires
        s.wf(),
        s.phase is RollbackCheck || s.phase is Restore,
        fits(s.phase, ev),
        s.step(ev).1 is Finish,
    ensures
        s.step(ev).1 == ActionV::Finish(Err(partial_error())) || (s.phase == Phase::Restore(0) && ev == EventV::Done(Ok(()))
            && s.step(ev).1 == ActionV::Finish(Err(s.failure.unwrap()))),
{
    match ev {
        EventV::Done(Ok(u)) => {
            assert(u == ());
        },
        _ => {},
    }
}

/// The commit succeeds only after the last file was committed.
pub proof fn law_success_only_after_all_commits(s: CommitterV, ev: EventV)
    requires
        s.wf(),
        s.step(ev).1 == ActionV::Finish(Ok(())),
    ensures
        s.phase == Phase::Commit((s.old.len() - 1) as usize),
        ev == EventV::Done(Ok(())),
{
    match ev {
        EventV::Done(Ok(u)) => {
            assert(u == ());
        },
        _ => {},
    }
}

} // verus!
