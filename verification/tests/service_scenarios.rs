//! The service scenarios of the desktop side, played through the library's
//! decisions on in-memory files.
use base64::Engine;
use codex_accounts::json::Json;
use codex_accounts::model::{now, Account, Credentials};
use codex_accounts::protocol::account;
use codex_accounts::error::AppError;
use codex_accounts::repository::Repository;
use codex_accounts::model::AccountQuota;
use codex_accounts::quota::parse;
use codex_accounts::quota_refresh::{QueryAction, QueryEvent, QuotaQuery};
use codex_accounts::reconcile::{ReconcileAction, ReconcileEvent, Reconciler};
use codex_accounts::rotation::{FreshAction, FreshEvent, Freshener};
use codex_accounts::commit::Event;
use codex_accounts::runtime::{CodexAdapter, PiAdapter, Runtime, RuntimeAdapter};
use codex_accounts::switch::{SwitchAction, SwitchEvent, Switcher};
use codex_accounts::service::{needs_refresh, prepare_with, reconcile_step, runtime_status, snapshot_with};

fn credentials(id: &str, expired: bool) -> Credentials {
    let expiry = if expired { now().ok().unwrap() - 10_000 } else { now().ok().unwrap() + 3_600_000 };
    let iat = if expired { 1 } else { now().ok().unwrap() / 1000 };
    let payload = format!(
        r#"{{"exp":{},"iat":{},"https://api.openai.com/auth":{{"chatgpt_account_id":"{}"}},"email":"{}@example.test"}}"#,
        expiry / 1000,
        iat,
        id,
        id
    );
    Credentials {
        access_token: format!(
            "e30.{}.signature",
            base64::engine::general_purpose::URL_SAFE_NO_PAD.encode(payload.as_bytes())
        ),
        refresh_token: if expired { "old" } else { "rotated" }.into(),
        id_token: Some("test-id-token".into()),
        expires_at: expiry,
    }
}

fn test_account(id: &str, expired: bool) -> Account {
    let mut a = account(credentials(id, expired), None).ok().unwrap();
    a.view.id = id.into();
    a
}

fn codex() -> CodexAdapter {
    CodexAdapter { path: "codex/auth.json".into() }
}

fn pi() -> PiAdapter {
    PiAdapter { path: "pi/auth.json".into() }
}

/// The file a runtime holds after switching it to `a`.
fn switched<A: RuntimeAdapter>(adapter: &A, a: &Account) -> Vec<u8> {
    prepare_with(adapter, &Json::empty_object(), a, "2024-01-01T00:00:00+00:00").ok().unwrap()
}

fn status<A: RuntimeAdapter>(adapter: &A, file: &[u8], repo: &Repository) -> (Option<String>, Option<String>) {
    let read = snapshot_with(adapter, Some(file.to_vec()), "new", 0).map(|s| s.account);
    let s = runtime_status(adapter.name(), adapter.path(), read, repo);
    assert!(s.error.is_none());
    (s.account_id, s.managed_id)
}

#[test]
fn incoming_cli_rotation_is_saved_without_network_refresh() {
    let mut w = world(true);
    // The CLI rotated account a's tokens and wrote them to its file.
    let file = switched(&codex(), &test_account("a", false));
    let local = snapshot_with(&codex(), Some(file), "new", 0).ok().unwrap().account;
    w.runtimes = vec![Ok(local)];
    fresh(&mut w, "a", false).ok().unwrap();
    assert_eq!(w.refreshes, 0);
    assert_eq!(w.repo.get("a").ok().unwrap().credentials.refresh_token, "rotated");
    // Tokens already adopted are not adopted again.
    let a = w.repo.get("a").ok().unwrap();
    assert!(reconcile_step(w.runtimes[0].as_ref().ok().unwrap().as_ref(), &a).ok().unwrap().is_none());
}

#[test]
fn unreadable_runtime_is_skipped() {
    let mut w = world(true);
    w.runtimes = vec![Err(AppError::new("JSON_CORRUPT", "test")), Ok(Some(test_account("a", false)))];
    fresh(&mut w, "a", false).ok().unwrap();
    assert_eq!(w.refreshes, 0);
    assert_eq!(w.repo.get("a").ok().unwrap().credentials.refresh_token, "rotated");
}

#[test]
fn independent_runtime_accounts_and_delete_becomes_unmanaged() {
    let mut repo = Repository::new(vec![test_account("a", false), test_account("b", false)]);
    let codex_file = switched(&codex(), &repo.get("a").ok().unwrap());
    let pi_file = switched(&pi(), &repo.get("b").ok().unwrap());
    assert_eq!(status(&codex(), &codex_file, &repo).1.as_deref(), Some("a"));
    assert_eq!(status(&pi(), &pi_file, &repo).1.as_deref(), Some("b"));
    // Importing the Codex account again is refused.
    let imported = snapshot_with(&codex(), Some(codex_file.clone()), "new", 0).ok().unwrap().account.unwrap();
    assert_eq!(repo.insert_new(imported).err().unwrap().code, "ACCOUNT_EXISTS");
    repo.remove("a").ok().unwrap();
    let (account_id, managed_id) = status(&codex(), &codex_file, &repo);
    assert_eq!(managed_id, None);
    assert_eq!(account_id.as_deref(), Some("a"));
}

/// The vault, the pending rotation, the token endpoint and what the
/// runtime files hold.
struct World {
    repo: Repository,
    pending: Option<Account>,
    fail_save: bool,
    refreshes: usize,
    runtimes: Vec<Result<Option<Account>, AppError>>,
}

fn save(w: &mut World, a: Account) -> Result<(), AppError> {
    if w.fail_save { Err(AppError::new("DISK_FULL", "test")) } else { w.repo.put(a) }
}

fn held(r: &Result<Option<Account>, AppError>) -> Result<Option<Account>, AppError> {
    match r {
        Ok(a) => Ok(a.as_ref().map(|a| a.duplicate())),
        Err(e) => Err(e.duplicate()),
    }
}

fn reconcile(w: &mut World, a: Account) -> Result<Account, AppError> {
    let (mut r, mut action) = Reconciler::start(w.runtimes.len(), a);
    loop {
        action = match action {
            ReconcileAction::Finish(result) => return result,
            ReconcileAction::Read(k) => {
                let local = held(&w.runtimes[k]);
                r.step(ReconcileEvent::Read(local))
            }
            ReconcileAction::Save(a) => {
                let saved = save(w, a);
                r.step(ReconcileEvent::Saved(saved))
            }
        };
    }
}

fn fresh(w: &mut World, id: &str, force: bool) -> Result<Account, AppError> {
    let (mut f, mut action) = Freshener::start(w.pending.as_ref().map(|a| a.duplicate()), force);
    loop {
        action = match action {
            FreshAction::Finish(r) => return r,
            FreshAction::SavePending(a) | FreshAction::Save(a) => {
                let saved = save(w, a);
                f.step(FreshEvent::Saved(saved))
            }
            FreshAction::ClearPending => {
                w.pending = None;
                f.step(FreshEvent::Cleared)
            }
            FreshAction::Load => {
                let loaded = match w.repo.get(id) {
                    Ok(a) => reconcile(w, a),
                    Err(e) => Err(e),
                };
                f.step(FreshEvent::Loaded(loaded, now().ok().unwrap()))
            }
            FreshAction::Refresh(_) => {
                w.refreshes += 1;
                f.step(FreshEvent::Refreshed(Ok(credentials(id, false))))
            }
            FreshAction::Stash(a) => {
                w.pending = Some(a);
                f.step(FreshEvent::Stashed)
            }
        };
    }
}

fn world(expired: bool) -> World {
    World {
        repo: Repository::new(vec![test_account("a", expired)]),
        pending: None,
        fail_save: false,
        refreshes: 0,
        runtimes: Vec::new(),
    }
}

#[test]
fn failed_rotation_save_never_reuses_old_refresh_token() {
    let mut w = world(true);
    w.fail_save = true;
    assert_eq!(fresh(&mut w, "a", false).err().unwrap().code, "ROTATION_SAVE_FAILED");
    assert_eq!(w.refreshes, 1);
    assert_eq!(w.repo.get("a").ok().unwrap().credentials.refresh_token, "old");
    assert_eq!(w.pending.as_ref().unwrap().credentials.refresh_token, "rotated");
    // While the vault still refuses the pending rotation, no new refresh is asked for.
    assert!(fresh(&mut w, "a", true).is_err());
    assert_eq!(w.refreshes, 1);
    assert_eq!(w.pending.as_ref().unwrap().credentials.refresh_token, "rotated");
    w.fail_save = false;
    let a = fresh(&mut w, "a", false).ok().unwrap();
    assert_eq!(w.refreshes, 1);
    assert_eq!(a.credentials.refresh_token, "rotated");
    assert_eq!(w.repo.get("a").ok().unwrap().credentials.refresh_token, "rotated");
    assert!(w.pending.is_none());
}

#[test]
fn tokens_are_refreshed_only_when_due_or_forced() {
    let mut w = world(false);
    assert_eq!(fresh(&mut w, "a", false).ok().unwrap().credentials.refresh_token, "rotated");
    assert_eq!(w.refreshes, 0);
    fresh(&mut w, "a", true).ok().unwrap();
    assert_eq!(w.refreshes, 1);
    let mut w = world(true);
    let a = fresh(&mut w, "a", false).ok().unwrap();
    assert_eq!(w.refreshes, 1);
    assert_eq!(a.view.email.as_deref(), Some("a@example.test"));
    assert_eq!(fresh(&mut w, "missing", false).err().unwrap().code, "ACCOUNT_NOT_FOUND");
}

/// The Codex (0) and Pi Agent (1) files, and the vault.
struct Desk {
    disk: Vec<Option<Vec<u8>>>,
    repo: Repository,
    forced: usize,
    clock_works: bool,
}

fn runtime(i: usize) -> Runtime {
    if i == 0 { Runtime::Codex(codex()) } else { Runtime::Pi(pi()) }
}

fn switch(d: &mut Desk, id: &str, targets: &[usize]) -> Result<(), AppError> {
    let mut staged: Vec<Option<Vec<u8>>> = targets.iter().map(|_| None).collect();
    let (mut sw, mut action) = Switcher::start(targets.iter().map(|&i| runtime(i)).collect());
    loop {
        action = match action {
            SwitchAction::Finish(r) => return r,
            SwitchAction::Read(k) => sw.step(SwitchEvent::Read(Ok(d.disk[targets[k]].clone()), "new".into(), 0)),
            SwitchAction::Reconcile(_) => sw.step(SwitchEvent::Reconciled(Ok(()))),
            SwitchAction::Fresh(force) => {
                let mut a = d.repo.get(id);
                if force {
                    d.forced += 1;
                    if let Ok(a) = &mut a {
                        a.credentials.id_token = Some("refreshed-id-token".into());
                    }
                }
                sw.step(SwitchEvent::Fresh(a, "2024-01-01T00:00:00+00:00".into()))
            }
            SwitchAction::Stage(k, b) => {
                staged[k] = Some(b);
                sw.step(SwitchEvent::Staged(Ok(())))
            }
            SwitchAction::Check(k) => sw.step(SwitchEvent::File(Event::Read(Ok(d.disk[targets[k]].clone())))),
            SwitchAction::Commit(k) => {
                d.disk[targets[k]] = staged[k].take();
                sw.step(SwitchEvent::File(Event::Done(Ok(()))))
            }
            SwitchAction::Restore(k, b) => {
                d.disk[targets[k]] = Some(b);
                sw.step(SwitchEvent::File(Event::Done(Ok(()))))
            }
            SwitchAction::Remove(k) => {
                d.disk[targets[k]] = None;
                sw.step(SwitchEvent::File(Event::Done(Ok(()))))
            }
            SwitchAction::Clock => {
                let t = if d.clock_works { Ok(42) } else { Err(AppError::new("CLOCK_UNAVAILABLE", "clock")) };
                sw.step(SwitchEvent::Clock(t))
            }
            SwitchAction::Save(a) => sw.step(SwitchEvent::Saved(d.repo.put(a))),
        };
    }
}

fn desk() -> Desk {
    Desk { disk: vec![None, None], repo: Repository::new(vec![test_account("a", false), test_account("b", false)]), forced: 0, clock_works: true }
}

fn managed(d: &Desk, i: usize) -> Option<String> {
    let file = d.disk[i].clone().unwrap();
    if i == 0 { status(&codex(), &file, &d.repo).1 } else { status(&pi(), &file, &d.repo).1 }
}

#[test]
fn invalid_second_file_keeps_first_unchanged() {
    let mut d = desk();
    switch(&mut d, "a", &[0]).ok().unwrap();
    let before = d.disk[0].clone();
    d.disk[1] = Some(b"{corrupt".to_vec());
    assert_eq!(switch(&mut d, "b", &[0, 1]).err().unwrap().code, "JSON_CORRUPT");
    assert_eq!(d.disk[0], before);
    assert_eq!(d.disk[1], Some(b"{corrupt".to_vec()));
}

#[test]
fn switches_keep_runtimes_consistent_and_preserve_providers() {
    let mut d = desk();
    d.disk[1] = Some(br#"{"anthropic":{"type":"api_key","key":"fixture"}}"#.to_vec());
    switch(&mut d, "a", &[0, 1]).ok().unwrap();
    switch(&mut d, "b", &[0, 1]).ok().unwrap();
    assert_eq!(managed(&d, 0).as_deref(), Some("b"));
    assert_eq!(managed(&d, 1).as_deref(), Some("b"));
    let pi_file = String::from_utf8(d.disk[1].clone().unwrap()).unwrap();
    assert!(pi_file.contains("fixture"));
    assert_eq!(d.repo.get("b").ok().unwrap().view.last_used_at, Some(42));
}

#[test]
fn codex_switch_refreshes_for_a_missing_id_token() {
    let mut d = desk();
    let mut a = d.repo.get("a").ok().unwrap();
    a.credentials.id_token = None;
    d.repo.put(a).ok().unwrap();
    switch(&mut d, "a", &[1]).ok().unwrap();
    assert_eq!(d.forced, 0);
    switch(&mut d, "a", &[0]).ok().unwrap();
    assert_eq!(d.forced, 1);
    let codex_file = String::from_utf8(d.disk[0].clone().unwrap()).unwrap();
    assert!(codex_file.contains("refreshed-id-token"));
}

#[test]
fn a_clock_failure_after_the_commit_keeps_the_files_switched() {
    let mut d = desk();
    d.clock_works = false;
    assert_eq!(switch(&mut d, "a", &[0]).err().unwrap().code, "CLOCK_UNAVAILABLE");
    assert_eq!(managed(&d, 0).as_deref(), Some("a"));
    assert_eq!(d.repo.get("a").ok().unwrap().view.last_used_at, None);
}

#[test]
fn switching_an_unknown_account_writes_nothing() {
    let mut d = desk();
    assert_eq!(switch(&mut d, "missing", &[0, 1]).err().unwrap().code, "ACCOUNT_NOT_FOUND");
    assert_eq!(d.disk, vec![None, None]);
}

fn quota() -> (AccountQuota, Option<String>) {
    let v = codex_accounts::runtime::json(br#"{"rate_limit":{"primary_window":{"used_percent":35,"limit_window_seconds":18000}},"plan_type":"plus"}"#)
        .ok()
        .unwrap();
    parse(&v).ok().unwrap()
}

/// Refreshes account a's quota; the usage service answers with `answers` in turn.
fn query(w: &mut World, answers: &mut Vec<Result<(AccountQuota, Option<String>), AppError>>) -> Result<String, AppError> {
    let (mut q, mut action) = QuotaQuery::start();
    loop {
        action = match action {
            QueryAction::Finish(r) => return r.map(|v| v.plan_type.unwrap_or_default()),
            QueryAction::Fresh(force) => {
                let a = fresh(w, "a", force);
                q.step(QueryEvent::Fresh(a))
            }
            QueryAction::Query(_) => q.step(QueryEvent::Queried(answers.remove(0))),
            QueryAction::Save(a) => {
                let saved = save(w, a);
                q.step(QueryEvent::Saved(saved))
            }
        };
    }
}

fn rejected() -> Result<(AccountQuota, Option<String>), AppError> {
    Err(AppError::new("TOKEN_EXPIRED", "额度服务拒绝 Token"))
}

#[test]
fn rejected_token_is_refreshed_once() {
    let mut w = world(false);
    let mut answers = vec![rejected(), Ok(quota())];
    assert_eq!(query(&mut w, &mut answers).ok().unwrap(), "plus");
    assert_eq!(w.refreshes, 1);
    assert!(w.repo.get("a").ok().unwrap().view.quota.is_some());
    let mut answers = vec![rejected(), rejected(), Ok(quota())];
    assert_eq!(query(&mut w, &mut answers).err().unwrap().code, "TOKEN_EXPIRED");
    assert_eq!(w.refreshes, 2);
    let mut answers = vec![Err(AppError::new("QUOTA_HTTP", "test"))];
    assert_eq!(query(&mut w, &mut answers).err().unwrap().code, "QUOTA_HTTP");
    assert_eq!(w.refreshes, 2);
}

#[test]
fn failed_delete_is_rolled_back() {
    let mut repo = Repository::new(vec![test_account("a", false), test_account("b", false)]);
    let mut next = Repository::new(repo.all());
    next.remove("a").ok().unwrap();
    assert_eq!(repo.adopt(next, Err(AppError::new("DISK_FULL", "test"))).err().unwrap().code, "DISK_FULL");
    assert!(repo.get("a").is_ok());
    let mut next = Repository::new(repo.all());
    next.remove("a").ok().unwrap();
    repo.adopt(next, Ok(())).ok().unwrap();
    assert_eq!(repo.get("a").err().unwrap().code, "ACCOUNT_NOT_FOUND");
    // Views carry no credentials.
    assert_eq!(repo.list().len(), 1);
}
