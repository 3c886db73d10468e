use codex_accounts::commit::{Action, Committer, Event};
use codex_accounts::error::AppError;

/// An in-memory stand-in for the runtime files: slot `i` holds file `i`'s bytes, if it exists.
type Disk = Vec<Option<Vec<u8>>>;

struct Prepared {
    old: Option<Vec<u8>>,
    new: Vec<u8>,
}

/// Drives the committer against `disk`; `commit(disk, i, bytes)` commits file `i`.
fn run(
    disk: &mut Disk,
    files: &[Prepared],
    mut commit: impl FnMut(&mut Disk, usize, &[u8]) -> Result<(), AppError>,
) -> Result<(), AppError> {
    let (mut c, mut action) = Committer::start(
        files.iter().map(|f| f.old.clone()).collect(),
        files.iter().map(|f| f.new.clone()).collect(),
    );
    loop {
        action = match action {
            Action::Finish(r) => return r,
            Action::Read(i) => c.step(Event::Read(Ok(disk[i].clone()))),
            Action::Commit(i) => {
                let r = commit(disk, i, &files[i].new);
                c.step(Event::Done(r))
            }
            Action::Write(k, b) => {
                disk[k] = Some(b);
                c.step(Event::Done(Ok(())))
            }
            Action::Remove(k) => {
                disk[k] = None;
                c.step(Event::Done(Ok(())))
            }
        };
    }
}

fn write(disk: &mut Disk, i: usize, bytes: &[u8]) -> Result<(), AppError> {
    disk[i] = Some(bytes.to_vec());
    Ok(())
}

fn prepared() -> Prepared {
    Prepared { old: Some(b"old".to_vec()), new: b"new".to_vec() }
}

fn old_disk() -> Disk {
    vec![Some(b"old".to_vec()), Some(b"old".to_vec())]
}

#[test]
fn second_commit_failure_rolls_back_first() {
    let mut disk = old_disk();
    let p = vec![prepared(), prepared()];
    let result = run(&mut disk, &p, |d, i, bytes| {
        if i == 1 { Err(AppError::new("FILE_PERMISSION", "test")) } else { write(d, i, bytes) }
    });
    assert_eq!(result.err().unwrap().code, "FILE_PERMISSION");
    for f in disk {
        assert_eq!(f.unwrap(), b"old");
    }
}

#[test]
fn rollback_never_overwrites_external_update() {
    let mut disk = old_disk();
    let p = vec![prepared(), prepared()];
    let result = run(&mut disk, &p, |d, i, bytes| {
        if i == 1 {
            write(d, 0, b"external")?;
            Err(AppError::new("FILE_PERMISSION", "test"))
        } else {
            write(d, i, bytes)
        }
    });
    assert_eq!(result.err().unwrap().code, "SWITCH_PARTIAL");
    assert_eq!(disk[0].clone().unwrap(), b"external");
}

#[test]
fn commits_every_file_when_nothing_changed() {
    let mut disk = old_disk();
    let p = vec![prepared(), prepared()];
    assert!(run(&mut disk, &p, |d, i, bytes| write(d, i, bytes)).is_ok());
    for f in disk {
        assert_eq!(f.unwrap(), b"new");
    }
}

#[test]
fn changed_file_before_commit_is_a_conflict() {
    let mut disk = old_disk();
    disk[1] = Some(b"changed".to_vec());
    let p = vec![prepared(), prepared()];
    let mut commits = 0;
    let result = run(&mut disk, &p, |d, i, bytes| {
        commits += 1;
        write(d, i, bytes)
    });
    assert_eq!(result.err().unwrap().code, "RUNTIME_DESYNC");
    assert_eq!(commits, 0);
    assert_eq!(disk[0].clone().unwrap(), b"old");
}

#[test]
fn new_file_is_removed_on_rollback() {
    let mut disk: Disk = vec![None, Some(b"old".to_vec())];
    let p = vec![Prepared { old: None, new: b"new".to_vec() }, prepared()];
    let result = run(&mut disk, &p, |d, i, bytes| {
        if i == 1 { Err(AppError::new("FILE_IO", "x")) } else { write(d, i, bytes) }
    });
    assert_eq!(result.err().unwrap().code, "FILE_IO");
    assert!(disk[0].is_none());
}

#[test]
fn nothing_to_commit_succeeds() {
    let (_, action) = Committer::start(Vec::new(), Vec::new());
    assert!(matches!(action, Action::Finish(Ok(()))));
}
