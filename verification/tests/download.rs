use hostpilot::error::OpError;
use hostpilot::transfer::workers::download::{
    local_place, temporary_path, DownloadJob, Drops, JobEvent, JobStep, Outcome, CLEAR_PAUSE_MS,
};
use hostpilot::transfer::{EntryKind, FileEntry};
use hostpilot::TransferError;

fn entry(kind: EntryKind) -> FileEntry {
    FileEntry {
        remote_full: "/r/f".to_string(),
        rel: "s/f".to_string(),
        size: Some(1),
        kind,
        local_full: None,
    }
}

fn job(kind: EntryKind, max_retries: usize) -> DownloadJob {
    DownloadJob::new(entry(kind), "/t", true, "box".to_string(), 7, 3, max_retries, 10)
}

fn there() -> JobEvent {
    JobEvent::Seen { found: true, is_dir: true }
}

fn missing() -> JobEvent {
    JobEvent::Seen { found: false, is_dir: false }
}

fn failed(m: &str) -> JobEvent {
    JobEvent::Failed(m.to_string())
}

fn reported(o: &Outcome) -> String {
    match &o.report {
        Some(e) => e.message(),
        None => String::new(),
    }
}

#[test]
fn places_on_this_machine() {
    assert_eq!(local_place("/t", true, "a/b"), "/t/a/b");
    assert_eq!(local_place("/t/", true, "a"), "/t/a");
    assert_eq!(local_place("/t", false, "a"), "/t");
}

#[test]
fn temporary_files_are_beside_their_place() {
    assert_eq!(temporary_path("/t/f.txt", "d/f.txt", 12, 4, 0xabc), "/t/f.txt.hp.part.12.4.tmp.abc");
    assert_eq!(
        temporary_path("f", "f", 1, 0, u128::MAX),
        "f.hp.part.1.0.tmp.ffffffffffffffffffffffffffffffff"
    );
}

fn reading(max_retries: usize) -> DownloadJob {
    let mut j = job(EntryKind::File, max_retries);
    assert!(matches!(j.start().step, JobStep::Look(p) if p == "/t/s"));
    assert!(matches!(j.advance(there()).step, JobStep::Connect));
    assert!(matches!(j.advance(JobEvent::Worked).step, JobStep::Open(p) if p == "/r/f"));
    assert!(matches!(
        j.advance(JobEvent::Opened(255)).step,
        JobStep::CreateFile(p) if p == "/t/s/f.hp.part.7.3.tmp.ff"
    ));
    assert!(matches!(j.advance(JobEvent::Worked).step, JobStep::Read));
    j
}

#[test]
fn a_download_from_begin_to_end() {
    let mut j = reading(3);
    assert!(matches!(j.advance(JobEvent::Got).step, JobStep::Write));
    assert!(matches!(j.advance(JobEvent::Worked).step, JobStep::Read));
    assert!(matches!(j.advance(JobEvent::Ended).step, JobStep::Sync));
    assert!(matches!(
        j.advance(JobEvent::Worked).step,
        JobStep::Rename(a, b) if a == "/t/s/f.hp.part.7.3.tmp.ff" && b == "/t/s/f"
    ));
    let o = j.advance(JobEvent::Worked);
    assert!(matches!(o.step, JobStep::Over));
    assert!(o.report.is_none() && o.remove.is_none());
    assert_eq!(o.drops, Drops::Nothing);
}

#[test]
fn a_partial_file_is_removed() {
    let events = vec![
        failed("cut"),
        JobEvent::ReaderFailed("reader error: cut".to_string()),
        JobEvent::ReaderGone,
    ];
    for e in events {
        let mut j = reading(1);
        let o = j.advance(e);
        assert_eq!(o.remove.as_deref(), Some("/t/s/f.hp.part.7.3.tmp.ff"));
        assert!(matches!(o.step, JobStep::Over));
        assert!(reported(&o).starts_with("传输/IO 错误: download failed: /r/f — "));
        assert_eq!(o.drops, Drops::Channel);
    }
    let mut j = reading(1);
    let _ = j.advance(JobEvent::Got);
    let o = j.advance(failed("full"));
    assert!(o.remove.is_some());
    assert_eq!(
        reported(&o),
        "传输/IO 错误: download failed: /r/f — 传输/IO 错误: local write failed: full"
    );
    let mut j = reading(1);
    let _ = j.advance(JobEvent::Ended);
    assert!(j.advance(failed("sync")).remove.is_some());
}

#[test]
fn an_attempt_that_failed_is_repeated() {
    let mut j = reading(2);
    let o = j.advance(failed("cut"));
    assert!(o.remove.is_some() && o.report.is_none());
    assert!(matches!(o.step, JobStep::Wait(10)));
    assert!(matches!(j.advance(JobEvent::Waited).step, JobStep::Open(_)));
    let o = j.advance(JobEvent::NoChannel);
    assert_eq!(
        reported(&o),
        "传输/IO 错误: download failed: /r/f — 工作线程无法创建 SFTP 会话: box"
    );
    assert!(o.remove.is_none());
}

#[test]
fn what_is_in_the_way_is_removed_twice_at_most() {
    assert_eq!(CLEAR_PAUSE_MS, 50);
    let blocked = || JobEvent::RenameFailed { blocked: true, error: "exists".to_string() };
    let mut j = reading(1);
    let _ = j.advance(JobEvent::Ended);
    let _ = j.advance(JobEvent::Worked);
    assert!(matches!(j.advance(blocked()).step, JobStep::ClearTarget(p) if p == "/t/s/f"));
    assert!(matches!(j.advance(JobEvent::Waited).step, JobStep::Rename(_, _)));
    assert!(matches!(j.advance(blocked()).step, JobStep::ClearTarget(_)));
    assert!(matches!(j.advance(JobEvent::Waited).step, JobStep::Rename(_, _)));
    let o = j.advance(blocked());
    assert!(matches!(o.step, JobStep::Over));
    assert!(o.remove.is_some());
    assert_eq!(
        reported(&o),
        "传输/IO 错误: download failed: /r/f — 传输/IO 错误: rename failed: exists"
    );
    let mut j = reading(1);
    let _ = j.advance(JobEvent::Ended);
    let _ = j.advance(JobEvent::Worked);
    let o = j.advance(JobEvent::RenameFailed { blocked: false, error: "denied".to_string() });
    assert!(o.remove.is_some() && o.report.is_some());
}

#[test]
fn connecting_is_repeated_where_that_helps() {
    let passing = || {
        JobEvent::ConnectFailed(OpError::Transfer(TransferError::WorkerBuildSessionFailed(
            "h".to_string(),
        )))
    };
    let mut j = job(EntryKind::File, 2);
    let _ = j.start();
    let _ = j.advance(there());
    assert!(matches!(j.advance(passing()).step, JobStep::Wait(10)));
    assert!(matches!(j.advance(JobEvent::Waited).step, JobStep::Connect));
    let o = j.advance(passing());
    assert!(matches!(o.step, JobStep::Over));
    assert_eq!(o.drops, Drops::Both);
    assert!(reported(&o).starts_with("传输/IO 错误: pre-transfer failed: /r/f — "));
    let mut j = job(EntryKind::File, 5);
    let _ = j.start();
    let _ = j.advance(there());
    let o = j.advance(JobEvent::ConnectFailed(OpError::Transfer(TransferError::SshAuthFailed(
        "h".to_string(),
    ))));
    assert!(matches!(o.step, JobStep::Over));
}

#[test]
fn one_level_above_a_file_is_made() {
    let mut j = job(EntryKind::File, 1);
    let _ = j.start();
    assert!(matches!(j.advance(missing()).step, JobStep::Look(p) if p == "/t"));
    assert!(matches!(j.advance(there()).step, JobStep::MakeDir(p) if p == "/t/s"));
    assert!(matches!(j.advance(JobEvent::Worked).step, JobStep::Connect));
    let mut j = job(EntryKind::File, 1);
    let _ = j.start();
    let _ = j.advance(missing());
    let o = j.advance(missing());
    assert!(matches!(o.report, Some(TransferError::LocalTargetParentMissing(p)) if p == "/t/s"));
    let mut j = job(EntryKind::File, 1);
    let _ = j.start();
    let _ = j.advance(missing());
    let _ = j.advance(there());
    let o = j.advance(failed("denied"));
    assert!(matches!(
        o.report,
        Some(TransferError::CreateLocalDirFailed(p, e)) if p == "/t/s" && e == "denied"
    ));
    let mut j = job(EntryKind::File, 1);
    let _ = j.start();
    let o = j.advance(JobEvent::Seen { found: true, is_dir: false });
    assert!(matches!(o.report, Some(TransferError::LocalTargetParentMissing(_))));
}

#[test]
fn directories_are_made_or_kept() {
    let mut j = job(EntryKind::Dir, 1);
    let _ = j.start();
    assert!(matches!(j.advance(there()).step, JobStep::Look(p) if p == "/t/s/f"));
    let o = j.advance(there());
    assert!(matches!(o.step, JobStep::Over) && o.report.is_none());
    let mut j = job(EntryKind::Dir, 1);
    let _ = j.start();
    let _ = j.advance(there());
    let o = j.advance(JobEvent::Seen { found: true, is_dir: false });
    assert!(matches!(o.report, Some(TransferError::LocalTargetMustBeDir(p)) if p == "/t/s/f"));
    let mut j = job(EntryKind::Dir, 1);
    let _ = j.start();
    let _ = j.advance(there());
    assert!(matches!(j.advance(missing()).step, JobStep::Look(p) if p == "/t/s"));
    assert!(matches!(j.advance(there()).step, JobStep::MakeDir(p) if p == "/t/s/f"));
    assert!(matches!(j.advance(JobEvent::Worked).step, JobStep::Over));
}
