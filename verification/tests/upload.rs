use std::collections::HashSet;
use std::sync::Mutex;

use hostpilot::error::OpError;
use hostpilot::transfer::helpers::normalize_path;
use hostpilot::transfer::sftp_like::SftpLike;
use hostpilot::transfer::workers::download::Drops;
use hostpilot::transfer::workers::upload::{
    ensure_remote_dir_all_generic, names_connection, place_on_server, reset_session_and_sftp,
    sftp_mkdir_p, should_reset_session, DirAnswer, DirMaker, DirStep, UploadEvent, UploadOutcome,
    UploadStep, UploadWorker, DIR_MODE,
};
use hostpilot::transfer::{EntryKind, FileEntry};
use hostpilot::{MkdirError, TransferError};

// Simple in-memory channel to exercise the making of directories.
struct MockSftp {
    // set of paths that are directories
    dirs: Mutex<HashSet<String>>,
    // set of paths that are files
    files: Mutex<HashSet<String>>,
    // optionally fail mkdir once for a given path
    fail_mkdir_once: Mutex<HashSet<String>>,
    // what was asked for, in order
    asked: Mutex<Vec<String>>,
}

impl MockSftp {
    fn new() -> Self {
        let mut dirs = HashSet::new();
        dirs.insert("/".to_string());
        Self {
            dirs: Mutex::new(dirs),
            files: Mutex::new(HashSet::new()),
            fail_mkdir_once: Mutex::new(HashSet::new()),
            asked: Mutex::new(Vec::new()),
        }
    }

    fn add_file(&self, p: &str) {
        let mut f = self.files.lock().unwrap();
        f.insert(p.to_string());
    }

    fn set_fail_mkdir_once(&self, p: &str) {
        let mut s = self.fail_mkdir_once.lock().unwrap();
        s.insert(p.to_string());
    }
}

impl SftpLike for MockSftp {
    fn stat_is_file(&mut self, p: &str) -> Result<bool, String> {
        self.asked.lock().unwrap().push(format!("stat {}", p));
        let s = normalize_path(p, true);
        if self.files.lock().unwrap().contains(&s) {
            return Ok(true);
        }
        if self.dirs.lock().unwrap().contains(&s) {
            return Ok(false);
        }
        Err("noent".to_string())
    }

    fn mkdir(&mut self, p: &str, mode: i32) -> Result<(), String> {
        assert_eq!(mode, DIR_MODE);
        assert_eq!(mode, 0o755);
        self.asked.lock().unwrap().push(format!("mkdir {}", p));
        let s = normalize_path(p, true);
        let mut once = self.fail_mkdir_once.lock().unwrap();
        if once.remove(&s) {
            // simulate race: other process created the dir after our mkdir failed
            self.dirs.lock().unwrap().insert(s.clone());
            return Err("simulated mkdir failure".to_string());
        }
        self.dirs.lock().unwrap().insert(s);
        Ok(())
    }
}

#[test]
fn ensure_remote_dir_all_generic_creates_dirs() {
    let mut mock = MockSftp::new();
    // ensure /a/b/c gets created
    let res = ensure_remote_dir_all_generic(&mut mock, "/a/b/c");
    assert!(res.is_ok());
    assert!(mock.dirs.lock().unwrap().contains(&"/a".to_string()));
    assert!(mock.dirs.lock().unwrap().contains(&"/a/b".to_string()));
    assert!(mock.dirs.lock().unwrap().contains(&"/a/b/c".to_string()));
}

#[test]
fn ensure_remote_dir_all_generic_file_conflict() {
    let mut mock = MockSftp::new();
    // create a file at /a/b
    mock.add_file("/a/b");
    let res = ensure_remote_dir_all_generic(&mut mock, "/a/b/c");
    assert!(matches!(res, Err(MkdirError::ExistsAsFile(_))));
}

#[test]
fn ensure_remote_dir_all_generic_mkdir_race_then_ok() {
    let mut mock = MockSftp::new();
    // simulate mkdir failing once for /a then subsequent stat shows dir
    mock.set_fail_mkdir_once("/a");
    let res = ensure_remote_dir_all_generic(&mut mock, "/a/b");
    assert!(res.is_ok());
    assert!(mock.dirs.lock().unwrap().contains(&"/a".to_string()));
    assert!(mock.dirs.lock().unwrap().contains(&"/a/b".to_string()));
}

#[test]
fn directories_are_made_from_the_top() {
    let mut mock = MockSftp::new();
    mock.dirs.lock().unwrap().insert("/a".to_string());
    assert!(ensure_remote_dir_all_generic(&mut mock, "/a/b/").is_ok());
    let made: Vec<String> =
        mock.asked.lock().unwrap().iter().filter(|q| q.starts_with("mkdir")).cloned().collect();
    assert_eq!(made, vec!["mkdir /a/b"]);
    let mut mock = MockSftp::new();
    assert!(ensure_remote_dir_all_generic(&mut mock, "x/y").is_ok());
    let made: Vec<String> =
        mock.asked.lock().unwrap().iter().filter(|q| q.starts_with("mkdir")).cloned().collect();
    assert_eq!(made, vec!["mkdir x", "mkdir x/y"]);
}

#[test]
fn nothing_more_is_asked_for() {
    let mut mock = MockSftp::new();
    mock.dirs.lock().unwrap().insert("/a".to_string());
    mock.set_fail_mkdir_once("/a/b");
    assert!(ensure_remote_dir_all_generic(&mut mock, "/a/b").is_ok());
    assert_eq!(
        *mock.asked.lock().unwrap(),
        vec!["stat /", "stat /a", "stat /a/b", "mkdir /a/b", "stat /a/b"]
    );
}

fn seen(answer: Result<bool, &str>) -> DirAnswer {
    DirAnswer::Seen(answer.map_err(|e| e.to_string()))
}

fn made(answer: Result<(), &str>) -> DirAnswer {
    DirAnswer::Made(answer.map_err(|e| e.to_string()))
}

#[test]
fn answers_about_a_directory() {
    let (mut m, step) = DirMaker::start("a");
    assert!(matches!(step, DirStep::Look(p) if p == "a"));
    assert!(matches!(m.advance(seen(Ok(false))), DirStep::Done));

    let (mut m, _) = DirMaker::start("a");
    assert!(matches!(
        m.advance(seen(Ok(true))),
        DirStep::Fail(MkdirError::ExistsAsFile(p)) if p == "a"
    ));

    let (mut m, _) = DirMaker::start("a");
    assert!(matches!(m.advance(seen(Err("noent"))), DirStep::Create(p) if p == "a"));
    assert!(matches!(m.advance(made(Ok(()))), DirStep::Done));

    for (again, there) in [(Ok(false), true), (Ok(true), false), (Err("noent"), false)] {
        let (mut m, _) = DirMaker::start("a");
        let _ = m.advance(seen(Err("noent")));
        assert!(matches!(m.advance(made(Err("denied"))), DirStep::Look(p) if p == "a"));
        match m.advance(seen(again)) {
            DirStep::Done => assert!(there),
            DirStep::Fail(MkdirError::ExistsAsFile(p)) => {
                assert!(again == Ok(true) && p == "a")
            }
            DirStep::Fail(MkdirError::SftpError(p, e)) => {
                assert!(again.is_err() && p == "a" && e == "denied")
            }
            _ => panic!("another question"),
        }
    }
}

#[test]
fn questions_go_from_the_top_down() {
    let (mut m, step) = DirMaker::start("/a/b/c");
    assert!(matches!(step, DirStep::Look(p) if p == "/"));
    assert!(matches!(m.advance(seen(Ok(false))), DirStep::Look(p) if p == "/a"));
    assert!(matches!(m.advance(seen(Ok(false))), DirStep::Look(p) if p == "/a/b"));
    assert!(matches!(m.advance(seen(Err("noent"))), DirStep::Create(p) if p == "/a/b"));
    assert!(matches!(m.advance(made(Ok(()))), DirStep::Look(p) if p == "/a/b/c"));
    assert!(matches!(m.advance(seen(Err("noent"))), DirStep::Create(p) if p == "/a/b/c"));
    assert!(matches!(m.advance(made(Ok(()))), DirStep::Done));
    assert!(matches!(DirMaker::start("").1, DirStep::Done));
}

#[test]
fn pauses_between_tries_to_make_a_directory() {
    assert_eq!(sftp_mkdir_p(1, 0), Some(50));
    assert_eq!(sftp_mkdir_p(2, 0), Some(100));
    assert_eq!(sftp_mkdir_p(1, 200), Some(200));
    assert_eq!(sftp_mkdir_p(2, 200), Some(400));
    assert_eq!(sftp_mkdir_p(3, 200), None);
}

#[test]
fn reset_session_and_sftp_clears_options() {
    // Use simple placeholder types to ensure helper compiles and clears slots
    let mut sess: Option<u32> = Some(42);
    let mut sftp: Option<&str> = Some("s");
    reset_session_and_sftp(&mut sess, &mut sftp);
    assert!(sess.is_none());
    assert!(sftp.is_none());
}

#[test]
fn should_reset_on_session_errors() {
    let e = OpError::Transfer(TransferError::SshHandshakeFailed("x".to_string()));
    assert!(should_reset_session(&e));
    let e2 = OpError::Transfer(TransferError::WorkerNoSftp("a".to_string()));
    assert!(should_reset_session(&e2));
}

#[test]
fn should_not_reset_on_auth_or_non_conn_errors() {
    let e = OpError::Transfer(TransferError::SshAuthFailed("x".to_string()));
    assert!(!should_reset_session(&e));
    let e2 = OpError::Other("some random io error".to_string());
    assert!(!should_reset_session(&e2));
}

#[test]
fn should_reset_on_workerio_connection_phrases() {
    let e = OpError::Transfer(TransferError::WorkerIo("connection reset by peer".to_string()));
    assert!(should_reset_session(&e));
    let e2 = OpError::Other("broken pipe".to_string());
    assert!(should_reset_session(&e2));
}

#[test]
fn phrases_are_found_in_any_case() {
    for m in ["CONNECTION Aborted", "Not Connected", "unexpected EOF", "Connection Refused (os)"] {
        assert!(should_reset_session(&OpError::Other(m.to_string())), "{}", m);
        assert!(!names_connection(m), "{}", m);
        assert!(names_connection(&m.to_lowercase()), "{}", m);
    }
    let e = OpError::Transfer(TransferError::OperationFailed("connection reset".to_string()));
    assert!(!should_reset_session(&e));
}

#[test]
fn places_on_the_server() {
    assert_eq!(place_on_server("/srv", true, "a/b"), "/srv/a/b");
    assert_eq!(place_on_server("/srv/", false, "a\\b"), "/srv/a/b");
    assert_eq!(place_on_server("/srv/f", false, "a"), "/srv/f");
}

fn file(rel: &str) -> FileEntry {
    FileEntry {
        remote_full: String::new(),
        rel: rel.to_string(),
        size: Some(1),
        kind: EntryKind::File,
        local_full: Some(format!("/here/{}", rel)),
    }
}

fn directory(rel: &str) -> FileEntry {
    FileEntry { kind: EntryKind::Dir, ..file(rel) }
}

fn worker(max_retries: usize) -> UploadWorker {
    UploadWorker::new("box".to_string(), "/srv".to_string(), true, max_retries, 10)
}

fn failed(m: &str) -> UploadEvent {
    UploadEvent::Failed(m.to_string())
}

fn reported(o: &UploadOutcome) -> String {
    match &o.report {
        Some(e) => e.message(),
        None => String::new(),
    }
}

#[test]
fn an_upload_from_begin_to_end() {
    let mut w = worker(3);
    assert!(matches!(w.start(file("d/f")).step, UploadStep::TakeToken));
    assert!(matches!(w.advance(UploadEvent::TokenTaken).step, UploadStep::Connect));
    let o = w.advance(UploadEvent::Worked);
    assert!(o.release);
    assert!(matches!(o.step, UploadStep::OpenChannel));
    let o = w.advance(UploadEvent::Worked);
    assert!(!o.release);
    assert!(matches!(o.step, UploadStep::MakeDirs(p) if p == "/srv/d"));
    assert!(matches!(w.advance(UploadEvent::Worked).step, UploadStep::OpenLocal(p) if p == "/here/d/f"));
    assert!(matches!(w.advance(UploadEvent::Worked).step, UploadStep::CreateRemote(p) if p == "/srv/d/f"));
    assert!(matches!(w.advance(UploadEvent::Worked).step, UploadStep::Read));
    assert!(matches!(w.advance(UploadEvent::Got).step, UploadStep::Write));
    assert!(matches!(w.advance(UploadEvent::Worked).step, UploadStep::Read));
    let o = w.advance(UploadEvent::Ended);
    assert!(matches!(o.step, UploadStep::Over));
    assert!(o.report.is_none());
    // the session, the channel and the directory serve the next entry
    assert!(matches!(w.start(file("d/g")).step, UploadStep::OpenLocal(_)));
    assert_eq!(w.connection.session_rebuilds, 1);
    assert_eq!(w.connection.sftp_rebuilds, 1);
}

fn unconnected(e: TransferError) -> UploadEvent {
    UploadEvent::ConnectFailed(OpError::Transfer(e))
}

fn no_session() -> UploadEvent {
    unconnected(TransferError::WorkerBuildSessionFailed("h".to_string()))
}

#[test]
fn a_session_is_tried_again() {
    let mut w = worker(3);
    let _ = w.start(file("f"));
    let _ = w.advance(UploadEvent::TokenTaken);
    let o = w.advance(no_session());
    assert!(o.release);
    assert!(o.report.is_none());
    assert!(matches!(o.step, UploadStep::Wait(10)));
    assert!(matches!(w.advance(UploadEvent::Waited).step, UploadStep::TakeToken));
    assert!(matches!(w.advance(UploadEvent::TokenTaken).step, UploadStep::Connect));
    let o = w.advance(UploadEvent::Worked);
    assert!(o.release);
    let mut reports = o.report.is_some() as u32;
    for event in [
        UploadEvent::Worked,
        UploadEvent::Worked,
        UploadEvent::Worked,
        UploadEvent::Worked,
        UploadEvent::Got,
        UploadEvent::Worked,
    ] {
        reports += w.advance(event).report.is_some() as u32;
    }
    let o = w.advance(UploadEvent::Ended);
    assert!(matches!(o.step, UploadStep::Over));
    assert!(o.report.is_none());
    assert_eq!(reports, 0);
}

#[test]
fn a_session_that_does_not_come_about_loses_the_entry() {
    let mut w = worker(3);
    let mut o = w.start(file("f"));
    for pause in [10, 20] {
        assert!(matches!(o.step, UploadStep::TakeToken));
        let _ = w.advance(UploadEvent::TokenTaken);
        o = w.advance(no_session());
        assert!(o.release);
        assert!(matches!(o.step, UploadStep::Wait(ms) if ms == pause));
        o = w.advance(UploadEvent::Waited);
    }
    let _ = w.advance(UploadEvent::TokenTaken);
    let o = w.advance(no_session());
    assert!(o.release);
    assert!(matches!(o.step, UploadStep::Over));
    assert!(matches!(o.report, Some(TransferError::WorkerNoSession(a)) if a == "box"));
    assert!(matches!(w.start(file("f")).step, UploadStep::TakeToken));
}

#[test]
fn refused_keys_lose_the_entry_at_once() {
    let mut w = worker(3);
    let _ = w.start(file("f"));
    let _ = w.advance(UploadEvent::TokenTaken);
    let o = w.advance(unconnected(TransferError::SshAuthFailed("h".to_string())));
    assert!(o.release);
    assert!(matches!(o.step, UploadStep::Over));
    assert!(matches!(o.report, Some(TransferError::SshAuthFailed(a)) if a == "h"));
}

fn connected(max_retries: usize) -> UploadWorker {
    let mut w = worker(max_retries);
    let _ = w.start(directory("d"));
    let _ = w.advance(UploadEvent::TokenTaken);
    let _ = w.advance(UploadEvent::Worked);
    let _ = w.advance(UploadEvent::Worked);
    let o = w.advance(UploadEvent::Worked);
    assert!(matches!(o.step, UploadStep::Over));
    w
}

#[test]
fn a_directory_is_made_once() {
    let mut w = connected(3);
    let o = w.start(directory("d"));
    assert!(matches!(o.step, UploadStep::Over));
    assert!(o.report.is_none());
    assert!(matches!(w.start(directory("e")).step, UploadStep::MakeDirs(p) if p == "/srv/e"));
    let o = w.advance(failed("denied"));
    assert_eq!(reported(&o), "创建远端目录失败: /srv/e — denied");
}

#[test]
fn attempts_end_with_a_report() {
    let mut w = connected(2);
    assert!(matches!(w.start(file("d/f")).step, UploadStep::OpenLocal(_)));
    assert!(matches!(w.advance(failed("locked")).step, UploadStep::Wait(10)));
    assert!(matches!(w.advance(UploadEvent::Waited).step, UploadStep::OpenLocal(_)));
    let _ = w.advance(UploadEvent::Worked);
    let o = w.advance(failed("full"));
    assert!(matches!(o.step, UploadStep::Over));
    assert_eq!(
        reported(&o),
        "传输/IO 错误: 上传失败: /srv/d/f — 传输/IO 错误: 远端创建文件失败: /srv/d/f — full"
    );
    assert_eq!(o.drops, Drops::Nothing);
}

#[test]
fn two_broken_connections_in_a_row_end_the_session() {
    let mut w = connected(1);
    let _ = w.start(file("d/f"));
    let o = w.advance(failed("Broken pipe"));
    assert_eq!(o.drops, Drops::Nothing);
    assert!(w.connection.session);
    let _ = w.start(file("d/g"));
    let o = w.advance(failed("connection reset"));
    assert_eq!(o.drops, Drops::Both);
    assert!(!w.connection.session && !w.connection.channel);
    assert!(matches!(w.start(file("d/h")).step, UploadStep::TakeToken));
}

#[test]
fn a_missing_session_is_not_counted() {
    let mut w = connected(1);
    let _ = w.start(file("d/f"));
    assert_eq!(w.advance(failed("broken pipe")).drops, Drops::Nothing);
    assert_eq!(w.streak, 1);
    w.connection.drop_both();
    let _ = w.start(file("d/g"));
    let _ = w.advance(UploadEvent::TokenTaken);
    let o = w.advance(no_session());
    assert!(matches!(o.report, Some(TransferError::WorkerNoSession(_))));
    assert_eq!(o.drops, Drops::Nothing);
    assert_eq!(w.streak, 1);
}

#[test]
fn another_error_starts_the_count_anew() {
    let mut w = connected(1);
    for m in ["broken pipe", "denied", "broken pipe"] {
        let _ = w.start(file("d/f"));
        assert_eq!(w.advance(failed(m)).drops, Drops::Nothing);
    }
}

#[test]
fn no_attempt_is_a_failure() {
    let mut w = worker(0);
    let o = w.start(file("f"));
    assert!(matches!(o.step, UploadStep::Over));
    assert_eq!(
        reported(&o),
        "传输/IO 错误: 上传失败: /srv/f — 操作失败: operation failed"
    );
}

#[test]
fn conn_token_guard_drop_and_release() {
    // a token that is taken comes back when connecting fails
    let (tx, rx) = crossbeam_channel::bounded::<()>(1);
    let mut w = worker(1);
    assert!(matches!(w.start(file("f")).step, UploadStep::TakeToken));
    assert!(!w.advance(UploadEvent::TokenTaken).release);
    if w.advance(no_session()).release {
        let _ = tx.send(());
    }
    assert!(rx.try_recv().is_ok());

    // and when it works, after which nothing more is given back
    let (tx2, rx2) = crossbeam_channel::bounded::<()>(1);
    let mut w2 = worker(1);
    let _ = w2.start(file("f"));
    let _ = w2.advance(UploadEvent::TokenTaken);
    if w2.advance(UploadEvent::Worked).release {
        let _ = tx2.send(());
    }
    assert!(rx2.try_recv().is_ok());
    assert!(!w2.advance(UploadEvent::Worked).release);
    assert!(rx2.try_recv().is_err());
}
