use hostpilot::commands::handle_create;
use hostpilot::error::OpError;
use hostpilot::json::JsonField;
use hostpilot::server::ServerCollection;
use hostpilot::transfer::run::{check_discovered, TsEvent, TsRun, TsStep};
use hostpilot::transfer::session::ConnectFailure;
use hostpilot::transfer::workers::WorkerMetrics;
use hostpilot::transfer::{
    calc_download_workers, calc_upload_workers, finalize_transfer, find_local_target, find_route,
    handle_ts, local_parent_seen, local_target_created, plan_download, plan_upload,
    prepare_local_target, prepare_remote_target, remote_parent_seen, remote_target_created,
    server_address, wants_working_directory, Direction, HandleTsArgs, Sizes, TargetStep, Written,
};
use hostpilot::TransferError;

fn args(sources: &[&str], target: &str) -> HandleTsArgs {
    HandleTsArgs {
        sources: sources.iter().map(|s| s.to_string()).collect(),
        target: target.to_string(),
        verbose: false,
        json: false,
        quiet: false,
        concurrency: Some(4),
        max_retries: 3,
        buf_size: 1024,
    }
}

fn servers() -> ServerCollection {
    let mut c = ServerCollection::default();
    let _ = handle_create(&mut c, "box", "me@host:2200", "f");
    c
}

#[test]
fn requests_that_are_accepted() {
    assert_eq!(handle_ts(&args(&["a", "b/*.txt"], "box:/x")).unwrap(), Direction::Upload);
    assert_eq!(handle_ts(&args(&["box:/x/*"], ".")).unwrap(), Direction::Download);
    assert_eq!(handle_ts(&args(&["C:\\a"], "box:~")).unwrap(), Direction::Upload);
}

#[test]
fn requests_that_are_refused() {
    for (s, t) in [
        (vec!["a"], "b"),
        (vec!["box:/a"], "box:/b"),
        (vec![], "b"),
    ] {
        assert!(matches!(handle_ts(&args(&s, t)), Err(TransferError::InvalidDirection)));
    }
    assert!(matches!(
        handle_ts(&args(&["a", "x/*/y"], "box:/b")),
        Err(TransferError::UnsupportedGlobUsage(p)) if p == "x/*/y"
    ));
    assert!(matches!(
        handle_ts(&args(&["a"], "box:/b/*")),
        Err(TransferError::UnsupportedGlobUsage(p)) if p == "box:/b/*"
    ));
    assert!(matches!(
        handle_ts(&args(&[], "box:/b")),
        Err(TransferError::MissingLocalSource(m)) if m == "ts 上传需要至少一个本地源"
    ));
    assert!(matches!(
        handle_ts(&args(&["box:/a", "box:/c"], "b")),
        Err(TransferError::DownloadMultipleRemoteSources(_))
    ));
}

#[test]
fn routes_to_servers() {
    let c = servers();
    let r = match find_route(&c, "box:~/x") {
        Ok(r) => r,
        Err(e) => panic!("{}", e.message()),
    };
    assert_eq!((r.addr.as_str(), r.path.as_str()), ("host:2200", "~/x"));
    assert_eq!(r.server.username, "me");
    assert_eq!(server_address(&r.server), "host:2200");
    assert!(matches!(
        find_route(&c, "nope:/x"),
        Err(OpError::Transfer(TransferError::AliasNotFound(a))) if a == "nope"
    ));
    assert!(matches!(find_route(&c, "box:"), Err(OpError::Other(_))));
}

#[test]
fn local_targets() {
    assert!(wants_working_directory(".") && wants_working_directory("./"));
    assert!(!wants_working_directory("./a"));
    assert_eq!(find_local_target(".", "/w"), "/w");
    assert_eq!(find_local_target("./", "/w"), "/w");
    assert_eq!(find_local_target("a/b", "/w"), "./a/b");
    for kept in ["/a", "./a", "../a", "..", "C:\\a", "C:/a"] {
        assert_eq!(find_local_target(kept, "/w"), kept);
    }
    assert_eq!(find_local_target("~/a", "/w"), "./~/a");
}

#[test]
fn remote_targets() {
    assert!(matches!(prepare_remote_target("/a/", true, Some(false)), TargetStep::Ready(true)));
    for seen in [Some(true), None] {
        assert!(matches!(
            prepare_remote_target("/a/", true, seen),
            TargetStep::Fail(TransferError::RemoteTargetMustBeDir(p)) if p == "/a/"
        ));
    }
    assert!(matches!(prepare_remote_target("/a", false, Some(true)), TargetStep::Ready(false)));
    assert!(matches!(prepare_remote_target("/a", false, Some(false)), TargetStep::Ready(true)));
    assert!(matches!(
        prepare_remote_target("/a/b", false, None),
        TargetStep::LookAtParent(p) if p == "/a"
    ));
    assert!(matches!(
        prepare_remote_target("/", false, None),
        TargetStep::Fail(TransferError::OperationFailed(m)) if m == "无效远端路径: /"
    ));
    assert!(matches!(remote_parent_seen("/a", true), TargetStep::Create));
    assert!(matches!(
        remote_parent_seen("/a", false),
        TargetStep::Fail(TransferError::RemoteTargetParentMissing(p)) if p == "/a"
    ));
    assert!(matches!(remote_target_created("/a/b", None), TargetStep::Ready(true)));
    assert!(matches!(
        remote_target_created("/a/b", Some("x".to_string())),
        TargetStep::Fail(TransferError::CreateRemoteDirFailed(p, e)) if p == "/a/b" && e == "x"
    ));
}

#[test]
fn targets_on_this_machine() {
    assert!(matches!(prepare_local_target("/a/", true, true, true), TargetStep::Ready(true)));
    for (found, dir) in [(true, false), (false, false)] {
        assert!(matches!(
            prepare_local_target("/a/", true, found, dir),
            TargetStep::Fail(TransferError::LocalTargetMustBeDir(_))
        ));
    }
    assert!(matches!(prepare_local_target("/a", false, true, false), TargetStep::Ready(false)));
    assert!(matches!(
        prepare_local_target("/a/b", false, false, false),
        TargetStep::LookAtParent(p) if p == "/a"
    ));
    assert!(matches!(prepare_local_target("a", false, false, false), TargetStep::Create));
    assert!(matches!(local_parent_seen("/a", true), TargetStep::Create));
    assert!(matches!(
        local_parent_seen("/a", false),
        TargetStep::Fail(TransferError::LocalTargetParentMissing(_))
    ));
    assert!(matches!(
        local_target_created("/a", Some("x".to_string())),
        TargetStep::Fail(TransferError::CreateLocalDirFailed(_, _))
    ));
    assert!(matches!(local_target_created("/a", None), TargetStep::Ready(true)));
}

#[test]
fn numbers_of_workers() {
    assert_eq!(calc_upload_workers(0, 16, 5), 1);
    assert_eq!(calc_upload_workers(8, 16, 5), 5);
    assert_eq!(calc_upload_workers(99, 16, 50), 16);
    assert_eq!(calc_upload_workers(8, 16, 0), 1);
    assert_eq!(calc_download_workers(0, 16), 8);
    assert_eq!(calc_download_workers(3, 16), 3);
    assert_eq!(calc_download_workers(99, 16), 16);
}

#[test]
fn plans_of_uploads() {
    assert_eq!(
        plan_upload("/a", true, 10, false, 0, Some(8)).unwrap(),
        Sizes { shown: 8, workers: 8, queue: 11, handshakes: 4 }
    );
    assert_eq!(
        plan_upload("/a", true, 100, false, 0, Some(2)).unwrap(),
        Sizes { shown: 2, workers: 2, queue: 9, handshakes: 2 }
    );
    assert_eq!(
        plan_upload("/a", true, 100, false, 100, None).unwrap(),
        Sizes { shown: 10, workers: 10, queue: 41, handshakes: 4 }
    );
    assert!(plan_upload("/a", false, 1, true, 0, Some(1)).is_ok());
    assert!(plan_upload("/a", false, 0, false, 0, Some(1)).is_ok());
    for (n, lone) in [(2, true), (1, false)] {
        assert!(matches!(
            plan_upload("/a", false, n, lone, 0, Some(1)),
            Err(TransferError::RemoteTargetMustBeDir(p)) if p == "/a"
        ));
    }
}

#[test]
fn plans_of_downloads() {
    assert_eq!(
        plan_download("/a", true, Some(3)).unwrap(),
        Sizes { shown: 3, workers: 3, queue: 12, handshakes: 3 }
    );
    assert_eq!(
        plan_download("/a", false, None).unwrap(),
        Sizes { shown: 8, workers: 8, queue: 32, handshakes: 8 }
    );
    assert_eq!(plan_download("/a", true, Some(0)).unwrap().queue, 4);
    for root in ["/a/*", "/a/"] {
        assert!(matches!(plan_download(root, false, Some(1)), Err(TransferError::OperationFailed(_))));
        assert!(plan_download(root, true, Some(1)).is_ok());
    }
}

#[test]
fn what_is_told_at_the_end() {
    let m = WorkerMetrics { bytes: 7, session_rebuilds: 2, sftp_rebuilds: 3 };
    let f = finalize_transfer(false, true, 7, 1, m, 4, Written::At("/l/f.jsonl".to_string()));
    assert!(f.summary);
    assert_eq!(f.notice.as_deref(), Some("失败清单已写入: /l/f.jsonl"));
    assert!(f.warning.is_none());
    let fields = f.fields.unwrap();
    let names: Vec<&str> = fields.iter().map(|x| x.0.as_str()).collect();
    assert_eq!(
        names,
        vec!["total_bytes", "files", "session_rebuilds", "sftp_rebuilds", "failures", "failures_path"]
    );
    assert!(matches!(fields[0].1, JsonField::Count(7)));
    assert!(matches!(fields[4].1, JsonField::Count(4)));
    assert!(matches!(&fields[5].1, JsonField::Text(p) if p == "/l/f.jsonl"));
    let f = finalize_transfer(true, false, 7, 1, m, 4, Written::At("p".to_string()));
    assert!(!f.summary && f.notice.is_none() && f.fields.is_none());
    let f = finalize_transfer(true, true, 7, 1, m, 4, Written::Failed("p".to_string(), "e".to_string()));
    assert_eq!(f.warning.as_deref(), Some("warning: could not write failures to p: e"));
    assert_eq!(f.fields.unwrap().len(), 5);
    assert!(finalize_transfer(false, false, 0, 0, m, 0, Written::Nothing).notice.is_none());
}

fn run(sources: &[&str], target: &str) -> TsRun {
    match TsRun::new(&args(sources, target), &servers(), "/w") {
        Ok(r) => r,
        Err(e) => panic!("{}", e.message()),
    }
}

fn home() -> TsEvent {
    TsEvent::HomePrinted("/home/me\n".to_string())
}

fn seen(found: bool, is_dir: bool) -> TsEvent {
    TsEvent::Seen { found, is_dir }
}

#[test]
fn an_upload_gets_started() {
    let mut r = run(&["a"], "box:~/up");
    assert_eq!(r.route.addr, "host:2200");
    assert!(matches!(r.advance(TsEvent::Connected), TsStep::PrintHome));
    assert!(matches!(r.advance(home()), TsStep::Enumerate));
    assert!(matches!(
        r.advance(TsEvent::Enumerated { entries: 3, lone_file: true, total_size: 9 }),
        TsStep::OpenChannel(a) if a == "host:2200"
    ));
    assert!(matches!(r.advance(TsEvent::Connected), TsStep::Look(p) if p == "/home/me/up"));
    assert!(matches!(r.advance(seen(false, false)), TsStep::Look(p) if p == "/home/me"));
    assert!(matches!(r.advance(seen(true, true)), TsStep::MakeDir(p) if p == "/home/me/up"));
    match r.advance(TsEvent::Made) {
        TsStep::Upload { base, is_dir, sizes } => {
            assert_eq!(base, "/home/me/up");
            assert!(is_dir);
            assert_eq!(sizes, Sizes { shown: 4, workers: 3, queue: 4, handshakes: 3 });
        }
        _ => panic!("not started"),
    }
}

#[test]
fn an_upload_takes_any_number_of_workers() {
    let mut many = args(&["a"], "box:~/up");
    many.concurrency = Some(usize::MAX);
    let mut r = match TsRun::new(&many, &servers(), "/w") {
        Ok(r) => r,
        Err(e) => panic!("{}", e.message()),
    };
    let _ = r.advance(TsEvent::Connected);
    let _ = r.advance(home());
    let _ = r.advance(TsEvent::Enumerated { entries: 3, lone_file: true, total_size: 9 });
    let _ = r.advance(TsEvent::Connected);
    match r.advance(seen(true, true)) {
        TsStep::Upload { sizes, .. } => assert_eq!(sizes.workers, 3),
        _ => panic!("not started"),
    }
}

#[test]
fn a_download_gets_started() {
    let mut r = run(&["box:logs/*.log"], "down");
    let _ = r.advance(TsEvent::Connected);
    assert!(matches!(r.advance(home()), TsStep::Look(p) if p == "./down"));
    assert!(matches!(r.advance(seen(true, true)), TsStep::OpenChannel(_)));
    match r.advance(TsEvent::Connected) {
        TsStep::Download { root, target, is_dir, sizes } => {
            assert_eq!((root.as_str(), target.as_str()), ("/home/me/logs/*.log", "./down"));
            assert!(is_dir);
            assert_eq!(sizes.workers, 4);
        }
        _ => panic!("not started"),
    }
    let mut r = run(&["box:/a"], "x/y");
    let _ = r.advance(TsEvent::Connected);
    let _ = r.advance(home());
    assert!(matches!(r.advance(seen(false, false)), TsStep::Look(p) if p == "./x"));
    assert!(matches!(r.advance(seen(true, true)), TsStep::MakeDir(p) if p == "./x/y"));
    assert!(matches!(r.advance(TsEvent::Made), TsStep::OpenChannel(_)));
}

fn failure(step: TsStep) -> String {
    match step {
        TsStep::Fail(e) => e.message(),
        _ => panic!("no failure"),
    }
}

#[test]
fn retry_option_triggers_and_returns_err() {
    // nothing listens where the server should be
    let mut c = ServerCollection::default();
    let _ = handle_create(&mut c, "fakehost", "nobody@127.0.0.1:65000", "f");
    let mut r = match TsRun::new(&args(&["hello.txt"], "fakehost:~/upload_dest"), &c, "/w") {
        Ok(r) => r,
        Err(e) => panic!("{}", e.message()),
    };
    assert_eq!(r.route.addr, "127.0.0.1:65000");
    let step = r.advance(TsEvent::ConnectFailed(ConnectFailure::Reach("refused".to_string())));
    assert!(matches!(step, TsStep::Fail(_)), "expected handle_ts to return Err when SSH unavailable");
    assert_eq!(failure(step), "refused");
}

#[test]
fn transfers_that_fail_early() {
    let mut r = run(&["a"], "box:/x");
    assert_eq!(
        failure(r.advance(TsEvent::ConnectFailed(ConnectFailure::Keys))),
        "SSH 认证失败: host:2200"
    );
    let mut r = run(&["a"], "box:/x");
    let _ = r.advance(TsEvent::Connected);
    assert_eq!(failure(r.advance(TsEvent::HomeFailed("h".to_string()))), "h");
    let mut r = run(&["a"], "box:/x");
    let _ = r.advance(TsEvent::Connected);
    let _ = r.advance(home());
    assert_eq!(
        failure(r.advance(TsEvent::EnumerateFailed(OpError::Other("gone".to_string())))),
        "gone"
    );
    let mut r = run(&["a"], "box:/x");
    let _ = r.advance(TsEvent::Connected);
    let _ = r.advance(home());
    let _ = r.advance(TsEvent::Enumerated { entries: 1, lone_file: false, total_size: 0 });
    assert_eq!(failure(r.advance(TsEvent::ChannelFailed)), "创建 SFTP 会话失败: host:2200");
    let mut r = run(&["a"], "box:/x");
    let _ = r.advance(TsEvent::Connected);
    let _ = r.advance(home());
    let _ = r.advance(TsEvent::Enumerated { entries: 1, lone_file: false, total_size: 0 });
    let _ = r.advance(TsEvent::Connected);
    assert_eq!(
        failure(r.advance(seen(true, false))),
        "目标必须存在且为目录: /x (远端)"
    );
    let mut r = run(&["box:/a/"], "t");
    let _ = r.advance(TsEvent::Connected);
    let _ = r.advance(home());
    assert!(failure(r.advance(seen(true, false))).contains("目标为文件路径"));
    let mut r = run(&["box:/a/"], "t/u");
    let _ = r.advance(TsEvent::Connected);
    let _ = r.advance(home());
    let _ = r.advance(seen(false, false));
    let _ = r.advance(seen(true, true));
    assert_eq!(
        failure(r.advance(TsEvent::MakeFailed("full".to_string()))),
        "创建目标目录失败: ./t/u (本地) — full"
    );
    assert!(matches!(
        TsRun::new(&args(&["a"], "nope:/x"), &servers(), "/w"),
        Err(OpError::Transfer(TransferError::AliasNotFound(_)))
    ));
}

#[test]
fn patterns_that_fit_nothing() {
    assert!(check_discovered("/a/*", 1).is_ok());
    assert!(check_discovered("/a", 0).is_ok());
    assert!(matches!(
        check_discovered("/a/*", 0),
        Err(TransferError::GlobNoMatches(p)) if p == "/a/*"
    ));
}
