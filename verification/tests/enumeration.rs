use hostpilot::server::Server;
use hostpilot::transfer::enumeration::{
    collect_dir_entries, decide_path, enumerate_local_source, enumerate_local_sources,
    make_local_entry, path_below, read_local_source, read_remote_source, remote_file, remote_match,
    unreadable_directory, unreadable_entry, Child, Enumeration, Facts, Found, LocalSource,
    PathStep, RemoteSource, RemoteWalk, Walked,
};
use hostpilot::transfer::session::{
    alias_of, connect_session, ensure_worker_session, expand_remote_tilde, ConnectFailure,
    Connection, ConnectionNeed, KeyTrial,
};
use hostpilot::transfer::{plan_download, EntryKind};
use hostpilot::util::{is_error_retriable_for_phase, RetryPhase};

#[test]
fn what_local_sources_ask_for() {
    assert!(matches!(
        read_local_source("a/b/*.txt"),
        LocalSource::Pattern { dir, pattern } if dir == "a/b" && pattern == "*.txt"
    ));
    assert!(matches!(
        read_local_source("a\\b"),
        LocalSource::Path { path, as_dir } if path == "a/b" && !as_dir
    ));
    assert!(matches!(
        read_local_source("a/b/"),
        LocalSource::Path { path, as_dir } if path == "a/b" && as_dir
    ));
    assert!(matches!(read_local_source("*"), LocalSource::Pattern { .. }));
}

#[test]
fn a_directory_with_and_without_a_slash() {
    assert_eq!(decide_path("d", false, true, true).unwrap(), PathStep::Walk);
    assert_eq!(decide_path("d/", true, true, true).unwrap(), PathStep::Walk);
    assert_eq!(decide_path("f", false, true, false).unwrap(), PathStep::Take);
    assert_eq!(
        decide_path("f/", true, true, false).unwrap_err().message(),
        "传输/IO 错误: 源以 '/' 结尾但不是目录: f/ (本地)"
    );
    assert_eq!(
        decide_path("x", false, false, false).unwrap_err().message(),
        "传输/IO 错误: 源不存在: x (本地)"
    );
}

#[test]
fn entries_below_a_directory() {
    assert_eq!(path_below("a/b", "a/b/c/d"), "c/d");
    assert_eq!(path_below("a/b", "a/b"), "");
    assert_eq!(path_below("a/b", "x"), "x");
    assert_eq!(path_below("a/b", "a/bc"), "a/bc");
    assert_eq!(path_below("/", "/x"), "x");
    let walked = vec![
        at("r", directory()),
        at("r/d", directory()),
        at("r/d/f", file(5)),
        at("r/link", Facts { is_dir: false, is_file: false, size: 5 }),
    ];
    let entries = collect_dir_entries("r", &walked);
    let shown: Vec<(String, EntryKind, Option<u64>)> =
        entries.iter().map(|e| (e.rel.clone(), e.kind, e.size)).collect();
    assert_eq!(
        shown,
        vec![
            ("d".to_string(), EntryKind::Dir, None),
            ("d/f".to_string(), EntryKind::File, Some(5)),
        ]
    );
    assert_eq!(entries[1].local_full.as_deref(), Some("r/d/f"));
    let e = make_local_entry(EntryKind::Dir, "/a", "a", None);
    assert_eq!(e.remote_full, "");
}

fn file(size: u64) -> Facts {
    Facts { is_dir: false, is_file: true, size }
}

fn directory() -> Facts {
    Facts { is_dir: true, is_file: false, size: 4096 }
}

fn at(path: &str, facts: Facts) -> Walked {
    Walked { path: path.to_string(), facts }
}

fn child(name: &str, seen: Result<Facts, &str>) -> Child {
    Child { name: name.to_string(), seen: seen.map_err(|e| e.to_string()) }
}

fn listed(children: Vec<Child>) -> Found {
    Found { listing: Some(children), here: None, walked: vec![] }
}

fn placed(here: Option<Facts>, walked: Vec<Walked>) -> Found {
    Found { listing: None, here, walked }
}

fn refusal(src: &str, found: Found) -> String {
    match enumerate_local_source(src, &found) {
        Ok(_) => String::new(),
        Err(e) => e.message(),
    }
}

#[test]
fn names_that_fit_a_pattern() {
    let entries = enumerate_local_source(
        "a/*.txt",
        &listed(vec![
            child("x.txt", Ok(file(3))),
            child("x.log", Err("gone")),
            child("d.txt", Ok(directory())),
            child("b.txt", Ok(file(1))),
        ]),
    )
    .unwrap();
    let shown: Vec<(&str, Option<&str>, EntryKind, Option<u64>)> = entries
        .iter()
        .map(|e| (e.rel.as_str(), e.local_full.as_deref(), e.kind, e.size))
        .collect();
    assert_eq!(
        shown,
        vec![
            ("x.txt", Some("a/x.txt"), EntryKind::File, Some(3)),
            ("d.txt", Some("a/d.txt"), EntryKind::Dir, None),
            ("b.txt", Some("a/b.txt"), EntryKind::File, Some(1)),
        ]
    );
    let none = "glob 无匹配项（远端），请确认模式与路径是否正确: a/*.txt";
    assert_eq!(refusal("a/*.txt", listed(vec![])), none);
    assert_eq!(refusal("a/*.txt", listed(vec![child("x.log", Ok(file(1)))])), none);
    assert_eq!(
        refusal(
            "a/*.txt",
            listed(vec![
                child("x.txt", Ok(file(1))),
                child("y.txt", Err("e")),
                child("z.txt", Err("later")),
            ]),
        ),
        "传输/IO 错误: 本地 stat 失败: a/y.txt — e"
    );
    assert_eq!(refusal("a/*.txt", placed(None, vec![])), "传输/IO 错误: 无法读取目录: a");
    assert_eq!(unreadable_directory("a").message(), "传输/IO 错误: 无法读取目录: a");
    assert_eq!(unreadable_entry("f", "e").message(), "传输/IO 错误: 本地 stat 失败: f — e");
}

#[test]
fn sources_come_one_after_another() {
    let sources: Vec<String> =
        ["r/", "/x/g", "a/*"].iter().map(|s| s.to_string()).collect();
    let tree = || vec![at("r", directory()), at("r/f", file(5))];
    let all = enumerate_local_sources(
        &sources,
        &vec![
            placed(Some(directory()), tree()),
            placed(Some(file(2)), vec![]),
            listed(vec![child("d", Ok(directory())), child("h", Ok(file(4)))]),
        ],
    )
    .unwrap()
    .unwrap();
    let names: Vec<&str> = all.entries.iter().map(|e| e.rel.as_str()).collect();
    assert_eq!(names, vec!["f", "g", "d", "h"]);
    assert_eq!(all.total_size, 11);

    let first = match enumerate_local_sources(
        &sources,
        &vec![placed(Some(file(1)), vec![]), placed(None, vec![]), listed(vec![])],
    ) {
        Ok(_) => String::new(),
        Err(e) => e.message(),
    };
    assert_eq!(first, "传输/IO 错误: 源以 '/' 结尾但不是目录: r/ (本地)");
    assert_eq!(refusal("/x/g", placed(None, vec![])), "传输/IO 错误: 源不存在: /x/g (本地)");

    let two: Vec<String> = ["a", "b"].iter().map(|s| s.to_string()).collect();
    let large = vec![placed(Some(file(u64::MAX)), vec![]), placed(Some(file(1)), vec![])];
    assert!(enumerate_local_sources(&two, &large).unwrap().is_none());
    let nothing = enumerate_local_sources(&vec![], &vec![]).unwrap().unwrap();
    assert_eq!((nothing.entries.len(), nothing.total_size), (0, 0));
    assert_eq!(Enumeration::new().total_size, 0);
}

#[test]
fn a_slash_after_a_directory_changes_no_entry() {
    let tree = || placed(Some(directory()), vec![at("r", directory()), at("r/f", file(5))]);
    let plain = enumerate_local_source("r", &tree()).unwrap();
    let slashed = enumerate_local_source("r/", &tree()).unwrap();
    assert_eq!(plain.len(), 1);
    assert_eq!(plain.len(), slashed.len());
    assert_eq!(plain[0].rel, slashed[0].rel);
    assert_eq!(plain[0].local_full, slashed[0].local_full);
}

#[test]
fn what_remote_sources_ask_for() {
    assert!(matches!(
        read_remote_source("/a/*.log"),
        RemoteSource::Pattern { dir, pattern } if dir == "/a" && pattern == "*.log"
    ));
    assert!(matches!(read_remote_source("/a/"), RemoteSource::Walk(p) if p == "/a/"));
    assert!(matches!(read_remote_source("/a"), RemoteSource::Look(p) if p == "/a"));
    let e = remote_file("/a/f", true, Some(3), false).unwrap().unwrap();
    assert_eq!((e.remote_full.as_str(), e.rel.as_str(), e.size), ("/a/f", "f", Some(3)));
    assert!(remote_file("/a/d", false, None, true).unwrap().is_none());
}

#[test]
fn directories_do_not_go_onto_files() {
    let text = "操作失败: 目标为文件路径，但源为 glob 或目录递归；请将目标设为目录或去除 glob/尾部/";
    for root in ["/a/d/", "/a/*"] {
        assert_eq!(plan_download(root, false, None).unwrap_err().message(), text);
        assert!(plan_download(root, true, None).is_ok());
    }
    assert!(plan_download("/a/d", false, None).is_ok());
    let e = match remote_file("/a/d", false, None, false) {
        Ok(_) => panic!("taken"),
        Err(e) => e,
    };
    assert_eq!(e.message(), text);
    assert!(remote_file("/a/f", true, None, true).unwrap().is_some());
}

#[test]
fn remote_names_that_fit_a_pattern() {
    assert!(remote_match("/a", "*", ".", false, None).is_none());
    assert!(remote_match("/a", "*", "..", false, None).is_none());
    assert!(remote_match("/a", "*.log", "x.txt", true, None).is_none());
    let e = remote_match("/a/", "*.log", "x.log", true, Some(1)).unwrap();
    assert_eq!((e.remote_full.as_str(), e.rel.as_str(), e.kind), ("/a/x.log", "x.log", EntryKind::File));
    let e = remote_match("/a", "*", "d", false, Some(1)).unwrap();
    assert_eq!((e.kind, e.size), (EntryKind::Dir, None));
}

#[test]
fn a_remote_walk_goes_level_by_level() {
    let mut walk = RemoteWalk::new("/r/");
    let top = walk.next().unwrap();
    assert_eq!((top.full.as_str(), top.rel.as_str()), ("/r/", ""));
    let d = walk.visit(&top, "d", false, Some(4)).unwrap();
    assert_eq!((d.remote_full.as_str(), d.rel.as_str(), d.size), ("/r/d", "d", None));
    let f = walk.visit(&top, "f", true, Some(4)).unwrap();
    assert_eq!((f.remote_full.as_str(), f.rel.as_str(), f.size), ("/r/f", "f", Some(4)));
    assert!(walk.visit(&top, "..", false, None).is_none());
    let below = walk.next().unwrap();
    assert_eq!(below.rel, "d");
    let g = walk.visit(&below, "g", true, None).unwrap();
    assert_eq!((g.remote_full.as_str(), g.rel.as_str()), ("/r/d/g", "d/g"));
    assert!(walk.next().is_none());
}

#[test]
fn the_tilde_is_the_home() {
    let out = "/home/me\nnoise\n";
    assert_eq!(expand_remote_tilde(out, "~"), "/home/me");
    assert_eq!(expand_remote_tilde(out, "~/"), "/home/me");
    assert_eq!(expand_remote_tilde(out, "~/a/b"), "/home/me/a/b");
    assert_eq!(expand_remote_tilde("/\n", "~/a"), "/a");
    assert_eq!(expand_remote_tilde(out, "rel"), "/home/me/rel");
    assert_eq!(expand_remote_tilde(out, "/abs"), "/abs");
    assert_eq!(expand_remote_tilde("", "~/a"), "~/a");
}

#[test]
fn keys_are_tried_in_order() {
    let mut t = KeyTrial::new(Some("/h"));
    assert_eq!(t.next(false).as_deref(), Some("/h/.ssh/id_ed25519"));
    assert_eq!(t.next(false).as_deref(), Some("/h/.ssh/id_rsa"));
    assert_eq!(t.next(true), None);
    assert_eq!(t.next(false).as_deref(), Some("/h/.ssh/id_ecdsa"));
    assert_eq!(t.next(false), None);
    assert_eq!(KeyTrial::new(None).next(false), None);
}

#[test]
fn failures_to_connect() {
    let all = || {
        vec![
            (ConnectFailure::Lookup("l".to_string()), "l"),
            (ConnectFailure::NoAddress, "无法解析地址: h"),
            (ConnectFailure::Reach("r".to_string()), "r"),
            (ConnectFailure::Session, "无法创建 SSH Session: h"),
            (ConnectFailure::Handshake, "SSH 握手失败: h"),
            (ConnectFailure::Keys, "SSH 认证失败: h"),
        ]
    };
    for (f, text) in all() {
        assert_eq!(connect_session("h", f).message(), text);
    }
    for (f, _) in all() {
        let expected = match f {
            ConnectFailure::Handshake => "SSH 握手失败: h",
            ConnectFailure::Keys => "SSH 认证失败: h",
            _ => "工作线程构建会话失败: h",
        };
        assert_eq!(ensure_worker_session("h", f).message(), expected);
    }
}

#[test]
fn refused_keys_are_not_tried_again() {
    let keys = ensure_worker_session("h", ConnectFailure::Keys);
    assert!(!is_error_retriable_for_phase(&keys, RetryPhase::PreTransfer));
    assert!(!is_error_retriable_for_phase(&keys, RetryPhase::DuringTransfer));
    let shaken = ensure_worker_session("h", ConnectFailure::Handshake);
    assert!(is_error_retriable_for_phase(&shaken, RetryPhase::PreTransfer));
}

#[test]
fn sessions_come_before_channels() {
    let mut c = Connection::new();
    assert_eq!(c.ensure_session_and_sftp(), ConnectionNeed::Session);
    c.session_built();
    assert_eq!(c.ensure_session_and_sftp(), ConnectionNeed::Channel);
    c.channel_built();
    assert_eq!(c.ensure_session_and_sftp(), ConnectionNeed::Nothing);
    c.drop_channel();
    c.channel_built();
    assert_eq!((c.session_rebuilds, c.sftp_rebuilds), (1, 2));
    c.drop_both();
    assert_eq!(c.ensure_session_and_sftp(), ConnectionNeed::Session);
}

#[test]
fn aliases_in_messages() {
    let mut s = Server {
        id: None,
        alias: None,
        username: "u".to_string(),
        address: "h".to_string(),
        port: 22,
        last_connect: None,
    };
    assert_eq!(alias_of(&s), "<unknown>");
    s.alias = Some("a".to_string());
    assert_eq!(alias_of(&s), "a");
}
