use hostpilot::cli;
use hostpilot::commands;
use hostpilot::commands::{Link, LinkEvent, LinkStage, LinkStep, Notice, SCRIPT_END, SCRIPT_START};
use hostpilot::config::Config;
use hostpilot::server::ServerCollection;

enum Action {
    Create { alias: &'static str, remote: &'static str },
    Rename { alias: &'static str, new_alias: &'static str },
    Remove { alias: &'static str },
}

struct Case {
    actions: &'static [Action],
    expect_exists: &'static [&'static str],
    expect_not_exists: &'static [&'static str],
}

fn run_actions(collection: &mut ServerCollection, actions: &[Action]) {
    for act in actions.iter() {
        match act {
            Action::Create { alias, remote } => {
                let _ = commands::handle_create(collection, alias, remote, "server.db");
            }
            Action::Rename { alias, new_alias } => {
                let _ = commands::handle_rename(collection, alias, new_alias);
            }
            Action::Remove { alias } => {
                let _ = commands::handle_remove(collection, alias);
            }
        }
    }
}

fn assert_state(collection: &ServerCollection, exists: &[&str], not_exists: &[&str]) {
    for name in exists.iter() {
        assert!(collection.get(name).is_some(), "expected '{}' to exist", name);
    }
    for name in not_exists.iter() {
        assert!(collection.get(name).is_none(), "expected '{}' to not exist", name);
    }
}

#[test]
fn command_tests_helper_driven() {
    let cases: &[Case] = &[
        Case {
            actions: &[
                Action::Create { alias: "testalias", remote: "user@localhost:2222" },
                Action::Rename { alias: "testalias", new_alias: "newalias" },
                Action::Remove { alias: "newalias" },
            ],
            expect_exists: &[],
            expect_not_exists: &["testalias", "newalias"],
        },
        Case {
            actions: &[
                Action::Create { alias: "dupalias", remote: "u@h" },
                Action::Create { alias: "dupalias", remote: "u@h" },
            ],
            expect_exists: &["dupalias"],
            expect_not_exists: &[],
        },
        Case {
            actions: &[
                Action::Create { alias: "a1", remote: "u1@h" },
                Action::Create { alias: "a2", remote: "u2@h" },
                Action::Rename { alias: "a1", new_alias: "a2" },
            ],
            expect_exists: &["a1", "a2"],
            expect_not_exists: &[],
        },
        Case {
            actions: &[Action::Remove { alias: "nope" }],
            expect_exists: &[],
            expect_not_exists: &["nope"],
        },
        Case {
            actions: &[Action::Create { alias: "bad1", remote: "no-at-symbol" }],
            expect_exists: &[],
            expect_not_exists: &["bad1"],
        },
        Case {
            actions: &[Action::Rename { alias: "nope", new_alias: "x" }],
            expect_exists: &[],
            expect_not_exists: &["nope", "x"],
        },
        Case {
            actions: &[
                Action::Create { alias: "same", remote: "u@h" },
                Action::Rename { alias: "same", new_alias: "same" },
            ],
            expect_exists: &["same"],
            expect_not_exists: &[],
        },
        Case {
            actions: &[
                Action::Create { alias: "todel", remote: "u@h" },
                Action::Remove { alias: "todel" },
                Action::Remove { alias: "todel" },
            ],
            expect_exists: &[],
            expect_not_exists: &["todel"],
        },
    ];

    for case in cases.iter() {
        let mut collection = ServerCollection::default();
        run_actions(&mut collection, case.actions);
        // what the database gives back is looked at, as a later run would
        let stored = ServerCollection::read_from_storage(collection.save_to_storage());
        assert_state(&stored, case.expect_exists, case.expect_not_exists);
    }
}

fn done(n: Notice) -> String {
    match n {
        Notice::Done(t) => t,
        Notice::Refused(t) => panic!("refused: {}", t),
    }
}

fn refused(n: Notice) -> String {
    match n {
        Notice::Refused(t) => t,
        Notice::Done(t) => panic!("done: {}", t),
    }
}

#[test]
fn commands_tell_what_they_did() {
    let mut c = ServerCollection::default();
    assert_eq!(
        done(commands::handle_create(&mut c, "box", "me@host:2200", "/d/server.db")),
        "✅ 已创建别名 'box' 并保存到 /d/server.db"
    );
    assert_eq!(
        refused(commands::handle_create(&mut c, "box", "me@host", "/d/server.db")),
        "⚠️ 别名 'box' 已存在"
    );
    assert_eq!(
        refused(commands::handle_create(&mut c, "b2", "host", "f")),
        "new 命令参数错误: 缺少用户名，例如 user@host[:port]\n格式示例: hp new <alias> user@host[:port]"
    );
    let s = c.get("box").unwrap();
    assert_eq!((s.username.as_str(), s.address.as_str(), s.port), ("me", "host", 2200));
    commands::note_connection(&mut c, "box", 77);
    assert_eq!(
        done(commands::handle_rename(&mut c, "box", "crate")),
        "已将别名 'box' 重命名为 'crate'"
    );
    assert!(c.get("box").is_none());
    let s = c.get("crate").unwrap();
    assert_eq!(s.alias.as_deref(), Some("crate"));
    assert_eq!(s.last_connect.as_deref(), Some("77"));
    assert_eq!(s.port, 2200);
    assert_eq!(refused(commands::handle_rename(&mut c, "x", "y")), "❌ 别名 'x' 不存在");
    assert_eq!(
        refused(commands::handle_rename(&mut c, "crate", "crate")),
        "新别名 'crate' 已存在"
    );
    assert_eq!(refused(commands::handle_remove(&mut c, "x")), "别名 'x' 不存在");
    assert_eq!(commands::handle_list(&c).len(), 1);
    assert_eq!(done(commands::handle_remove(&mut c, "crate")), "✅ 已删除别名 'crate'");
    assert!(c.is_empty());
}

#[test]
fn connecting_by_alias() {
    let mut c = ServerCollection::default();
    let _ = commands::handle_create(&mut c, "a", "u@h:22", "f");
    assert_eq!(commands::connect_arguments(&c, "a").unwrap(), vec!["u@h", "-p22"]);
    assert_eq!(commands::connect_arguments(&c, "z").unwrap_err(), "❌ 别名 'z' 未找到");
    commands::note_connection_now(&mut c, "a");
    assert_eq!(c.get("a").unwrap().get_last_connect_display(), "刚刚");
    commands::note_connection(&mut c, "z", 1);
    assert!(c.get("z").is_none());
}

#[test]
fn settings_replace_what_is_given() {
    let config = Config::initial("/h", "/h/.hostpilot", 0);
    let (changed, told) =
        commands::handle_set(&config, Some("k".to_string()), None, Some("c".to_string()), None);
    assert_eq!(done(told), "✅ 配置已更新");
    assert_eq!(changed.pub_key_path, "k");
    assert_eq!(changed.server_file_path, config.server_file_path);
    assert_eq!(changed.ssh_client_app_path, "c");
    assert_eq!(changed.scp_app_path, "scp");
    assert_eq!(changed.version, Some(2));
    let (changed, _) =
        commands::handle_set(&config, None, Some("s".to_string()), None, Some("p".to_string()));
    assert_eq!(changed.server_file_path, "s");
    assert_eq!(changed.scp_app_path, "p");
}

fn started() -> Link {
    let mut c = ServerCollection::default();
    let _ = commands::handle_create(&mut c, "a", "u@h:2222", "f");
    let mut config = Config::initial("/h", "/h/.hostpilot", 0);
    config.ssh_client_app_path = "/bin/ssh".to_string();
    match commands::handle_link(&config, &c, "a") {
        Ok(link) => link,
        Err(_) => panic!("no link"),
    }
}

fn ended(step: LinkStep) -> Notice {
    match step {
        LinkStep::End(n) => n,
        _ => panic!("not at its end"),
    }
}

#[test]
fn keys_need_a_known_alias_and_a_key() {
    let c = ServerCollection::default();
    let config = Config::default();
    match commands::handle_link(&config, &c, "a") {
        Err(n) => assert_eq!(refused(n), "❌ 别名 'a' 不存在"),
        Ok(_) => panic!("unknown alias"),
    }
    let mut link = started();
    assert_eq!(
        refused(ended(link.advance(LinkEvent::KeyFound(false)))),
        "🔑 本地公钥不存在: /h/.ssh/id_rsa.pub\n请先使用 ssh-keygen 生成公钥，或在 config.json 配置 pub_key_path"
    );
    let mut link = started();
    assert!(matches!(link.advance(LinkEvent::KeyFound(true)), LinkStep::ReadKey(_)));
    assert_eq!(
        refused(ended(link.advance(LinkEvent::KeyUnreadable("denied".to_string())))),
        "❌ 读取本地公钥失败: denied"
    );
    let mut link = started();
    let _ = link.advance(LinkEvent::KeyFound(true));
    assert_eq!(
        refused(ended(link.advance(LinkEvent::KeyText(" \r\nkey".to_string())))),
        "⚠️ 公钥文件为空: /h/.ssh/id_rsa.pub"
    );
}

fn with_key() -> Link {
    let mut link = started();
    let _ = link.advance(LinkEvent::KeyFound(true));
    let step = link.advance(LinkEvent::KeyText("  ssh-rsa AAA me \r\nsecond\n".to_string()));
    assert!(matches!(step, LinkStep::FindCopyId));
    assert_eq!(link.line, "ssh-rsa AAA me");
    link
}

#[test]
fn copy_id_is_preferred() {
    let mut link = with_key();
    match link.advance(LinkEvent::CopyIdFound(true)) {
        LinkStep::RunCopyId(args) => {
            assert_eq!(args, vec!["-i", "/h/.ssh/id_rsa.pub", "-p2222", "u@h"])
        }
        _ => panic!("no copy"),
    }
    assert_eq!(
        done(ended(link.advance(LinkEvent::CopyIdRan(true, Some(0))))),
        "已使用 ssh-copy-id 安装公钥到 u@h"
    );
    assert_eq!(link.stage, LinkStage::Over);
}

#[test]
fn without_copy_id_the_script_is_sent() {
    let mut link = with_key();
    let _ = link.advance(LinkEvent::CopyIdFound(true));
    match link.advance(LinkEvent::CopyIdRan(false, None)) {
        LinkStep::RunSsh { note, program, args, input } => {
            assert_eq!(note.as_deref(), Some("ssh-copy-id 执行失败，退出码: -1"));
            assert_eq!(program, "/bin/ssh");
            assert_eq!(args, vec!["u@h", "-p2222", "bash -s"]);
            assert_eq!(input, format!("{}ssh-rsa AAA me\n{}", SCRIPT_START, SCRIPT_END));
            assert!(input.contains("\nIFS= read -r KEY\nssh-rsa AAA me\n# Use awk"));
        }
        _ => panic!("no script"),
    }
    let mut link = with_key();
    match link.advance(LinkEvent::CopyIdFound(false)) {
        LinkStep::RunSsh { note, .. } => assert!(note.is_none()),
        _ => panic!("no script"),
    }
    let mut link = with_key();
    let _ = link.advance(LinkEvent::CopyIdFound(true));
    match link.advance(LinkEvent::CopyIdNotRun("gone".to_string())) {
        LinkStep::RunSsh { note, .. } => {
            assert_eq!(note.as_deref(), Some("无法执行 ssh-copy-id: gone"))
        }
        _ => panic!("no script"),
    }
}

fn sent(event: LinkEvent) -> Notice {
    let mut link = with_key();
    let _ = link.advance(LinkEvent::CopyIdFound(false));
    ended(link.advance(event))
}

#[test]
fn what_the_script_says_is_told() {
    let out = |t: &str| LinkEvent::SshRan(true, Some(0), t.to_string());
    assert_eq!(done(sent(out("already-present\n"))), "公钥已存在于 u@h");
    assert_eq!(done(sent(out("added\n"))), "已将本地公钥添加到 u@h 的 authorized_keys");
    assert_eq!(done(sent(out(" hm \n"))), "已完成公钥安装（远端输出: hm）");
    assert_eq!(
        refused(sent(LinkEvent::SshRan(false, Some(255), " no \n".to_string()))),
        "❌ 远端处理失败，退出码: 255，输出: no"
    );
    assert_eq!(
        refused(sent(LinkEvent::SshNotRun("x".to_string()))),
        "⚠️ 无法执行 ssh: x (路径: /bin/ssh)"
    );
    assert_eq!(refused(sent(LinkEvent::SshLost("y".to_string()))), "❌ 等待 ssh 进程失败: y");
}

#[test]
fn the_script_is_complete() {
    assert!(SCRIPT_START.starts_with("\nmkdir -p ~/.ssh && chmod 700 ~/.ssh\n"));
    assert!(SCRIPT_START.ends_with("\nIFS= read -r KEY\n"));
    assert!(SCRIPT_END.contains("k_type=$(printf '%s' \"$KEY\" | awk '{print $1}')"));
    assert!(SCRIPT_END.ends_with("printf '%s\\n' \"$KEY\" >> ~/.ssh/authorized_keys\necho \"added\"\n"));
    assert_eq!(SCRIPT_START.lines().count(), 4);
    assert_eq!(SCRIPT_END.lines().count(), 9);
}

#[test]
fn options_of_a_transfer() {
    let some = |s: &str| Some(s.to_string());
    assert_eq!(cli::concurrency_of(&None), Some(8));
    assert_eq!(cli::concurrency_of(&some("auto")), None);
    assert_eq!(cli::concurrency_of(&some("x")), None);
    assert_eq!(cli::concurrency_of(&some("0")), Some(1));
    assert_eq!(cli::concurrency_of(&some("5")), Some(5));
    assert_eq!(cli::concurrency_of(&some("16")), Some(16));
    assert_eq!(cli::concurrency_of(&some("17")), Some(16));
    assert_eq!(cli::retries_of(None), 3);
    assert_eq!(cli::retries_of(Some(0)), 0);
    assert_eq!(cli::buffer_size_of(None), 1024 * 1024);
    assert_eq!(cli::buffer_size_of(Some(0)), 1024 * 1024);
    assert_eq!(cli::buffer_size_of(Some(3)), 3 * 1024 * 1024);
    assert_eq!(cli::buffer_size_of(Some(99)), 8 * 1024 * 1024);
    assert!(matches!(cli::start_without_command("-"), cli::Start::Screens));
    assert!(matches!(cli::start_without_command("a"), cli::Start::Connect(_)));
}
