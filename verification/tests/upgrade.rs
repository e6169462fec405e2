use hostpilot::config::Config;
use hostpilot::ops;
use hostpilot::ops::{
    CopyStep, DirEvent, DirPrep, DirStep, Upgrade, UpgradeEvent, UpgradeNeed, UpgradeStep,
};

fn prep() -> DirPrep {
    ops::ensure_hostpilot_dir("/home/u")
}

fn seen(legacy: bool, present: bool) -> DirEvent {
    DirEvent::Seen { legacy, present }
}

#[test]
fn a_directory_that_is_there_is_used() {
    for legacy in [true, false] {
        let mut p = prep();
        let (told, step) = p.advance(seen(legacy, true));
        assert!(told.is_none());
        assert!(matches!(step, DirStep::Look(d) if d == "/home/u/.hostpilot"));
        let (_, step) = p.advance(DirEvent::There(true));
        assert!(matches!(step, DirStep::Ready(d) if d == "/home/u/.hostpilot"));
    }
}

#[test]
fn a_missing_directory_is_created() {
    let mut p = prep();
    let _ = p.advance(seen(false, false));
    let (_, step) = p.advance(DirEvent::There(false));
    assert!(matches!(step, DirStep::Create(d) if d == "/home/u/.hostpilot"));
    let (_, step) = p.advance(DirEvent::Worked);
    assert!(matches!(step, DirStep::Ready(_)));
    let mut p = prep();
    let _ = p.advance(seen(false, false));
    let _ = p.advance(DirEvent::There(false));
    let (_, step) = p.advance(DirEvent::Failed("denied".to_string()));
    assert!(matches!(step, DirStep::Fail(e) if e == "denied"));
}

#[test]
fn a_legacy_directory_is_taken_over() {
    let mut p = prep();
    let (told, step) = p.advance(seen(true, false));
    assert_eq!(
        told.as_deref(),
        Some("🔁 Migrating legacy config directory: /home/u/.psm -> /home/u/.hostpilot")
    );
    assert!(matches!(step, DirStep::Rename(a, b) if a == "/home/u/.psm" && b == "/home/u/.hostpilot"));
    let (told, step) = p.advance(DirEvent::Worked);
    assert_eq!(told.as_deref(), Some("   ✅ Renamed legacy directory to /home/u/.hostpilot"));
    assert!(matches!(step, DirStep::Look(_)));
    let mut p = prep();
    let _ = p.advance(seen(true, false));
    let (told, step) = p.advance(DirEvent::Failed("busy".to_string()));
    assert_eq!(
        told.as_deref(),
        Some("   ⚠️  Rename failed (busy), falling back to recursive copy...")
    );
    assert!(matches!(step, DirStep::CopyAndRemove(_, _)));
    let (told, step) = p.advance(DirEvent::Worked);
    assert_eq!(told.as_deref(), Some("   ✅ Copied legacy directory to /home/u/.hostpilot"));
    assert!(matches!(step, DirStep::Look(_)));
    let mut p = prep();
    let _ = p.advance(seen(true, false));
    let _ = p.advance(DirEvent::Failed("busy".to_string()));
    let (_, step) = p.advance(DirEvent::Failed("full".to_string()));
    assert!(matches!(step, DirStep::Fail(e) if e == "full"));
}

#[test]
fn links_are_not_copied() {
    assert_eq!(ops::copy_step(true, false), CopyStep::Descend);
    assert_eq!(ops::copy_step(false, true), CopyStep::CopyFile);
    assert_eq!(ops::copy_step(false, false), CopyStep::Skip);
}

#[test]
fn where_logs_go() {
    assert_eq!(ops::find_logs_dir(Some("/d"), "/x/server.db", "/h"), "/d/logs");
    assert_eq!(ops::find_logs_dir(None, "/x/server.db", "/h"), "/x/logs");
    assert_eq!(ops::find_logs_dir(None, "", "/h"), "/h/.hostpilot/logs");
    assert_eq!(ops::log_level(true), "debug");
    assert_eq!(ops::log_level(false), "warn");
}

#[test]
fn facts_of_a_configuration() {
    let f = match ops::read_facts("{\"version\": 2, \"server_file_path\": \"/x/server.json\"}") {
        Ok(f) => f,
        Err(e) => panic!("{}", e),
    };
    assert_eq!(f.version, Some(2));
    assert_eq!(f.server_file_path.as_deref(), Some("/x/server.json"));
    assert!(!ops::is_outdated(&f));
    assert_eq!(ops::database_of(&f, "/d", false), "/x/server.db");
    let w = match ops::read_facts("{\"server_file_path\":\"C:\\\\x\\\\server.json\"}") {
        Ok(w) => w,
        Err(e) => panic!("{}", e),
    };
    assert_eq!(ops::database_of(&w, "C:/d", true), "C:/x/server.db");
    for text in ["{}", "[]", "3", "{\"version\": \"2\"}", "{\"version\": -2}", "{\"version\": 2.5}"] {
        match ops::read_facts(text) {
            Ok(f) => {
                assert_eq!(f.version, None, "{}", text);
                assert!(ops::is_outdated(&f));
                assert_eq!(ops::database_of(&f, "/d", false), "/d/server.db");
            }
            Err(e) => panic!("{}", e),
        }
    }
    match ops::read_facts("{\"version\": 4294967297}") {
        Ok(f) => assert!(ops::is_outdated(&f)),
        Err(e) => panic!("{}", e),
    }
    match ops::read_facts("{version") {
        Ok(_) => panic!("not JSON"),
        Err(e) => assert_eq!(e, "key must be a string at line 1 column 2"),
    }
}

#[test]
fn when_a_start_upgrades() {
    let facts = |text: &str| match ops::read_facts(text) {
        Ok(f) => f,
        Err(e) => panic!("{}", e),
    };
    let old = facts("{\"version\":1}");
    let new = facts("{\"version\":2}");
    assert_eq!(ops::check_and_upgrade_if_needed(&new, true, Some(2)), UpgradeNeed::Current);
    assert_eq!(ops::check_and_upgrade_if_needed(&new, true, None), UpgradeNeed::DatabaseFound);
    assert_eq!(ops::check_and_upgrade_if_needed(&new, false, None), UpgradeNeed::Current);
    assert_eq!(ops::check_and_upgrade_if_needed(&old, true, Some(1)), UpgradeNeed::Outdated);
    let (before, after) = ops::upgrade_lines(UpgradeNeed::DatabaseFound, "/x/server.db");
    assert_eq!(
        before.as_deref(),
        Some("   ⚠️  Detected existing server.db at /x/server.db, running upgrade to update config.json...")
    );
    assert!(after.is_none());
    let (before, after) = ops::upgrade_lines(UpgradeNeed::Outdated, "");
    assert!(before.unwrap().contains("Detected outdated configuration"));
    assert!(after.unwrap().contains("Automatic upgrade completed"));
}

const SERVERS: &str = "{\"hosts\": {\
    \"b\": {\"username\": \"u\", \"address\": \"h\", \"port\": 22, \"last_connect\": \"5\"},\
    \"a\": {\"username\": \"v\", \"address\": \"i\", \"port\": 65558},\
    \"c\": {\"username\": \"w\", \"port\": 1},\
    \"d\": 7\
}}";

#[test]
fn servers_of_earlier_releases() {
    let c = match ops::read_legacy_hosts(SERVERS) {
        Ok(c) => c,
        Err(e) => panic!("{}", e),
    };
    assert_eq!(c.hosts().len(), 2);
    let b = c.get("b").unwrap();
    assert_eq!((b.username.as_str(), b.address.as_str(), b.port), ("u", "h", 22));
    assert_eq!(b.alias.as_deref(), Some("b"));
    assert!(b.last_connect.is_none());
    assert_eq!(c.get("a").unwrap().port, 22);
    for text in ["{}", "{\"hosts\": []}", "null"] {
        match ops::read_legacy_hosts(text) {
            Ok(c) => assert!(c.is_empty()),
            Err(e) => panic!("{}", e),
        }
    }
    assert!(ops::read_legacy_hosts("").is_err());
}

#[test]
fn backups_of_what_exists() {
    let json = Some("/x/server.json".to_string());
    let db = Some("/x/server.db".to_string());
    let all = ops::backup_plan("/d", "S", true, &json, true, &db, true);
    let shown: Vec<(String, String)> = all.iter().map(|b| (b.from.clone(), b.to.clone())).collect();
    let pair = |a: &str, b: &str| (a.to_string(), b.to_string());
    assert_eq!(
        shown,
        vec![
            pair("/d/config.json", "/d/backups/config_S.json"),
            pair("/x/server.json", "/d/backups/server_S.json"),
            pair("/x/server.db", "/d/backups/server_S.db"),
        ]
    );
    assert_eq!(all[0].message, "   📋 Backed up config.json to: /d/backups/config_S.json");
    assert!(ops::backup_plan("/d", "S", false, &json, false, &None, true).is_empty());
    let now = ops::backup_existing_files_with_paths("/d", true, &None, false, &None, false);
    assert_eq!(now.len(), 1);
    let name = now[0].to.strip_prefix("/d/backups/config_").unwrap();
    let stamp = name.strip_suffix(".json").unwrap();
    assert_eq!(stamp.len(), 15);
    assert_eq!(stamp.as_bytes()[8], b'_');
    assert!(stamp.bytes().enumerate().all(|(i, c)| i == 8 || c.is_ascii_digit()));
}

fn begun(config: &str) -> (Upgrade, Vec<String>, UpgradeStep) {
    let mut u = ops::upgrade_config_and_data("/d", false);
    let (told, step) = u.advance(UpgradeEvent::ConfigText(config.to_string()));
    (u, told, step)
}

#[test]
fn an_upgrade_from_begin_to_end() {
    let (mut u, told, step) = begun("{\"server_file_path\": \"/x/server.json\", \"version\": 1}");
    assert_eq!(told.len(), 2);
    match step {
        UpgradeStep::Backup { server_json, server_db } => {
            assert_eq!(server_json.as_deref(), Some("/x/server.json"));
            assert_eq!(server_db, "/x/server.db");
        }
        _ => panic!("no backup"),
    }
    let (_, step) = u.advance(UpgradeEvent::Worked);
    assert!(matches!(step, UpgradeStep::ReadServers(p) if p == "/x/server.json"));
    let (told, step) = u.advance(UpgradeEvent::ServersText(Some(SERVERS.to_string())));
    assert_eq!(told[0], "   📦 Migrated 2 servers from server.json");
    assert!(matches!(step, UpgradeStep::Store(p) if p == "/x/server.db"));
    assert_eq!(u.servers.hosts().len(), 2);
    let (_, step) = u.advance(UpgradeEvent::Worked);
    match step {
        UpgradeStep::WriteConfig { server_file_path, version } => {
            assert_eq!((server_file_path.as_str(), version), ("/x/server.db", 2));
            let c = ops::upgraded_config(Config::default(), server_file_path, version);
            assert_eq!(c.version, Some(2));
            assert_eq!(c.server_file_path, "/x/server.db");
        }
        _ => panic!("no configuration"),
    }
    let (told, step) = u.advance(UpgradeEvent::Worked);
    assert!(matches!(step, UpgradeStep::Done));
    assert_eq!(told[1], "📋 Current protocol version: 2");
    assert_eq!(told[2], "💾 Migrated 2 servers to SQLite database");
}

#[test]
fn upgrades_that_need_less_or_fail() {
    let (_, told, step) = begun("{\"version\": 2}");
    assert!(matches!(step, UpgradeStep::Done));
    assert_eq!(told, vec!["✅ HostPilot is already at the latest version (v2)"]);
    let (_, told, step) = begun("{");
    assert!(told.is_empty());
    assert!(matches!(step, UpgradeStep::Fail(_)));
    let (mut u, _, step) = begun("{}");
    assert!(matches!(step, UpgradeStep::Backup { server_json: None, .. }));
    let (told, step) = u.advance(UpgradeEvent::Worked);
    assert!(matches!(step, UpgradeStep::Store(p) if p == "/d/server.db"));
    assert_eq!(told[1], "   ⚠️  Old config has no server_file_path, creating empty database");
    let (_, step) = u.advance(UpgradeEvent::Failed("full".to_string()));
    assert!(matches!(step, UpgradeStep::Fail(e) if e == "full"));
    let (mut u, _, _) = begun("{\"server_file_path\": \"/x/s.json\"}");
    let _ = u.advance(UpgradeEvent::Worked);
    let (told, step) = u.advance(UpgradeEvent::ServersText(None));
    assert_eq!(told[0], "   ⚠️  server.json not found at old path, creating empty database");
    assert!(matches!(step, UpgradeStep::Store(_)));
    let (mut u, _, _) = begun("{\"server_file_path\": \"/x/s.json\"}");
    let _ = u.advance(UpgradeEvent::Worked);
    let (_, step) = u.advance(UpgradeEvent::ServersText(Some("no".to_string())));
    assert!(matches!(step, UpgradeStep::Fail(_)));
}
