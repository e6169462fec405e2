use hostpilot::app::App;
use hostpilot::config::Config;
use hostpilot::server::{
    get_protocol_version, last_connect_display, table_title, Server, ServerCollection, ServerRow,
};

fn server(user: &str, port: u16) -> Server {
    Server {
        id: None,
        alias: None,
        username: user.to_string(),
        address: "h".to_string(),
        port,
        last_connect: None,
    }
}

fn keys(c: &ServerCollection) -> Vec<String> {
    c.hosts().iter().map(|e| e.key.clone()).collect()
}

#[test]
fn version_is_two() {
    assert_eq!(get_protocol_version(), 2);
}

#[test]
fn aliases_stay_in_the_order_of_std() {
    let names = ["m", "a", "zz", "z", "", "日", "é", "A", "m2", "\u{10000}"];
    let mut c = ServerCollection::default();
    assert!(c.is_empty());
    for n in names {
        c.insert(n, server(n, 1));
    }
    let mut sorted: Vec<String> = names.iter().map(|s| s.to_string()).collect();
    sorted.sort();
    assert_eq!(keys(&c), sorted);
    assert!(!c.is_empty());
    for (i, k) in sorted.iter().enumerate() {
        assert_eq!(c.position(k), Some(i));
    }
    assert_eq!(c.position("nope"), None);
}

#[test]
fn what_was_put_is_found_and_others_stay() {
    let mut c = ServerCollection::default();
    c.insert("a", server("first", 1)).insert("b", server("second", 2));
    c.insert("a", server("third", 3));
    assert_eq!(keys(&c), vec!["a", "b"]);
    assert_eq!(c.get("a").unwrap().username, "third");
    assert_eq!(c.get("a").unwrap().alias.as_deref(), Some("a"));
    assert_eq!(c.get("b").unwrap().port, 2);
    assert!(c.get("c").is_none());
    let mut named = server("x", 9);
    named.alias = Some("other".to_string());
    c.insert("c", named);
    assert_eq!(c.get("c").unwrap().alias.as_deref(), Some("other"));
}

#[test]
fn what_was_removed_is_gone_and_others_stay() {
    let mut c = ServerCollection::default();
    c.insert("a", server("1", 1));
    c.insert("b", server("2", 2));
    c.insert("c", server("3", 3));
    c.remove("b").remove("nope");
    assert_eq!(keys(&c), vec!["a", "c"]);
    assert!(c.get("b").is_none());
    let copy = c.clone();
    c.remove("a");
    assert_eq!(keys(&copy), vec!["a", "c"]);
    assert_eq!(copy.get("c").unwrap().username, "3");
}

#[test]
fn rows_come_back_in_any_order() {
    let mut c = ServerCollection::default();
    for (i, n) in ["q", "b", "x"].iter().enumerate() {
        let mut s = server(n, i as u16);
        s.last_connect = if i == 1 { Some("123".to_string()) } else { None };
        c.insert(n, s);
    }
    let mut rows = c.save_to_storage();
    assert_eq!(rows.len(), 3);
    assert!(rows.iter().all(|r| r.id.is_none()));
    assert_eq!(rows[0].alias, "b");
    rows.reverse();
    for (i, r) in rows.iter_mut().enumerate() {
        r.id = Some(10 + i as i64);
    }
    let back = ServerCollection::read_from_storage(rows);
    assert_eq!(keys(&back), keys(&c));
    for e in c.hosts() {
        let b = back.get(&e.key).unwrap();
        assert_eq!(b.username, e.server.username);
        assert_eq!(b.address, e.server.address);
        assert_eq!(b.port, e.server.port);
        assert_eq!(b.last_connect, e.server.last_connect);
        assert_eq!(b.alias.as_deref(), Some(e.key.as_str()));
        assert!(b.id.is_some());
    }
    let mut ids: Vec<i64> = back.hosts().iter().filter_map(|e| e.server.id).collect();
    ids.sort();
    assert_eq!(ids, vec![10, 11, 12]);
    assert_eq!(back.get("b").unwrap().id, Some(12));
}

#[test]
fn a_later_row_replaces_an_earlier_one() {
    let row = |id: i64, user: &str| ServerRow {
        id: Some(id),
        alias: "a".to_string(),
        username: user.to_string(),
        address: "h".to_string(),
        port: 22,
        last_connect: None,
    };
    let c = ServerCollection::read_from_storage(vec![row(1, "old"), row(2, "new")]);
    assert_eq!(c.hosts().len(), 1);
    assert_eq!(c.get("a").unwrap().username, "new");
    assert_eq!(c.get("a").unwrap().id, Some(2));
}

#[test]
fn last_connections_in_words() {
    let at = |s: &str| Some(s.to_string());
    let now = 1_000_000i64;
    assert_eq!(last_connect_display(&None, now), "从未");
    assert_eq!(last_connect_display(&at(""), now), "从未");
    assert_eq!(last_connect_display(&at("yesterday"), now), "yesterday");
    let ago = |d: i64| last_connect_display(&at(&(now - d).to_string()), now);
    assert_eq!(ago(-5), "刚刚");
    assert_eq!(ago(0), "刚刚");
    assert_eq!(ago(59), "刚刚");
    assert_eq!(ago(60), "1分钟前");
    assert_eq!(ago(3599), "59分钟前");
    assert_eq!(ago(3600), "1小时前");
    assert_eq!(ago(86399), "23小时前");
    assert_eq!(ago(86400), "昨天");
    assert_eq!(ago(2 * 86400), "前天");
    assert_eq!(ago(3 * 86400), "3天前");
    assert_eq!(ago(400 * 86400 + 5), "400天前");
    assert_eq!(last_connect_display(&at("-9223372036854775808"), i64::MAX), "213503982334601天前");
}

#[test]
fn a_connection_that_was_just_noted_is_new() {
    let mut s = server("u", 1);
    assert_eq!(s.get_last_connect_display(), "从未");
    s.set_last_connect_now();
    assert_eq!(s.get_last_connect_display(), "刚刚");
    let noted: i64 = s.last_connect.clone().unwrap().parse().unwrap();
    assert!(noted > 1_600_000_000);
    s.set_last_connect(5);
    assert_eq!(s.last_connect.as_deref(), Some("5"));
    assert_eq!(s.username, "u");
}

#[test]
fn the_table_shows_every_server() {
    assert_eq!(table_title(), vec!["Alias", "Username", "Address", "Port", "Last Connect"]);
    let mut c = ServerCollection::default();
    c.insert("b", server("u2", 2));
    c.insert("a", server("u1", 1));
    let rows = c.show_table();
    assert_eq!(rows.len(), 2);
    assert_eq!(rows[0].alias, "a");
    assert_eq!(rows[0].username, "u1");
    assert_eq!(rows[1].port, 2);
    assert_eq!(rows[1].last_connect, "从未");
}

#[test]
fn the_app_hands_out_its_parts() {
    let config = Config::initial("/home/u", "/home/u/.hostpilot", 0);
    let mut app = App::init(config, None);
    assert!(app.get_collection().is_empty());
    assert_eq!(app.get_config().version, Some(2));
    app.get_collection_mut().insert("a", server("u", 22));
    let rows = app.save_collection();
    assert_eq!(rows.len(), 1);
    assert_eq!(rows[0].alias, "a");
    let again = App::init(app.get_config().clone(), Some(app.get_collection().clone()));
    assert_eq!(again.get_collection().hosts().len(), 1);
}

#[test]
fn configurations_and_their_files() {
    let c = Config::initial("/home/u", "/home/u/.hostpilot", 1);
    assert_eq!(c.pub_key_path, "/home/u/.ssh/id_rsa.pub");
    assert_eq!(c.server_file_path, "/home/u/.hostpilot/server.db");
    assert_eq!(c.ssh_client_app_path, "ssh");
    assert_eq!(c.scp_app_path, "scp");
    assert_eq!(c.save_to_storage("/d"), "/d/config_test.json");
    assert_eq!(Config::chosen_file("/d", 1, true), "/d/config_test.json");
    assert_eq!(Config::chosen_file("/d", 1, false), "/d/config.json");
    assert_eq!(Config::chosen_file("/d", 0, true), "/d/config.json");
    let blank = Config::init(None, 1);
    assert_eq!(blank.pub_key_path, "");
    assert_eq!(blank.version, None);
    assert_eq!(blank.mode, 1);
    let kept = Config::init(Some(c), 0);
    assert_eq!(kept.mode, 0);
    assert_eq!(kept.scp_app_path, "scp");
}
