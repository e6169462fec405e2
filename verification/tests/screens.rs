use hostpilot::commands::handle_create;
use hostpilot::server::ServerCollection;
use hostpilot::tui::{dialog_margin, Key, Screen, TuiAction, TuiApp};

fn app(names: &[&str]) -> TuiApp {
    let mut c = ServerCollection::default();
    for n in names {
        let _ = handle_create(&mut c, n, "root@host:22", "f");
    }
    TuiApp::new(c)
}

fn press(a: &mut TuiApp, keys: &[Key]) {
    for k in keys {
        assert!(matches!(a.run(*k, false), TuiAction::Nothing));
    }
}

fn typed(a: &mut TuiApp, text: &str) {
    for c in text.chars() {
        press(a, &[Key::Char(c)]);
    }
}

#[test]
fn the_selection_goes_round() {
    let mut a = app(&["a", "b", "c"]);
    press(&mut a, &[Key::Down]);
    assert_eq!(a.selected, 1);
    press(&mut a, &[Key::Down, Key::Down]);
    assert_eq!(a.selected, 0);
    press(&mut a, &[Key::Up]);
    assert_eq!((a.selected, a.highlight), (2, Some(2)));
    a.next();
    assert_eq!(a.selected, 0);
    a.previous();
    assert_eq!(a.selected, 2);
    a.drawn(None);
    press(&mut a, &[Key::Up]);
    assert_eq!(a.highlight, Some(0));
}

#[test]
fn arrows_outside_the_list_need_no_server() {
    let mut a = app(&[]);
    assert!(a.highlight.is_some());
    assert!(!a.accepts(Key::Up) && !a.accepts(Key::Down) && a.accepts(Key::Enter));
    press(&mut a, &[Key::Char('n')]);
    assert!(a.accepts(Key::Up) && a.accepts(Key::Down));
    press(&mut a, &[Key::Up, Key::Down]);
    typed(&mut a, "x");
    press(&mut a, &[Key::Esc]);
    assert_eq!(a.collection.hosts().len(), 0);
}

#[test]
fn quitting_and_connecting() {
    let mut a = app(&["a", "b"]);
    assert!(matches!(a.run(Key::Char('q'), false), TuiAction::Quit));
    press(&mut a, &[Key::Down]);
    assert!(matches!(a.run(Key::Enter, false), TuiAction::Connect(n) if n == "b"));
    assert_eq!(a.connect("b", 42).unwrap(), vec!["root@host", "-p22"]);
    assert_eq!(a.collection.get("b").unwrap().last_connect.as_deref(), Some("42"));
    assert!(a.connect("x", 42).is_none());
    assert!(a.connect_now("a").is_some());
    assert_eq!(a.collection.get("a").unwrap().get_last_connect_display(), "刚刚");
    let mut empty = app(&[]);
    assert!(matches!(empty.run(Key::Enter, false), TuiAction::Nothing));
}

#[test]
fn connecting_quickly() {
    let mut a = app(&["ab"]);
    assert!(matches!(a.run(Key::Char('f'), true), TuiAction::Nothing));
    assert!(a.quick_connect_focused);
    typed(&mut a, "abq");
    press(&mut a, &[Key::Backspace]);
    assert!(matches!(a.run(Key::Enter, false), TuiAction::Connect(n) if n == "ab"));
    assert!(!a.quick_connect_focused && a.input.is_empty());
    let _ = a.run(Key::Char('f'), true);
    typed(&mut a, "zz");
    press(&mut a, &[Key::Enter]);
    assert_eq!(a.error_message, "Server 'zz' not found");
    let _ = a.run(Key::Char('f'), true);
    press(&mut a, &[Key::Enter]);
    assert!(a.quick_connect_focused);
    typed(&mut a, "x");
    let _ = a.run(Key::Char('f'), true);
    assert!(a.input.is_empty() && !a.quick_connect_focused);
}

#[test]
fn adding_a_server() {
    let mut a = app(&["a", "z"]);
    press(&mut a, &[Key::Char('n')]);
    typed(&mut a, "mm");
    press(&mut a, &[Key::Tab, Key::Tab]);
    typed(&mut a, "addr");
    press(&mut a, &[Key::Tab]);
    typed(&mut a, "x2");
    assert_eq!(a.add.port, "222");
    press(&mut a, &[Key::Enter]);
    match a.ui(0) {
        Screen::ConfirmAdd { lines, yes } => {
            assert!(!yes);
            assert_eq!(
                lines,
                vec!["Add this server?", "Alias: mm", "Username: root", "Address: addr", "Port: 222", ""]
            );
        }
        _ => panic!("no question"),
    }
    press(&mut a, &[Key::Right]);
    assert!(matches!(a.run(Key::Enter, false), TuiAction::Save));
    assert_eq!(a.selected, 1);
    let s = a.collection.get("mm").unwrap();
    assert_eq!((s.username.as_str(), s.address.as_str(), s.port), ("root", "addr", 222));
    assert!(!a.adding);
}

#[test]
fn a_port_has_to_be_one() {
    let mut a = app(&["a"]);
    press(&mut a, &[Key::Char('N'), Key::Tab, Key::Tab, Key::Tab]);
    typed(&mut a, "222");
    press(&mut a, &[Key::Char('2'), Key::Enter, Key::Right, Key::Enter]);
    assert_eq!(a.error_message, "⚠️ 端口需在 1 到 65535 之间");
    match a.ui(0) {
        Screen::ConfirmAdd { lines, yes } => {
            assert!(yes);
            assert_eq!(lines[0], "⚠️ 端口需在 1 到 65535 之间");
            assert_eq!(lines.len(), 8);
        }
        _ => panic!("no question"),
    }
    press(&mut a, &[Key::Left, Key::Enter]);
    assert!(!a.adding && a.error_message.is_empty());
    assert_eq!(a.collection.hosts().len(), 1);
}

#[test]
fn editing_a_server() {
    let mut a = app(&["a", "b"]);
    press(&mut a, &[Key::Char('e')]);
    match a.ui(0) {
        Screen::Edit { boxes, error } => {
            let shown: Vec<(&str, &str, bool)> =
                boxes.iter().map(|b| (b.label.as_str(), b.value.as_str(), b.active)).collect();
            assert_eq!(
                shown,
                vec![
                    ("Alias", "a", true),
                    ("Username", "root", false),
                    ("Address", "host", false),
                    ("Port", "22", false),
                ]
            );
            assert!(error.is_none());
        }
        _ => panic!("no form"),
    }
    typed(&mut a, "x");
    press(&mut a, &[Key::Tab, Key::Backspace]);
    assert!(matches!(a.run(Key::Enter, false), TuiAction::Save));
    assert!(a.collection.get("a").is_none());
    assert_eq!(a.collection.get("ax").unwrap().username, "roo");
    press(&mut a, &[Key::Char('e')]);
    let before = a.collection.get("ax").unwrap().clone();
    assert!(matches!(a.run(Key::Enter, false), TuiAction::Save));
    let after = a.collection.get("ax").unwrap();
    assert_eq!((after.port, after.address.clone()), (before.port, before.address));
    press(&mut a, &[Key::Char('E'), Key::Tab, Key::Tab, Key::Tab, Key::Backspace, Key::Backspace, Key::Enter]);
    assert_eq!(a.error_message, "⚠️ 端口需在 1 到 65535 之间");
    assert!(matches!(a.ui(0), Screen::Edit { error: Some(_), .. }));
    press(&mut a, &[Key::Esc]);
    assert_eq!(a.collection.get("ax").unwrap().port, 22);
}

#[test]
fn deleting_a_server() {
    let mut a = app(&["a", "b"]);
    press(&mut a, &[Key::Down, Key::Delete, Key::Enter]);
    assert_eq!(a.collection.hosts().len(), 2);
    assert!(matches!(a.run(Key::Char('d'), true), TuiAction::Nothing));
    press(&mut a, &[Key::Right]);
    assert!(matches!(a.ui(0), Screen::Main { delete: Some(true), .. }));
    assert!(matches!(a.run(Key::Enter, false), TuiAction::Save));
    assert!(a.collection.get("b").is_none());
    assert_eq!((a.selected, a.highlight), (0, Some(0)));
    press(&mut a, &[Key::Delete, Key::Right, Key::Esc]);
    assert_eq!(a.collection.hosts().len(), 1);
    press(&mut a, &[Key::Delete, Key::Right]);
    let _ = a.run(Key::Enter, false);
    assert!(a.collection.is_empty());
    assert_eq!(a.selected, 0);
}

#[test]
fn help_is_closed_again() {
    let mut a = app(&["a"]);
    press(&mut a, &[Key::Char('h')]);
    assert!(matches!(a.ui(0), Screen::Main { help: true, .. }));
    press(&mut a, &[Key::Char('x'), Key::Char('q')]);
    assert!(!a.show_help);
}

#[test]
fn the_list_on_the_screen() {
    let mut a = app(&["a", "a-very-long-alias-indeed"]);
    press(&mut a, &[Key::Down]);
    match a.ui_now() {
        Screen::Main { input, input_title, focused, table_title, rows, status, delete, help } => {
            assert_eq!(input, "");
            assert_eq!(input_title, "🔍 Quick Connect");
            assert!(!focused && delete.is_none() && !help);
            assert_eq!(table_title, "📋 Servers (2)");
            assert_eq!(status, "Selected: a-very-long-alias-indeed");
            assert_eq!(rows[0].number, " 1");
            assert_eq!(rows[0].alias, format!("{:<15}", "a"));
            assert_eq!(rows[1].alias, "a-very-long-ali");
            assert_eq!(rows[0].username, format!("{:<12}", "root"));
            assert_eq!(rows[0].address, format!("{:<20}", "host"));
            assert_eq!(rows[0].port, "   22");
            assert_eq!(rows[0].last_connect, format!("{:<19}", "从未"));
            assert!(!rows[0].highlighted && rows[1].highlighted);
        }
        _ => panic!("no list"),
    }
    a.drawn(None);
    assert!(matches!(a.ui(0), Screen::Main { status, .. } if status == "No server selected"));
    let _ = a.run(Key::Char('f'), true);
    assert!(matches!(a.ui(0), Screen::Main { input_title, .. } if input_title == "🔍 Quick Connect (FOCUSED)"));
}

#[test]
fn margins_of_dialogs() {
    assert_eq!(dialog_margin(60), 20);
    assert_eq!(dialog_margin(25), 37);
    assert_eq!(dialog_margin(100), 0);
}
