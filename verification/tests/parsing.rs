use hostpilot::parse;
use hostpilot::parse::{parse_alias_and_path, parse_remote_host, ParseError};

#[test]
fn test_parse_remote_host_with_port() {
    let (u, h, p) = parse::parse_remote_host("root@example.com:2222").unwrap();
    assert_eq!(u, "root");
    assert_eq!(h, "example.com");
    assert_eq!(p, 2222);
}

#[test]
fn test_parse_remote_host_default_port() {
    let (u, h, p) = parse::parse_remote_host("user@host").unwrap();
    assert_eq!(u, "user");
    assert_eq!(h, "host");
    assert_eq!(p, 22);
}

#[test]
fn test_parse_alias_and_path_ok() {
    let (a, p) = parse::parse_alias_and_path("alias:~/path").unwrap();
    assert_eq!(a, "alias");
    assert_eq!(p, "~/path");
}

#[test]
fn host_errors_and_their_messages() {
    let e = parse_remote_host("no-at-symbol").unwrap_err();
    assert!(matches!(e, ParseError::MissingUser));
    assert_eq!(e.message(), "缺少用户名，例如 user@host[:port]");
    let e = parse_remote_host("  @host").unwrap_err();
    assert!(matches!(e, ParseError::EmptyUserOrHost));
    assert_eq!(e.message(), "用户名或主机为空");
    assert!(matches!(parse_remote_host("user@").unwrap_err(), ParseError::EmptyUserOrHost));
    let e = parse_remote_host("user@host:65536").unwrap_err();
    assert_eq!(e.message(), "端口无效: 65536");
    assert_eq!(parse_remote_host("user@host:").unwrap_err().message(), "端口无效: ");
    assert_eq!(parse_remote_host("user@host:-1").unwrap_err().message(), "端口无效: -1");
}

#[test]
fn host_edges() {
    assert_eq!(
        parse_remote_host(" u @h@x:+80").unwrap(),
        ("u".to_string(), "h@x".to_string(), 80)
    );
    assert_eq!(parse_remote_host("u@::1").unwrap(), ("u".to_string(), ":".to_string(), 1));
    assert_eq!(parse_remote_host("u@:22").unwrap(), ("u".to_string(), String::new(), 22));
    assert_eq!(parse_remote_host("u@h:00065535").unwrap().2, 65535);
}

#[test]
fn hosts_read_back() {
    for port in [0u16, 1, 22, 2222, 65535] {
        for host in ["example.com", "", "a:b"] {
            let text = format!("me@{}:{}", host, port);
            assert_eq!(
                parse_remote_host(&text).unwrap(),
                ("me".to_string(), host.to_string(), port)
            );
        }
    }
}

#[test]
fn alias_errors_and_edges() {
    assert_eq!(parse_alias_and_path("abc").unwrap_err().message(), "未找到分隔符 ':'");
    assert_eq!(parse_alias_and_path(" :x").unwrap_err().message(), "别名或路径为空");
    assert_eq!(parse_alias_and_path("x: ").unwrap_err().message(), "别名或路径为空");
    assert_eq!(
        parse_alias_and_path(" a : b:c ").unwrap(),
        ("a".to_string(), "b:c".to_string())
    );
}
