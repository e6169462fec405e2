use hostpilot::error::OpError;
use hostpilot::util;
use hostpilot::util::{Backoff, Retry, RetryPhase, RetryStep};
use hostpilot::{MkdirError, TransferError};

fn by_floats(bytes: u64) -> String {
    let kb = 1024.0f64;
    let mb = kb * 1024.0;
    let gb = mb * 1024.0;
    let b = bytes as f64;
    if b >= gb {
        format!("{:.2} GiB", b / gb)
    } else if b >= mb {
        format!("{:.2} MiB", b / mb)
    } else if b >= kb {
        format!("{:.2} KiB", b / kb)
    } else {
        format!("{} B", bytes)
    }
}

#[test]
fn sizes_for_people() {
    assert_eq!(util::human_bytes(0), "0 B");
    assert_eq!(util::human_bytes(1023), "1023 B");
    assert_eq!(util::human_bytes(1024), "1.00 KiB");
    assert_eq!(util::human_bytes(1536), "1.50 KiB");
    assert_eq!(util::human_bytes(1024 * 1024), "1.00 MiB");
    assert_eq!(util::human_bytes(1024 * 1024 * 1024 - 1), "1024.00 MiB");
    assert_eq!(util::human_bytes(5 << 30), "5.00 GiB");
}

#[test]
fn sizes_are_rounded_as_floats_are() {
    let mut n = 1u64;
    for i in 0..200_000u64 {
        n = n.wrapping_mul(6364136223846793005).wrapping_add(1442695040888963407);
        let v = n >> (i % 64);
        assert_eq!(util::human_bytes(v), by_floats(v), "{}", v);
    }
    for v in [1152, 1408, 1034, 1029, 1 << 53, (1 << 53) + 1, (1 << 53) + 3, u64::MAX, u64::MAX - 1024] {
        assert_eq!(util::human_bytes(v), by_floats(v), "{}", v);
    }
}

#[test]
fn the_startup_line() {
    let mut line = String::from("old");
    util::set_startup_header(&mut line, None, "Upload", 8, 100, 1024 * 1024);
    let field = |w: usize, s: String| format!("{:<w$}", s, w = w);
    let plain = format!(
        "{}    {}    {}    {}",
        field(10, "Action:Upload".to_string()),
        field(12, "Worker:8".to_string()),
        field(12, "Backoff:100ms".to_string()),
        field(12, "Buf:1.00 MiB".to_string())
    );
    assert_eq!(line, plain);
    assert_eq!(line, "Action:Upload    Worker:8        Backoff:100ms    Buf:1.00 MiB");
    assert_eq!(
        util::startup_header(true, "Up", 1, 5, 10),
        "\u{1b}[32mAction:Up \u{1b}[39m    \u{1b}[36mWorker:1    \u{1b}[39m    \u{1b}[33mBackoff:5ms \u{1b}[39m    \u{1b}[35mBuf:10 B    \u{1b}[39m"
    );
    util::set_startup_header(&mut line, Some(true), "Up", 1, 5, 10);
    assert_eq!(line, util::startup_header(true, "Up", 1, 5, 10));
    util::set_startup_header(&mut line, Some(false), "Up", 1, 5, 10);
    assert_eq!(line, util::startup_header(false, "Up", 1, 5, 10));
    assert!(!util::try_enable_ansi_on_windows(None));
    assert!(!util::try_enable_ansi_on_windows(Some(false)));
    assert!(util::try_enable_ansi_on_windows(Some(true)));
}

#[test]
fn the_base_of_pauses() {
    let mut b = Backoff::new();
    assert_eq!(util::get_backoff_ms(&b), 100);
    util::set_backoff_ms(&mut b, 7);
    assert_eq!(util::get_backoff_ms(&b), 7);
    assert_eq!(util::compute_backoff_ms(7, 3), 21);
    assert_eq!(util::compute_backoff_ms(u64::MAX, 2), u64::MAX);
    assert_eq!(util::compute_backoff_ms(0, 9), 0);
}

#[test]
fn retry_helper_retries_and_succeeds() {
    let mut calls = 0;
    let mut op = || {
        calls += 1;
        if calls < 2 { Err(OpError::Other("transient error".to_string())) } else { Ok("success") }
    };

    let mut retry = Retry::new(3);
    let mut res = Err(OpError::Other("not tried".to_string()));
    while retry.wants_attempt() {
        match op() {
            Ok(v) => {
                res = Ok(v);
                break;
            }
            Err(e) => {
                let _ = retry.fail(e, RetryPhase::DuringTransfer, 1);
            }
        }
    }
    assert!(res.is_ok());
    assert_eq!(res.unwrap(), "success");
}

fn io(m: &str) -> OpError {
    OpError::Transfer(TransferError::WorkerIo(m.to_string()))
}

#[test]
fn attempts_run_out_with_growing_pauses() {
    let mut retry = Retry::new(3);
    assert!(retry.wants_attempt());
    assert_eq!(retry.fail(io("1"), RetryPhase::DuringTransfer, 100), RetryStep::Wait(100));
    assert_eq!(retry.fail(io("2"), RetryPhase::DuringTransfer, 100), RetryStep::Wait(200));
    assert_eq!(retry.fail(io("3"), RetryPhase::DuringTransfer, 100), RetryStep::GiveUp);
    assert!(!retry.wants_attempt());
    assert_eq!(retry.into_error().message(), "传输/IO 错误: 3");
    let none = Retry::new(0);
    assert!(!none.wants_attempt());
    assert_eq!(none.into_error().message(), "操作失败: operation failed");
}

#[test]
fn settled_errors_end_at_once() {
    let mut retry = Retry::new(5);
    let refused = OpError::Transfer(TransferError::SshAuthFailed("h".to_string()));
    assert_eq!(retry.fail(refused, RetryPhase::PreTransfer, 1), RetryStep::GiveUp);
    assert!(!retry.wants_attempt());
    assert_eq!(retry.into_error().message(), "SSH 认证失败: h");
    let mut retry = Retry::new(5);
    let other = OpError::Other("x".to_string());
    assert_eq!(retry.fail(other, RetryPhase::PreTransfer, 1), RetryStep::GiveUp);
}

fn all_errors() -> Vec<(TransferError, &'static str, bool, bool)> {
    let s = |t: &str| t.to_string();
    vec![
        (TransferError::InvalidDirection, "InvalidDirection", false, false),
        (TransferError::UnsupportedGlobUsage(s("x")), "UnsupportedGlobUsage", false, false),
        (TransferError::AliasNotFound(s("x")), "AliasNotFound", false, false),
        (TransferError::RemoteTargetMustBeDir(s("x")), "RemoteTargetMustBeDir", false, false),
        (TransferError::RemoteTargetParentMissing(s("x")), "RemoteTargetParentMissing", false, false),
        (TransferError::CreateRemoteDirFailed(s("x"), s("y")), "CreateRemoteDirFailed", false, false),
        (TransferError::LocalTargetMustBeDir(s("x")), "LocalTargetMustBeDir", false, false),
        (TransferError::LocalTargetParentMissing(s("x")), "LocalTargetParentMissing", false, false),
        (TransferError::CreateLocalDirFailed(s("x"), s("y")), "CreateLocalDirFailed", false, false),
        (TransferError::GlobNoMatches(s("x")), "GlobNoMatches", false, false),
        (TransferError::WorkerNoSession(s("x")), "WorkerNoSession", true, true),
        (TransferError::WorkerNoSftp(s("x")), "WorkerNoSftp", true, true),
        (TransferError::SftpCreateFailed(s("x")), "SftpCreateFailed", true, true),
        (TransferError::SshNoAddress(s("x")), "SshNoAddress", false, false),
        (TransferError::SshSessionCreateFailed(s("x")), "SshSessionCreateFailed", true, false),
        (TransferError::SshHandshakeFailed(s("x")), "SshHandshakeFailed", true, false),
        (TransferError::SshAuthFailed(s("x")), "SshAuthFailed", false, false),
        (TransferError::WorkerBuildSessionFailed(s("x")), "WorkerBuildSessionFailed", true, false),
        (TransferError::MissingLocalSource(s("x")), "MissingLocalSource", false, false),
        (
            TransferError::DownloadMultipleRemoteSources(s("x")),
            "DownloadMultipleRemoteSources",
            false,
            false,
        ),
        (TransferError::OperationFailed(s("x")), "OperationFailed", false, false),
        (TransferError::WorkerIo(s("x")), "WorkerIo", false, true),
    ]
}

#[test]
fn which_errors_are_worth_another_attempt() {
    for (e, name, before, during) in all_errors() {
        assert_eq!(e.variant_name(), name);
        assert_eq!(e.is_retriable_pre_transfer(), before, "{}", name);
        assert_eq!(e.is_retriable_during_transfer(), during, "{}", name);
        let op = OpError::Transfer(e);
        assert_eq!(util::is_error_retriable_for_phase(&op, RetryPhase::PreTransfer), before);
        assert_eq!(util::is_error_retriable_for_phase(&op, RetryPhase::DuringTransfer), during);
    }
    let other = OpError::Other("x".to_string());
    assert!(!util::is_error_retriable_for_phase(&other, RetryPhase::PreTransfer));
    assert!(util::is_error_retriable_for_phase(&other, RetryPhase::DuringTransfer));
}

#[test]
fn messages_of_errors() {
    let texts: Vec<String> = all_errors().iter().map(|e| e.0.message()).collect();
    assert_eq!(texts[0], "命令必须且只有一端为远端（alias:/path），请检查源和目标");
    assert_eq!(texts[1], "不支持的通配符用法（仅允许最后一段）：x");
    assert_eq!(texts[2], "别名 'x' 不存在");
    assert_eq!(texts[3], "目标必须存在且为目录: x (远端)");
    assert_eq!(texts[4], "目标父目录不存在: x (远端)，不会自动创建多级目录");
    assert_eq!(texts[5], "创建远端目录失败: x — y");
    assert_eq!(texts[6], "目标必须存在且为目录: x (本地)，建议先创建或移除尾部/");
    assert_eq!(texts[7], "目标父目录不存在: x (本地)，不会自动创建多级目录，请手动创建父目录");
    assert_eq!(texts[8], "创建目标目录失败: x (本地) — y");
    assert_eq!(texts[9], "glob 无匹配项（远端），请确认模式与路径是否正确: x");
    assert_eq!(texts[10], "工作线程无法建立会话: x");
    assert_eq!(texts[13], "无法解析地址: x");
    assert_eq!(texts[21], "传输/IO 错误: x");
    assert_eq!(
        MkdirError::ExistsAsFile("a\\b".to_string()).message(),
        "远端已有同名文件（期望目录）: a/b"
    );
    assert_eq!(
        MkdirError::SftpError("a".to_string(), "e".to_string()).message(),
        "创建远端目录失败: a — e"
    );
}

#[test]
fn failures_become_lines_of_json() {
    let failures: Vec<TransferError> = all_errors().into_iter().map(|e| e.0).collect();
    let log = util::write_failures_jsonl(None, &failures);
    assert_eq!(log.file_name, "failures.jsonl");
    assert!(log.content.ends_with('\n'));
    let lines: Vec<&str> = log.content.lines().collect();
    assert_eq!(lines.len(), failures.len());
    for (line, (e, name, _, _)) in lines.iter().zip(all_errors()) {
        let v: serde_json::Value = serde_json::from_str(line).unwrap();
        assert_eq!(v["variant"], name);
        let message = v["message"].as_str().unwrap();
        if name == "WorkerIo" || name == "OperationFailed" {
            assert_eq!(message, "x");
        } else {
            assert_eq!(message, e.message());
        }
    }
    let member = |i: usize, k: &str| {
        let v: serde_json::Value = serde_json::from_str(lines[i]).unwrap();
        v[k].as_str().map(|s| s.to_string())
    };
    assert_eq!(member(1, "pattern").as_deref(), Some("x"));
    assert_eq!(member(2, "alias").as_deref(), Some("x"));
    assert_eq!(member(3, "path").as_deref(), Some("x"));
    assert_eq!(member(5, "error").as_deref(), Some("y"));
    assert_eq!(member(9, "pattern").as_deref(), Some("x"));
    assert_eq!(member(12, "error").as_deref(), Some("x"));
    assert_eq!(member(16, "addr").as_deref(), Some("x"));
    assert_eq!(member(18, "detail").as_deref(), Some("x"));
    assert_eq!(member(20, "detail"), None);
    assert_eq!(lines[21], "{\"message\":\"x\",\"variant\":\"WorkerIo\"}");
}

#[test]
fn line_breaks_stay_inside_a_record() {
    let failures = vec![
        TransferError::OperationFailed("a\nb\"c\\".to_string()),
        TransferError::WorkerIo("ü".to_string()),
    ];
    let log = util::write_failures_jsonl(Some("/tmp/x/run.7.log"), &failures);
    assert_eq!(log.file_name, "run.7.jsonl");
    assert_eq!(
        log.content,
        "{\"message\":\"a\\nb\\\"c\\\\\",\"variant\":\"OperationFailed\"}\n{\"message\":\"ü\",\"variant\":\"WorkerIo\"}\n"
    );
    let empty = util::write_failures_jsonl(Some("/"), &Vec::new());
    assert_eq!(empty.file_name, "failures.jsonl");
    assert_eq!(empty.content, "");
}

#[test]
fn attempts_become_lines_of_json() {
    let line = util::retry_attempt_line(
        "test-retry",
        RetryPhase::DuringTransfer,
        1,
        4,
        &io("simulated transient"),
        RetryStep::Wait(1),
    );
    assert!(line.contains("\"attempt\""), "attempt field missing in attempts file");
    assert!(line.ends_with('\n'));
    let v: serde_json::Value = serde_json::from_str(&line).unwrap();
    assert_eq!(v["attempt"], 1);
    assert_eq!(v["max_retries"], 4);
    assert_eq!(v["backoff_ms"], 1);
    assert_eq!(v["phase"], "DuringTransfer");
    assert_eq!(v["ctx"], "test-retry");
    assert_eq!(v["error"], "传输/IO 错误: simulated transient");
    assert_eq!(util::retry_attempts_file(), "retry_attempts.jsonl");
}
