use std::io::{Cursor, Read};

use hostpilot::transfer::multi_channel::{AcquireError, MultiChannelSftpManager};
use hostpilot::transfer::workers::pipeline::{
    adapt_buf_size, read_message, reader_goes_on, PipelineConfig, ReadMsg,
};
use hostpilot::transfer::workers::{total_metrics, BarSlot, Throttler, WorkerMetrics, VISIBLE_BARS};

#[test]
fn capacity_falls_back_to_one() {
    let manager: MultiChannelSftpManager<ssh2::Sftp> = MultiChannelSftpManager::new(0);
    assert_eq!(manager.capacity(), 1);
    assert_eq!(manager.available(), 1);
}

#[test]
fn acquire_without_handshake_yields_error() {
    let session = ssh2::Session::new().expect("session");
    let mut manager: MultiChannelSftpManager<ssh2::Sftp> = MultiChannelSftpManager::new(2);
    match manager.acquire(|| session.sftp()) {
        Err(AcquireError::Create(_)) => {}
        Err(AcquireError::NoCapacity) => panic!("unexpected error variant"),
        Ok(_) => panic!("expected acquire failure"),
    }
    assert_eq!(manager.available(), 2);
}

#[test]
fn reset_refills_queue() {
    let mut manager: MultiChannelSftpManager<ssh2::Sftp> = MultiChannelSftpManager::new(3);
    // Even without successful acquire, reset should maintain queue sizing.
    manager.reset();
    assert_eq!(manager.available(), 3);
}

#[test]
fn channels_are_kept_for_later() {
    let mut next = 0;
    let mut manager: MultiChannelSftpManager<i32> = MultiChannelSftpManager::new(2);
    let mut open = || {
        next += 1;
        Ok::<i32, String>(next)
    };
    let a = manager.acquire(&mut open).unwrap();
    let b = manager.acquire(&mut open).unwrap();
    assert!(a.was_fresh() && b.was_fresh());
    assert_eq!((*a.adapter(), *b.adapter()), (1, 2));
    assert_eq!(manager.available(), 0);
    assert!(matches!(manager.acquire(&mut open), Err(AcquireError::NoCapacity)));
    manager.release(b);
    let c = manager.acquire(&mut open).unwrap();
    assert!(!c.was_fresh());
    assert_eq!(*c.adapter(), 2);
    manager.release(a);
    manager.release(c);
    assert_eq!(manager.available(), 2);
    manager.reset();
    assert!(manager.acquire(&mut open).unwrap().was_fresh());
}

#[test]
fn pools_tell_why_there_is_no_channel() {
    let none: AcquireError<String> = AcquireError::NoCapacity;
    assert_eq!(none.message(), "no free SFTP channel");
    let bad = AcquireError::Create("x".to_string());
    assert_eq!(bad.message(), "failed to create SFTP channel: x");
}

#[test]
fn adapt_buf_size_clamps() {
    let cur = 65536usize;
    let speed = (1024.0 * 1024.0) / 0.1;
    let desired = (speed * (150.0 / 1000.0)) as usize;
    let new = adapt_buf_size(cur, Some(desired), 64 * 1024, 8 * 1024 * 1024);
    assert!((64 * 1024..=8 * 1024 * 1024).contains(&new));
    assert_eq!(adapt_buf_size(cur, Some(1), 64 * 1024, 8 * 1024 * 1024), 64 * 1024);
    assert_eq!(adapt_buf_size(cur, Some(usize::MAX), 64 * 1024, 8 * 1024 * 1024), 8 * 1024 * 1024);
    assert_eq!(adapt_buf_size(77, None, 64 * 1024, 8 * 1024 * 1024), 64 * 1024);
    assert_eq!(adapt_buf_size(cur + 1, None, 64 * 1024, 8 * 1024 * 1024), cur + 1);
    assert_eq!(adapt_buf_size(usize::MAX, None, 64 * 1024, 8 * 1024 * 1024), 8 * 1024 * 1024);
    assert_eq!(adapt_buf_size(cur, Some(100_000), 64 * 1024, 8 * 1024 * 1024), 100_000);
}

#[test]
fn spawn_file_reader_sends_data_and_eof() {
    let data = b"hello world".to_vec();
    let mut cursor = Cursor::new(data.clone());
    let mut collected = Vec::new();
    loop {
        let mut buf = vec![0u8; 4];
        let got = cursor.read(&mut buf).map_err(|e| format!("{}", e));
        let msg = read_message(buf, got);
        let more = reader_goes_on(&msg);
        match msg {
            ReadMsg::Data(v) => collected.extend_from_slice(&v),
            ReadMsg::Failed(e) => panic!("reader error: {}", e),
            ReadMsg::Eof => {
                assert!(!more);
                break;
            }
        }
        assert!(more);
    }
    assert_eq!(collected, data);
}

#[test]
fn reader_errors_are_handed_on() {
    let msg = read_message(vec![1, 2], Err("cut".to_string()));
    assert!(!reader_goes_on(&msg));
    assert!(matches!(msg, ReadMsg::Failed(m) if m == "reader error: cut"));
}

#[test]
fn large_files_are_read_ahead() {
    let c = PipelineConfig::current();
    assert_eq!(c, PipelineConfig::defaults());
    assert_eq!((c.enable_min, c.depth, c.target_ms), (128 * 1024, 4, 150));
    assert_eq!((c.min_size, c.max_size), (64 * 1024, 8 * 1024 * 1024));
    assert!(c.reads_ahead(Some(128 * 1024)));
    assert!(!c.reads_ahead(Some(128 * 1024 - 1)));
    assert!(!c.reads_ahead(None));
}

#[test]
fn progress_comes_in_steps() {
    let mut t = Throttler::new();
    assert_eq!(t.tick(10, 0), None);
    assert_eq!(t.tick(10, 49), None);
    assert_eq!(t.tick(5, 50), Some(25));
    assert_eq!(t.tick(65535, 0), None);
    assert_eq!(t.tick(1, 0), Some(65536));
    assert_eq!(t.flush(), None);
    assert_eq!(t.tick(3, 1), None);
    assert_eq!(t.flush(), Some(3));
    assert_eq!(t.flush(), None);
}

#[test]
fn slots_are_given_back_once() {
    assert_eq!(VISIBLE_BARS, 8);
    let mut s = BarSlot::new();
    assert!(s.wants());
    s.granted(false);
    assert!(s.wants());
    s.granted(true);
    assert!(!s.wants());
    assert!(s.release());
    assert!(!s.release());
}

#[test]
fn figures_add_up() {
    let m = |b: u64, s: u32, f: u32| WorkerMetrics { bytes: b, session_rebuilds: s, sftp_rebuilds: f };
    assert_eq!(total_metrics(&vec![m(1, 2, 3), m(10, 20, 30)]), Some(m(11, 22, 33)));
    assert_eq!(total_metrics(&Vec::new()), Some(WorkerMetrics::default()));
    assert_eq!(total_metrics(&vec![m(u64::MAX, 0, 0), m(1, 0, 0)]), None);
    assert_eq!(total_metrics(&vec![m(0, u32::MAX, 0), m(0, 1, 0)]), None);
}
