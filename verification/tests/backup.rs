use server_keeper::scheduler::{
    backup_archive_name, create_backup_name, interval_sleep_secs, is_transient_dir, prune_plan,
    BackupRecord, BackupScheduler,
};

fn record(name: &str, mtime: u64) -> BackupRecord {
    BackupRecord { name: name.to_string(), mtime, size: 1024 }
}

#[test]
fn scheduler_enable_disable_wake() {
    let mut s = BackupScheduler::new();
    let token = s.enable(24);
    assert!(s.on_wake(token));
    s.disable();
    assert!(!s.on_wake(token));
}

#[test]
fn enabling_again_stops_the_old_loop() {
    let mut s = BackupScheduler::new();
    let first = s.enable(24);
    let second = s.enable(6);
    // the old loop's next wake tells it to stop; only the new one runs
    assert!(!s.on_wake(first));
    assert!(s.on_wake(second));
    assert_ne!(first, second);
}

#[test]
fn retention_keeps_ten_most_recent_of_fifteen() {
    let mut records = Vec::new();
    for i in 0..15u64 {
        records.push(record(&format!("srv_{}", i), 1000 + i));
    }
    let (kept, deleted) = prune_plan(records, 10);
    assert_eq!(kept.len(), 10);
    assert_eq!(deleted.len(), 5);
    for k in &kept {
        assert!(k.mtime >= 1005);
    }
    for d in &deleted {
        assert!(d.mtime <= 1004);
    }
}

#[test]
fn retention_with_few_archives_keeps_all() {
    let records = vec![record("a", 5), record("b", 9)];
    let (kept, deleted) = prune_plan(records, 10);
    assert_eq!(kept.len(), 2);
    assert!(deleted.is_empty());
}

#[test]
fn retention_orders_by_mtime_not_name() {
    let records = vec![
        record("zzz_newest", 300),
        record("aaa_oldest", 100),
        record("mmm_mid", 200),
    ];
    let (kept, deleted) = prune_plan(records, 2);
    assert_eq!(kept.len(), 2);
    assert_eq!(deleted.len(), 1);
    assert_eq!(deleted[0].name, "aaa_oldest");
}

#[test]
fn archive_name_shape() {
    assert_eq!(backup_archive_name("world", "2024-01-31_23-59-59"), "world_2024-01-31_23-59-59.zip");
    let fresh = create_backup_name("world");
    assert!(fresh.starts_with("world_"));
    assert!(fresh.ends_with(".zip"));
}

#[test]
fn transient_directories_are_excluded() {
    assert!(is_transient_dir("logs"));
    assert!(is_transient_dir("crash-reports"));
    assert!(is_transient_dir("cache"));
    assert!(!is_transient_dir("world"));
    assert!(!is_transient_dir("mods"));
}

#[test]
fn sleep_seconds_from_hours() {
    assert_eq!(interval_sleep_secs(24), 86_400);
    assert_eq!(interval_sleep_secs(0), 0);
    assert_eq!(interval_sleep_secs(u64::MAX), u64::MAX);
}
