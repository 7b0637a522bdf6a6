use linux_disk_space_manager::config::LifecycleRule;
use linux_disk_space_manager::lifecycle::{
    age_in_days, lifecycle_tick, preserve_hit, preserved_by, size_in_mib, FileAction, LifecycleTick, PreserveHit,
};

fn rule(max_age: Option<u64>, max_mb: Option<u64>, compress: Option<u64>, gz: Option<u64>) -> LifecycleRule {
    LifecycleRule {
        pattern: "/var/log/myapp/*.log".to_string(),
        max_age_days: max_age,
        max_size_mb: max_mb,
        compress_after_days: compress,
        delete_compressed_after_days: gz,
    }
}

#[test]
fn compress_comes_first() {
    let r = rule(Some(7), Some(512), Some(7), Some(90));
    assert_eq!(
        r.plan_file("/var/log/myapp/a.log", true, false, Some(9), Some(600)),
        FileAction::Compress { age_days: 9, after_days: 7 }
    );
}

#[test]
fn compressed_files_are_not_compressed_again() {
    let r = rule(Some(30), None, Some(7), None);
    assert_eq!(r.plan_file("/var/log/a.log.gz", true, false, Some(9), Some(1)), FileAction::Keep);
    assert_eq!(
        r.plan_file("/var/log/a.log.gz", true, false, Some(31), Some(1)),
        FileAction::Delete { age_days: 31, max_days: 30 }
    );
}

#[test]
fn delete_before_truncate() {
    let r = rule(Some(14), Some(100), None, None);
    assert_eq!(
        r.plan_file("/var/log/x.log", true, false, Some(14), Some(200)),
        FileAction::Delete { age_days: 14, max_days: 14 }
    );
    assert_eq!(
        r.plan_file("/var/log/x.log", true, false, Some(13), Some(100)),
        FileAction::Truncate { size_mb: 100, max_mb: 100 }
    );
    assert_eq!(r.plan_file("/var/log/x.log", true, false, Some(13), Some(99)), FileAction::Keep);
}

#[test]
fn unknown_age_or_size_keeps() {
    let r = rule(Some(1), Some(1), Some(1), None);
    assert_eq!(r.plan_file("/var/log/x.log", true, false, None, None), FileAction::Keep);
    assert_eq!(
        r.plan_file("/var/log/x.log", true, false, None, Some(5)),
        FileAction::Truncate { size_mb: 5, max_mb: 1 }
    );
}

#[test]
fn no_limits_keep_everything() {
    let r = rule(None, None, None, None);
    assert_eq!(r.plan_file("/var/log/x.log", true, false, Some(10_000), Some(10_000)), FileAction::Keep);
}

#[test]
fn compressed_sweep_pattern() {
    let r = rule(None, None, Some(7), Some(90));
    assert_eq!(r.compressed_sweep(), Some(("/var/log/myapp/*.log.gz".to_string(), 90)));
    assert!(rule(None, None, Some(7), None).compressed_sweep().is_none());
    assert!(r.compressed_expired(false, Some(90)));
    assert!(!r.compressed_expired(false, Some(89)));
    assert!(!r.compressed_expired(false, None));
    assert!(!rule(None, None, None, None).compressed_expired(false, Some(1000)));
}

#[test]
fn day_and_mib_arithmetic() {
    assert_eq!(age_in_days(0), 0);
    assert_eq!(age_in_days(86_399), 0);
    assert_eq!(age_in_days(86_400), 1);
    assert_eq!(age_in_days(30 * 86_400 + 5), 30);
    assert_eq!(size_in_mib(1_048_575), 0);
    assert_eq!(size_in_mib(100 * 1_048_576), 100);
    assert_eq!(size_in_mib(u64::MAX), 17_592_186_044_415);
}

#[test]
fn preserve_patterns() {
    assert_eq!(preserve_hit("/var/log/a.log", "/var/log/*.log", true), Some(PreserveHit::Glob));
    assert_eq!(preserve_hit("/var/log/a.log", "/var/log/a.log", false), Some(PreserveHit::Literal));
    assert_eq!(preserve_hit("/var/log/a.log", "/var/log/b.log", false), None);
}

#[test]
fn lifecycle_schedule() {
    assert_eq!(lifecycle_tick(false, None, 60, true), LifecycleTick::Idle);
    assert_eq!(lifecycle_tick(true, None, 60, true), LifecycleTick::Start);
    assert_eq!(lifecycle_tick(true, Some(59), 60, true), LifecycleTick::Idle);
    assert_eq!(lifecycle_tick(true, Some(60), 60, true), LifecycleTick::Start);
    assert_eq!(lifecycle_tick(true, Some(600), 60, false), LifecycleTick::Busy);
    assert_eq!(lifecycle_tick(true, Some(5), 60, false), LifecycleTick::Idle);
}

#[test]
fn preserved_and_non_files_are_skipped() {
    let r = rule(Some(1), Some(1), Some(1), Some(1));
    assert_eq!(r.plan_file("/var/log/a.log", true, true, Some(100), Some(100)), FileAction::Skip);
    assert_eq!(r.plan_file("/var/log/dir", false, false, Some(100), Some(100)), FileAction::Skip);
    assert!(!r.compressed_expired(true, Some(100)));
    assert!(r.compressed_expired(false, Some(100)));
}

#[test]
fn preserve_list() {
    let patterns = vec![
        "/var/log/audit/*.log".to_string(),
        "/var/log/critical-app.log".to_string(),
        "/var/log/*.log".to_string(),
    ];
    assert_eq!(
        preserved_by("/var/log/critical-app.log", &patterns, &vec![false, false, true]),
        Some((1, PreserveHit::Literal))
    );
    assert_eq!(
        preserved_by("/var/log/audit/x.log", &patterns, &vec![true, false, true]),
        Some((0, PreserveHit::Glob))
    );
    assert_eq!(
        preserved_by("/var/log/other.log", &patterns, &vec![false, false, true]),
        Some((2, PreserveHit::Glob))
    );
    assert_eq!(preserved_by("/srv/x", &patterns, &vec![false, false, false]), None);
    assert_eq!(preserved_by("/srv/x", &vec![], &vec![]), None);
}
