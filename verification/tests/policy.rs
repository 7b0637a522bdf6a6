use linux_disk_space_manager::config::{
    sort_thresholds, Config, ConfigError, DaemonConfig, FilesystemPolicy, LifecycleRule,
    Settings, Threshold,
};

fn th(p: u32, cmd: &str) -> Threshold {
    Threshold { usage_percent: p, commands: vec![cmd.to_string()] }
}

fn percents(ts: &[Threshold]) -> Vec<u32> {
    ts.iter().map(|t| t.usage_percent).collect()
}

fn first_commands(ts: &[Threshold]) -> Vec<String> {
    ts.iter().map(|t| t.commands[0].clone()).collect()
}

fn daemon() -> DaemonConfig {
    DaemonConfig { interval_seconds: Some(5), health_window: Some(10), lifecycle_interval_seconds: Some(3600) }
}

fn config(filesystems: Vec<FilesystemPolicy>) -> Config {
    Config {
        daemon: daemon(),
        filesystems,
        preserve: vec!["/var/log/critical-app.log".to_string()],
        lifecycle: vec![LifecycleRule {
            pattern: "/var/log/*.gz".to_string(),
            max_age_days: Some(30),
            max_size_mb: None,
            compress_after_days: None,
            delete_compressed_after_days: None,
        }],
    }
}

#[test]
fn sort_orders_ascending() {
    let sorted = sort_thresholds(vec![th(92, "c"), th(70, "a"), th(97, "d"), th(85, "b")]);
    assert_eq!(percents(&sorted), vec![70, 85, 92, 97]);
    assert_eq!(first_commands(&sorted), vec!["a", "b", "c", "d"]);
}

#[test]
fn sort_is_stable() {
    let sorted = sort_thresholds(vec![th(80, "x"), th(50, "p"), th(80, "y"), th(50, "q"), th(80, "z")]);
    assert_eq!(percents(&sorted), vec![50, 50, 80, 80, 80]);
    assert_eq!(first_commands(&sorted), vec!["p", "q", "x", "y", "z"]);
}

#[test]
fn sort_of_empty_and_single() {
    assert!(sort_thresholds(vec![]).is_empty());
    let one = sort_thresholds(vec![th(100, "only")]);
    assert_eq!(percents(&one), vec![100]);
}

#[test]
fn yaml_order_does_not_matter() {
    let a = sort_thresholds(vec![th(97, "d"), th(70, "a"), th(85, "b")]);
    let b = sort_thresholds(vec![th(85, "b"), th(97, "d"), th(70, "a")]);
    assert_eq!(percents(&a), percents(&b));
    assert_eq!(first_commands(&a), first_commands(&b));
}

#[test]
fn normalized_sorts_every_filesystem() {
    let cfg = config(vec![
        FilesystemPolicy { mount: "/var".to_string(), thresholds: vec![th(97, "v97"), th(70, "v70")] },
        FilesystemPolicy { mount: "/".to_string(), thresholds: vec![th(92, "r92"), th(100, "r100"), th(0, "r0")] },
    ]);
    let out = cfg.normalized().expect("policy within limits");
    assert_eq!(out.filesystems.len(), 2);
    assert_eq!(out.filesystems[0].mount, "/var");
    assert_eq!(percents(&out.filesystems[0].thresholds), vec![70, 97]);
    assert_eq!(out.filesystems[1].mount, "/");
    assert_eq!(percents(&out.filesystems[1].thresholds), vec![0, 92, 100]);
    assert_eq!(out.preserve, vec!["/var/log/critical-app.log".to_string()]);
    assert_eq!(out.lifecycle.len(), 1);
    assert_eq!(out.daemon.health_window, Some(10));
}

#[test]
fn normalized_refuses_percent_above_100() {
    let cfg = config(vec![
        FilesystemPolicy { mount: "/var".to_string(), thresholds: vec![th(90, "ok")] },
        FilesystemPolicy { mount: "/tmp".to_string(), thresholds: vec![th(150, "a"), th(75, "b"), th(101, "c")] },
        FilesystemPolicy { mount: "/home".to_string(), thresholds: vec![th(120, "d")] },
    ]);
    match cfg.normalized() {
        Err(ConfigError::UsageAbove100 { mount, usage_percent }) => {
            assert_eq!(mount, "/tmp");
            assert_eq!(usage_percent, 101);
        }
        Ok(_) => panic!("a threshold above 100 must be refused"),
    }
}

#[test]
fn normalized_accepts_empty_policy() {
    let out = config(vec![]).normalized().expect("empty policy");
    assert!(out.filesystems.is_empty());
}

#[test]
fn settings_defaults() {
    let none = DaemonConfig { interval_seconds: None, health_window: None, lifecycle_interval_seconds: None };
    assert_eq!(
        none.settings(),
        Settings { interval_secs: 10, health_window: 5, lifecycle_interval_secs: 10 }
    );
    assert_eq!(
        daemon().settings(),
        Settings { interval_secs: 5, health_window: 10, lifecycle_interval_secs: 3600 }
    );
}

#[test]
fn settings_floor_at_one() {
    let zero = DaemonConfig { interval_seconds: Some(0), health_window: Some(-3), lifecycle_interval_seconds: None };
    assert_eq!(
        zero.settings(),
        Settings { interval_secs: 1, health_window: 1, lifecycle_interval_secs: 1 }
    );
    let lc_zero = DaemonConfig { interval_seconds: Some(2), health_window: Some(0), lifecycle_interval_seconds: Some(0) };
    assert_eq!(
        lc_zero.settings(),
        Settings { interval_secs: 2, health_window: 1, lifecycle_interval_secs: 0 }
    );
}
