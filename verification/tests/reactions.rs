use linux_disk_space_manager::runner::exit_label;

#[test]
fn exit_labels() {
    assert_eq!(exit_label(None), "signal");
    assert_eq!(exit_label(Some(0)), "0");
    assert_eq!(exit_label(Some(1)), "1");
    assert_eq!(exit_label(Some(127)), "127");
    assert_eq!(exit_label(Some(-1)), "-1");
    for c in [i32::MIN, i32::MIN + 1, -1000, -10, 9, 10, 99, 100, 65535, i32::MAX] {
        assert_eq!(exit_label(Some(c)), c.to_string());
    }
}
