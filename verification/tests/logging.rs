use runh_core::LogEntry;

#[test]
fn log_entry_carries_its_fields() {
    let e = LogEntry {
        level: String::from("info"),
        msg: String::from("container created"),
        time: String::from("2024-01-01T00:00:00+00:00"),
    };
    assert_eq!(e.level, "info");
    assert_eq!(e.msg, "container created");
    assert_eq!(e.time, "2024-01-01T00:00:00+00:00");
}
