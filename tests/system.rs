use command_executor::{SystemInfo, BYTES_PER_MB};

#[test]
fn snapshot_converts_bytes_to_megabytes() {
    let info = SystemInfo::from_readings(
        Some("Linux 6.1 Debian 12".to_string()),
        "x86_64".to_string(),
        8 * 1024 * 1024 * 1024,
        3 * 1024 * 1024 * 1024 + 5,
        8,
    );
    assert_eq!(info.os, "Linux 6.1 Debian 12");
    assert_eq!(info.arch, "x86_64");
    assert_eq!(info.total_memory_mb, 8192);
    assert_eq!(info.available_memory_mb, 3072);
    assert_eq!(info.cpu_count, 8);
    assert!(info.total_memory_mb >= info.available_memory_mb);
}

#[test]
fn missing_os_description_reads_unknown() {
    let info = SystemInfo::from_readings(None, "aarch64".to_string(), 0, 0, 1);
    assert_eq!(info.os, "Unknown");
    assert_eq!(info.total_memory_mb, 0);
    assert_eq!(info.available_memory_mb, 0);
    assert!(info.cpu_count >= 1);
}

#[test]
fn megabytes_round_down() {
    assert_eq!(BYTES_PER_MB, 1048576);
    let info = SystemInfo::from_readings(None, String::new(), BYTES_PER_MB - 1, u64::MAX, 2);
    assert_eq!(info.total_memory_mb, 0);
    assert_eq!(info.available_memory_mb, 17592186044415);
}
