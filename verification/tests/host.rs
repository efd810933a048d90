use try_ui::host::{host_cores_from, meminfo_total_kb, memory_gb, memsize_from, millihertz};

#[test]
fn the_host_reports_its_cores_and_memory() {
    assert_eq!(host_cores_from(Some("10\n")), 10);
    assert_eq!(host_cores_from(Some("ten")), 8);
    assert_eq!(host_cores_from(None), 8);
    assert_eq!(memsize_from(Some("34359738368\n")), 34359738368);
    assert_eq!(memsize_from(Some("")), 0);
    assert_eq!(
        meminfo_total_kb("MemFree:  100 kB\nMemTotal:       16318524 kB\nMemTotal: 1 kB\n"),
        Some(16318524)
    );
    assert_eq!(meminfo_total_kb("MemTotal: lots\nMemTotal: 2048kBkB\n"), Some(2048));
    assert_eq!(meminfo_total_kb("nothing"), None);
    assert_eq!(memory_gb(34359738368), 32);
    assert_eq!(memory_gb(16318524 * 1024), 15);
    assert_eq!(memory_gb(0), 4);
}

#[test]
fn a_panel_rate_is_given_in_millihertz() {
    let rate = millihertz(120);
    assert!((24_000..=1_000_000).contains(&rate), "the panel's rate came back as {rate} millihertz");
    assert_eq!(rate, 120_000);
    assert_eq!(millihertz(5_000_000), u32::MAX);
}
