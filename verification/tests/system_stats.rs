use mbar::system_stats::{disk_sums_in_range, DiskSpace, GpuReading, SystemReading, SystemStatsBackend};

#[test]
fn test_default_initialization() {
    let stats = SystemStatsBackend::default();
    assert_eq!(stats.ram_used, 0);
    assert_eq!(stats.ram_total, 0);
    assert_eq!(stats.disk_used, 0);
    assert_eq!(stats.disk_total, 0);
    assert_eq!(stats.gpu_utilization, 0);
    assert_eq!(stats.gpu_memory_used, 0);
    assert_eq!(stats.ram_share(), None);
    assert_eq!(stats.disk_share(), None);
}

#[test]
fn update_stats_sums_disks_and_reads_gpu() {
    let mut stats = SystemStatsBackend::default();
    let reading = SystemReading {
        ram_total: 16_000,
        ram_used: 4_000,
        disks: vec![
            DiskSpace { total: 1_000, available: 250 },
            DiskSpace { total: 500, available: 500 },
            DiskSpace { total: 2_000, available: 100 },
        ],
        gpu: Some(GpuReading { utilization: Some(37), memory_used: Some(1_073_741_824) }),
    };
    stats.update_stats(&reading);
    assert_eq!(stats.ram_used, 4_000);
    assert_eq!(stats.ram_total, 16_000);
    assert_eq!(stats.disk_total, 3_500);
    assert_eq!(stats.disk_used, 2_650);
    assert_eq!(stats.gpu_utilization, 37);
    assert_eq!(stats.gpu_memory_used, 1_073_741_824);
    assert_eq!(stats.ram_share(), Some((4_000, 16_000)));
    assert_eq!(stats.disk_share(), Some((2_650, 3_500)));
}

#[test]
fn unreadable_gpu_figures_show_zero() {
    let mut stats = SystemStatsBackend::default();
    let reading = SystemReading {
        ram_total: 0,
        ram_used: 0,
        disks: vec![],
        gpu: Some(GpuReading { utilization: None, memory_used: Some(5) }),
    };
    stats.update_stats(&reading);
    assert_eq!(stats.gpu_utilization, 0);
    assert_eq!(stats.gpu_memory_used, 5);
    assert_eq!(stats.ram_share(), None);
    assert_eq!(stats.disk_share(), None);
    let reading = SystemReading { ram_total: 0, ram_used: 0, disks: vec![], gpu: None };
    stats.update_stats(&reading);
    assert_eq!(stats.gpu_utilization, 0);
    assert_eq!(stats.gpu_memory_used, 0);
}

#[test]
fn disk_sums_out_of_range_are_detected() {
    assert!(disk_sums_in_range(&vec![]));
    assert!(disk_sums_in_range(&vec![DiskSpace { total: 10, available: 4 }]));
    assert!(!disk_sums_in_range(&vec![
        DiskSpace { total: u64::MAX, available: 0 },
        DiskSpace { total: 1, available: 0 },
    ]));
    assert!(!disk_sums_in_range(&vec![DiskSpace { total: 1, available: 2 }]));
    // a disk reporting more available than its size is covered by earlier usage
    assert!(disk_sums_in_range(&vec![
        DiskSpace { total: 10, available: 0 },
        DiskSpace { total: 1, available: 5 },
    ]));
}
