use statix_agent::metrics::disk::{self, Disk, DiskMetrics};
use statix_agent::metrics::memory::{
    self, from_totals, memory_metrics_from_meminfo, parse_meminfo, read_cgroup_v2, MemoryMetrics,
    MemorySources,
};
use statix_agent::metrics::network::{self, Interface, NetworkMetrics};
use statix_agent::metrics::{collect_metrics, unix_timestamp_ms};

#[test]
fn meminfo_uses_memavailable_when_it_reports_real_usage() {
    let values = parse_meminfo(
        "\
MemTotal:        1000 kB
MemFree:          100 kB
MemAvailable:     700 kB
Buffers:           50 kB
Cached:           200 kB
SReclaimable:      25 kB
Shmem:             10 kB
",
    );

    let metrics = memory_metrics_from_meminfo(&values).expect("meminfo should parse");

    assert_eq!(metrics.total, 1000 * 1024);
    assert_eq!(metrics.used, 300 * 1024);
    assert_eq!(metrics.cached, Some(265 * 1024));
    assert_eq!(metrics.available, Some(700 * 1024));
}

#[test]
fn meminfo_falls_back_when_memavailable_would_hide_usage() {
    let values = parse_meminfo(
        "\
MemTotal:        1000 kB
MemFree:          100 kB
MemAvailable:    1000 kB
Buffers:           50 kB
Cached:           200 kB
SReclaimable:      25 kB
Shmem:             10 kB
",
    );

    let metrics = memory_metrics_from_meminfo(&values).expect("meminfo should parse");

    assert_eq!(metrics.used, 635 * 1024);
    assert_eq!(metrics.cached, Some(265 * 1024));
    assert_eq!(metrics.available, Some(365 * 1024));
}

#[test]
fn meminfo_entries_are_read() {
    let values = parse_meminfo("A: 1 kB\nB 2\n C : x\nA:3\nD:\n");
    assert_eq!(values.len(), 1);
    assert_eq!(values.get("A"), Some(&3));
    assert!(memory_metrics_from_meminfo(&values).is_none());
    let huge = parse_meminfo("MemTotal: 18446744073709551615 kB");
    let metrics = memory_metrics_from_meminfo(&huge).unwrap();
    assert_eq!(metrics.total, u64::MAX);
    assert_eq!(metrics.used, 0);
    assert_eq!(metrics.available, Some(u64::MAX));
}

#[test]
fn control_groups_are_measured() {
    let metrics = read_cgroup_v2("1000\n", "400\n", "anon 1\nfile 500\n").unwrap();
    assert_eq!(
        metrics,
        MemoryMetrics { total: 1000, used: 400, cached: Some(400), available: Some(600) }
    );
    assert_eq!(read_cgroup_v2("1000", "2000", "").unwrap().used, 1000);
    assert_eq!(read_cgroup_v2("1000", "1", "file x\nfile 1").unwrap().cached, Some(1));
    assert!(read_cgroup_v2("max\n", "1", "").is_none());
    assert!(read_cgroup_v2("0", "1", "").is_none());
    assert!(read_cgroup_v2("10", "", "").is_none());
}

#[test]
fn memory_sources_are_tried_in_turn() {
    let sources = MemorySources {
        cgroup: Some(("max", "1", "")),
        meminfo: Some("MemTotal: 4 kB\nMemAvailable: 1 kB"),
        totals: (10, 4),
    };
    assert_eq!(memory::collect(&sources).used, 3 * 1024);
    let sources = MemorySources { cgroup: None, meminfo: None, totals: (10, 40) };
    assert_eq!(
        memory::collect(&sources),
        MemoryMetrics { total: 10, used: 0, cached: None, available: Some(10) }
    );
    assert_eq!(from_totals(0, 0).total, 1);
    assert_eq!(from_totals(0, 0).used, 1);
}

#[test]
fn disks_are_measured() {
    let disk = |mount: &str, total: u64, available: u64| Disk {
        mount_point: mount.to_owned(),
        total,
        available,
    };
    assert_eq!(disk::collect(&Vec::new()), DiskMetrics { used: 0, total: 1 });
    let disks = vec![disk("/boot", 10, 1), disk("/", 100, 30), disk("/", 5, 5)];
    assert_eq!(disk::collect(&disks), DiskMetrics { used: 70, total: 100 });
    assert_eq!(disk::collect(&vec![disk("/boot", 10, 20)]), DiskMetrics { used: 0, total: 10 });
    assert_eq!(disk::collect(&vec![disk("/x", 0, 0)]), DiskMetrics { used: 1, total: 1 });
}

#[test]
fn interfaces_are_summed() {
    let interface = |name: &str, state: Option<&str>, rx: Option<&str>, tx: Option<&str>| {
        Interface {
            name: name.to_owned(),
            operstate: state.map(str::to_owned),
            rx_bytes: rx.map(str::to_owned),
            tx_bytes: tx.map(str::to_owned),
        }
    };
    let interfaces = vec![
        interface("lo", Some("up"), Some("1"), Some("1")),
        interface("eth0", Some("up\n"), Some("10\n"), Some("20\n")),
        interface("eth1", Some("down\n"), Some("5"), Some("5")),
        interface("eth2", None, Some("x"), None),
        interface("wg0", Some("unknown"), Some("7"), Some("8")),
    ];
    assert_eq!(network::collect(&interfaces), NetworkMetrics { rx: 17, tx: 28 });
    let full = vec![
        interface("a", None, Some("18446744073709551615"), None),
        interface("b", None, Some("1"), None),
    ];
    assert_eq!(network::collect(&full).rx, u64::MAX);
}

#[test]
fn metrics_are_put_together() {
    let payload = collect_metrics(
        9,
        MemoryMetrics { total: 0, used: 0, cached: None, available: Some(0) },
        DiskMetrics { used: 2, total: 3 },
        NetworkMetrics { rx: 4, tx: 5 },
    );
    assert_eq!(payload.v, 1);
    assert_eq!(payload.ts, 9);
    assert_eq!(payload.mem_total, 1);
    assert_eq!(payload.disk_used, 2);
    assert_eq!(payload.net_tx, 5);
    assert_eq!(unix_timestamp_ms(Some(12)), 12);
    assert_eq!(unix_timestamp_ms(Some(u64::MAX as u128 + 3)), 2);
    assert_eq!(unix_timestamp_ms(None), 0);
}
