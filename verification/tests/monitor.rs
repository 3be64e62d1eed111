use llm_proxy::monitor::{
    counters_fit_check, cpu_delta, disk_deltas, diskstats_fit_check, merge_disk_usage, network_deltas,
    parse_cpu_line, parse_df_output, parse_nvidia_smi, parse_proc_diskstats, parse_proc_loadavg,
    parse_proc_meminfo,
    parse_proc_net_dev, parse_proc_stat, per_core_deltas, CpuCounters, DiskStat, MonitorConfig,
    NetworkInfo,
};

fn counters(values: [u64; 8]) -> CpuCounters {
    CpuCounters {
        user: values[0],
        nice: values[1],
        system: values[2],
        idle: values[3],
        iowait: values[4],
        irq: values[5],
        softirq: values[6],
        steal: values[7],
    }
}

#[test]
fn test_parse_proc_stat() {
    let raw = "cpu  100 20 30 500 10 5 3 2\ncpu0  80 15 25 400 8 4 2 1\ncpu1  20 5 5 100 2 1 1 1";
    let (total, cores) = parse_proc_stat(raw).unwrap();
    assert_eq!(total.user, 100);
    assert_eq!(total.nice, 20);
    assert_eq!(cores.len(), 2);
    assert_eq!(cores[0].user, 80);
    assert_eq!(cores[1].user, 20);
}

#[test]
fn proc_stat_refuses_malformed_cpu_lines_and_needs_a_total() {
    assert!(parse_proc_stat("cpu 1 2 3\n").is_none());
    assert!(parse_proc_stat("cpu0 1 2 3 4 5 6 7 8\n").is_none());
    let (total, cores) =
        parse_proc_stat("intr 5 6\ncpu 1 2 3 4 5 6 7 8 9 10\nctxt 7\n").expect("total only");
    assert_eq!(total.steal, 8);
    assert!(cores.is_empty());
    assert_eq!(
        parse_cpu_line("cpu3 1 x 2 3 4 5 6 7 8"),
        Some(counters([1, 2, 3, 4, 5, 6, 7, 8]))
    );
}

#[test]
fn test_parse_proc_meminfo() {
    let raw = "MemTotal:       16384000 kB\nMemFree:         4096000 kB\nMemAvailable:    8192000 kB\nBuffers:          512000 kB\nCached:          4096000 kB\nSwapCached:            0 kB\nActive:          8192000 kB\nInactive:        4096000 kB";
    let ram = parse_proc_meminfo(raw);
    assert_eq!(ram.total_mb, 16000);
    assert_eq!(ram.free_mb, 4000);
    assert_eq!(ram.available_mb, 8000);
    assert_eq!(ram.buffers_mb, 500);
    assert_eq!(ram.cached_mb, 4000);
}

#[test]
fn meminfo_defaults_and_used_memory() {
    let ram = parse_proc_meminfo("MemTotal: 10240 kB\nMemFree: 2048 kB\nCached: 20480 kB\n");
    assert_eq!(ram.total_mb, 10);
    assert_eq!(ram.available_mb, 2);
    assert_eq!(ram.used_mb, 0);
    let ram = parse_proc_meminfo("MemTotal: 10240 kB\nMemFree: 2048 kB\nMemTotal: 20480 kB\n");
    assert_eq!(ram.total_mb, 20);
    assert_eq!(ram.used_mb, 18);
}

#[test]
fn test_parse_proc_net_dev() {
    let raw = r#"Inter-|   Receive                                                |  Transmit
face |bytes packets errs drop fifo frame compressed compressed|bytes packets errs drop fifo colls carrier compressed
eth0:    1234567 8901 0 0 0 0 0 0 7654321 2345 0 0 0 0 0 0
lo:      100000 1000 0 0 0 0 0 0   100000 1000 0 0 0 0 0 0"#;
    let nets = parse_proc_net_dev(raw);
    assert_eq!(nets.len(), 2);
    assert_eq!(nets[0].interface, "eth0");
    assert_eq!(nets[1].interface, "lo");
}

#[test]
fn net_dev_reads_counters_and_deltas_saturate() {
    let raw = "h1\nh2\n  eth0: 10 2 1 0 0 0 0 0 20 4 3 0 0 0 0 0\nbad: 1 2 3\n";
    let nets = parse_proc_net_dev(raw);
    assert_eq!(nets.len(), 1);
    assert_eq!(nets[0].bytes_received, 10);
    assert_eq!(nets[0].packets_received, 2);
    assert_eq!(nets[0].receive_errors, 1);
    assert_eq!(nets[0].bytes_transmitted, 20);
    assert_eq!(nets[0].packets_transmitted, 4);
    assert_eq!(nets[0].transmit_errors, 3);

    let prev = vec![NetworkInfo {
        interface: "eth0".to_owned(),
        bytes_received: 4,
        bytes_transmitted: 50,
        packets_received: 1,
        packets_transmitted: 1,
        receive_errors: 0,
        transmit_errors: 0,
    }];
    let deltas = network_deltas(&nets, Some(&prev));
    assert_eq!(deltas.len(), 1);
    assert_eq!(deltas[0].bytes_received, 6);
    assert_eq!(deltas[0].bytes_transmitted, 0);
    assert_eq!(network_deltas(&nets, None), nets);
}

#[test]
fn diskstats_and_df_are_merged() {
    let stats = "   8       0 sda 100 0 2000 0 50 0 4000 0 0 0 0 0 0 0\n   7       0 loop0 1 0 2 0 3 0 4 0 0 0 0 0 0 0\nshort line\n";
    assert!(diskstats_fit_check(stats));
    let disks = parse_proc_diskstats(stats);
    assert_eq!(disks.len(), 2);
    assert_eq!(disks[0].device, "sda");
    assert_eq!(disks[0].reads, 100);
    assert_eq!(disks[0].bytes_read, 2000 * 512);
    assert_eq!(disks[0].writes, 50);
    assert_eq!(disks[0].bytes_written, 4000 * 512);

    let df = "Mounted on Size Used Avail Use%\n/ 10485760 2097152 8388608 20%\n/boot 1048576 0 1048576 0%\n";
    let usage = parse_df_output(df);
    assert_eq!(usage.len(), 2);
    assert_eq!(usage[0].mount, "/");
    assert_eq!(usage[0].total_mb, 10);
    assert_eq!(usage[0].usage_percent, "20");

    let merged = merge_disk_usage(disks, &usage);
    assert_eq!(merged.len(), 3);
    assert_eq!(merged[0].mount, "/");
    assert_eq!(merged[0].used_mb, 2);
    assert_eq!(merged[1].mount, "/");
    assert_eq!(merged[2].mount, "/boot");
    assert_eq!(merged[2].device, "");

    let later: Vec<DiskStat> = merged
        .iter()
        .map(|d| DiskStat {
            bytes_read: d.bytes_read + 512,
            ..d.clone()
        })
        .collect();
    let deltas = disk_deltas(&later, Some(&merged));
    assert_eq!(deltas[0].bytes_read, 512);
    assert_eq!(deltas[0].total_mb, 10);
    assert!(!diskstats_fit_check(
        "8 0 sda 1 0 99999999999999999 0 1 0 1 0 0 0 0 0 0 0\n"
    ));
}

#[test]
fn test_compute_cpu_usage() {
    let prev = counters([100, 10, 50, 800, 5, 2, 3, 1]);
    let curr = counters([200, 20, 100, 850, 10, 4, 5, 2]);
    let delta = cpu_delta(prev, curr);
    // The usage is busy / total * 100, strictly between 74 and 75 percent.
    assert!(delta.busy * 100 > 74 * delta.total && delta.busy * 100 < 75 * delta.total);
    assert_eq!(delta.total, 220);
    assert_eq!(delta.busy, 164);
    let per_core = per_core_deltas(&[prev, prev], &[curr]);
    assert_eq!(per_core.len(), 1);
}

#[test]
fn test_parse_nvidia_smi() {
    let raw = r#"index, name, utilization.gpu [%], memory.total [MiB], memory.used [MiB], memory.free [MiB], temperature.gpu, power.draw [W]
0, Tesla V100-SXM2-16GB, 45, 16384, 8192, 8192, 65, 150.5
1, Tesla V100-SXM2-16GB, 80, 16384, 12000, 4384, 72, 250.0
"#;
    let (names, gpus) = parse_nvidia_smi(raw).unwrap();
    assert_eq!(names.len(), 2);
    assert_eq!(gpus.len(), 2);
    assert_eq!(gpus[0].utilization, "45");
    assert_eq!(gpus[0].utilization.parse::<f64>().unwrap(), 45.0);
    assert_eq!(gpus[0].vram_total_mb, 16384);
    assert_eq!(gpus[0].vram_used_mb, 8192);
    assert_eq!(gpus[0].temperature.parse::<f64>().unwrap(), 65.0);
    assert_eq!(gpus[0].power.parse::<f64>().unwrap(), 150.5);
}

#[test]
fn test_parse_nvidia_smi_empty() {
    let result = parse_nvidia_smi("no data here");
    assert!(result.is_none());
}

#[test]
fn nvidia_smi_headers_are_matched_without_case() {
    let raw = "INDEX, NAME, MEMORY.TOTAL, MEMORY.USED\n0, A100, 100, 30\n1\n";
    let (names, gpus) = parse_nvidia_smi(raw).expect("gpus");
    assert_eq!(names, vec!["A100".to_owned(), "GPU 1".to_owned()]);
    assert_eq!(gpus[0].name, "A100");
    assert_eq!(gpus[0].vram_free_mb, 70);
    assert_eq!(gpus[0].index, 0);
    assert_eq!(gpus[1].name, "GPU 1");
    assert_eq!(gpus[1].index, 1);
    assert_eq!(gpus[1].vram_total_mb, 0);
    assert_eq!(gpus[1].utilization, "");
}

#[test]
fn monitor_defaults() {
    let config = MonitorConfig::default();
    assert_eq!(config.interval_secs, 5);
    assert_eq!(config.retention_secs, 86400);
    assert_eq!(config.retention_hours(), 24);
}

#[test]
fn test_parse_proc_loadavg() {
    let raw = "0.52 0.48 0.45 2/350 12345";
    let load = parse_proc_loadavg(raw).expect("three fields");
    assert_eq!(load.load1.parse::<f64>().unwrap(), 0.52);
    assert_eq!(load.load5.parse::<f64>().unwrap(), 0.48);
    assert_eq!(load.load15.parse::<f64>().unwrap(), 0.45);
}

#[test]
fn loadavg_with_too_few_fields_is_rejected() {
    assert_eq!(parse_proc_loadavg("0.52 0.48"), None);
    assert_eq!(parse_proc_loadavg(""), None);
}

#[test]
fn cpu_counter_sums_must_fit() {
    assert!(counters_fit_check(&counters([1, 2, 3, 4, 5, 6, 7, 8])));
    assert!(counters_fit_check(&counters([i64::MAX as u64, 0, 0, 0, 0, 0, 0, 0])));
    assert!(!counters_fit_check(&counters([i64::MAX as u64, 1, 0, 0, 0, 0, 0, 0])));
    assert!(!counters_fit_check(&counters([u64::MAX; 8])));
}
