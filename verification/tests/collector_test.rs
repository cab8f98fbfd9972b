use metalps_lib::collector::{
    assemble_output, retain_pid, seed_needed, sort_processes, CollectorError,
};
use metalps_lib::sampling::{compute_gpu_info, seed_sample, GpuShare, RawSample};
use metalps_lib::types::{DeviceGpuInfo, GpuProcessInfo, SortKey};

fn raw(pid: i32, name: &str, gpu_time_ns: u64, vram: Option<u64>, wall_ns: u64) -> RawSample {
    RawSample { pid, name: name.to_string(), gpu_time_ns, vram_bytes: vram, wall_ns }
}

fn proc_info(pid: i32, pct: f64, time: u64, vram: Option<u64>) -> GpuProcessInfo {
    GpuProcessInfo {
        pid,
        name: format!("p{pid}"),
        gpu_time_ns: time,
        gpu_percent_bits: pct.to_bits(),
        vram_bytes: vram,
    }
}

#[test]
fn compute_joins_on_pid_and_filters_idle() {
    let first = vec![
        raw(1, "a", 100, None, 1_000),
        raw(2, "b", 0, None, 1_000),
        raw(1, "a-dup", 50, None, 500),
    ];
    let second = vec![
        raw(2, "b", 0, None, 2_000),
        raw(1, "a", 600, Some(0), 2_000),
        raw(3, "c", 0, Some(4096), 2_000),
        raw(4, "d", 0, Some(0), 2_000),
    ];
    let out = compute_gpu_info(&first, &second);
    assert_eq!(out.len(), 2);
    assert_eq!(out[0].pid, 1);
    assert_eq!(out[0].name, "a");
    assert_eq!(out[0].gpu_time_ns, 600);
    // measured against the first sample of pid 1, not the later duplicate
    assert_eq!(out[0].share, GpuShare { busy_ns: 500, wall_ns: 1_000 });
    assert_eq!(out[0].vram_bytes, Some(0));
    assert_eq!(out[1].pid, 3);
    assert_eq!(out[1].share, GpuShare { busy_ns: 0, wall_ns: 0 });
    assert_eq!(out[1].vram_bytes, Some(4096));
}

#[test]
fn compute_saturates_and_ignores_zero_wall_time() {
    let first = vec![raw(7, "x", 900, None, 5_000), raw(8, "y", 10, None, 5_000)];
    let second = vec![raw(7, "x", 100, None, 6_000), raw(8, "y", 20, None, 5_000)];
    let out = compute_gpu_info(&first, &second);
    assert_eq!(out.len(), 2);
    assert_eq!(out[0].share, GpuShare { busy_ns: 0, wall_ns: 1_000 });
    assert_eq!(out[1].share, GpuShare { busy_ns: 0, wall_ns: 0 });
}

#[test]
fn compute_of_empty_second_snapshot_is_empty() {
    let first = vec![raw(1, "a", 100, None, 1_000)];
    assert!(compute_gpu_info(&first, &Vec::new()).is_empty());
}

#[test]
fn seeding_adds_missing_pid_only() {
    let samples = vec![raw(1, "a", 1, None, 1)];
    assert_eq!(seed_needed(&samples, None), None);
    assert_eq!(seed_needed(&samples, Some(1)), None);
    assert_eq!(seed_needed(&samples, Some(9)), Some(9));
    let s = seed_sample(9, "<9>".to_string(), Some(10), 77);
    assert_eq!(s, raw(9, "<9>", 0, Some(10), 77));
}

#[test]
fn sort_by_gpu_percent_is_descending_and_stable() {
    let mut ps = vec![
        proc_info(1, 3.1, 0, None),
        proc_info(2, 42.5, 0, None),
        proc_info(3, 3.1, 0, None),
        proc_info(4, 0.0, 0, None),
    ];
    sort_processes(&mut ps, SortKey::GpuPercent);
    let pids: Vec<i32> = ps.iter().map(|p| p.pid).collect();
    assert_eq!(pids, vec![2, 1, 3, 4]);
}

#[test]
fn sort_by_time_vram_and_pid() {
    let base = vec![
        proc_info(5, 0.0, 10, Some(1)),
        proc_info(2, 0.0, 30, None),
        proc_info(9, 0.0, 20, Some(0)),
        proc_info(1, 0.0, 30, Some(7)),
    ];
    let mut by_time = base.clone();
    sort_processes(&mut by_time, SortKey::GpuTime);
    assert_eq!(by_time.iter().map(|p| p.pid).collect::<Vec<_>>(), vec![2, 1, 9, 5]);
    let mut by_vram = base.clone();
    sort_processes(&mut by_vram, SortKey::Vram);
    assert_eq!(by_vram.iter().map(|p| p.pid).collect::<Vec<_>>(), vec![1, 5, 9, 2]);
    let mut by_pid = base.clone();
    sort_processes(&mut by_pid, SortKey::Pid);
    assert_eq!(by_pid.iter().map(|p| p.pid).collect::<Vec<_>>(), vec![1, 2, 5, 9]);
}

#[test]
fn retain_keeps_requested_pid() {
    let mut ps = vec![proc_info(1, 1.0, 0, None), proc_info(2, 2.0, 0, None), proc_info(1, 3.0, 0, None)];
    retain_pid(&mut ps, 1);
    assert_eq!(ps.len(), 2);
    assert!(ps.iter().all(|p| p.pid == 1));
}

#[test]
fn assemble_filters_then_sorts() {
    let ps = vec![proc_info(1, 1.0, 0, None), proc_info(2, 2.0, 0, None), proc_info(1, 3.0, 0, None)];
    let devices = vec![DeviceGpuInfo {
        name: "GPU".to_string(),
        gpu_percent_bits: None,
        vram_total_bytes: None,
        vram_used_bytes: None,
    }];
    let out = assemble_output(ps.clone(), devices.clone(), SortKey::GpuPercent, Some(1), 5, 1000);
    assert_eq!(out.timestamp_ms, 5);
    assert_eq!(out.sample_interval_ms, 1000);
    assert_eq!(out.devices, devices);
    assert_eq!(
        out.processes.iter().map(|p| f64::from_bits(p.gpu_percent_bits)).collect::<Vec<_>>(),
        vec![3.0, 1.0]
    );
    let all = assemble_output(ps, vec![], SortKey::Pid, None, 5, 1000);
    assert_eq!(all.processes.iter().map(|p| p.pid).collect::<Vec<_>>(), vec![1, 1, 2]);
}

#[test]
fn collector_error_messages() {
    assert_eq!(
        CollectorError::ProcessList("boom".to_string()).message(),
        "Failed to enumerate processes: boom"
    );
    assert_eq!(CollectorError::PermissionDenied { pid: -5 }.message(), "Permission denied for PID -5");
    assert_eq!(
        CollectorError::GpuQuery { detail: "task_info returned 5".to_string() }.message(),
        "GPU query failed: task_info returned 5"
    );
}

#[test]
fn sort_by_gpu_percent_orders_numerically() {
    let mut ps = vec![
        proc_info(1, -2.0, 0, None),
        proc_info(2, -1.0, 0, None),
        proc_info(3, 0.5, 0, None),
        proc_info(4, -0.0, 0, None),
        proc_info(5, 0.0, 0, None),
        proc_info(6, -0.0, 0, None),
    ];
    sort_processes(&mut ps, SortKey::GpuPercent);
    let pids: Vec<i32> = ps.iter().map(|p| p.pid).collect();
    // -0.0 and +0.0 are equal keys and keep their order
    assert_eq!(pids, vec![3, 4, 5, 6, 2, 1]);
}

#[test]
fn share_is_capped_at_wall_time() {
    let first = vec![raw(1, "a", 0, None, 1_000)];
    let second = vec![raw(1, "a", 2_000, None, 2_000)];
    let out = compute_gpu_info(&first, &second);
    assert_eq!(out.len(), 1);
    assert_eq!(out[0].share, GpuShare { busy_ns: 1_000, wall_ns: 1_000 });
}
