use metalps_lib::gpu_metrics::{gauge_family, GaugeKind, GaugeTable, GaugeValue};
use metalps_lib::types::{DeviceGpuInfo, GpuOutput, GpuProcessInfo};

fn sample_output() -> GpuOutput {
    GpuOutput {
        timestamp_ms: 1000,
        sample_interval_ms: 1000,
        devices: vec![DeviceGpuInfo {
            name: "Apple M1 Pro".to_string(),
            gpu_percent_bits: Some(50.0f64.to_bits()),
            vram_total_bytes: Some(16 * 1024 * 1024 * 1024),
            vram_used_bytes: Some(4 * 1024 * 1024 * 1024),
        }],
        processes: vec![GpuProcessInfo {
            pid: 1234,
            name: "test-proc".to_string(),
            gpu_time_ns: 2_000_000_000,
            gpu_percent_bits: 25.0f64.to_bits(),
            vram_bytes: Some(128 * 1024 * 1024),
        }],
    }
}

fn labels(ls: &[&str]) -> Vec<String> {
    ls.iter().map(|s| s.to_string()).collect()
}

/// The published value of a gauge: unset gauges read as 0.
fn gauge_value(t: &GaugeTable, kind: GaugeKind, ls: &[&str]) -> f64 {
    match t.value(kind, &labels(ls)) {
        None => 0.0,
        Some(GaugeValue::PercentAsRatio(bits)) => f64::from_bits(bits) / 100.0,
        Some(GaugeValue::Bytes(b)) => b as f64,
        Some(GaugeValue::NanosAsSeconds(ns)) => ns as f64 / 1_000_000_000.0,
    }
}

#[test]
fn test_update_sets_device_gauges() {
    let mut m = GaugeTable::new();
    m.update(&sample_output());
    assert!((gauge_value(&m, GaugeKind::DeviceGpuUtilization, &["Apple M1 Pro"]) - 0.5).abs() < f64::EPSILON);
    assert_eq!(gauge_value(&m, GaugeKind::DeviceVramUsed, &["Apple M1 Pro"]) as u64, 4 * 1024 * 1024 * 1024);
    assert_eq!(gauge_value(&m, GaugeKind::DeviceVramTotal, &["Apple M1 Pro"]) as u64, 16 * 1024 * 1024 * 1024);
}

#[test]
fn test_update_sets_process_gauges() {
    let mut m = GaugeTable::new();
    m.update(&sample_output());
    assert!((gauge_value(&m, GaugeKind::ProcessGpuUtilization, &["1234", "test-proc"]) - 0.25).abs() < f64::EPSILON);
    assert_eq!(gauge_value(&m, GaugeKind::ProcessVram, &["1234", "test-proc"]) as u64, 128 * 1024 * 1024);
}

#[test]
fn test_stale_processes_removed() {
    let mut m = GaugeTable::new();
    m.update(&sample_output());
    assert!(gauge_value(&m, GaugeKind::ProcessGpuUtilization, &["1234", "test-proc"]) > 0.0);
    let empty = GpuOutput { timestamp_ms: 2000, sample_interval_ms: 1000, devices: vec![], processes: vec![] };
    m.update(&empty);
    assert!(gauge_value(&m, GaugeKind::ProcessGpuUtilization, &["1234", "test-proc"]).abs() < f64::EPSILON);
    assert!(m.settings().is_empty());
}

#[test]
fn test_percent_to_ratio_conversion() {
    let mut m = GaugeTable::new();
    let output = GpuOutput {
        timestamp_ms: 1000,
        sample_interval_ms: 1000,
        devices: vec![DeviceGpuInfo {
            name: "GPU".to_string(),
            gpu_percent_bits: Some(100.0f64.to_bits()),
            vram_total_bytes: None,
            vram_used_bytes: None,
        }],
        processes: vec![],
    };
    m.update(&output);
    assert!((gauge_value(&m, GaugeKind::DeviceGpuUtilization, &["GPU"]) - 1.0).abs() < f64::EPSILON);
    assert_eq!(m.value(GaugeKind::DeviceVramUsed, &labels(&["GPU"])), None);
}

#[test]
fn test_nanoseconds_to_seconds_conversion() {
    let mut m = GaugeTable::new();
    let output = GpuOutput {
        timestamp_ms: 1000,
        sample_interval_ms: 1000,
        devices: vec![],
        processes: vec![GpuProcessInfo {
            pid: 42,
            name: "ns-test".to_string(),
            gpu_time_ns: 1_500_000_000,
            gpu_percent_bits: 0.0f64.to_bits(),
            vram_bytes: None,
        }],
    };
    m.update(&output);
    assert!((gauge_value(&m, GaugeKind::ProcessGpuTime, &["42", "ns-test"]) - 1.5).abs() < f64::EPSILON);
    assert_eq!(m.value(GaugeKind::ProcessVram, &labels(&["42", "ns-test"])), None);
}

#[test]
fn update_settings_are_in_order() {
    let mut m = GaugeTable::new();
    m.update(&sample_output());
    let kinds: Vec<GaugeKind> = m.settings().iter().map(|s| s.gauge).collect();
    assert_eq!(
        kinds,
        vec![
            GaugeKind::DeviceGpuUtilization,
            GaugeKind::DeviceVramUsed,
            GaugeKind::DeviceVramTotal,
            GaugeKind::ProcessGpuUtilization,
            GaugeKind::ProcessGpuTime,
            GaugeKind::ProcessVram,
        ]
    );
    assert_eq!(m.settings()[3].labels, labels(&["1234", "test-proc"]));
}

#[test]
fn later_duplicate_process_wins() {
    let mut out = sample_output();
    let mut dup = out.processes[0].clone();
    dup.gpu_time_ns = 7;
    out.processes.push(dup);
    let mut m = GaugeTable::new();
    m.update(&out);
    assert_eq!(
        m.value(GaugeKind::ProcessGpuTime, &labels(&["1234", "test-proc"])),
        Some(GaugeValue::NanosAsSeconds(7))
    );
}

#[test]
fn gauge_families_name_help_and_labels() {
    let (name, help, labels) = gauge_family(GaugeKind::DeviceGpuUtilization);
    assert_eq!(name, "metalps_device_gpu_utilization_ratio");
    assert_eq!(help, "Device-wide GPU utilization as a ratio (0.0-1.0).");
    assert_eq!(labels, vec!["device"]);
    let (name, help, labels) = gauge_family(GaugeKind::ProcessGpuTime);
    assert_eq!(name, "metalps_process_gpu_time_seconds_total");
    assert_eq!(help, "Cumulative GPU time in seconds since process start.");
    assert_eq!(labels, vec!["pid", "name"]);
    let mut m = GaugeTable::new();
    m.update(&sample_output());
    for s in m.settings() {
        assert_eq!(s.labels.len(), gauge_family(s.gauge).2.len());
    }
}
