use metalps_lib::types::{format_bytes, format_duration_ns, GpuProcessInfo, SortKey};

#[test]
fn test_format_bytes() {
    assert_eq!(format_bytes(None), "-");
    assert_eq!(format_bytes(Some(0)), "0B");
    assert_eq!(format_bytes(Some(1023)), "1023B");
    assert_eq!(format_bytes(Some(1024)), "1.0K");
    assert_eq!(format_bytes(Some(1024 * 1024)), "1.0M");
    assert_eq!(format_bytes(Some(1024 * 1024 * 1024)), "1.0G");
}

#[test]
fn test_format_duration_ns() {
    assert_eq!(format_duration_ns(0), "0ms");
    assert_eq!(format_duration_ns(500_000_000), "500ms");
    assert_eq!(format_duration_ns(1_500_000_000), "1.5s");
    assert_eq!(format_duration_ns(90_000_000_000), "1m30s");
    assert_eq!(format_duration_ns(3_600_000_000_000), "1h0m");
}

#[test]
fn test_sort_key_from_str() {
    assert_eq!("gpu".parse::<SortKey>().unwrap(), SortKey::GpuPercent);
    assert_eq!("time".parse::<SortKey>().unwrap(), SortKey::GpuTime);
    assert_eq!("vram".parse::<SortKey>().unwrap(), SortKey::Vram);
    assert_eq!("pid".parse::<SortKey>().unwrap(), SortKey::Pid);
    assert!("invalid".parse::<SortKey>().is_err());
}

#[test]
fn sort_key_aliases_and_case() {
    assert_eq!(SortKey::parse("GPU"), Ok(SortKey::GpuPercent));
    assert_eq!(SortKey::parse("Gpu-Percent"), Ok(SortKey::GpuPercent));
    assert_eq!(SortKey::parse("gpu_percent"), Ok(SortKey::GpuPercent));
    assert_eq!(SortKey::parse("GPU_TIME"), Ok(SortKey::GpuTime));
    assert_eq!(SortKey::parse("gpu-time"), Ok(SortKey::GpuTime));
    assert_eq!(SortKey::parse("Memory"), Ok(SortKey::Vram));
    assert_eq!(SortKey::parse("mem"), Ok(SortKey::Vram));
    assert_eq!(SortKey::parse("PID"), Ok(SortKey::Pid));
    assert_eq!(SortKey::default(), SortKey::GpuPercent);
}

#[test]
fn sort_key_error_uses_lowercased_name() {
    assert_eq!(
        SortKey::parse("Bogus"),
        Err("Unknown sort key: bogus. Valid values: gpu, time, vram, pid".to_string())
    );
    assert_eq!(
        SortKey::parse(""),
        Err("Unknown sort key: . Valid values: gpu, time, vram, pid".to_string())
    );
}

#[test]
fn format_bytes_unit_boundaries() {
    assert_eq!(format_bytes(Some(1025)), "1.0K");
    assert_eq!(format_bytes(Some(1536)), "1.5K");
    assert_eq!(format_bytes(Some(1024 * 1024 - 1)), "1024.0K");
    assert_eq!(format_bytes(Some(128 * 1024 * 1024)), "128.0M");
    assert_eq!(format_bytes(Some(45 * 1024 * 1024)), "45.0M");
    assert_eq!(format_bytes(Some(18 * 1024 * 1024 * 1024)), "18.0G");
    assert_eq!(format_bytes(Some(u64::MAX)), "17179869184.0G");
}

#[test]
fn format_bytes_ties_round_to_even() {
    // 1.25 KiB and 1.75 KiB are exact halves of a tenth.
    assert_eq!(format_bytes(Some(1280)), format!("{:.1}K", 1280f64 / 1024.0));
    assert_eq!(format_bytes(Some(1792)), format!("{:.1}K", 1792f64 / 1024.0));
}

#[test]
fn format_bytes_agrees_with_float_formatting() {
    let mut b: u64 = 1024;
    while b < 1024 * 1024 {
        assert_eq!(format_bytes(Some(b)), format!("{:.1}K", b as f64 / 1024.0), "b = {b}");
        b += 7;
    }
    let mut b: u64 = 1024 * 1024;
    while b < 1024 * 1024 * 1024 {
        assert_eq!(
            format_bytes(Some(b)),
            format!("{:.1}M", b as f64 / (1024.0 * 1024.0)),
            "b = {b}"
        );
        b += 6553 * 7 + 1;
    }
    let samples: [u64; 8] = [
        1 << 30,
        (1 << 30) + 1,
        3 * (1 << 29),
        (1 << 53) + 1,
        (1 << 53) + 3,
        (1 << 60) + 12345,
        u64::MAX - 1024,
        u64::MAX,
    ];
    for b in samples {
        assert_eq!(
            format_bytes(Some(b)),
            format!("{:.1}G", b as f64 / (1024.0 * 1024.0 * 1024.0)),
            "b = {b}"
        );
    }
}

#[test]
fn format_duration_agrees_with_float_formatting() {
    for ms in 1_000u64..60_000 {
        assert_eq!(
            format_duration_ns(ms * 1_000_000 + 999_999),
            format!("{:.1}s", ms as f64 / 1_000.0),
            "ms = {ms}"
        );
    }
}

#[test]
fn format_duration_branches() {
    assert_eq!(format_duration_ns(999_999), "0ms");
    assert_eq!(format_duration_ns(1_000_000), "1ms");
    assert_eq!(format_duration_ns(999_999_999), "999ms");
    assert_eq!(format_duration_ns(1_050_000_000), "1.1s");
    assert_eq!(format_duration_ns(59_999_000_000), "60.0s");
    assert_eq!(format_duration_ns(60_000_000_000), "1m0s");
    assert_eq!(format_duration_ns(150_000_000_000), "2m30s");
    assert_eq!(format_duration_ns(3_599_999_000_000), "59m59s");
    assert_eq!(format_duration_ns(7_380_000_000_000), "2h3m");
    assert_eq!(format_duration_ns(u64::MAX), "5124095h34m");
}

#[test]
fn process_human_fields() {
    let p = GpuProcessInfo {
        pid: 1234,
        name: "metalps-gpu-load".to_string(),
        gpu_time_ns: 5_000_000_000,
        gpu_percent_bits: 42.5f64.to_bits(),
        vram_bytes: Some(128 * 1024 * 1024),
    };
    assert_eq!(p.vram_human(), "128.0M");
    assert_eq!(p.gpu_time_human(), "5.0s");
    let q = GpuProcessInfo { vram_bytes: None, gpu_time_ns: 0, ..p };
    assert_eq!(q.vram_human(), "-");
    assert_eq!(q.gpu_time_human(), "0ms");
}
