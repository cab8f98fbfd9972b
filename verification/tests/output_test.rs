use metalps_lib::output::{render_human, FloatTexts};
use metalps_lib::types::{format_bytes, format_duration_ns, DeviceGpuInfo, GpuOutput, GpuProcessInfo};

fn sample_output() -> GpuOutput {
    GpuOutput {
        timestamp_ms: 1_700_000_000_000,
        sample_interval_ms: 1000,
        processes: vec![
            GpuProcessInfo {
                pid: 1234,
                name: "metalps-gpu-load".to_string(),
                gpu_time_ns: 5_000_000_000,
                gpu_percent_bits: 42.5f64.to_bits(),
                vram_bytes: Some(128 * 1024 * 1024),
            },
            GpuProcessInfo {
                pid: 5678,
                name: "WindowServer".to_string(),
                gpu_time_ns: 120_000_000_000,
                gpu_percent_bits: 3.1f64.to_bits(),
                vram_bytes: Some(45 * 1024 * 1024),
            },
        ],
        devices: vec![DeviceGpuInfo {
            name: "Apple M3 Max".to_string(),
            gpu_percent_bits: Some(45.6f64.to_bits()),
            vram_total_bytes: Some(18 * 1024 * 1024 * 1024),
            vram_used_bytes: Some(173 * 1024 * 1024),
        }],
    }
}

fn floats_for(data: &GpuOutput) -> FloatTexts {
    FloatTexts {
        interval_seconds: format!("{:.1}", data.sample_interval_ms as f64 / 1000.0),
        process_percents: data
            .processes
            .iter()
            .map(|p| format!("{:.1}", f64::from_bits(p.gpu_percent_bits)))
            .collect(),
        device_percents: data
            .devices
            .iter()
            .map(|d| d.gpu_percent_bits.map(|b| format!("{:.1}", f64::from_bits(b))).unwrap_or_default())
            .collect(),
    }
}

fn render(data: &GpuOutput) -> String {
    render_human(data, &floats_for(data))
}

/// The report written directly with `format!`, field by field.
fn reference_report(data: &GpuOutput) -> String {
    let mut out = String::new();
    out += "metalps — GPU Process Monitor\n";
    out += &format!("Sample interval: {:.1}s\n", data.sample_interval_ms as f64 / 1000.0);
    out += "\n";
    if data.processes.is_empty() {
        out += "No GPU activity detected.  (Run with --all to include idle processes.)\n";
    } else {
        let name_width = data.processes.iter().map(|p| p.name.len()).max().unwrap_or(4).max(4).min(30);
        out += &format!(
            "{:<7} {:<width$}  {:>7}  {:>10}  {:>8}\n",
            "PID", "NAME", "GPU%", "GPU TIME", "VRAM",
            width = name_width,
        );
        out += &format!("{:-<7} {:-<width$}  {:->7}  {:->10}  {:->8}\n", "", "", "", "", "", width = name_width);
        for p in &data.processes {
            let name = if p.name.len() > name_width {
                format!("{}…", &p.name[..name_width.saturating_sub(1)])
            } else {
                p.name.clone()
            };
            out += &format!(
                "{:<7} {:<width$}  {:>6.1}%  {:>10}  {:>8}\n",
                p.pid,
                name,
                f64::from_bits(p.gpu_percent_bits),
                format_duration_ns(p.gpu_time_ns),
                format_bytes(p.vram_bytes),
                width = name_width,
            );
        }
    }
    if !data.devices.is_empty() {
        out += "\n";
        for dev in &data.devices {
            out += &format!("Device: {}", dev.name);
            if let Some(bits) = dev.gpu_percent_bits {
                out += &format!(" | GPU: {:.1}%", f64::from_bits(bits));
            }
            if dev.vram_used_bytes.is_some() || dev.vram_total_bytes.is_some() {
                out += &format!(
                    " | VRAM: {} / {}",
                    format_bytes(dev.vram_used_bytes),
                    format_bytes(dev.vram_total_bytes)
                );
            }
            out += "\n";
        }
    }
    out
}

#[test]
fn test_render_human_contains_key_fields() {
    let data = sample_output();
    let text = render(&data);

    assert!(text.contains("1234"), "should contain PID");
    assert!(text.contains("metalps-gpu-load"), "should contain name");
    assert!(text.contains("42.5"), "should contain gpu%");
    assert!(text.contains("128.0M"), "should contain vram");
    assert!(text.contains("Apple M3 Max"), "should contain device name");
}

#[test]
fn test_render_human_empty_processes() {
    let mut data = sample_output();
    data.processes.clear();
    let text = render(&data);
    assert!(text.contains("No GPU activity"));
}

#[test]
fn report_layout_matches_field_formatting() {
    let data = sample_output();
    assert_eq!(render(&data), reference_report(&data));

    let mut long = sample_output();
    long.processes.push(GpuProcessInfo {
        pid: -7,
        name: "a-process-with-a-very-long-name-indeed".to_string(),
        gpu_time_ns: 7_380_000_000_000,
        gpu_percent_bits: 100.0f64.to_bits(),
        vram_bytes: None,
    });
    long.devices.push(DeviceGpuInfo {
        name: "Discrete".to_string(),
        gpu_percent_bits: None,
        vram_total_bytes: None,
        vram_used_bytes: Some(1),
    });
    long.devices.push(DeviceGpuInfo { name: "Bare".to_string(), ..Default::default() });
    long.sample_interval_ms = 250;
    assert_eq!(render(&long), reference_report(&long));

    let mut short = sample_output();
    short.processes = vec![GpuProcessInfo {
        pid: 1,
        name: "ab".to_string(),
        gpu_time_ns: 0,
        gpu_percent_bits: 0.0f64.to_bits(),
        vram_bytes: Some(0),
    }];
    short.devices.clear();
    assert_eq!(render(&short), reference_report(&short));
}

#[test]
fn exact_report() {
    let mut data = sample_output();
    data.devices.clear();
    data.processes.truncate(1);
    assert_eq!(
        render(&data),
        "metalps — GPU Process Monitor\n\
         Sample interval: 1.0s\n\
         \n\
         PID     NAME                 GPU%    GPU TIME      VRAM\n\
         ------- ----------------  -------  ----------  --------\n\
         1234    metalps-gpu-load    42.5%        5.0s    128.0M\n"
    );
}
