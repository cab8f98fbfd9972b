use metalps_lib::collector::CollectorError;
use metalps_lib::device::{
    c_string_len, extract_device_info, listing_pids, listing_size, nonnegative, pid_buffer_slots,
    pids_from_listing, process_name, DeviceProperties,
};
use metalps_lib::output::{fit_name, name_column_width};
use metalps_lib::types::GpuProcessInfo;

fn props() -> DeviceProperties {
    DeviceProperties {
        entry_name: "AGXAcceleratorG14X".to_string(),
        model: None,
        io_class: None,
        utilization_bits: Some(45.6f64.to_bits()),
        vram_total_bytes: None,
        allocated_system_memory: Some(100),
        vram_used_bytes: None,
        in_use_system_memory: Some(40),
    }
}

#[test]
fn device_name_fallbacks() {
    let d = extract_device_info(props());
    assert_eq!(d.name, "AGXAcceleratorG14X");
    assert_eq!(d.vram_total_bytes, Some(100));
    assert_eq!(d.vram_used_bytes, Some(40));
    assert_eq!(f64::from_bits(d.gpu_percent_bits.unwrap()), 45.6);
    let d = extract_device_info(DeviceProperties { io_class: Some("AGXAccelerator".to_string()), ..props() });
    assert_eq!(d.name, "AGXAccelerator");
    let d = extract_device_info(DeviceProperties {
        model: Some("Apple M3 Max".to_string()),
        io_class: Some("AGXAccelerator".to_string()),
        vram_total_bytes: Some(8),
        vram_used_bytes: Some(2),
        ..props()
    });
    assert_eq!(d.name, "Apple M3 Max");
    assert_eq!(d.vram_total_bytes, Some(8));
    assert_eq!(d.vram_used_bytes, Some(2));
}

#[test]
fn process_names_and_counts() {
    assert_eq!(process_name(77, None), "<77>");
    assert_eq!(process_name(77, Some("WindowServer".to_string())), "WindowServer");
    assert_eq!(nonnegative(-3), 0);
    assert_eq!(nonnegative(4096), 4096);
    assert_eq!(pid_buffer_slots(400), 132);
}

#[test]
fn pid_listing_skips_kernel_and_unfilled_slots() {
    let buf = vec![0, 1, 55, -1, 90, 12];
    assert_eq!(pids_from_listing(&buf, 16), vec![1, 55]);
    assert_eq!(pids_from_listing(&buf, 400), vec![1, 55, 90, 12]);
    assert_eq!(pids_from_listing(&buf, 3), Vec::<i32>::new());
}

fn named(name: &str) -> GpuProcessInfo {
    GpuProcessInfo { pid: 1, name: name.to_string(), gpu_time_ns: 0, gpu_percent_bits: 0, vram_bytes: None }
}

#[test]
fn name_column_is_clamped() {
    assert_eq!(name_column_width(&vec![]), 4);
    assert_eq!(name_column_width(&vec![named("ab")]), 4);
    assert_eq!(name_column_width(&vec![named("WindowServer"), named("metalps-gpu-load")]), 16);
    assert_eq!(name_column_width(&vec![named(&"x".repeat(45))]), 30);
}

#[test]
fn long_names_are_cut_with_ellipsis() {
    assert_eq!(fit_name(&"short".to_string(), 30), "short");
    assert_eq!(fit_name(&"abcdefghij".to_string(), 5), "abcd…");
    assert_eq!(fit_name(&"abcde".to_string(), 5), "abcde");
}

#[test]
fn listing_codes_decide_success() {
    assert_eq!(listing_size(4096), Ok(4096));
    assert_eq!(
        listing_size(0),
        Err(CollectorError::ProcessList("proc_listpids sizing call returned 0".to_string()))
    );
    assert_eq!(
        listing_size(-3),
        Err(CollectorError::ProcessList("proc_listpids sizing call returned -3".to_string()))
    );
    let buf = vec![0, 12, 34, -1, 56];
    assert_eq!(listing_pids(&buf, 8), Ok(vec![12]));
    assert_eq!(listing_pids(&buf, 20), Ok(vec![12, 34, 56]));
    assert_eq!(
        listing_pids(&buf, -1),
        Err(CollectorError::ProcessList("proc_listpids returned -1".to_string()))
    );
}

#[test]
fn c_string_stops_at_first_nul() {
    assert_eq!(c_string_len(&b"Apple M3\0\0junk".to_vec()), 8);
    assert_eq!(c_string_len(&b"\0abc".to_vec()), 0);
    assert_eq!(c_string_len(&b"abc".to_vec()), 3);
    assert_eq!(c_string_len(&Vec::new()), 0);
}
