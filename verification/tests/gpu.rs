use std::collections::VecDeque;

use ttop::gpu::amd::{self, DrmCard, HwmonEntry};
use ttop::gpu::nvidia::{self, read_snapshot_fields, NvidiaGpu};
use ttop::gpu::{
    amd_sample, kb_from_bytes, kb_from_mib, nvidia_sample, select_gpu, GpuBackend, GpuHistories,
    GpuSample,
};
use ttop::history::push_sample;

fn card(dir: &str, vendor: Option<&str>, product: Option<&str>, hwmons: Vec<HwmonEntry>) -> DrmCard {
    DrmCard {
        dir_name: dir.to_string(),
        path: format!("/sys/class/drm/{}", dir),
        vendor: vendor.map(|v| v.to_string()),
        product_name: product.map(|p| p.to_string()),
        hwmons,
    }
}

fn hwmon(path: &str, name: Option<&str>) -> HwmonEntry {
    HwmonEntry { path: path.to_string(), name: name.map(|n| n.to_string()) }
}

fn drm_cards() -> Vec<DrmCard> {
    vec![
        card("card0-DP-1", Some("0x1002\n"), Some("Connector"), Vec::new()),
        card("renderD128", Some("0x1002\n"), None, Vec::new()),
        card("card0", Some("0x8086\n"), Some("Intel"), Vec::new()),
        card(
            "card1",
            Some("0x1002\n"),
            Some("  AMD Radeon RX 7600\n"),
            vec![hwmon("/h/hwmon3", Some("nvme\n")), hwmon("/h/hwmon4", Some("amdgpu\n"))],
        ),
        card("card2", Some("0x1002"), Some("Second"), Vec::new()),
    ]
}

#[test]
fn amd_detect_does_not_panic() {
    let _gpu = amd::detect(&drm_cards());
    let _none = amd::detect(&Vec::new());
}

#[test]
fn amd_detect_returns_name_if_present() {
    if let Some(gpu) = amd::detect(&drm_cards()) {
        assert!(!gpu.name.is_empty(), "detected AMD GPU should have a name");
    }
}

#[test]
fn nvidia_detect_does_not_panic() {
    let _gpu = nvidia::detect("");
    let _gpu = nvidia::detect("NVIDIA GeForce RTX 4090\n");
}

#[test]
fn nvidia_detect_returns_name_if_present() {
    if let Some(gpu) = nvidia::detect("NVIDIA GeForce RTX 4090\n") {
        assert!(!gpu.name.is_empty(), "detected NVIDIA GPU should have a name");
    }
}

#[test]
fn amd_detect_picks_first_amd_card_with_its_hwmon() {
    let gpu = amd::detect(&drm_cards()).unwrap();
    assert_eq!(gpu.name, "AMD Radeon RX 7600");
    assert_eq!(gpu.card_path, "/sys/class/drm/card1");
    assert_eq!(gpu.hwmon_path, Some("/h/hwmon4".to_string()));
}

#[test]
fn amd_name_falls_back_when_blank() {
    let cards = vec![card("card0", Some("0x1002"), Some("   \n"), Vec::new())];
    let gpu = amd::detect(&cards).unwrap();
    assert_eq!(gpu.name, "AMD GPU");
    assert_eq!(gpu.hwmon_path, None);
    let cards = vec![card("card0", None, Some("X"), Vec::new())];
    assert!(amd::detect(&cards).is_none());
}

#[test]
fn nvidia_name_is_trimmed_and_blank_means_none() {
    assert_eq!(nvidia::detect("  RTX A2000 \n").unwrap().name, "RTX A2000");
    assert!(nvidia::detect(" \n\t").is_none());
}

#[test]
fn nvidia_fields_split_on_commas() {
    let f = read_snapshot_fields("45, 2048, 8192, 61\n").unwrap();
    assert_eq!(f.utilization, "45");
    assert_eq!(f.memory_used_mib, 2048);
    assert_eq!(f.memory_total_mib, 8192);
    assert_eq!(f.temperature, "61");
    assert!(read_snapshot_fields("45, 2048, 8192").is_none());
    assert!(read_snapshot_fields("45, [N/A], 8192, 61").is_none());
}

#[test]
fn gpu_selection_prefers_nvidia() {
    let amd_gpu = amd::detect(&drm_cards());
    let (backend, name) = select_gpu(Some(NvidiaGpu { name: "RTX".to_string() }), amd_gpu);
    assert!(matches!(backend, GpuBackend::Nvidia));
    assert_eq!(name, "RTX");
    let (backend, name) = select_gpu(None, amd::detect(&drm_cards()));
    assert!(matches!(backend, GpuBackend::Amd { .. }));
    assert_eq!(name, "AMD Radeon RX 7600");
    let (backend, name) = select_gpu(None, None);
    assert!(!backend.available());
    assert!(name.is_empty());
}

#[test]
fn gpu_has_temperature_by_backend_or_samples() {
    assert!(GpuBackend::Nvidia.has_temperature(0));
    assert!(!GpuBackend::Amd { card_path: "c".to_string(), hwmon_path: None }.has_temperature(0));
    assert!(GpuBackend::Amd { card_path: "c".to_string(), hwmon_path: None }.has_temperature(2));
    assert!(GpuBackend::Amd { card_path: "c".to_string(), hwmon_path: Some("h".to_string()) }
        .has_temperature(0));
    assert!(!GpuBackend::Absent.has_temperature(0));
}

#[test]
fn gpu_record_pushes_and_trims() {
    let mut h: GpuHistories<u32> = GpuHistories::new();
    for i in 0..5u32 {
        let temp = if i % 2 == 0 { Some(40 + i) } else { None };
        h.record(Some(GpuSample { util: i, mem_pct: 10 * i, temp, used_kb: i as u64, total_kb: 100 }), 3);
    }
    assert_eq!(h.util, VecDeque::from(vec![2, 3, 4]));
    assert_eq!(h.mem, VecDeque::from(vec![20, 30, 40]));
    assert_eq!(h.temp, VecDeque::from(vec![40, 42, 44]));
    assert_eq!(h.mem_used_kb, 4);
    h.record(None, 1);
    assert_eq!(h.util, VecDeque::from(vec![4]));
    assert_eq!(h.temp, VecDeque::from(vec![44]));
    assert_eq!(h.mem_used_kb, 4);
    assert_eq!(h.mem_total_kb, 100);
}

#[test]
fn vram_amounts_convert_to_kb() {
    assert_eq!(kb_from_mib(8192), 8_388_608);
    assert_eq!(kb_from_bytes(8_589_934_592), 8_388_608);
    assert_eq!(kb_from_bytes(1023), 0);
}

#[test]
fn history_keeps_newest_samples_up_to_width() {
    let mut h: VecDeque<u8> = VecDeque::new();
    for i in 0..10u8 {
        push_sample(&mut h, i, 4);
        assert!(h.len() <= 4);
        assert_eq!(*h.back().unwrap(), i);
    }
    assert_eq!(h, VecDeque::from(vec![6, 7, 8, 9]));
    push_sample(&mut h, 10, 2);
    assert_eq!(h, VecDeque::from(vec![9, 10]));
    push_sample(&mut h, 11, 0);
    assert!(h.is_empty());
}

#[test]
fn amd_sample_needs_utilization_and_vram() {
    let s = amd_sample(Some(40u32), 25u32, Some(55u32), Some((2147483648, 8589934592))).unwrap();
    assert_eq!((s.util, s.mem_pct, s.temp, s.used_kb, s.total_kb), (40, 25, Some(55), 2097152, 8388608));
    assert!(amd_sample(None, 25u32, Some(55u32), Some((1, 2))).is_none());
    assert!(amd_sample(Some(40u32), 25u32, None, None).is_none());
    let partial = amd_sample(Some(1u32), 0u32, None, Some((1023, 2047))).unwrap();
    assert_eq!((partial.used_kb, partial.total_kb, partial.temp), (0, 1, None));
}

#[test]
fn nvidia_sample_turns_mib_into_kb() {
    let s = nvidia_sample(72u32, 40u32, 52u32, 4300, 24564);
    assert_eq!((s.util, s.mem_pct, s.temp, s.used_kb, s.total_kb), (72, 40, Some(52), 4403200, 25153536));
}
