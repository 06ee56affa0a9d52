use ttop::cpu::temperature::{self, discover_sensors, is_cpu_driver, sensor_label, HwmonDir, SensorFiles};
use ttop::memory::temperature::{self as dimm, DimmDir};

fn files(input: &str, label: Option<&str>) -> SensorFiles {
    SensorFiles { input_path: input.to_string(), label: label.map(|l| l.to_string()) }
}

fn hwmon_dirs() -> Vec<HwmonDir> {
    vec![
        HwmonDir { name: None, sensors: vec![files("/h0/temp1_input", None)] },
        HwmonDir { name: Some("acpitz\n".to_string()), sensors: vec![files("/h1/temp1_input", None)] },
        HwmonDir { name: Some("coretemp\n".to_string()), sensors: Vec::new() },
        HwmonDir {
            name: Some("k10temp\n".to_string()),
            sensors: vec![files("/h3/temp1_input", Some("Tctl\n")), files("/h3/temp2_input", None)],
        },
        HwmonDir { name: Some("coretemp".to_string()), sensors: vec![files("/h4/temp1_input", None)] },
    ]
}

fn dimm_dir(name: Option<&str>, input: Option<&str>, label: Option<&str>) -> DimmDir {
    DimmDir {
        name: name.map(|n| n.to_string()),
        input_path: input.map(|i| i.to_string()),
        label: label.map(|l| l.to_string()),
    }
}

#[test]
fn temperature_discover_sensors_does_not_panic() {
    let _sensors = discover_sensors(&hwmon_dirs());
    let _none = discover_sensors(&Vec::new());
    let _dimms = dimm::discover_sensors(&vec![dimm_dir(Some("jc42"), Some("/x"), None)]);
}

#[test]
fn cpu_sensors_come_from_first_cpu_driver_with_sensors() {
    let sensors = discover_sensors(&hwmon_dirs());
    assert_eq!(sensors.len(), 2);
    assert_eq!(sensors[0].input_path, "/h3/temp1_input");
    assert_eq!(sensors[0].label, "Tctl");
    assert_eq!(sensors[1].label, "Sensor 2");
}

#[test]
fn cpu_driver_names_are_trimmed() {
    assert!(is_cpu_driver("k10temp\n"));
    assert!(is_cpu_driver(" coretemp"));
    assert!(!is_cpu_driver("nvme"));
    assert!(!is_cpu_driver("k10temp2"));
}

#[test]
fn sensor_labels_fall_back_to_number() {
    assert_eq!(sensor_label(3, None), "Sensor 3");
    assert_eq!(sensor_label(3, Some("  Core 2 \n")), "Core 2");
    assert_eq!(sensor_label(1, Some("\n")), "");
}

#[test]
fn cpu_sensors_stop_at_128() {
    let mut fs = Vec::new();
    for i in 1..=130 {
        fs.push(files(&format!("/h/temp{}_input", i), None));
    }
    let sensors = temperature::discover_sensors(&vec![HwmonDir { name: Some("coretemp".to_string()), sensors: fs }]);
    assert_eq!(sensors.len(), 128);
    assert_eq!(sensors[127].label, "Sensor 128");
}

#[test]
fn dimm_sensors_number_the_unlabelled_ones() {
    let dirs = vec![
        dimm_dir(Some("jc42\n"), Some("/a/temp1_input"), None),
        dimm_dir(Some("coretemp"), Some("/b/temp1_input"), None),
        dimm_dir(Some("jc42"), None, Some("X")),
        dimm_dir(Some("jc42"), Some("/c/temp1_input"), Some("  \n")),
        dimm_dir(Some("jc42"), Some("/d/temp1_input"), Some(" DIMM A1\n")),
        dimm_dir(None, Some("/e/temp1_input"), None),
    ];
    let sensors = dimm::discover_sensors(&dirs);
    assert_eq!(sensors.len(), 3);
    assert_eq!(sensors[0].label, "DIMM0");
    assert_eq!(sensors[0].input_path, "/a/temp1_input");
    assert_eq!(sensors[1].label, "DIMM1");
    assert_eq!(sensors[2].label, "DIMM A1");
}
