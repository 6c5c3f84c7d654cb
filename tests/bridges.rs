use hardware::identity::{
    generate_id_name_info, ChipInfo, FeatureInfo, FeatureKind, SubFeatureInfo, SubFeatureKind,
};
use hardware::linux::LinuxBridge;
use hardware::model::{HardwareError, HardwareKind};
use hardware::state::{AppState, Bridge};
use hardware::windows::{
    scan_start, scan_step, BaseHardware, ControlMode, InternalControl, InternalSensor, ScanStep,
    WindowsBridge, DEFAULT_PORT,
};

fn sub(kind: SubFeatureKind, name: &str, handle: usize) -> SubFeatureInfo {
    SubFeatureInfo { kind, name: Some(name.to_string()), handle }
}

fn feature(kind: FeatureKind, label: &str, subs: Vec<SubFeatureInfo>) -> FeatureInfo {
    FeatureInfo { kind, label: Some(label.to_string()), sub_features: subs }
}

fn chip(name: &str, features: Vec<FeatureInfo>) -> ChipInfo {
    ChipInfo {
        path: Some("/sys/class/hwmon/hwmon2".to_string()),
        name: Some(name.to_string()),
        bus: "PCI adapter".to_string(),
        features,
    }
}

fn k10temp_tree() -> Vec<ChipInfo> {
    vec![chip(
        "k10temp",
        vec![feature(FeatureKind::Fan, "fan1", vec![sub(SubFeatureKind::FanInput, "fan1", 7)])],
    )]
}

fn record(id: &str, name: &str, index: usize, index2: usize, t: HardwareKind) -> BaseHardware {
    BaseHardware { id: id.to_string(), name: name.to_string(), index, index2, hardware_type: t }
}

fn scan(open: &[u16]) -> ScanStep {
    let mut step = scan_start();
    loop {
        match step {
            ScanStep::Try(port) => step = scan_step(port, open.contains(&port)),
            other => return other,
        }
    }
}

#[test]
fn native_end_to_end_k10temp() {
    let bridge = LinuxBridge::new(&k10temp_tree());
    let hw = bridge.hardware();
    assert!(hw.controls.is_empty());
    assert!(hw.temps.is_empty());
    assert_eq!(hw.fans.len(), 1);
    assert_eq!(hw.fans[0].id, "k10temp-fan1");
    assert_eq!(hw.fans[0].name, "fan1 k10temp fan1");
    assert!(hw.fans[0].info.contains("fan1"));
    let read = |h: usize| if h == 7 { Some(1234) } else { None };
    assert_eq!(bridge.value("k10temp-fan1", read), Ok(Some(1234)));
}

#[test]
fn native_info_text_lists_every_field() {
    let bridge = LinuxBridge::new(&k10temp_tree());
    assert_eq!(
        bridge.info("k10temp-fan1"),
        Ok("chip path: /sys/class/hwmon/hwmon2\nchip name: k10temp\nbus: PCI adapter\nlabel: fan1\nfeature: fan1"
            .to_string())
    );
}

#[test]
fn native_temperature_input_is_a_temp() {
    let tree = vec![chip(
        "coretemp",
        vec![feature(
            FeatureKind::Temperature,
            "Core 0",
            vec![
                sub(SubFeatureKind::Other, "temp2_max", 1),
                sub(SubFeatureKind::TemperatureInput, "temp2_input", 2),
            ],
        )],
    )];
    let hw = LinuxBridge::new(&tree).hardware();
    assert_eq!(hw.temps.len(), 1);
    assert_eq!(hw.temps[0].id, "coretemp-temp2_input");
    assert_eq!(hw.temps[0].name, "Core 0 coretemp temp2_input");
    assert!(hw.fans.is_empty());
}

#[test]
fn native_skips_unrecognised_and_incomplete_devices() {
    let mut no_label = feature(FeatureKind::Fan, "x", vec![sub(SubFeatureKind::FanInput, "fan2", 2)]);
    no_label.label = None;
    let no_sub_name = feature(
        FeatureKind::Fan,
        "fan3",
        vec![SubFeatureInfo { kind: SubFeatureKind::FanInput, name: None, handle: 3 }],
    );
    let tree = vec![chip(
        "nct6775",
        vec![
            feature(FeatureKind::Other, "pwm1", vec![sub(SubFeatureKind::Other, "pwm1", 1)]),
            no_label,
            no_sub_name,
            feature(FeatureKind::Fan, "fan4", vec![sub(SubFeatureKind::Other, "fan4_min", 4)]),
        ],
    )];
    let mut no_path = chip("acpitz", vec![feature(FeatureKind::Temperature, "t", vec![sub(SubFeatureKind::TemperatureInput, "temp1_input", 5)])]);
    no_path.path = None;
    let mut all = tree;
    all.push(no_path);
    let hw = LinuxBridge::new(&all).hardware();
    assert!(hw.fans.is_empty());
    assert!(hw.temps.is_empty());
    assert!(hw.controls.is_empty());
}

#[test]
fn identity_generation_formats() {
    let c = chip("it8728", vec![]);
    let f = feature(FeatureKind::Fan, "CPU Fan", vec![]);
    let s = sub(SubFeatureKind::FanInput, "fan1_input", 0);
    let d = generate_id_name_info(&c, &f, &s).unwrap();
    assert_eq!(d.id, "it8728-fan1_input");
    assert_eq!(d.name, "CPU Fan it8728 fan1_input");
    let mut unnamed = chip("it8728", vec![]);
    unnamed.name = None;
    assert!(generate_id_name_info(&unnamed, &f, &s).is_none());
}

#[test]
fn native_read_failure_is_backend_failure() {
    let bridge = LinuxBridge::new(&k10temp_tree());
    assert_eq!(bridge.value("k10temp-fan1", |_h: usize| None), Err(HardwareError::BackendFailure));
}

#[test]
fn unknown_id_is_not_found_on_every_backend() {
    let native = LinuxBridge::new(&k10temp_tree());
    assert_eq!(native.value("nope", |_h: usize| Some(1)), Err(HardwareError::IdNotFound));
    assert_eq!(native.value("", |_h: usize| Some(1)), Err(HardwareError::IdNotFound));
    assert_eq!(native.set_value("nope", 5), Err(HardwareError::IdNotFound));
    assert_eq!(native.info("nope"), Err(HardwareError::IdNotFound));
    let remote = WindowsBridge::new(&vec![record("cpu0", "CPU Fan", 0, 0, HardwareKind::Control)], true);
    assert_eq!(remote.value("gpu0", |_h: usize| Some(1)), Err(HardwareError::IdNotFound));
    assert_eq!(remote.set_value("gpu0", 5, |_io: usize, _v: i32| true), Err(HardwareError::IdNotFound));
    assert_eq!(remote.info("gpu0"), Err(HardwareError::IdNotFound));
}

#[test]
fn writing_a_sensor_is_not_supported() {
    let native = LinuxBridge::new(&k10temp_tree());
    for v in [i32::MIN, -1, 0, 50, 100, i32::MAX] {
        assert_eq!(native.set_value("k10temp-fan1", v), Err(HardwareError::NotSupported));
    }
    let remote = WindowsBridge::new(
        &vec![record("fan0", "Fan", 3, 0, HardwareKind::Fan), record("t0", "Temp", 4, 0, HardwareKind::Temp)],
        true,
    );
    for v in [i32::MIN, 0, 50, i32::MAX] {
        assert_eq!(remote.set_value("fan0", v, |_io: usize, _v: i32| true), Err(HardwareError::NotSupported));
        assert_eq!(remote.set_value("t0", v, |_io: usize, _v: i32| true), Err(HardwareError::NotSupported));
    }
}

#[test]
fn every_snapshot_id_is_describable() {
    let tree = vec![
        chip("k10temp", vec![
            feature(FeatureKind::Fan, "fan1", vec![sub(SubFeatureKind::FanInput, "fan1", 1)]),
            feature(FeatureKind::Temperature, "Tctl", vec![sub(SubFeatureKind::TemperatureInput, "temp1_input", 2)]),
        ]),
    ];
    let native = LinuxBridge::new(&tree);
    let hw = native.hardware();
    for d in hw.fans.iter().chain(hw.temps.iter()) {
        let info = native.info(&d.id).unwrap();
        assert!(!info.is_empty());
    }
    let remote = WindowsBridge::new(
        &vec![record("cpu0", "", 0, 1, HardwareKind::Control), record("fan0", "", 2, 0, HardwareKind::Fan)],
        false,
    );
    let hw = remote.hardware();
    for d in hw.controls.iter().chain(hw.fans.iter()).chain(hw.temps.iter()) {
        let info = remote.info(&d.id).unwrap();
        assert!(!info.is_empty());
        assert_eq!(info, d.info);
    }
}

#[test]
fn discovery_twice_gives_identical_ids() {
    let a = LinuxBridge::new(&k10temp_tree()).hardware();
    let b = LinuxBridge::new(&k10temp_tree()).hardware();
    let ids_a: Vec<String> = a.fans.iter().map(|d| d.id.clone()).collect();
    let ids_b: Vec<String> = b.fans.iter().map(|d| d.id.clone()).collect();
    assert_eq!(ids_a, ids_b);
    assert_eq!(ids_a, vec!["k10temp-fan1".to_string()]);
}

#[test]
fn duplicate_id_keeps_the_later_device() {
    let tree = vec![
        chip("k10temp", vec![feature(FeatureKind::Fan, "first", vec![sub(SubFeatureKind::FanInput, "fan1", 1)])]),
        chip("k10temp", vec![feature(FeatureKind::Fan, "second", vec![sub(SubFeatureKind::FanInput, "fan1", 2)])]),
    ];
    let native = LinuxBridge::new(&tree);
    let hw = native.hardware();
    assert_eq!(hw.fans.len(), 1);
    assert_eq!(hw.fans[0].name, "second k10temp fan1");
    let read = |h: usize| Some(h as i32 * 100);
    assert_eq!(native.value("k10temp-fan1", read), Ok(Some(200)));

    let remote = WindowsBridge::new(
        &vec![record("dup", "Old", 5, 0, HardwareKind::Fan), record("dup", "New", 6, 0, HardwareKind::Fan)],
        false,
    );
    let hw = remote.hardware();
    assert_eq!(hw.fans.len(), 1);
    assert_eq!(hw.fans[0].name, "New");
    assert_eq!(remote.value("dup", |h: usize| Some(h as i32)), Ok(Some(6)));
}

#[test]
fn port_scan_connects_at_first_open_port() {
    assert_eq!(scan_start(), ScanStep::Try(DEFAULT_PORT));
    assert_eq!(DEFAULT_PORT, 55555);
    assert_eq!(scan(&[55560]), ScanStep::Connected(55560));
    assert_eq!(scan(&[55560, 55570]), ScanStep::Connected(55560));
    assert_eq!(scan(&[80, 65535]), ScanStep::Connected(65535));
}

#[test]
fn port_scan_without_open_port_is_exhausted() {
    assert_eq!(scan(&[]), ScanStep::Exhausted);
    assert_eq!(scan(&[22, 8080, 55554]), ScanStep::Exhausted);
    assert_eq!(scan_step(65535, false), ScanStep::Exhausted);
    assert_eq!(scan_step(55555, false), ScanStep::Try(55556));
    assert_eq!(scan_step(55560, true), ScanStep::Connected(55560));
}

#[test]
fn remote_end_to_end_cpu0() {
    let remote = WindowsBridge::new(&vec![record("cpu0", "CPU Fan", 0, 0, HardwareKind::Control)], true);
    let hw = remote.hardware();
    assert_eq!(hw.controls.len(), 1);
    assert_eq!(hw.controls[0].id, "cpu0");
    assert_eq!(hw.controls[0].name, "CPU Fan");
    assert!(hw.fans.is_empty());
    assert!(hw.temps.is_empty());
    assert_eq!(remote.set_value("cpu0", 50, |_io: usize, _v: i32| true), Ok(()));
    assert_eq!(remote.value("cpu0", |_h: usize| Some(1)), Err(HardwareError::NotSupported));
    let restored = remote.release();
    assert_eq!(restored, vec![0]);
}

#[test]
fn remote_write_reaches_the_value_channel() {
    let remote = WindowsBridge::new(&vec![record("pwm1", "Pump", 4, 9, HardwareKind::Control)], true);
    assert_eq!(remote.set_value("pwm1", 70, |io: usize, v: i32| io == 4 && v == 70), Ok(()));
    assert_eq!(remote.set_value("pwm1", 70, |_io: usize, _v: i32| false), Err(HardwareError::BackendFailure));
    assert_eq!(remote.info("pwm1"), Ok("id: pwm1\nname: Pump\ntype: Control".to_string()));
    assert_eq!(remote.release(), vec![9]);
}

#[test]
fn remote_sensors_grouped_by_flag() {
    let recs = vec![
        record("c", "C", 0, 1, HardwareKind::Control),
        record("f", "F", 2, 0, HardwareKind::Fan),
        record("t", "T", 3, 0, HardwareKind::Temp),
    ];
    let unified = WindowsBridge::new(&recs, true).hardware();
    let ids: Vec<&str> = unified.controls.iter().map(|d| d.id.as_str()).collect();
    assert_eq!(ids, vec!["c", "f", "t"]);
    assert!(unified.fans.is_empty() && unified.temps.is_empty());

    let split = WindowsBridge::new(&recs, false);
    let hw = split.hardware();
    assert_eq!(hw.controls.len(), 1);
    assert_eq!(hw.fans[0].id, "f");
    assert_eq!(hw.temps[0].id, "t");
    assert_eq!(split.value("t", |h: usize| Some(h as i32 + 400)), Ok(Some(403)));
    assert_eq!(split.value("f", |_h: usize| None), Err(HardwareError::BackendFailure));
    assert_eq!(split.release(), vec![1]);
}

#[test]
fn remote_items_report_capability_mismatch() {
    let s = InternalSensor { index: 1 };
    assert_eq!(s.set_value(10), Err(HardwareError::NotSupported));
    assert_eq!(s.set_mode(ControlMode::Manual), Err(HardwareError::NotSupported));
    assert_eq!(s.get_value(|h: usize| Some(h as i32)), Ok(Some(1)));
    let c = InternalControl { io: 2, enable: 3 };
    assert_eq!(c.get_value(), Err(HardwareError::NotSupported));
    assert_eq!(c.set_mode(ControlMode::Automatic, |ch: usize, m: ControlMode| ch == 3 && m == ControlMode::Automatic), Ok(()));
    assert_eq!(c.set_value(20, |ch: usize, _v: i32| ch == 3), Err(HardwareError::BackendFailure));
    assert_eq!(c.release(), 3);
}

#[test]
fn app_state_holds_snapshot_of_bridge() {
    let state = AppState::new(Bridge::Linux(LinuxBridge::new(&k10temp_tree())));
    assert_eq!(state.hardware.fans.len(), 1);
    assert_eq!(state.hardware.fans[0].id, "k10temp-fan1");
    match &state.bridge {
        Bridge::Linux(l) => assert_eq!(l.value("k10temp-fan1", |_h: usize| Some(9)), Ok(Some(9))),
        Bridge::Windows(_) => panic!("wrong backend"),
    }
}
