use seat_device_hook::device::{DeviceNode, DeviceRecord, NodeKind, NodeMeta};
use seat_device_hook::runtime_spec::{HookError, LinuxDeviceType, RuntimeSpec, RuntimeSpecUdev};

fn empty_spec() -> RuntimeSpec {
    RuntimeSpec { annotations: None, devices: None, cgroup_devices: None }
}

fn seat_spec(seat: &str) -> RuntimeSpec {
    RuntimeSpec {
        annotations: Some(vec![(
            "io.dev-binder.udev.seat".to_string(),
            seat.to_string(),
        )]),
        devices: None,
        cgroup_devices: None,
    }
}

fn meta(kind: NodeKind) -> NodeMeta {
    NodeMeta { kind, mode: 0o666, uid: 0, gid: 0 }
}

fn record(path: &str, major: &str, minor: &str, kind: NodeKind) -> DeviceRecord {
    DeviceRecord {
        node: Some(DeviceNode { path: path.to_string(), meta: Ok(meta(kind)) }),
        properties: vec![
            ("MAJOR".to_string(), major.to_string()),
            ("MINOR".to_string(), minor.to_string()),
        ],
        tags: vec!["seat".to_string()],
    }
}

fn create_null_mock_device() -> DeviceRecord {
    record("/dev/null", "1", "3", NodeKind::Char)
}

#[test]
fn test_add_udev_device_with_mock() {
    let mut spec = empty_spec();
    let mock_device = create_null_mock_device();

    spec.add_udev_device(&mock_device).unwrap();

    let devices = spec.devices.as_ref().unwrap();
    assert_eq!(devices.len(), 1);
    let device = &devices[0];
    assert_eq!(device.path, "/dev/null");
    assert_eq!(device.major, 1);
    assert_eq!(device.minor, 3);
    assert_eq!(device.typ, LinuxDeviceType::C);
}

#[test]
fn test_add_udev_device_already_exists() {
    let mut spec = empty_spec();
    let mock_device = create_null_mock_device();

    spec.add_udev_device(&mock_device).unwrap();
    spec.add_udev_device(&mock_device).unwrap();

    let devices = spec.devices.as_ref().unwrap();
    assert_eq!(devices.len(), 1);
}

#[test]
fn adding_twice_matches_adding_once() {
    let d = record("/dev/input/event3", "13", "67", NodeKind::Char);
    let mut once = empty_spec();
    once.add_udev_device(&d).unwrap();
    let mut twice = empty_spec();
    twice.add_udev_device(&d).unwrap();
    twice.add_udev_device(&d).unwrap();
    let a = once.devices.unwrap();
    let b = twice.devices.unwrap();
    assert_eq!(a.len(), b.len());
    assert_eq!(a[0].path, b[0].path);
    assert_eq!(a[0].major, b[0].major);
    assert_eq!(a[0].minor, b[0].minor);
    assert_eq!(a[0].file_mode, b[0].file_mode);
    assert_eq!(once.cgroup_devices.unwrap().len(), twice.cgroup_devices.unwrap().len());
}

#[test]
fn records_are_appended_in_order() {
    let ds = vec![
        record("/dev/dri/card0", "226", "0", NodeKind::Char),
        record("/dev/sda", "8", "0", NodeKind::Block),
        record("/run/hook.fifo", "0", "0", NodeKind::Fifo),
    ];
    let out = seat_spec("seat0").with_seat_devices(&ds).unwrap();
    let devices = out.devices.unwrap();
    let rules = out.cgroup_devices.unwrap();
    assert_eq!(devices.len(), 3);
    assert_eq!(rules.len(), 3);
    assert_eq!(devices[0].path, "/dev/dri/card0");
    assert_eq!(devices[1].path, "/dev/sda");
    assert_eq!(devices[2].path, "/run/hook.fifo");
    assert_eq!(devices[0].typ, LinuxDeviceType::C);
    assert_eq!(devices[1].typ, LinuxDeviceType::B);
    assert_eq!(devices[2].typ, LinuxDeviceType::P);
    assert_eq!(rules[1].typ, Some(LinuxDeviceType::B));
    assert_eq!(rules[1].major, Some(8));
    assert_eq!(rules[0].major, Some(226));
}

#[test]
fn regular_file_is_skipped() {
    let mut spec = empty_spec();
    let d = record("/etc/hostname", "1", "3", NodeKind::Other);
    assert_eq!(spec.add_udev_device(&d), Ok(()));
    assert!(spec.devices.is_none());
    assert!(spec.cgroup_devices.is_none());
}

#[test]
fn regular_file_does_not_fail_the_run() {
    let ds = vec![
        record("/etc/hostname", "1", "3", NodeKind::Other),
        record("/dev/null", "1", "3", NodeKind::Char),
    ];
    let out = seat_spec("seat0").with_seat_devices(&ds).unwrap();
    let devices = out.devices.unwrap();
    assert_eq!(devices.len(), 1);
    assert_eq!(devices[0].path, "/dev/null");
}

#[test]
fn missing_major_fails() {
    let mut spec = empty_spec();
    let mut d = create_null_mock_device();
    d.properties.remove(0);
    assert_eq!(spec.add_udev_device(&d), Err(HookError::MissingMajor));
    assert!(spec.devices.is_none());
}

#[test]
fn missing_minor_fails() {
    let mut spec = empty_spec();
    let mut d = create_null_mock_device();
    d.properties.remove(1);
    assert_eq!(spec.add_udev_device(&d), Err(HookError::MissingMinor));
    assert!(spec.devices.is_none());
}

#[test]
fn missing_number_fails_whole_augmentation() {
    let mut bad = record("/dev/input/mouse0", "13", "32", NodeKind::Char);
    bad.properties.remove(1);
    let ds = vec![create_null_mock_device(), bad];
    assert_eq!(seat_spec("seat0").with_seat_devices(&ds).err(), Some(HookError::MissingMinor));
}

#[test]
fn unparseable_numbers_fail() {
    let mut spec = empty_spec();
    for bad in ["", "abc", " 1", "1 ", "+", "-", "0x10", "9223372036854775808"] {
        let d = record("/dev/null", bad, "3", NodeKind::Char);
        assert_eq!(spec.add_udev_device(&d), Err(HookError::InvalidMajor));
        let d = record("/dev/null", "1", bad, NodeKind::Char);
        assert_eq!(spec.add_udev_device(&d), Err(HookError::InvalidMinor));
    }
    assert!(spec.devices.is_none());
}

#[test]
fn signed_numbers_parse() {
    let mut spec = empty_spec();
    spec.add_udev_device(&record("/dev/a", "+12", "-7", NodeKind::Char)).unwrap();
    spec.add_udev_device(&record("/dev/b", "9223372036854775807", "007", NodeKind::Char))
        .unwrap();
    let devices = spec.devices.unwrap();
    assert_eq!(devices[0].major, 12);
    assert_eq!(devices[0].minor, -7);
    assert_eq!(devices[1].major, i64::MAX);
    assert_eq!(devices[1].minor, 7);
}

#[test]
fn unreadable_metadata_fails() {
    let mut spec = empty_spec();
    let mut d = create_null_mock_device();
    d.node = Some(DeviceNode { path: "/dev/gone".to_string(), meta: Err("not found".to_string()) });
    assert_eq!(
        spec.add_udev_device(&d),
        Err(HookError::NodeMetadata("not found".to_string()))
    );
    assert!(spec.devices.is_none());
}

#[test]
fn record_without_node_is_ignored() {
    let mut spec = empty_spec();
    let mut d = create_null_mock_device();
    d.node = None;
    d.properties.clear();
    assert_eq!(spec.add_udev_device(&d), Ok(()));
    assert!(spec.devices.is_none());
}

#[test]
fn existing_entries_are_kept() {
    let mut spec = empty_spec();
    spec.add_udev_device(&record("/dev/tty1", "4", "1", NodeKind::Char)).unwrap();
    spec.add_udev_device(&create_null_mock_device()).unwrap();
    assert!(spec.has_device_path(&"/dev/tty1".to_string()));
    assert!(spec.has_device_path(&"/dev/null".to_string()));
    assert!(!spec.has_device_path(&"/dev/zero".to_string()));
    let devices = spec.devices.unwrap();
    assert_eq!(devices[0].path, "/dev/tty1");
    assert_eq!(devices[1].path, "/dev/null");
}

#[test]
fn spec_without_seat_is_unchanged() {
    let mut spec = empty_spec();
    spec.annotations = Some(vec![("other".to_string(), "seat0".to_string())]);
    let out = spec.with_seat_devices(&vec![create_null_mock_device()]).unwrap();
    assert!(out.devices.is_none());
    assert!(out.cgroup_devices.is_none());
    assert_eq!(out.annotations.unwrap().len(), 1);
    let out = empty_spec().with_seat_devices(&vec![create_null_mock_device()]).unwrap();
    assert!(out.annotations.is_none());
    assert!(out.devices.is_none());
}

#[test]
fn end_to_end_character_device() {
    let out = seat_spec("seat0").with_seat_devices(&vec![create_null_mock_device()]).unwrap();
    let devices = out.devices.unwrap();
    assert_eq!(devices.len(), 1);
    assert_eq!(devices[0].typ, LinuxDeviceType::C);
    assert_eq!(devices[0].major, 1);
    assert_eq!(devices[0].minor, 3);
    assert_eq!(devices[0].file_mode, Some(0o666));
    assert_eq!(devices[0].uid, Some(0));
    assert_eq!(devices[0].gid, Some(0));
    let rules = out.cgroup_devices.unwrap();
    assert_eq!(rules.len(), 1);
    assert!(rules[0].allow);
    assert_eq!(rules[0].typ, Some(LinuxDeviceType::C));
    assert_eq!(rules[0].major, Some(1));
    assert_eq!(rules[0].minor, Some(3));
    assert_eq!(rules[0].access, Some("rwm".to_string()));
}

#[test]
fn seat_id_reads_annotation() {
    assert_eq!(seat_spec("seat1").seat_id(), Some("seat1".to_string()));
    assert_eq!(empty_spec().seat_id(), None);
}
