use dd_backup::config::BackupDevice;
use dd_backup::device::Device;
use dd_backup::error::ErrorKind;
use dd_backup::filesystem::Filesystem;
use dd_backup::lsblk::{lookup, BlockDevice, Key, Lookup, Lsblk, LsblkOutput};

fn entry(name: &str, serial: Option<&str>, uuid: Option<&str>, mountpoint: Option<&str>) -> BlockDevice {
    BlockDevice {
        name: name.to_string(),
        model: Some(format!("model {}", name)),
        serial: serial.map(|s| s.to_string()),
        uuid: uuid.map(|s| s.to_string()),
        mountpoint: mountpoint.map(|s| s.to_string()),
        size: "100G".to_string(),
        fsavail: Some("50G".to_string()),
    }
}

fn generate_test_devices() -> Vec<BlockDevice> {
    vec![
        BlockDevice {
            name: "sda1".to_string(),
            model: Some("model1".to_string()),
            serial: Some("serial1".to_string()),
            uuid: Some("uuid1".to_string()),
            mountpoint: Some("/mnt/sda1".to_string()),
            size: "100GB".to_string(),
            fsavail: Some("50GB".to_string()),
        },
        BlockDevice {
            name: "sdb1".to_string(),
            model: Some("model2".to_string()),
            serial: Some("serial2".to_string()),
            uuid: Some("uuid2".to_string()),
            mountpoint: Some("/mnt/sdb1".to_string()),
            size: "200GB".to_string(),
            fsavail: Some("100GB".to_string()),
        },
        BlockDevice {
            name: "sdc1".to_string(),
            model: Some("model3".to_string()),
            serial: Some("serial2".to_string()), // Duplicate serial
            uuid: Some("uuid3".to_string()),
            mountpoint: Some("/mnt/sdc1".to_string()),
            size: "300GB".to_string(),
            fsavail: Some("150GB".to_string()),
        },
    ]
}

fn source(serial: &str, name: Option<&str>, copies: Option<usize>) -> BackupDevice {
    BackupDevice { serial: serial.to_string(), name: name.map(|s| s.to_string()), copies }
}

const MOUNTS: &str = "proc /proc proc rw 0 0\n/dev/sdz1 /home ext4 rw 0 0\n/dev/mapper/root / ext4 rw 0 0\n";

#[test]
fn test_validate_serial() {
    let devices = generate_test_devices();

    // Serial exists and is unique
    match Device::validate_serial("serial1", &devices) {
        Ok(device) => assert_eq!(device.serial.clone().unwrap(), "serial1"),
        Err(msg) => panic!("Error: {:?}", msg),
    }

    // Serial exists but is not unique
    match Device::validate_serial("serial2", &devices) {
        Ok(_) => panic!("Should have failed due to non-unique serial"),
        Err(msg) => assert!(msg.message().contains("not a unique serial")),
    }

    // Serial does not exist
    match Device::validate_serial("serial3", &devices) {
        Ok(_) => panic!("Should have failed due to non-existent serial"),
        Err(msg) => assert!(msg.message().contains("Device not found")),
    }
}

#[test]
fn validate_serial_names_the_serial() {
    let devices = generate_test_devices();
    let twice = Device::validate_serial("serial2", &devices).unwrap_err();
    assert_eq!(twice.kind, ErrorKind::NonUniqueIdentifier);
    assert_eq!(twice.message(), "Device has not a unique serial: serial2");
    let none = Device::validate_serial("serial3", &devices).unwrap_err();
    assert_eq!(none.kind, ErrorKind::DeviceNotFound);
    assert_eq!(none.message(), "Device not found: serial3");
    assert_eq!(Device::validate_serial("serial1", &devices).unwrap().name, "sda1");
}

#[test]
fn lookup_counts_matches() {
    let devices = generate_test_devices();
    assert_eq!(lookup(&devices, Key::Serial, "serial1"), Lookup::Unique(0));
    assert_eq!(lookup(&devices, Key::Serial, "serial2"), Lookup::Ambiguous);
    assert_eq!(lookup(&devices, Key::Serial, "serial"), Lookup::Absent);
    assert_eq!(lookup(&devices, Key::Uuid, "uuid3"), Lookup::Unique(2));
    assert_eq!(lookup(&devices, Key::Uuid, "serial1"), Lookup::Absent);
    assert_eq!(lookup(&[], Key::Uuid, "uuid1"), Lookup::Absent);
}

#[test]
fn a_unique_unmounted_device_is_resolved() {
    let devices = vec![
        entry("sda", Some("S1"), None, None),
        entry("sdb", Some("S2"), None, None),
    ];
    let device = Device::new(&source("S2", Some("my disk one"), Some(3)), &devices, Some("images".to_string()), &Ok(MOUNTS.to_string()))
        .unwrap()
        .unwrap();
    assert_eq!(device.device_path, "/dev/sdb");
    assert_eq!(device.blockdevice.name, "sdb");
    assert_eq!(device.name, "my-disk-one");
    assert_eq!(device.destination_path, "images");
    assert_eq!(device.copies, 3);
    assert_eq!(device.total_size(), Ok(Some(107374182400)));
}

#[test]
fn a_resolved_device_has_defaults() {
    let devices = vec![entry("sda", Some("S1"), None, None)];
    let device = Device::new(&source("S1", None, None), &devices, None, &Ok(String::new())).unwrap().unwrap();
    assert_eq!(device.name, "");
    assert_eq!(device.destination_path, "./");
    assert_eq!(device.copies, 1);
}

#[test]
fn an_absent_device_is_no_error() {
    let devices = vec![entry("sda", Some("S1"), None, None), entry("sdb", None, Some("U"), None)];
    assert!(matches!(Device::new(&source("S9", None, None), &devices, None, &Ok(MOUNTS.to_string())), Ok(None)));
    assert!(matches!(Device::new(&source("S1", None, None), &[], None, &Ok(MOUNTS.to_string())), Ok(None)));
}

#[test]
fn an_ambiguous_device_is_an_error() {
    let devices = vec![entry("sda", Some("S1"), None, None), entry("sdb", Some("S1"), None, None)];
    let error = Device::new(&source("S1", None, None), &devices, None, &Ok(MOUNTS.to_string())).unwrap_err();
    assert_eq!(error.kind, ErrorKind::NonUniqueIdentifier);
    assert_eq!(error.message(), "Device has not a unique serial: S1");
}

#[test]
fn a_mounted_device_is_absent() {
    let devices = vec![entry("sdz", Some("S1"), None, None), entry("sdy", Some("S2"), None, None)];
    // a partition of sdz is a mount source
    assert!(matches!(Device::new(&source("S1", None, None), &devices, None, &Ok(MOUNTS.to_string())), Ok(None)));
    assert!(matches!(Device::new(&source("S2", None, None), &devices, None, &Ok(MOUNTS.to_string())), Ok(Some(_))));
}

#[test]
fn the_mount_table_is_read_by_lines_and_fields() {
    assert!(Device::is_device_mounted("/dev/sdz1", MOUNTS));
    assert!(Device::is_device_mounted("/dev/sdz", MOUNTS));
    assert!(Device::is_device_mounted("/dev/mapper/root", MOUNTS));
    assert!(!Device::is_device_mounted("/dev/sda", MOUNTS));
    // the path is sought in the first field only
    assert!(!Device::is_device_mounted("/home", MOUNTS));
    assert!(!Device::is_device_mounted("ext4", MOUNTS));
    // a line of one field names no source
    assert!(!Device::is_device_mounted("/dev/sda", "/dev/sda\n"));
    assert!(Device::is_device_mounted("/dev/sda", "/dev/sda /\n"));
    assert!(Device::is_device_mounted("/dev/sda", "x y\n/dev/sda1 /mnt"));
    // a path never spans two lines
    assert!(!Device::is_device_mounted("/dev/sda", "/dev\n/sda /mnt\n"));
    assert!(!Device::is_device_mounted("/dev/sda", ""));
}

#[test]
fn a_unique_filesystem_is_resolved() {
    let filesystems = vec![
        entry("sdb1", None, Some("U1"), None),
        entry("sdc1", None, Some("U2"), Some("/media/backup")),
    ];
    let unmounted = Filesystem::new("U1", &filesystems, None).unwrap().unwrap();
    assert_eq!(unmounted.device_path, "/dev/sdb1");
    assert_eq!(unmounted.mountpath, "/mnt");
    assert_eq!(unmounted.fsavail, Some(53687091200));
    assert!(!unmounted.is_mounted());
    let mounted = Filesystem::new("U2", &filesystems, Some("/backup".to_string())).unwrap().unwrap();
    assert_eq!(mounted.device_path, "/dev/sdc1");
    assert_eq!(mounted.mountpath, "/backup");
    assert!(mounted.is_mounted());
    assert_eq!(mounted.blockdevice.mountpoint, Some("/media/backup".to_string()));
}

#[test]
fn an_absent_filesystem_is_no_error() {
    let filesystems = vec![entry("sdb1", None, Some("U1"), None)];
    assert!(matches!(Filesystem::new("U9", &filesystems, None), Ok(None)));
    assert!(matches!(Filesystem::new("U1", &Vec::new(), None), Ok(None)));
}

#[test]
fn an_ambiguous_filesystem_is_an_error() {
    let filesystems = vec![entry("sdb1", None, Some("U1"), None), entry("sdc1", None, Some("U1"), None)];
    let error = Filesystem::new("U1", &filesystems, None).unwrap_err();
    assert_eq!(error.kind, ErrorKind::NonUniqueIdentifier);
    assert_eq!(error.message(), "Not a unique UUID: U1");
}

#[test]
fn an_unreadable_free_space_is_unknown() {
    let mut odd = entry("sdb1", None, Some("U1"), None);
    odd.fsavail = Some("lots".to_string());
    let mut none = entry("sdc1", None, Some("U2"), None);
    none.fsavail = None;
    let filesystems = vec![odd, none];
    assert_eq!(Filesystem::new("U1", &filesystems, None).unwrap().unwrap().fsavail, None);
    assert_eq!(Filesystem::new("U2", &filesystems, None).unwrap().unwrap().fsavail, None);
}

#[test]
fn the_inventory_is_parted_into_sources_and_destinations() {
    let output = LsblkOutput {
        blockdevices: vec![
            entry("sda", Some("S1"), None, None),
            entry("sda1", None, Some("U1"), None),
            entry("loop0", None, None, None),
            entry("sdb", Some("S2"), Some("U2"), None),
        ],
    };
    let lsblk = Lsblk::new(Ok(output)).unwrap();
    let devices: Vec<&str> = lsblk.available_devices.iter().map(|d| d.name.as_str()).collect();
    let filesystems: Vec<&str> = lsblk.available_filesystems.iter().map(|d| d.name.as_str()).collect();
    assert_eq!(devices, vec!["sda", "sdb"]);
    assert_eq!(filesystems, vec!["sda1", "sdb"]);
}

#[test]
fn a_failed_probe_is_a_command_failure() {
    let error = Lsblk::new(Err("Execution of lsblk failed".to_string())).unwrap_err();
    assert_eq!(error.kind, ErrorKind::CommandExecutionFailure);
    assert_eq!(error.message(), "Failed to read JSON from lsblk: Execution of lsblk failed");
}

#[test]
fn mount_and_unmount_follow_the_commands() {
    let filesystems = vec![entry("sdb1", None, Some("U1"), None)];
    let mut filesystem = Filesystem::new("U1", &filesystems, Some("/backup".to_string())).unwrap().unwrap();
    let error = filesystem.unmount(Ok(())).unwrap_err();
    assert_eq!(error.kind, ErrorKind::UnmountFailure);
    assert_eq!(error.message(), "/backup");
    assert_eq!(filesystem.unmount_target().unwrap_err().message(), "/backup");

    let error = filesystem.mount(Err("mount: permission denied".to_string())).unwrap_err();
    assert_eq!(error.kind, ErrorKind::MountFailure);
    assert_eq!(error.message(), "mount: permission denied");
    assert!(!filesystem.is_mounted());

    assert_eq!(filesystem.mount(Ok(())), Ok(()));
    assert!(filesystem.is_mounted());
    assert_eq!(filesystem.blockdevice.mountpoint, Some("/backup".to_string()));
    assert_eq!(filesystem.unmount_target(), Ok("/backup".to_string()));

    let error = filesystem.unmount(Err("umount: target is busy".to_string())).unwrap_err();
    assert_eq!(error.kind, ErrorKind::UnmountFailure);
    assert_eq!(error.message(), "umount: target is busy");
    assert!(filesystem.is_mounted());

    assert_eq!(filesystem.unmount(Ok(())), Ok(()));
    assert!(!filesystem.is_mounted());
    assert_eq!(filesystem.blockdevice.mountpoint, None);
}

#[test]
fn an_unread_mount_table_matters_for_a_unique_serial_only() {
    let devices = vec![
        entry("sda", Some("S1"), None, None),
        entry("sdb", Some("S2"), None, None),
        entry("sdc", Some("S2"), None, None),
    ];
    let unread = Err("Permission denied (os error 13)".to_string());
    let error = Device::new(&source("S1", None, None), &devices, None, &unread).unwrap_err();
    assert_eq!(error.kind, ErrorKind::CommandExecutionFailure);
    assert_eq!(error.message(), "Failed to open /proc/mounts: Permission denied (os error 13)");
    assert!(matches!(Device::new(&source("S9", None, None), &devices, None, &unread), Ok(None)));
    let twice = Device::new(&source("S2", None, None), &devices, None, &unread).unwrap_err();
    assert_eq!(twice.kind, ErrorKind::NonUniqueIdentifier);
}
