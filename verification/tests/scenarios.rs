use dd_backup::args::{backup_args_to_config, config_source, BackupArgs, FileConfigArgs, Loaded, SingleBackupArgs, Source};
use dd_backup::backups::Backups;
use dd_backup::config::{BackupConfig, BackupDevice, Config};
use dd_backup::error::{Error, ErrorKind};
use dd_backup::filesystem::BackupFile;
use dd_backup::lsblk::{BlockDevice, Lsblk, LsblkOutput};
use dd_backup::protocol::{Action, Event};
use dd_backup::run::Run;

/// A pretended system: block devices, files with their creation times, and
/// what was asked of it.
struct World {
    blockdevices: Vec<BlockDevice>,
    files: Vec<(String, u64)>,
    asked: Vec<Action>,
    mount_fails: bool,
    unmount_fails: bool,
    copy_fails: bool,
    clock: u64,
}

fn world(blockdevices: Vec<BlockDevice>) -> World {
    World {
        blockdevices,
        files: Vec::new(),
        asked: Vec::new(),
        mount_fails: false,
        unmount_fails: false,
        copy_fails: false,
        clock: 1000,
    }
}

fn perform(world: &mut World, action: Action) -> Event {
    let event = match &action {
        Action::Mount { device, path } => {
            if world.mount_fails {
                Event::Finished(Err(format!("Error running sudo mount {} {}: ", device, path)))
            } else {
                for entry in world.blockdevices.iter_mut() {
                    if format!("/dev/{}", entry.name) == *device {
                        entry.mountpoint = Some(path.clone());
                    }
                }
                Event::Finished(Ok(()))
            }
        }
        Action::Sync => Event::Finished(Ok(())),
        Action::Unmount { path } => {
            if world.unmount_fails {
                Event::Finished(Err(format!("Error running sudo umount {}: target is busy", path)))
            } else {
                Event::Finished(Ok(()))
            }
        }
        Action::Probe { path } => Event::Probed(world.files.iter().any(|(p, _)| p == path)),
        Action::List { path } => {
            let prefix = format!("{}/", path);
            Event::Listed(Ok(world
                .files
                .iter()
                .filter(|(p, _)| p.starts_with(&prefix))
                .map(|(p, t)| BackupFile { name: p[prefix.len()..].to_string(), created: Some(*t) })
                .collect()))
        }
        Action::Remove { path } => {
            world.files.retain(|(p, _)| p != path);
            Event::Finished(Ok(()))
        }
        Action::Inventory => Event::Inventoried(Ok(LsblkOutput { blockdevices: world.blockdevices.clone() })),
        Action::Copy { input: _, output } => {
            if world.copy_fails {
                Event::Finished(Err("Error running sudo dd: No space left on device".to_string()))
            } else {
                world.clock += 1;
                world.files.push((output.clone(), world.clock));
                Event::Finished(Ok(()))
            }
        }
        Action::SetOwner { path: _ } => Event::Finished(Ok(())),
    };
    world.asked.push(action);
    event
}

/// Runs the options on the world; gives the lines for the operator and the
/// way the run ended.
fn attempt(backup_args: &BackupArgs, loaded: Option<Loaded>, world: &mut World) -> (Vec<String>, Result<(), String>) {
    let mut lines = Vec::new();
    let config = match backup_args_to_config(backup_args, loaded) {
        Ok(config) => config,
        Err(e) => return (lines, Err(e.message())),
    };
    let lsblk = match Lsblk::new(Ok(LsblkOutput { blockdevices: world.blockdevices.clone() })) {
        Ok(lsblk) => lsblk,
        Err(e) => return (lines, Err(e.message())),
    };
    let mut plan = Run::new(backup_args, &config, &lsblk, &Ok(String::new()), "2024-03-09");
    for group in &plan.groups {
        for failure in &group.failures {
            lines.push(format!("{}, skipping it", failure.message()));
        }
    }
    let mut step = dd_backup::run::run(&mut plan, Event::Start);
    loop {
        lines.append(&mut step.notices);
        if let Some(outcome) = step.outcome {
            return (lines, outcome.map_err(|e| e.message()));
        }
        let action = step.action.take().expect("a step without an outcome asks for an action");
        let event = perform(world, action);
        step = dd_backup::run::run(&mut plan, event);
    }
}

fn run(backup_args: &BackupArgs) -> Result<(), String> {
    let loaded = match config_source(backup_args) {
        Source::File(path) => Some(Loaded::Unreadable {
            reason: "No such file or directory (os error 2)".to_string(),
            path,
        }),
        Source::UserFile => Some(Loaded::Malformed { reason: "no user file in a test".to_string() }),
        Source::CommandLine => None,
    };
    attempt(backup_args, loaded, &mut world(Vec::new())).1
}

fn disk(name: &str, model: &str, serial: &str, size: &str) -> BlockDevice {
    BlockDevice {
        name: name.to_string(),
        model: Some(model.to_string()),
        serial: Some(serial.to_string()),
        uuid: None,
        mountpoint: None,
        size: size.to_string(),
        fsavail: None,
    }
}

fn partition(name: &str, uuid: &str, fsavail: Option<&str>) -> BlockDevice {
    BlockDevice {
        name: name.to_string(),
        model: None,
        serial: None,
        uuid: Some(uuid.to_string()),
        mountpoint: None,
        size: "1T".to_string(),
        fsavail: fsavail.map(|s| s.to_string()),
    }
}

fn source(serial: &str, name: &str, copies: Option<usize>) -> BackupDevice {
    BackupDevice { serial: serial.to_string(), name: Some(name.to_string()), copies }
}

fn group(uuid: &str, devices: Vec<BackupDevice>) -> BackupConfig {
    BackupConfig {
        backup_devices: devices,
        uuid: uuid.to_string(),
        destination_path: None,
        fsck_command: None,
        skip_fsck: None,
        skip_mount: None,
    }
}

fn from_file(dry_run: bool) -> BackupArgs {
    BackupArgs {
        dry_run,
        file_config_args: Some(FileConfigArgs { config_file_path: Some("config.json".to_string()) }),
        single_backup_args: None,
        mountpath: None,
    }
}

fn parsed(groups: Vec<BackupConfig>) -> Option<Loaded> {
    Some(Loaded::Parsed(Config { backups: groups, mountpath: None }))
}

#[test]
fn test_run() {
    let valid_single_backup_args = SingleBackupArgs {
        destination_uuid: Some("some-uuid-which-does-not-exist".to_string()),
        destination_path: None,
        source_serial: Some("some-source-serial-which-does-not-exist".to_string()),
        copies: None,
        name: None,
        fsck_command: "fsck -n".to_string(),
        skip_fsck: false,
        skip_mount: false,
    };

    let invalid_single_backup_args = SingleBackupArgs {
        destination_uuid: None,
        destination_path: None,
        source_serial: None,
        copies: None,
        name: None,
        fsck_command: "fsck -n".to_string(),
        skip_fsck: false,
        skip_mount: false,
    };
    // Test when the command is `Run` and backup_run returns Ok(())
    let backup_args = BackupArgs {
        dry_run: false,
        file_config_args: None,
        single_backup_args: Some(valid_single_backup_args),
        mountpath: None,
    };
    let result = run(&backup_args);
    assert_eq!(result, Ok(()));

    // Test when config is not found
    let backup_args = BackupArgs {
        dry_run: false, /* initialize backup_args with appropriate values */
        file_config_args: Some(FileConfigArgs {
            config_file_path: Some("/does/not/exist.json".to_string()),
        }),
        single_backup_args: Some(invalid_single_backup_args.clone()),
        mountpath: None,
    };
    let result = run(&backup_args);
    assert_eq!(
        result,
        Err("Failed to create Config struct object: No such file or directory (os error 2): /does/not/exist.json".to_string())
    );

    // Test when using invalid single_backup_args
    let backup_args = BackupArgs {
        dry_run: false, /* initialize backup_args with appropriate values */
        file_config_args: None,
        single_backup_args: Some(invalid_single_backup_args),
        mountpath: None,
    };
    let result = run(&backup_args);
    assert_eq!(
        result,
        Err("Source serial needs to be provided in single backup mode, like: `--source-serial x...x`".to_string())
    );
}

#[test]
fn one_device_is_backed_up_to_an_empty_destination() {
    let mut system = world(vec![disk("sda", "Samsung SSD", "S1", "16G"), partition("sdb1", "U", Some("100G"))]);
    let config = parsed(vec![group("U", vec![source("S1", "my card", Some(1))])]);
    let (lines, outcome) = attempt(&from_file(false), config, &mut system);
    assert_eq!(outcome, Ok(()));
    assert_eq!(
        system.asked,
        vec![
            Action::Mount { device: "/dev/sdb1".to_string(), path: "/mnt".to_string() },
            Action::Probe { path: "/mnt/2024-03-09_my-card_Samsung-SSD_S1.img".to_string() },
            Action::List { path: "/mnt".to_string() },
            Action::Inventory,
            Action::Copy {
                input: "/dev/sda".to_string(),
                output: "/mnt/2024-03-09_my-card_Samsung-SSD_S1.img".to_string(),
            },
            Action::SetOwner { path: "/mnt/2024-03-09_my-card_Samsung-SSD_S1.img".to_string() },
            Action::Sync,
            Action::Unmount { path: "/mnt".to_string() },
        ]
    );
    assert_eq!(system.files.len(), 1);
    assert_eq!(system.files[0].0, "/mnt/2024-03-09_my-card_Samsung-SSD_S1.img");
    assert_eq!(lines, vec!["Filesystem mounted successfully", "Filesystem unmounted successfully"]);
}

#[test]
fn a_backup_of_today_is_not_written_over() {
    let mut system = world(vec![disk("sda", "Samsung SSD", "S1", "16G"), partition("sdb1", "U", Some("100G"))]);
    system.files.push(("/mnt/2024-03-09_my-card_Samsung-SSD_S1.img".to_string(), 5));
    let config = parsed(vec![group("U", vec![source("S1", "my card", Some(1))])]);
    let (lines, outcome) = attempt(&from_file(false), config, &mut system);
    assert_eq!(outcome, Ok(()));
    assert_eq!(
        system.asked,
        vec![
            Action::Mount { device: "/dev/sdb1".to_string(), path: "/mnt".to_string() },
            Action::Probe { path: "/mnt/2024-03-09_my-card_Samsung-SSD_S1.img".to_string() },
            Action::Sync,
            Action::Unmount { path: "/mnt".to_string() },
        ]
    );
    assert_eq!(system.files, vec![("/mnt/2024-03-09_my-card_Samsung-SSD_S1.img".to_string(), 5)]);
    assert_eq!(
        lines,
        vec![
            "Filesystem mounted successfully",
            "Error performing backup: Backup file is already present /mnt/2024-03-09_my-card_Samsung-SSD_S1.img. Skipping. If you want to do more than 1 backup per day, rename file manually",
            "Filesystem unmounted successfully",
        ]
    );
}

#[test]
fn an_ambiguous_device_does_not_stop_the_next() {
    let mut system = world(vec![
        disk("sda", "Kingston", "S1", "16G"),
        disk("sdc", "Kingston", "S1", "16G"),
        disk("sdd", "WD", "S2", "32G"),
        partition("sdb1", "U", Some("100G")),
    ]);
    let config = parsed(vec![group("U", vec![source("S1", "first", None), source("S2", "second", None)])]);
    let (lines, outcome) = attempt(&from_file(false), config, &mut system);
    assert_eq!(outcome, Ok(()));
    assert_eq!(system.files.len(), 1);
    assert_eq!(system.files[0].0, "/mnt/2024-03-09_second_WD_S2.img");
    assert_eq!(
        lines,
        vec![
            "Device has not a unique serial: S1, skipping it",
            "Filesystem mounted successfully",
            "Filesystem unmounted successfully",
        ]
    );
    assert!(!system.asked.iter().any(|a| matches!(a, Action::Copy { input, .. } if input != "/dev/sdd")));
}

#[test]
fn a_failed_copy_does_not_stop_the_next_device() {
    let mut system = world(vec![
        disk("sda", "Kingston", "S1", "16G"),
        disk("sdd", "WD", "S2", "32G"),
        partition("sdb1", "U", Some("100G")),
    ]);
    system.copy_fails = true;
    let config = parsed(vec![group("U", vec![source("S1", "first", None), source("S2", "second", None)])]);
    let (lines, outcome) = attempt(&from_file(false), config, &mut system);
    assert_eq!(outcome, Ok(()));
    let copies: Vec<&Action> = system.asked.iter().filter(|a| matches!(a, Action::Copy { .. })).collect();
    assert_eq!(copies.len(), 2);
    assert!(!system.asked.iter().any(|a| matches!(a, Action::SetOwner { .. })));
    assert_eq!(system.asked.last(), Some(&Action::Unmount { path: "/mnt".to_string() }));
    assert_eq!(
        lines,
        vec![
            "Filesystem mounted successfully",
            "Error performing backup: Error running sudo dd: No space left on device",
            "Error performing backup: Error running sudo dd: No space left on device",
            "Filesystem unmounted successfully",
        ]
    );
}

#[test]
fn the_oldest_backup_makes_room() {
    let mut system = world(vec![disk("sda", "WD", "S1", "16G"), partition("sdb1", "U", Some("1G"))]);
    system.files.push(("/mnt/2024-03-01_card_WD_S1.img".to_string(), 30));
    system.files.push(("/mnt/2024-02-01_card_WD_S1.img".to_string(), 20));
    system.files.push(("/mnt/2024-01-01_other_WD_S2.img".to_string(), 10));
    let config = parsed(vec![group("U", vec![source("S1", "card", Some(2))])]);
    let (lines, outcome) = attempt(&from_file(false), config, &mut system);
    assert_eq!(outcome, Ok(()));
    let names: Vec<&str> = system.files.iter().map(|(p, _)| p.as_str()).collect();
    assert_eq!(
        names,
        vec!["/mnt/2024-03-01_card_WD_S1.img", "/mnt/2024-01-01_other_WD_S2.img", "/mnt/2024-03-09_card_WD_S1.img"]
    );
    // after an eviction the free space is not looked at
    assert!(!system.asked.contains(&Action::Inventory));
    assert_eq!(lines[1], "Removing old back up file: /mnt/2024-02-01_card_WD_S1.img");
}

#[test]
fn a_dry_run_removes_and_copies_nothing() {
    let mut system = world(vec![disk("sda", "WD", "S1", "16G"), partition("sdb1", "U", Some("17G"))]);
    system.files.push(("/mnt/2024-03-01_card_WD_S1.img".to_string(), 30));
    let config = parsed(vec![group("U", vec![source("S1", "card", Some(1))])]);
    let (lines, outcome) = attempt(&from_file(true), config, &mut system);
    assert_eq!(outcome, Ok(()));
    assert_eq!(system.files, vec![("/mnt/2024-03-01_card_WD_S1.img".to_string(), 30)]);
    assert!(!system.asked.iter().any(|a| matches!(a, Action::Copy { .. } | Action::Remove { .. } | Action::SetOwner { .. })));
    // nothing was removed, so the free space is looked at
    assert!(system.asked.contains(&Action::Inventory));
    assert_eq!(
        lines[1],
        "[Dry-Run] backup would run with command: dd if=/dev/sda of=/mnt/2024-03-09_card_WD_S1.img status=progress"
    );
}

#[test]
fn a_dry_run_tells_of_too_little_space() {
    let mut system = world(vec![disk("sda", "WD", "S1", "16G"), partition("sdb1", "U", Some("1G"))]);
    system.files.push(("/mnt/2024-03-01_card_WD_S1.img".to_string(), 30));
    let config = parsed(vec![group("U", vec![source("S1", "card", Some(1))])]);
    let (lines, outcome) = attempt(&from_file(true), config, &mut system);
    assert_eq!(outcome, Ok(()));
    assert_eq!(system.files, vec![("/mnt/2024-03-01_card_WD_S1.img".to_string(), 30)]);
    assert!(!system.asked.iter().any(|a| matches!(a, Action::Copy { .. } | Action::Remove { .. })));
    assert_eq!(
        lines[1],
        "Error performing backup: Not enough space on destination filesystem /dev/sdb1, to backup device /dev/sda"
    );
}

#[test]
fn a_device_that_does_not_fit_is_not_copied() {
    let mut system = world(vec![disk("sda", "WD", "S1", "16G"), partition("sdb1", "U", Some("16G"))]);
    let config = parsed(vec![group("U", vec![source("S1", "card", None)])]);
    let (lines, outcome) = attempt(&from_file(false), config, &mut system);
    assert_eq!(outcome, Ok(()));
    assert!(system.files.is_empty());
    assert_eq!(
        lines[1],
        "Error performing backup: Not enough space on destination filesystem /dev/sdb1, to backup device /dev/sda"
    );
}

#[test]
fn an_unknown_size_lets_the_backup_through() {
    let mut system = world(vec![disk("sda", "WD", "S1", "16G"), partition("sdb1", "U", None)]);
    let config = parsed(vec![group("U", vec![source("S1", "card", None)])]);
    let (lines, outcome) = attempt(&from_file(false), config, &mut system);
    assert_eq!(outcome, Ok(()));
    assert_eq!(system.files.len(), 1);
    assert_eq!(lines[1], "Could not check if sufficient space is available");
}

#[test]
fn a_destination_that_cannot_be_mounted_is_passed_over() {
    let mut system = world(vec![
        disk("sda", "WD", "S1", "16G"),
        partition("sdb1", "U1", Some("100G")),
        partition("sdc1", "U2", Some("100G")),
    ]);
    system.mount_fails = true;
    let config = parsed(vec![
        group("U1", vec![source("S1", "card", None)]),
        group("U2", vec![source("S1", "card", None)]),
    ]);
    let (lines, outcome) = attempt(&from_file(false), config, &mut system);
    assert_eq!(outcome, Ok(()));
    assert_eq!(
        system.asked,
        vec![
            Action::Mount { device: "/dev/sdb1".to_string(), path: "/mnt".to_string() },
            Action::Mount { device: "/dev/sdc1".to_string(), path: "/mnt".to_string() },
        ]
    );
    assert_eq!(
        lines,
        vec![
            "Skipping destination: Error running sudo mount /dev/sdb1 /mnt: ",
            "Skipping destination: Error running sudo mount /dev/sdc1 /mnt: ",
        ]
    );
}

#[test]
fn a_destination_that_cannot_be_unmounted_ends_the_run() {
    let mut system = world(vec![
        disk("sda", "WD", "S1", "16G"),
        partition("sdb1", "U1", Some("100G")),
        partition("sdc1", "U2", Some("100G")),
    ]);
    system.unmount_fails = true;
    let config = parsed(vec![
        group("U1", vec![source("S1", "card", None)]),
        group("U2", vec![source("S1", "card", None)]),
    ]);
    let (_, outcome) = attempt(&from_file(false), config, &mut system);
    assert_eq!(outcome, Err("Error running sudo umount /mnt: target is busy".to_string()));
    assert!(!system.asked.contains(&Action::Mount { device: "/dev/sdc1".to_string(), path: "/mnt".to_string() }));
}

#[test]
fn an_absent_or_ambiguous_destination_is_left_out() {
    let system = world(vec![
        disk("sda", "WD", "S1", "16G"),
        partition("sdb1", "U1", Some("100G")),
        partition("sdc1", "U1", Some("100G")),
        partition("sdd1", "U3", Some("100G")),
    ]);
    let args = from_file(false);
    let config = Config {
        backups: vec![
            group("U1", vec![source("S1", "card", None)]),
            group("U2", vec![source("S1", "card", None)]),
            group("U3", vec![source("S1", "card", None)]),
        ],
        mountpath: Some("/backup".to_string()),
    };
    let lsblk = Lsblk::new(Ok(LsblkOutput { blockdevices: system.blockdevices.clone() })).unwrap();
    let plan = Run::new(&args, &config, &lsblk, &Ok(String::new()), "2024-03-09");
    assert_eq!(plan.groups.len(), 1);
    assert_eq!(plan.groups[0].dst_filesystem.device_path, "/dev/sdd1");
    assert_eq!(plan.groups[0].dst_filesystem.mountpath, "/backup");
    assert_eq!(
        plan.failures,
        vec![Error { kind: ErrorKind::NonUniqueIdentifier, message: "Not a unique UUID: U1".to_string() }]
    );
    assert!(matches!(Backups::new(&config.backups[1], &lsblk, &args, &config, &Ok(String::new()), "d".to_string()), Ok(None)));
}

#[test]
fn a_mounted_destination_is_not_mounted_again() {
    let mut target = partition("sdb1", "U", Some("100G"));
    target.mountpoint = Some("/media/usb/".to_string());
    let mut system = world(vec![disk("sda", "WD", "S1", "16G"), target]);
    let config = Some(Loaded::Parsed(Config {
        backups: vec![BackupConfig {
            backup_devices: vec![source("S1", "card", None)],
            uuid: "U".to_string(),
            destination_path: Some("images/../disks/./".to_string()),
            fsck_command: None,
            skip_fsck: None,
            skip_mount: None,
        }],
        mountpath: None,
    }));
    let (_, outcome) = attempt(&from_file(false), config, &mut system);
    assert_eq!(outcome, Ok(()));
    assert_eq!(system.asked[0], Action::Probe { path: "/media/usb/disks/2024-03-09_card_WD_S1.img".to_string() });
    assert_eq!(system.asked[1], Action::List { path: "/media/usb/disks".to_string() });
    assert_eq!(system.asked.last(), Some(&Action::Unmount { path: "/media/usb/".to_string() }));
}

#[test]
fn an_unexpected_event_ends_the_group() {
    let system = world(vec![disk("sda", "WD", "S1", "16G"), partition("sdb1", "U", Some("100G"))]);
    let args = from_file(false);
    let config = Config { backups: vec![group("U", vec![source("S1", "card", None)])], mountpath: None };
    let lsblk = Lsblk::new(Ok(LsblkOutput { blockdevices: system.blockdevices.clone() })).unwrap();
    let mut plan = Run::new(&args, &config, &lsblk, &Ok(String::new()), "2024-03-09");
    let first = dd_backup::run::run(&mut plan, Event::Start);
    assert!(matches!(first.action, Some(Action::Mount { .. })));
    let second = dd_backup::run::run(&mut plan, Event::Probed(true));
    assert_eq!(
        second.outcome,
        Some(Err(Error { kind: ErrorKind::CommandExecutionFailure, message: "Unexpected event".to_string() }))
    );
    let third = dd_backup::run::run(&mut plan, Event::Start);
    assert_eq!(third.action, None);
    assert_eq!(third.outcome, None);
}

#[test]
fn a_run_without_groups_ends_at_once() {
    let args = from_file(false);
    let config = Config { backups: Vec::new(), mountpath: None };
    let lsblk = Lsblk::new(Ok(LsblkOutput { blockdevices: Vec::new() })).unwrap();
    let mut plan = Run::new(&args, &config, &lsblk, &Ok(String::new()), "2024-03-09");
    let step = dd_backup::run::run(&mut plan, Event::Start);
    assert_eq!(step.action, None);
    assert_eq!(step.outcome, Some(Ok(())));
}
