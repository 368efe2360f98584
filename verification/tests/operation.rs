use dd_backup::args::BackupArgs;
use dd_backup::backup::{Admission, BackUp, BackupState};
use dd_backup::device::Device;
use dd_backup::error::ErrorKind;
use dd_backup::filesystem::{BackupFile, Filesystem};
use dd_backup::lsblk::{BlockDevice, LsblkOutput};
use dd_backup::protocol::{Action, Event};

fn block(name: &str, model: Option<&str>, serial: Option<&str>, size: &str) -> BlockDevice {
    BlockDevice {
        name: name.to_string(),
        model: model.map(|s| s.to_string()),
        serial: serial.map(|s| s.to_string()),
        uuid: None,
        mountpoint: None,
        size: size.to_string(),
        fsavail: None,
    }
}

fn device(name: &str, model: Option<&str>, serial: Option<&str>, size: &str, copies: usize) -> Device {
    Device {
        blockdevice: block("sda", model, serial, size),
        device_path: "/dev/sda".to_string(),
        name: name.to_string(),
        destination_path: "./".to_string(),
        copies,
    }
}

fn destination(mountpoint: Option<&str>) -> Filesystem {
    Filesystem {
        blockdevice: BlockDevice {
            name: "sdb1".to_string(),
            model: None,
            serial: None,
            uuid: Some("U".to_string()),
            mountpoint: mountpoint.map(|s| s.to_string()),
            size: "1T".to_string(),
            fsavail: None,
        },
        device_path: "/dev/sdb1".to_string(),
        mountpath: "/mnt".to_string(),
        fsavail: None,
    }
}

fn options(dry_run: bool) -> BackupArgs {
    BackupArgs { dry_run, file_config_args: None, single_backup_args: None, mountpath: None }
}

fn file(name: &str, created: Option<u64>) -> BackupFile {
    BackupFile { name: name.to_string(), created }
}

fn name_of(date: &str, name: &str, model: Option<&str>, serial: Option<&str>) -> String {
    let filesystem = destination(Some("/mnt"));
    let device = device(name, model, serial, "1G", 1);
    let args = options(false);
    BackUp::dated(&filesystem, &device, &args, date.to_string()).file_name()
}

#[test]
fn file_names_are_made_of_date_name_model_and_serial() {
    assert_eq!(name_of("2024-03-09", "card", Some("Samsung SSD 870"), Some("S5 X")), "2024-03-09_card_Samsung-SSD-870_S5-X.img");
    assert_eq!(name_of("2024-03-09", "card", None, Some("S5")), "2024-03-09_card_S5.img");
    assert_eq!(name_of("2024-03-09", "card", Some("WD"), None), "2024-03-09_card_WD.img");
    assert_eq!(name_of("2024-03-09", "", None, None), "2024-03-09__.img");
}

#[test]
fn file_names_are_the_same_for_the_same_inputs() {
    assert_eq!(
        name_of("2024-03-09", "card", Some("WD"), Some("S1")),
        name_of("2024-03-09", "card", Some("WD"), Some("S1"))
    );
}

#[test]
fn file_names_change_with_each_input() {
    let base = name_of("2024-03-09", "card", Some("WD"), Some("S1"));
    assert_ne!(base, name_of("2024-03-10", "card", Some("WD"), Some("S1")));
    assert_ne!(base, name_of("2024-03-09", "disk", Some("WD"), Some("S1")));
    assert_ne!(base, name_of("2024-03-09", "card", Some("WDC"), Some("S1")));
    assert_ne!(base, name_of("2024-03-09", "card", None, Some("S1")));
    assert_ne!(base, name_of("2024-03-09", "card", Some("WD"), Some("S2")));
    assert_ne!(base, name_of("2024-03-09", "card", Some("WD"), None));
}

#[test]
fn models_that_differ_in_spaces_for_hyphens_share_a_name() {
    assert_eq!(
        name_of("2024-03-09", "card", Some("WD Blue"), Some("S1")),
        name_of("2024-03-09", "card", Some("WD-Blue"), Some("S1"))
    );
    assert_eq!(name_of("2024-03-09", "card", None, None), name_of("2024-03-09", "card", Some(""), None));
}

#[test]
fn the_stable_suffix_has_no_date_and_no_name() {
    let filesystem = destination(Some("/mnt"));
    let args = options(false);
    let one = device("card", Some("Samsung SSD"), Some("S1"), "1G", 1);
    let two = device("other", Some("Samsung SSD"), Some("S1"), "1G", 1);
    let a = BackUp::dated(&filesystem, &one, &args, "2024-03-09".to_string());
    let b = BackUp::dated(&filesystem, &two, &args, "2025-01-01".to_string());
    assert_eq!(a.stable_postfix_file_name(), "Samsung-SSD_S1.img");
    assert_eq!(a.stable_postfix_file_name(), b.stable_postfix_file_name());
    assert_eq!(a.input_file_path(), "/dev/sda");
}

#[test]
fn an_operation_of_today_carries_a_date() {
    let filesystem = destination(Some("/mnt"));
    let device = device("card", Some("WD"), Some("S1"), "1G", 1);
    let args = options(false);
    let operation = BackUp::new(&filesystem, &device, &args);
    assert_eq!(operation.date.len(), 10);
    assert!(operation.file_name().ends_with("_card_WD_S1.img"));
}

#[test]
fn paths_are_joined_and_normalized() {
    let args = options(false);
    let mut target = device("card", Some("WD"), Some("S1"), "1G", 1);
    target.destination_path = "images/../disks//weekly/.".to_string();
    let filesystem = destination(Some("/media/usb/"));
    let operation = BackUp::dated(&filesystem, &target, &args, "2024-03-09".to_string());
    assert_eq!(operation.back_up_dir_path(), Ok("/media/usb/disks/weekly".to_string()));
    assert_eq!(
        operation.back_up_file_path(),
        Ok("/media/usb/disks/weekly/2024-03-09_card_WD_S1.img".to_string())
    );
    let unmounted = destination(None);
    let operation = BackUp::dated(&unmounted, &target, &args, "2024-03-09".to_string());
    let error = operation.back_up_dir_path().unwrap_err();
    assert_eq!(error.kind, ErrorKind::MountFailure);
    assert_eq!(error.message(), "Filesystem is not mounted: /dev/sdb1");
    assert_eq!(operation.back_up_file_path().unwrap_err().message(), "Filesystem is not mounted: /dev/sdb1");
}

#[test]
fn a_destination_is_full_at_the_number_of_copies() {
    let filesystem = destination(Some("/mnt"));
    let target = device("card", Some("WD"), Some("S1"), "1G", 3);
    let args = options(false);
    let operation = BackUp::dated(&filesystem, &target, &args, "2024-03-09".to_string());
    let two = Ok(vec![
        file("2024-01-01_card_WD_S1.img", Some(1)),
        file("2024-01-02_card_WD_S2.img", Some(2)),
        file("notes.txt", Some(3)),
        file("2024-01-03_old-name_WD_S1.img", Some(4)),
    ]);
    assert_eq!(filesystem.present_number_of_copies("WD_S1.img", &two), 2);
    assert!(!operation.needs_deletion(&two));
    let three = Ok(vec![
        file("2024-01-01_card_WD_S1.img", Some(1)),
        file("2024-01-02_card_WD_S1.img", Some(2)),
        file("2024-01-03_card_WD_S1.img.part", Some(3)),
    ]);
    assert_eq!(filesystem.present_number_of_copies("WD_S1.img", &three), 3);
    assert!(operation.needs_deletion(&three));
    let unreadable = Err("Permission denied".to_string());
    assert_eq!(filesystem.present_number_of_copies("WD_S1.img", &unreadable), 0);
    assert!(!operation.needs_deletion(&unreadable));
    assert!(!operation.needs_deletion(&Ok(Vec::new())));
}

#[test]
fn the_oldest_backup_of_the_device_is_chosen() {
    let filesystem = destination(Some("/mnt"));
    let listing = Ok(vec![
        file("ancient_other_WD_S2.img", Some(1)),
        file("c_WD_S1.img", Some(30)),
        file("a_WD_S1.img", Some(10)),
        file("b_WD_S1.img", Some(20)),
        file("d_WD_S1.img", Some(10)),
    ]);
    assert_eq!(
        filesystem.delete_oldest_backup("WD_S1.img", "/mnt/images", &listing),
        Ok(Some("/mnt/images/a_WD_S1.img".to_string()))
    );
    assert_eq!(
        filesystem.delete_oldest_backup("WD_S2.img", "/mnt/images", &listing),
        Ok(Some("/mnt/images/ancient_other_WD_S2.img".to_string()))
    );
    assert_eq!(filesystem.delete_oldest_backup("WD_S3.img", "/mnt/images", &listing), Ok(None));
    assert_eq!(filesystem.delete_oldest_backup("WD_S1.img", "/mnt", &Ok(Vec::new())), Ok(None));
}

#[test]
fn an_unknown_creation_time_goes_first() {
    let filesystem = destination(Some("/mnt"));
    let listing = Ok(vec![
        file("a_WD_S1.img", Some(10)),
        file("b_WD_S1.img", None),
        file("c_WD_S1.img", Some(0)),
        file("d_WD_S1.img", None),
    ]);
    assert_eq!(
        filesystem.delete_oldest_backup("WD_S1.img", "/mnt", &listing),
        Ok(Some("/mnt/b_WD_S1.img".to_string()))
    );
}

#[test]
fn an_unreadable_directory_is_a_retention_failure() {
    let filesystem = destination(Some("/mnt"));
    let error = filesystem
        .delete_oldest_backup("WD_S1.img", "/mnt", &Err("Permission denied (os error 13)".to_string()))
        .unwrap_err();
    assert_eq!(error.kind, ErrorKind::RetentionDeletionFailure);
    assert_eq!(error.message(), "Failed to read backup directory: Permission denied (os error 13)");
    let error = Filesystem::removal("/mnt/a.img", Err("Read-only file system".to_string())).unwrap_err();
    assert_eq!(error.kind, ErrorKind::RetentionDeletionFailure);
    assert_eq!(error.message(), "Failed to delete oldest backup file '/mnt/a.img': Read-only file system");
    assert_eq!(Filesystem::removal("/mnt/a.img", Ok(())), Ok(()));
}

#[test]
fn eviction_is_decided_by_count_and_dry_run() {
    let filesystem = destination(Some("/mnt"));
    let target = device("card", Some("WD"), Some("S1"), "1G", 2);
    let listing = Ok(vec![file("a_WD_S1.img", Some(10)), file("b_WD_S1.img", Some(5))]);
    let wet = options(false);
    let operation = BackUp::dated(&filesystem, &target, &wet, "2024-03-09".to_string());
    assert_eq!(
        operation.delete_oldest_backup_if_needed(&listing),
        Ok(Some("/mnt/b_WD_S1.img".to_string()))
    );
    assert_eq!(
        operation.delete_oldest_backup_if_needed(&Ok(vec![file("a_WD_S1.img", Some(10))])),
        Ok(None)
    );
    let dry = options(true);
    let operation = BackUp::dated(&filesystem, &target, &dry, "2024-03-09".to_string());
    assert!(operation.needs_deletion(&listing));
    assert_eq!(operation.delete_oldest_backup_if_needed(&listing), Ok(None));
}

#[test]
fn space_admission() {
    let filesystem = destination(Some("/mnt"));
    let args = options(false);
    let needs_150 = device("card", Some("WD"), Some("S1"), "150B", 1);
    let operation = BackUp::dated(&filesystem, &needs_150, &args, "2024-03-09".to_string());
    let error = operation.check_if_target_filesystem_has_enough_space(Some(100)).unwrap_err();
    assert_eq!(error.kind, ErrorKind::InsufficientSpace);
    assert_eq!(
        error.message(),
        "Not enough space on destination filesystem /dev/sdb1, to backup device /dev/sda"
    );
    assert_eq!(operation.check_if_target_filesystem_has_enough_space(None), Ok(Admission::Unverified));
    // what is free has to be more than what is needed
    assert_eq!(
        operation.check_if_target_filesystem_has_enough_space(Some(150)).unwrap_err().kind,
        ErrorKind::InsufficientSpace
    );
    assert_eq!(operation.check_if_target_filesystem_has_enough_space(Some(151)), Ok(Admission::Sufficient));

    let needs_100 = device("card", Some("WD"), Some("S1"), "100B", 1);
    let operation = BackUp::dated(&filesystem, &needs_100, &args, "2024-03-09".to_string());
    assert_eq!(operation.check_if_target_filesystem_has_enough_space(Some(150)), Ok(Admission::Sufficient));

    let unknown = device("card", Some("WD"), Some("S1"), "100X", 1);
    let operation = BackUp::dated(&filesystem, &unknown, &args, "2024-03-09".to_string());
    assert_eq!(operation.check_if_target_filesystem_has_enough_space(Some(1)), Ok(Admission::Unverified));
    assert_eq!(operation.check_if_target_filesystem_has_enough_space(None), Ok(Admission::Unverified));

    let unreadable = device("card", Some("WD"), Some("S1"), "bigG", 1);
    let operation = BackUp::dated(&filesystem, &unreadable, &args, "2024-03-09".to_string());
    let error = operation.check_if_target_filesystem_has_enough_space(None).unwrap_err();
    assert_eq!(error.kind, ErrorKind::InvalidSize);
    assert_eq!(error.message(), "Error parsing unit size: invalid float literal");
}

#[test]
fn an_existing_target_is_an_error() {
    let filesystem = destination(Some("/mnt"));
    let target = device("card", Some("WD"), Some("S1"), "1G", 1);
    let args = options(false);
    let operation = BackUp::dated(&filesystem, &target, &args, "2024-03-09".to_string());
    assert_eq!(operation.check_if_target_file_is_present(false), Ok(()));
    let error = operation.check_if_target_file_is_present(true).unwrap_err();
    assert_eq!(error.kind, ErrorKind::AlreadyPresent);
    assert_eq!(
        error.message(),
        "Backup file is already present /mnt/2024-03-09_card_WD_S1.img. Skipping. If you want to do more than 1 backup per day, rename file manually"
    );
}

#[test]
fn an_operation_goes_through_its_states() {
    let filesystem = destination(Some("/mnt"));
    let target = device("card", Some("WD"), Some("S1"), "16G", 1);
    let args = options(false);
    let operation = BackUp::dated(&filesystem, &target, &args, "2024-03-09".to_string());
    let path = "/mnt/2024-03-09_card_WD_S1.img".to_string();

    let step = operation.run(BackupState::Init, Event::Start);
    assert_eq!(step.state, BackupState::CheckingTarget);
    assert_eq!(step.action, Some(Action::Probe { path: path.clone() }));

    let step = operation.run(step.state, Event::Probed(false));
    assert_eq!(step.state, BackupState::CountingCopies);
    assert_eq!(step.action, Some(Action::List { path: "/mnt".to_string() }));

    let step = operation.run(step.state, Event::Listed(Ok(Vec::new())));
    assert_eq!(step.state, BackupState::CheckingSpace);
    assert_eq!(step.action, Some(Action::Inventory));

    let mut fresh = destination(Some("/mnt")).blockdevice;
    fresh.fsavail = Some("16.1G".to_string());
    let step = operation.run(step.state, Event::Inventoried(Ok(LsblkOutput { blockdevices: vec![fresh] })));
    assert_eq!(step.state, BackupState::Validated);
    assert_eq!(step.action, Some(Action::Copy { input: "/dev/sda".to_string(), output: path.clone() }));
    assert!(step.notices.is_empty());

    let step = operation.run(step.state, Event::Finished(Ok(())));
    assert_eq!(step.state, BackupState::Copied);
    assert_eq!(step.action, Some(Action::SetOwner { path }));

    let step = operation.run(step.state, Event::Finished(Ok(())));
    assert_eq!(step.state, BackupState::Done);
    assert_eq!(step.action, None);
    assert_eq!(step.failure, None);

    let step = operation.run(step.state, Event::Start);
    assert_eq!(step.state, BackupState::Done);
    assert_eq!(step.action, None);
}

#[test]
fn an_operation_fails_in_each_way() {
    let filesystem = destination(Some("/mnt"));
    let target = device("card", Some("WD"), Some("S1"), "16G", 1);
    let args = options(false);
    let operation = BackUp::dated(&filesystem, &target, &args, "2024-03-09".to_string());

    let step = operation.run(BackupState::CheckingTarget, Event::Probed(true));
    assert_eq!(step.state, BackupState::Skipped);
    assert_eq!(step.failure.unwrap().kind, ErrorKind::AlreadyPresent);

    let step = operation.run(BackupState::Evicting("/mnt/a.img".to_string()), Event::Finished(Err("busy".to_string())));
    assert_eq!(step.state, BackupState::Failed);
    let failure = step.failure.unwrap();
    assert_eq!(failure.kind, ErrorKind::RetentionDeletionFailure);
    assert_eq!(failure.message(), "Failed to delete oldest backup file '/mnt/a.img': busy");

    let step = operation.run(BackupState::Evicting("/mnt/a.img".to_string()), Event::Finished(Ok(())));
    assert_eq!(step.state, BackupState::Validated);

    let step = operation.run(BackupState::CheckingSpace, Event::Inventoried(Err("no lsblk".to_string())));
    assert_eq!(step.state, BackupState::Failed);
    let failure = step.failure.unwrap();
    assert_eq!(failure.kind, ErrorKind::CommandExecutionFailure);
    assert_eq!(failure.message(), "Failed to read JSON from lsblk: no lsblk");

    // a destination that has left the inventory has no known free space
    let step = operation.run(BackupState::CheckingSpace, Event::Inventoried(Ok(LsblkOutput { blockdevices: Vec::new() })));
    assert_eq!(step.state, BackupState::Validated);
    assert_eq!(step.notices, vec!["Could not check if sufficient space is available"]);

    let step = operation.run(BackupState::Validated, Event::Finished(Err("dd: failed".to_string())));
    assert_eq!(step.state, BackupState::Failed);
    let failure = step.failure.unwrap();
    assert_eq!(failure.kind, ErrorKind::CommandExecutionFailure);
    assert_eq!(failure.message(), "dd: failed");

    let step = operation.run(BackupState::Copied, Event::Finished(Err("chown: failed".to_string())));
    assert_eq!(step.state, BackupState::Failed);
    assert_eq!(step.failure.unwrap().message(), "chown: failed");

    let step = operation.run(BackupState::Init, Event::Probed(true));
    assert_eq!(step.state, BackupState::Failed);
    assert_eq!(step.failure.unwrap().message(), "Unexpected event");

    let unmounted = destination(None);
    let operation = BackUp::dated(&unmounted, &target, &args, "2024-03-09".to_string());
    let step = operation.run(BackupState::Init, Event::Start);
    assert_eq!(step.state, BackupState::Failed);
    assert_eq!(step.failure.unwrap().kind, ErrorKind::MountFailure);
}

#[test]
fn a_step_can_be_taken_with_given_paths() {
    let filesystem = destination(None);
    let target = device("card", Some("WD"), Some("S1"), "16G", 1);
    let args = options(false);
    let operation = BackUp::dated(&filesystem, &target, &args, "2024-03-09".to_string());
    let step = operation.advance("/x".to_string(), "/x/y.img".to_string(), BackupState::Init, Event::Start);
    assert_eq!(step.state, BackupState::CheckingTarget);
    assert_eq!(step.action, Some(Action::Probe { path: "/x/y.img".to_string() }));
    let step = operation.advance("/x".to_string(), "/x/y.img".to_string(), step.state, Event::Probed(false));
    assert_eq!(step.action, Some(Action::List { path: "/x".to_string() }));
    let listing = Ok(vec![file("a_WD_S1.img", Some(3)), file("b_WD_S1.img", Some(2))]);
    let step = operation.advance("/x".to_string(), "/x/y.img".to_string(), step.state, Event::Listed(listing));
    assert_eq!(step.state, BackupState::Evicting("/x/b_WD_S1.img".to_string()));
    assert_eq!(step.action, Some(Action::Remove { path: "/x/b_WD_S1.img".to_string() }));
    assert_eq!(step.notices, vec!["Removing old back up file: /x/b_WD_S1.img"]);
    let step = operation.advance("/x".to_string(), "/x/y.img".to_string(), BackupState::Failed, Event::Start);
    assert_eq!(step.state, BackupState::Failed);
    assert_eq!(step.action, None);
    assert_eq!(step.failure, None);

    assert_eq!(BackUp::refuse_existing("/x/y.img", false), Ok(()));
    assert_eq!(
        BackUp::refuse_existing("/x/y.img", true).unwrap_err().message(),
        "Backup file is already present /x/y.img. Skipping. If you want to do more than 1 backup per day, rename file manually"
    );
    let listing = Ok(vec![file("a_WD_S1.img", None)]);
    assert_eq!(operation.evict_in("/z", &listing), Ok(Some("/z/a_WD_S1.img".to_string())));
    assert_eq!(operation.evict_in("/z", &Ok(Vec::new())), Ok(None));
}

#[test]
fn a_dry_run_at_the_limit_still_checks_the_space() {
    let filesystem = destination(Some("/mnt"));
    let target = device("card", Some("WD"), Some("S1"), "150B", 1);
    let args = options(true);
    let operation = BackUp::dated(&filesystem, &target, &args, "2024-03-09".to_string());
    let listing = Ok(vec![file("2024-03-01_card_WD_S1.img", Some(7))]);
    assert!(operation.needs_deletion(&listing));

    let step = operation.run(BackupState::CountingCopies, Event::Listed(listing));
    assert_eq!(step.state, BackupState::CheckingSpace);
    assert_eq!(step.action, Some(Action::Inventory));
    assert!(step.notices.is_empty());

    let mut fresh = destination(Some("/mnt")).blockdevice;
    fresh.fsavail = Some("100B".to_string());
    let step = operation.run(step.state, Event::Inventoried(Ok(LsblkOutput { blockdevices: vec![fresh] })));
    assert_eq!(step.state, BackupState::Failed);
    assert_eq!(step.action, None);
    let failure = step.failure.unwrap();
    assert_eq!(failure.kind, ErrorKind::InsufficientSpace);
    assert_eq!(
        failure.message(),
        "Not enough space on destination filesystem /dev/sdb1, to backup device /dev/sda"
    );

    let mut fresh = destination(Some("/mnt")).blockdevice;
    fresh.fsavail = Some("151B".to_string());
    let step =
        operation.run(BackupState::CheckingSpace, Event::Inventoried(Ok(LsblkOutput { blockdevices: vec![fresh] })));
    assert_eq!(step.state, BackupState::Done);
    assert_eq!(
        step.notices,
        vec!["[Dry-Run] backup would run with command: dd if=/dev/sda of=/mnt/2024-03-09_card_WD_S1.img status=progress"]
    );
}

#[test]
fn only_a_removal_spares_the_look_at_the_space() {
    let filesystem = destination(Some("/mnt"));
    let target = device("card", Some("WD"), Some("S1"), "150B", 1);
    let args = options(false);
    let operation = BackUp::dated(&filesystem, &target, &args, "2024-03-09".to_string());
    let listing = Ok(vec![file("2024-03-01_card_WD_S1.img", Some(7))]);
    let step = operation.run(BackupState::CountingCopies, Event::Listed(listing));
    assert_eq!(step.state, BackupState::Evicting("/mnt/2024-03-01_card_WD_S1.img".to_string()));
    let step = operation.run(step.state, Event::Finished(Ok(())));
    assert_eq!(step.state, BackupState::Validated);
    assert!(matches!(step.action, Some(Action::Copy { .. })));
}

#[test]
fn paths_are_normalized_piece_by_piece() {
    let args = options(false);
    let cases = [
        ("/mnt", "./", "/mnt"),
        ("/mnt", "", "/mnt"),
        ("/mnt/", "images", "/mnt/images"),
        ("/media/usb/", "images/../disks//weekly/.", "/media/usb/disks/weekly"),
        ("../a/./b//", "../../../c/..", "/../.."),
        ("", "", "/"),
        ("/", "..", "/.."),
        ("a", "../..", "/.."),
        ("a/..", "b", "/b"),
        ("...", "x", "/.../x"),
        ("a/b", "/c", "/a/b/c"),
        ("..", "..", "/../.."),
        ("../..", "a/../../b", "/../../../b"),
        ("a b", "\u{e9}/\u{fc}/.", "/a b/\u{e9}/\u{fc}"),
        ("//a///b//", "./././c/./", "/a/b/c"),
        ("a/./..", "./../x", "/../x"),
    ];
    for (mountpoint, below, expected) in cases {
        let filesystem = destination(Some(mountpoint));
        let mut target = device("card", Some("WD"), Some("S1"), "1G", 1);
        target.destination_path = below.to_string();
        let operation = BackUp::dated(&filesystem, &target, &args, "2024-03-09".to_string());
        assert_eq!(operation.back_up_dir_path(), Ok(expected.to_string()), "{} + {}", mountpoint, below);
    }
    // a name with slashes and dots is taken apart as well
    let filesystem = destination(Some("/mnt"));
    let target = device("../x/./y", None, None, "1G", 1);
    let operation = BackUp::dated(&filesystem, &target, &args, "d".to_string());
    assert_eq!(operation.file_name(), "d_../x/./y_.img");
    assert_eq!(operation.back_up_file_path(), Ok("/mnt/d_../x/y_.img".to_string()));
}
